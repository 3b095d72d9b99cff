use player::catalog::CatalogEntry;
use player::playback::{should_continue, PlaybackSession};

fn queue(names: &[&str]) -> Vec<CatalogEntry> {
    names
        .iter()
        .map(|n| CatalogEntry { path: n.to_string(), group: "Root".to_string() })
        .collect()
}

#[test]
fn continuation_policy_truth_table() {
    assert!(should_continue(0, true));
    assert!(!should_continue(0, false));
    assert!(!should_continue(1, true));
    assert!(!should_continue(-9, true));
    assert!(!should_continue(2, false));
}

#[test]
fn clean_exits_with_autoplay_play_whole_queue() {
    let mut session = PlaybackSession::new(queue(&["A", "B", "C", "D", "E"]));
    let mut played: Vec<String> = Vec::new();
    while let Some(entry) = session.current() {
        played.push(entry.path.clone());
        session.record_exit(0, true);
    }
    assert_eq!(played, vec!["A", "B", "C", "D", "E"]);
    assert!(session.current().is_none());
}

#[test]
fn nonzero_exit_halts_immediately() {
    // A non-zero exit at the second of five entries: exactly two run, the
    // remaining three are never handed out.
    let exit_codes = [0, 3, 0, 0, 0];
    let mut session = PlaybackSession::new(queue(&["A", "B", "C", "D", "E"]));
    let mut played: Vec<String> = Vec::new();
    while let Some(entry) = session.current() {
        let code = exit_codes[played.len()];
        played.push(entry.path.clone());
        session.record_exit(code, true);
    }
    assert_eq!(played, vec!["A", "B"]);
    assert!(session.current().is_none());
}

#[test]
fn autoplay_off_halts_after_first_entry() {
    let mut session = PlaybackSession::new(queue(&["A", "B", "C"]));
    let mut played = 0;
    while let Some(_) = session.current() {
        played += 1;
        session.record_exit(0, false);
    }
    assert_eq!(played, 1);
}

#[test]
fn empty_queue_plays_nothing() {
    let session = PlaybackSession::new(queue(&[]));
    assert!(session.current().is_none());
}
