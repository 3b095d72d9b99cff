use player::catalog::CatalogEntry;
use player::queue::build_queue;

fn catalog(names: &[&str]) -> Vec<CatalogEntry> {
    names
        .iter()
        .map(|n| CatalogEntry { path: n.to_string(), group: "Root".to_string() })
        .collect()
}

fn path_list(entries: &[CatalogEntry]) -> Vec<String> {
    entries.iter().map(|e| e.path.clone()).collect()
}

#[test]
fn sequential_rotates() {
    let cat = catalog(&["A", "B", "C", "D"]);
    let q = build_queue(&cat, 2, false).unwrap();
    assert_eq!(path_list(&q), vec!["C", "D", "A", "B"]);
}

#[test]
fn sequential_from_zero_keeps_order() {
    let cat = catalog(&["A", "B", "C"]);
    let q = build_queue(&cat, 0, false).unwrap();
    assert_eq!(path_list(&q), vec!["A", "B", "C"]);
}

#[test]
fn sequential_rejects_out_of_range() {
    let cat = catalog(&["A", "B"]);
    let err = build_queue(&cat, 2, false).unwrap_err();
    assert_eq!(err.index, 2);
    let empty: Vec<CatalogEntry> = Vec::new();
    assert!(build_queue(&empty, 0, false).is_err());
}

#[test]
fn shuffle_pins_chosen_entry_first() {
    let cat = catalog(&["A", "B", "C", "D", "E"]);
    for _ in 0..50 {
        let q = build_queue(&cat, 3, true).unwrap();
        assert_eq!(q.len(), 5);
        assert_eq!(q[0].path, "D");
        let mut rest = path_list(&q[1..]);
        rest.sort();
        assert_eq!(rest, vec!["A", "B", "C", "E"]);
    }
}

#[test]
fn shuffle_remainder_varies_position() {
    // Over many trials, a fixed non-pinned entry must appear in every
    // remainder position at least once; a fixed ordering cannot.
    let cat = catalog(&["A", "B", "C"]);
    let mut seen = [false; 2];
    for _ in 0..200 {
        let q = build_queue(&cat, 0, true).unwrap();
        for (pos, e) in q[1..].iter().enumerate() {
            if e.path == "B" {
                seen[pos] = true;
            }
        }
    }
    assert!(seen[0] && seen[1]);
}

#[test]
fn shuffle_out_of_range_degrades_to_whole_catalog() {
    let cat = catalog(&["A", "B", "C"]);
    let q = build_queue(&cat, 99, true).unwrap();
    assert_eq!(q.len(), 3);
    let mut all = path_list(&q);
    all.sort();
    assert_eq!(all, vec!["A", "B", "C"]);
}

#[test]
fn shuffle_on_empty_catalog_is_empty() {
    let empty: Vec<CatalogEntry> = Vec::new();
    let q = build_queue(&empty, 0, true).unwrap();
    assert!(q.is_empty());
}
