use player::catalog::{build_catalog, file_name_part, group_of_path, is_video, keep_file, str_eq};

fn paths(list: &[&str]) -> Vec<String> {
    list.iter().map(|s| s.to_string()).collect()
}

#[test]
fn recognizes_video_extensions() {
    assert!(is_video("clip.mp4"));
    assert!(is_video("clip.MKV"));
    assert!(is_video("a/b/Movie.MP4"));
    assert!(is_video("v.m4v"));
    assert!(is_video("w.webm"));
    assert!(is_video("m.mov"));
    assert!(is_video("m.avi"));
}

#[test]
fn rejects_non_videos() {
    assert!(!is_video("notes.txt"));
    assert!(!is_video("noextension"));
    assert!(!is_video(".mp4"));
    assert!(!is_video("dir.mp4/file"));
    assert!(!is_video("movie.mp40"));
    assert!(!is_video(""));
}

#[test]
fn reserved_prefix_is_excluded() {
    assert!(!keep_file("._hidden.mp4"));
    assert!(!keep_file("sub/._hidden.mkv"));
    assert!(keep_file("sub/hidden.mkv"));
    assert!(keep_file("good.mp4"));
}

#[test]
fn reserved_prefix_directories_are_excluded_too() {
    assert!(!keep_file("._private/movie.mp4"));
    assert!(!keep_file("a/._b/c.mp4"));
    // The prefix counts only at the start of a component.
    assert!(keep_file("a._b/c.mp4"));
    assert!(keep_file("not._hidden.mp4"));
}

#[test]
fn path_parts() {
    assert_eq!(file_name_part("a/b/c.mp4"), "c.mp4");
    assert_eq!(file_name_part("c.mp4"), "c.mp4");
    assert_eq!(group_of_path("d/e/f.mp4"), "e");
    assert_eq!(group_of_path("e/f.mp4"), "e");
    assert_eq!(group_of_path("f.mp4"), "Root");
}

#[test]
fn string_equality_is_by_contents() {
    assert!(str_eq("abc", &"abc".to_string()));
    assert!(!str_eq("abc", "abd"));
    assert!(!str_eq("abc", "ab"));
    assert!(str_eq("", ""));
}

#[test]
fn catalog_counts_kept_files_at_any_depth() {
    let input = paths(&[
        "Comedy/b.mp4",
        "a.mp4",
        "deep/nest/c.mkv",
        "._bad.mp4",
        "notes.txt",
        "z.avi",
        "Comedy/._skip.mkv",
        "._private/also_skipped.mp4",
    ]);
    let catalog = build_catalog(&input);
    assert_eq!(catalog.len(), 4);
}

#[test]
fn catalog_groups_and_orders() {
    let input = paths(&[
        "Comedy/b.mp4",
        "a.mp4",
        "Drama/x.mkv",
        "Comedy/a.mp4",
        "z.avi",
    ]);
    let catalog = build_catalog(&input);
    let got: Vec<(&str, &str)> = catalog.iter().map(|e| (e.path.as_str(), e.group.as_str())).collect();
    assert_eq!(
        got,
        vec![
            ("a.mp4", "Root"),
            ("z.avi", "Root"),
            ("Comedy/a.mp4", "Comedy"),
            ("Comedy/b.mp4", "Comedy"),
            ("Drama/x.mkv", "Drama"),
        ]
    );
}

#[test]
fn nested_group_is_immediate_parent() {
    let input = paths(&["a/b/c.mp4"]);
    let catalog = build_catalog(&input);
    assert_eq!(catalog.len(), 1);
    assert_eq!(catalog[0].group, "b");
    assert_eq!(catalog[0].path, "a/b/c.mp4");
}

#[test]
fn rescan_is_deterministic() {
    let input = paths(&[
        "B/second.mp4",
        "A/first.mkv",
        "top.webm",
        "B/another.avi",
        "A/zzz.mov",
    ]);
    let first = build_catalog(&input);
    let second = build_catalog(&input);
    assert_eq!(first.len(), second.len());
    for (x, y) in first.iter().zip(second.iter()) {
        assert_eq!(x.path, y.path);
        assert_eq!(x.group, y.group);
    }
}

#[test]
fn empty_catalog_is_valid() {
    let catalog = build_catalog(&paths(&["nothing.txt"]));
    assert!(catalog.is_empty());
    let catalog = build_catalog(&paths(&[]));
    assert!(catalog.is_empty());
}
