use player::metadata::{
    build_remote_index, candidate_keys, lookup_remote, merged, parse_probe_output, resolution_str,
    MetadataCache, MovieInfo,
};

fn remote_sample() -> MovieInfo {
    let mut info = MovieInfo::empty();
    info.title = Some("Remote Title".to_string());
    info.runtime = Some("2:00:00".to_string());
    info.year = Some(1999);
    info
}

fn probe_sample() -> MovieInfo {
    let mut info = MovieInfo::empty();
    info.runtime = Some("1:59:58".to_string());
    info.codec = Some("h264".to_string());
    info.file_size = Some("1.50 MB".to_string());
    info.resolution = Some("1920x1080".to_string());
    info
}

#[test]
fn remote_descriptive_fields_win() {
    let m = merged(remote_sample(), probe_sample());
    assert_eq!(m.title.as_deref(), Some("Remote Title"));
    assert_eq!(m.runtime.as_deref(), Some("2:00:00"));
    assert_eq!(m.year, Some(1999));
}

#[test]
fn probe_fills_gaps_and_keeps_technical_fields() {
    let m = merged(remote_sample(), probe_sample());
    assert_eq!(m.codec.as_deref(), Some("h264"));
    assert_eq!(m.file_size.as_deref(), Some("1.50 MB"));
    assert_eq!(m.resolution.as_deref(), Some("1920x1080"));
    let m2 = merged(MovieInfo::empty(), probe_sample());
    assert_eq!(m2.runtime.as_deref(), Some("1:59:58"));
    assert!(m2.title.is_none());
}

#[test]
fn renders_resolution() {
    assert_eq!(resolution_str(1920, 1080), "1920x1080");
    assert_eq!(resolution_str(0, 0), "0x0");
}

#[test]
fn probe_report_is_read_fully() {
    let report = r#"{
        "format": {"duration": "3661.042000", "size": "1572864"},
        "streams": [
            {"codec_type": "audio", "codec_name": "aac"},
            {"codec_type": "video", "codec_name": "h264", "width": 1920, "height": 1080},
            {"codec_type": "video", "codec_name": "vp9", "width": 640, "height": 480}
        ]
    }"#;
    let info = parse_probe_output(report);
    assert_eq!(info.runtime.as_deref(), Some("1:01:01"));
    assert_eq!(info.file_size.as_deref(), Some("1.50 MB"));
    assert_eq!(info.codec.as_deref(), Some("h264"));
    assert_eq!(info.resolution.as_deref(), Some("1920x1080"));
    assert!(info.title.is_none());
    assert!(info.rating.is_none());
}

#[test]
fn probe_report_degrades_field_by_field() {
    let info = parse_probe_output("not json at all");
    assert!(info.runtime.is_none());
    assert!(info.file_size.is_none());
    assert!(info.codec.is_none());
    assert!(info.resolution.is_none());

    let info = parse_probe_output(r#"{"format": {"duration": "abc", "size": "12x"}}"#);
    assert!(info.runtime.is_none());
    assert!(info.file_size.is_none());

    let info = parse_probe_output(
        r#"{"format": {"size": "2048"}, "streams": [{"codec_type": "video", "width": 10}]}"#,
    );
    assert_eq!(info.file_size.as_deref(), Some("2.00 KB"));
    assert!(info.runtime.is_none());
    assert!(info.codec.is_none());
    assert!(info.resolution.is_none());
}

#[test]
fn candidate_keys_are_the_three_variants() {
    let keys = candidate_keys("Drama/x.mp4");
    assert_eq!(
        keys,
        vec![
            "movies/Drama/x.mp4".to_string(),
            "Drama/x.mp4".to_string(),
            "./movies/Drama/x.mp4".to_string(),
        ]
    );
}

#[test]
fn remote_index_lookup_by_candidates() {
    let body = r#"[
        {"file_key": "movies/a.mp4", "title": "A", "year": 1999, "rating": 7.5,
         "watch_count": 3, "director": "Someone", "file_paths": ["a.mp4", "./movies/a.mp4"]},
        {"file_key": "movies/b.mp4", "title": "B"}
    ]"#;
    let index = build_remote_index(body);
    let found = lookup_remote(&index, &candidate_keys("a.mp4")).expect("entry for a.mp4");
    assert_eq!(found.title.as_deref(), Some("A"));
    assert_eq!(found.year, Some(1999));
    assert_eq!(found.rating.as_deref(), Some("7.5"));
    assert_eq!(found.watch_count, Some(3));
    assert_eq!(found.director.as_deref(), Some("Someone"));
    assert!(found.codec.is_none());
    assert!(found.file_size.is_none());

    let found_b = lookup_remote(&index, &candidate_keys("b.mp4")).expect("entry for b.mp4");
    assert_eq!(found_b.title.as_deref(), Some("B"));
    assert!(found_b.year.is_none());

    assert!(lookup_remote(&index, &candidate_keys("missing.mp4")).is_none());
}

#[test]
fn remote_index_skips_non_string_path_entries() {
    let body = r#"[{"file_key": "movies/a.mp4", "title": "A",
                    "file_paths": ["a.mp4", 42, "b.mp4"]}]"#;
    let index = build_remote_index(body);
    assert_eq!(index.len(), 3);
    let found = lookup_remote(&index, &vec!["b.mp4".to_string()]).unwrap();
    assert_eq!(found.title.as_deref(), Some("A"));
}

#[test]
fn remote_index_later_record_wins() {
    let body = r#"[
        {"file_key": "movies/a.mp4", "title": "Old"},
        {"file_key": "movies/a.mp4", "title": "New"}
    ]"#;
    let index = build_remote_index(body);
    let found = lookup_remote(&index, &candidate_keys("a.mp4")).unwrap();
    assert_eq!(found.title.as_deref(), Some("New"));
}

#[test]
fn remote_index_tolerates_bad_bodies() {
    assert!(build_remote_index("surprise!").is_empty());
    assert!(build_remote_index("{\"not\": \"an array\"}").is_empty());
    let index = build_remote_index(r#"[{"title": "no keys at all"}, 42]"#);
    assert!(index.is_empty());
}

#[test]
fn rating_must_be_numeric() {
    let body = r#"[{"file_key": "k", "rating": "seven"}]"#;
    let index = build_remote_index(body);
    let found = lookup_remote(&index, &vec!["k".to_string()]).unwrap();
    assert!(found.rating.is_none());
}

#[test]
fn cache_is_filled_once_and_reread() {
    let mut cache = MetadataCache::new();
    assert!(cache.get("a.mp4").is_none());
    let mut info = MovieInfo::empty();
    info.title = Some("A".to_string());
    cache.put("a.mp4".to_string(), info);
    let first = cache.get("a.mp4").expect("cached");
    assert_eq!(first.title.as_deref(), Some("A"));
    let second = cache.get("a.mp4").expect("still cached");
    assert_eq!(second.title.as_deref(), Some("A"));
    assert!(cache.get("b.mp4").is_none());
}
