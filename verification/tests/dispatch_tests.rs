use detector::dispatch::{select_paths, should_scan, watch_action, watch_target, ScanStats, WatchEvent};
use detector::strutil::{extension_of, str_ends_with};

#[test]
fn suffix_check() {
    assert!(str_ends_with("rules/a.yar", ".yar"));
    assert!(str_ends_with("abc", ""));
    assert!(!str_ends_with("a", "ba"));
    assert!(!str_ends_with("", "x"));
    assert!(str_ends_with("xx", "xx"));
}

#[test]
fn extension_extraction() {
    assert_eq!(extension_of("dir/a.tar.gz").as_deref(), Some("gz"));
    assert_eq!(extension_of("a.TXT").as_deref(), Some("TXT"));
    assert_eq!(extension_of("a.").as_deref(), Some(""));
    assert_eq!(extension_of("noext"), None);
    assert_eq!(extension_of(".hidden"), None);
    assert_eq!(extension_of("dir.d/noext"), None);
}

#[test]
fn empty_filter_admits_everything() {
    let none: Vec<String> = vec![];
    assert!(should_scan(&none, &"whatever".to_string()));
    assert!(should_scan(&none, &"a.txt".to_string()));
}

#[test]
fn filter_is_case_insensitive() {
    let filters = vec!["txt".to_string()];
    assert!(should_scan(&filters, &"a.TXT".to_string()));
    assert!(should_scan(&filters, &"a.Txt".to_string()));
    assert!(should_scan(&filters, &"a.txt".to_string()));
    assert!(!should_scan(&filters, &"a.bin".to_string()));
    assert!(!should_scan(&filters, &"noext".to_string()));

    let upper = vec!["TXT".to_string()];
    assert!(should_scan(&upper, &"a.txt".to_string()));
}

#[test]
fn one_shot_selection_is_exactly_the_matching_entries() {
    let filters = vec!["txt".to_string(), "BIN".to_string()];
    let entries = vec![
        "root".to_string(),
        "root/a.TXT".to_string(),
        "root/b.jpg".to_string(),
        "root/c.bin".to_string(),
        "root/d".to_string(),
        "root/e.txt".to_string(),
    ];
    let jobs = select_paths(&entries, &filters);
    assert_eq!(
        jobs,
        vec![
            "root/a.TXT".to_string(),
            "root/c.bin".to_string(),
            "root/e.txt".to_string()
        ]
    );
}

#[test]
fn stats_count_scans_and_detections() {
    let mut stats = ScanStats::new();
    stats.record(false);
    stats.record(true);
    stats.record(false);
    assert_eq!(stats.num_scanned, 3);
    assert_eq!(stats.num_detected, 1);
}

#[test]
fn write_event_of_vanished_path_produces_no_job() {
    let ev = WatchEvent::Write("/tmp/x.bin".to_string());
    assert_eq!(watch_action(&ev, false), None);
    assert_eq!(watch_action(&ev, true), Some("/tmp/x.bin".to_string()));
}

#[test]
fn event_kinds_map_as_designed() {
    assert_eq!(
        watch_target(&WatchEvent::Create("/a".to_string())),
        Some("/a".to_string())
    );
    assert_eq!(
        watch_target(&WatchEvent::NoticeWrite("/a".to_string())),
        Some("/a".to_string())
    );
    assert_eq!(
        watch_target(&WatchEvent::Rename("/old".to_string(), "/new".to_string())),
        Some("/new".to_string())
    );
    assert_eq!(watch_target(&WatchEvent::NoticeRemove("/a".to_string())), None);
    assert_eq!(watch_target(&WatchEvent::Remove("/a".to_string())), None);
    assert_eq!(watch_target(&WatchEvent::Chmod("/a".to_string())), None);
    assert_eq!(watch_target(&WatchEvent::Rescan), None);
    assert_eq!(watch_target(&WatchEvent::StreamError("oops".to_string())), None);

    assert_eq!(
        watch_action(&WatchEvent::Remove("/a".to_string()), true),
        None
    );
}
