use screentime_pro::permission::TitlesProbe;
use screentime_pro::window_list::{titles_probe, window_title_of, WindowInfo};

fn win(layer: i64, pid: i64, name: Option<&str>) -> WindowInfo {
    WindowInfo { layer: Some(layer), owner_pid: Some(pid), name: name.map(|s| s.to_string()) }
}

#[test]
fn title_probe_counts_only_ordinary_foreign_windows() {
    let me = 100;
    assert_eq!(titles_probe(me, None), TitlesProbe::Inconclusive);
    assert_eq!(titles_probe(me, Some(&vec![])), TitlesProbe::Inconclusive);
    // Menu bar and own windows do not count.
    let ws = vec![win(25, 7, Some("Menu")), win(0, me, Some("Capture"))];
    assert_eq!(titles_probe(me, Some(&ws)), TitlesProbe::Inconclusive);
    let ws = vec![win(0, 7, None), win(0, 8, Some("   "))];
    assert_eq!(titles_probe(me, Some(&ws)), TitlesProbe::Redacted);
    let ws = vec![win(0, 7, None), win(0, 8, Some("Inbox"))];
    assert_eq!(titles_probe(me, Some(&ws)), TitlesProbe::Readable);
    let ws = vec![WindowInfo { layer: None, owner_pid: Some(7), name: Some("x".into()) }];
    assert_eq!(titles_probe(me, Some(&ws)), TitlesProbe::Inconclusive);
}

#[test]
fn foreground_title_is_the_first_titled_window_of_the_app() {
    let ws = vec![win(0, 42, Some("")), win(0, 7, Some("Other")), win(3, 42, Some("Doc.txt")), win(0, 42, Some("Second"))];
    assert_eq!(window_title_of(42, &ws), Some("Doc.txt".to_string()));
    assert_eq!(window_title_of(9, &ws), None);
    let ws = vec![WindowInfo { layer: Some(0), owner_pid: Some((1i64 << 32) + 42), name: Some("Wide".into()) }];
    assert_eq!(window_title_of(42, &ws), Some("Wide".to_string()));
}
