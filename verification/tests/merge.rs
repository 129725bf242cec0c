use screentime_pro::merge::{plan_import, SessionKey};

fn key(start: &str, app: i64, device: &str) -> SessionKey {
    SessionKey { start_at: start.to_string(), app_id: app, device: device.to_string() }
}

fn keys(v: &[(&str, i64, &str)]) -> Vec<SessionKey> {
    v.iter().map(|(s, a, d)| key(s, *a, d)).collect()
}

#[test]
fn new_sessions_are_added_once() {
    let existing = keys(&[("2024-05-01T09:00:00+08:00", 1, "mac")]);
    let bundle = vec![
        Some(key("2024-05-01T09:00:00+08:00", 1, "mac")),
        Some(key("2024-05-01T09:00:00+08:00", 1, "win")),
        None,
        Some(key("2024-05-01T10:00:00+08:00", 2, "mac")),
        Some(key("2024-05-01T09:00:00+08:00", 1, "win")),
    ];
    assert_eq!(plan_import(&existing, &bundle), vec![1, 3]);
}

#[test]
fn merging_twice_adds_nothing() {
    let mut history = keys(&[("a", 1, "d1"), ("b", 2, "d1")]);
    let bundle = vec![Some(key("b", 2, "d2")), Some(key("c", 3, "d2")), Some(key("a", 1, "d1"))];
    let first = plan_import(&history, &bundle);
    assert_eq!(first, vec![0, 1]);
    for i in first {
        let k = bundle[i].as_ref().unwrap();
        history.push(key(&k.start_at, k.app_id, &k.device));
    }
    assert!(plan_import(&history, &bundle).is_empty());
}

#[test]
fn nothing_to_merge_into_an_empty_history() {
    assert!(plan_import(&Vec::new(), &Vec::new()).is_empty());
    assert_eq!(plan_import(&Vec::new(), &vec![None, Some(key("x", 0, ""))]), vec![1]);
}
