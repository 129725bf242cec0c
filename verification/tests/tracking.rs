use screentime_pro::classifier::{reclassify_changes, RawApp, Rule, StoredApp};
use screentime_pro::platform::TrackerError;
use screentime_pro::tracking::{
    choose_category, current_foreground_out, effective_seconds, finalize_plan, is_valid_time, needs_auto_rule,
    session_segments, session_seconds, should_finalize, ActiveSession, CategoryChoice, SessionPiece,
    Tracker, MIN_SESSION_SECS,
};

fn app(p: &str) -> RawApp {
    RawApp { name: p.into(), process_name: p.into(), exe_path: Some(format!("/bin/{}", p)), bundle_id: None, window_title: None }
}

fn rule(pattern: &str, cat: &str, enabled: bool) -> Rule {
    Rule {
        id: 1,
        field: "process_name".into(),
        match_type: "equals".into(),
        pattern: pattern.into(),
        category_id: cat.into(),
        priority: 0,
        enabled,
    }
}

fn session(p: &str, start: i64, date: &str) -> ActiveSession {
    ActiveSession {
        app: app(p),
        app_id: 7,
        category_id: "dev".into(),
        started_at: start,
        started_date: date.into(),
        last_input_at: start,
    }
}

#[test]
fn session_ends_on_switch_idle_or_new_day() {
    let s = session("code", 0, "2025-01-01");
    assert!(!should_finalize(&s, &app("code"), 5, 300, "2025-01-01"));
    assert!(should_finalize(&s, &app("slack"), 5, 300, "2025-01-01"));
    assert!(should_finalize(&s, &app("code"), 300, 300, "2025-01-01"));
    assert!(should_finalize(&s, &app("code"), 5, 300, "2025-01-02"));
    let mut other_path = app("code");
    other_path.exe_path = None;
    assert!(should_finalize(&s, &other_path, 5, 300, "2025-01-01"));
}

#[test]
fn tracker_keeps_or_hands_back_the_session() {
    let mut t = Tracker::new();
    assert!(t.observe(&app("code"), 0, 300, 10, "2025-01-01").is_none());
    t.begin(app("code"), 1, "dev".into(), 10, "2025-01-01".into());
    assert!(t.observe(&app("code"), 0, 300, 12, "2025-01-01").is_none());
    assert_eq!(t.current.as_ref().unwrap().last_input_at, 12);
    let ended = t.observe(&app("slack"), 0, 300, 14, "2025-01-01").unwrap();
    assert_eq!(ended.started_at, 10);
    assert!(t.current.is_none());
}

#[test]
fn segments_and_effective_time() {
    assert_eq!(session_segments(100, 200, true, &vec![]), vec![(100, 200)]);
    assert_eq!(session_segments(100, 500, false, &vec![300, 600]), vec![(100, 300), (300, 500)]);
    assert_eq!(session_segments(100, 500, false, &vec![300]), vec![(100, 300)]);
    assert_eq!(effective_seconds(0, 100, 60), 60);
    assert_eq!(effective_seconds(0, 100, -5), 0);
    assert_eq!(effective_seconds(50, 40, 60), 0);
    assert_eq!(effective_seconds(0, 100, 150), 100);
}

#[test]
fn short_pieces_are_not_recorded() {
    let mut s = session("code", 100, "2025-01-01");
    s.last_input_at = 450;
    let plan = finalize_plan(&s, 500, false, &vec![305, 600]);
    assert_eq!(
        plan,
        vec![
            SessionPiece { start: 100, end: 305, effective: 205 },
            SessionPiece { start: 305, end: 500, effective: 145 },
        ]
    );
    s.last_input_at = 105;
    assert_eq!(finalize_plan(&s, 200, true, &vec![]), Vec::<SessionPiece>::new());
    s.last_input_at = 100 + MIN_SESSION_SECS;
    assert_eq!(finalize_plan(&s, 200, true, &vec![]).len(), 1);
}

#[test]
fn category_choice_and_auto_rules() {
    let rules = vec![rule("code", "dev", true)];
    assert!(matches!(choose_category(&app("code"), &rules), CategoryChoice::Decided(c) if c == "dev"));
    assert!(matches!(choose_category(&app("slack"), &rules), CategoryChoice::Decided(c) if c == "social"));
    assert!(matches!(choose_category(&app("qwzx"), &rules), CategoryChoice::LookUp));
    let other = vec![rule("code", "other", true)];
    assert!(matches!(choose_category(&app("code"), &other), CategoryChoice::Decided(c) if c == "dev"));
    assert!(!needs_auto_rule(&rules, "code"));
    assert!(needs_auto_rule(&rules, "Code"));
    assert!(needs_auto_rule(&vec![rule("code", "dev", false)], "code"));
}

#[test]
fn foreground_card() {
    let rules = vec![rule("code", "dev", true)];
    let out = current_foreground_out(Ok(app("code")), &rules, 3, true, 42);
    assert_eq!(out.category_id, "dev");
    assert_eq!(out.session_seconds, 42);
    let out = current_foreground_out(Err(TrackerError::NoForeground), &rules, 3, false, 0);
    assert_eq!(out.name, "无");
    assert_eq!(out.category_id, "other");
    assert_eq!(session_seconds(&Some(session("x", 100, "d")), 90), 0);
    assert_eq!(session_seconds(&Some(session("x", 100, "d")), 190), 90);
    assert_eq!(session_seconds(&None, 190), 0);
}

#[test]
fn reclassify_lists_changed_rows() {
    let apps = vec![
        StoredApp { id: 1, name: "Code".into(), process_name: "code".into(), exe_path: None, category_id: "dev".into() },
        StoredApp { id: 2, name: "Slack".into(), process_name: "slack".into(), exe_path: None, category_id: "dev".into() },
    ];
    let rules = vec![rule("slack", "social", true), rule("code", "dev", true)];
    assert_eq!(reclassify_changes(&apps, &rules), vec![(2, "social".to_string())]);
    assert_eq!(reclassify_changes(&apps, &[]), vec![(1, "other".to_string()), (2, "other".to_string())]);
}

#[test]
fn day_stretches_add_up_to_the_session() {
    let midnights = vec![86_400i64, 172_800, 259_200];
    for (start, now) in [(80_000i64, 90_000i64), (10, 259_100), (86_000, 86_400), (1_000, 172_801)] {
        let segs = session_segments(start, now, false, &midnights);
        assert_eq!(segs.iter().map(|(a, b)| b - a).sum::<i64>(), now - start);
        for w in segs.windows(2) {
            assert_eq!(w[0].1, w[1].0);
        }
    }
    assert_eq!(session_segments(5, 50, true, &midnights), vec![(5, 50)]);
}

#[test]
fn timestamps_within_the_calendar_range() {
    assert!(is_valid_time(0));
    assert!(is_valid_time(1_700_000_000));
    assert!(is_valid_time(0x2000_0000_0000));
    assert!(is_valid_time(-0x2000_0000_0000));
    assert!(!is_valid_time(0x2000_0000_0001));
    assert!(!is_valid_time(i64::MIN));
}
