use screentime_pro::classifier::{classify_app, rule_matches, RawApp, Rule};

fn r(pattern: &str, match_type: &str) -> Rule {
    Rule {
        id: 1,
        field: "process_name".into(),
        match_type: match_type.into(),
        pattern: pattern.into(),
        category_id: "test".into(),
        priority: 0,
        enabled: true,
    }
}

fn app(process_name: &str) -> RawApp {
    RawApp {
        process_name: process_name.into(),
        name: process_name.into(),
        exe_path: None,
        bundle_id: None,
        window_title: None,
    }
}

fn rule(field: &str, match_type: &str, pattern: &str, category: &str, priority: i32, enabled: bool) -> Rule {
    Rule {
        id: 1,
        field: field.into(),
        match_type: match_type.into(),
        pattern: pattern.into(),
        category_id: category.into(),
        priority,
        enabled,
    }
}

#[test]
fn equals_is_case_insensitive_on_pattern() {
    assert!(rule_matches(&r("WorkBuddy", "equals"), "workbuddy"));
    assert!(rule_matches(&r("WORKBUDDY", "equals"), "workbuddy"));
    assert!(rule_matches(&r("workbuddy", "equals"), "workbuddy"));
    assert!(!rule_matches(&r("wechat", "equals"), "workbuddy"));
}

#[test]
fn contains_is_case_insensitive_on_pattern() {
    assert!(rule_matches(&r("buddy", "contains"), "workbuddy"));
    assert!(rule_matches(&r("BUDDY", "contains"), "workbuddy"));
    assert!(rule_matches(&r("Buddy", "contains"), "workbuddy"));
}

#[test]
fn prefix_and_suffix_lowered() {
    assert!(rule_matches(&r("WORK", "prefix"), "workbuddy"));
    assert!(rule_matches(&r("work", "prefix"), "workbuddy"));
    assert!(rule_matches(&r("BUDDY", "suffix"), "workbuddy"));
}

#[test]
fn regex_uses_raw_pattern() {
    assert!(rule_matches(&r("^work.*$", "regex"), "workbuddy"));
    assert!(!rule_matches(&r("[invalid(", "regex"), "workbuddy"));
}

#[test]
fn classify_app_picks_highest_priority() {
    let rules = vec![
        Rule {
            id: 1,
            field: "process_name".into(),
            match_type: "equals".into(),
            pattern: "workbuddy".into(),
            category_id: "social".into(),
            priority: 0,
            enabled: true,
        },
        Rule {
            id: 2,
            field: "process_name".into(),
            match_type: "contains".into(),
            pattern: "buddy".into(),
            category_id: "other".into(),
            priority: 10,
            enabled: true,
        },
    ];
    let app = RawApp {
        process_name: "WorkBuddy".into(),
        name: "WorkBuddy".into(),
        exe_path: None,
        bundle_id: None,
        window_title: None,
    };
    assert_eq!(classify_app(&app, &rules), "other");
}

#[test]
fn classify_without_hit_gives_other() {
    let rules = vec![rule("process_name", "equals", "slack", "social", 5, true)];
    assert_eq!(classify_app(&app("Code"), &rules), "other");
    assert_eq!(classify_app(&app("Code"), &[]), "other");
}

#[test]
fn classify_skips_disabled_rules() {
    let rules = vec![
        rule("process_name", "contains", "code", "dev", 10, false),
        rule("process_name", "contains", "code", "efficiency", 1, true),
    ];
    assert_eq!(classify_app(&app("Code"), &rules), "efficiency");
}

#[test]
fn classify_ties_go_to_the_earlier_rule() {
    let rules = vec![
        rule("process_name", "contains", "co", "first", 3, true),
        rule("process_name", "contains", "de", "second", 3, true),
    ];
    assert_eq!(classify_app(&app("Code"), &rules), "first");
}

#[test]
fn classify_reads_the_named_field() {
    let mut a = app("firefox");
    a.window_title = Some("GitHub - Pull Request".into());
    a.exe_path = Some("/usr/lib/Firefox/firefox".into());
    a.bundle_id = Some("org.mozilla.firefox".into());
    let rules = vec![
        rule("window_title", "contains", "github", "dev", 2, true),
        rule("bundle_id", "prefix", "ORG.MOZILLA", "efficiency", 1, true),
    ];
    assert_eq!(classify_app(&a, &rules), "dev");
    let rules = vec![rule("exe_path", "suffix", "/FIREFOX", "efficiency", 1, true)];
    assert_eq!(classify_app(&a, &rules), "efficiency");
    let rules = vec![rule("no_such_field", "contains", "", "x", 9, true)];
    assert_eq!(classify_app(&a, &rules), "other");
}

#[test]
fn unknown_match_type_means_contains() {
    assert!(rule_matches(&r("BUD", "whatever"), "workbuddy"));
    assert!(!rule_matches(&r("xyz", "whatever"), "workbuddy"));
    assert!(!rule_matches(&r("workbuddyx", "prefix"), "workbuddy"));
    assert!(!rule_matches(&r("work", "suffix"), "workbuddy"));
}

#[test]
fn classification_ignores_letter_case_of_the_app() {
    let rules = vec![Rule {
        id: 1,
        field: "process_name".into(),
        match_type: "equals".into(),
        pattern: "WorkBuddy".into(),
        category_id: "dev".into(),
        priority: 0,
        enabled: true,
    }];
    let a = RawApp { name: "x".into(), process_name: "workbuddy".into(), exe_path: None, bundle_id: None, window_title: None };
    let b = RawApp { name: "X".into(), process_name: "WORKBUDDY".into(), exe_path: None, bundle_id: None, window_title: None };
    assert_eq!(classify_app(&a, &rules), classify_app(&b, &rules));
    assert_eq!(classify_app(&a, &rules), "dev");
}

#[test]
fn disabled_rules_play_no_part() {
    let mut hi = r("buddy", "contains");
    hi.priority = 10;
    hi.category_id = "social".into();
    hi.enabled = false;
    let lo = r("work", "prefix");
    let app = RawApp { name: "x".into(), process_name: "workbuddy".into(), exe_path: None, bundle_id: None, window_title: None };
    let with = vec![hi.clone(), lo.clone()];
    let without: Vec<Rule> = with.iter().filter(|x| x.enabled).cloned().collect();
    assert_eq!(classify_app(&app, &with), classify_app(&app, &without));
}
