use screentime_pro::categorizer::{
    cache_key, category_from_summary, local_dict, lookup_category_begin, lookup_category_finish,
    lookup_local, lookup_local_only, summary_keywords, CategoryCache, LookupStep, CACHE_CAPACITY,
};

#[test]
fn dictionary_hits_any_field() {
    assert_eq!(lookup_local("Google Chrome", None, ""), Some("efficiency".to_string()));
    assert_eq!(lookup_local("x", None, "WeChat"), Some("social".to_string()));
    assert_eq!(lookup_local("x", Some("/Applications/Spotify.app"), "y"), Some("entertainment".to_string()));
    assert_eq!(lookup_local_only("哔哩哔哩", None, ""), Some("entertainment".to_string()));
    assert_eq!(lookup_local("zzz", Some(""), "yyy"), None);
}

#[test]
fn dictionary_order_decides() {
    // "chromium" contains "chrome"? no; "chrom" entries: the first entry that hits wins.
    assert_eq!(lookup_local("vscode", None, ""), Some("dev".to_string()));
    // "code" appears after "vscode"; "xcode" contains "code" too but "code" comes first.
    assert_eq!(lookup_local("xcode", None, ""), Some("dev".to_string()));
    // "arc" sits among the browsers, so "Arcade" is classified as efficiency.
    assert_eq!(lookup_local("Arcade", None, ""), Some("efficiency".to_string()));
    assert_eq!(local_dict()[0], ("chrome", "efficiency"));
    assert_eq!(local_dict().len(), 107);
}

#[test]
fn summary_keywords_in_order() {
    assert_eq!(category_from_summary("A free Web Browser by Mozilla"), Some("efficiency".to_string()));
    assert_eq!(category_from_summary("A VIDEO GAME platform"), Some("entertainment".to_string()));
    assert_eq!(category_from_summary("Unrelated text"), None);
    assert_eq!(summary_keywords().len(), 26);
}

#[test]
fn cache_key_shape() {
    assert_eq!(cache_key("Code", Some("/Usr/Bin/Code"), "VS Code"), "code|vs code|/usr/bin/code");
    assert_eq!(cache_key("A", None, "B"), "a|b|");
}

#[test]
fn cache_get_after_put() {
    let mut c = CategoryCache::new();
    assert_eq!(c.get("k"), None);
    c.put("k".to_string(), "dev".to_string());
    assert_eq!(c.get("k"), Some("dev".to_string()));
    c.put("k".to_string(), "social".to_string());
    assert_eq!(c.get("k"), Some("social".to_string()));
}

#[test]
fn cache_evicts_least_recently_used() {
    let mut c = CategoryCache::new();
    for i in 0..CACHE_CAPACITY {
        c.put(format!("k{}", i), "x".to_string());
    }
    // touch k0 so that k1 becomes the oldest
    assert_eq!(c.get("k0"), Some("x".to_string()));
    c.put("new".to_string(), "y".to_string());
    assert_eq!(c.get("k1"), None);
    assert_eq!(c.get("k0"), Some("x".to_string()));
    assert_eq!(c.get("new"), Some("y".to_string()));
}

#[test]
fn lookup_flow_local_then_web() {
    let mut c = CategoryCache::default();
    match lookup_category_begin("Slack", None, "Slack", &mut c) {
        LookupStep::Done(cat) => assert_eq!(cat, "social"),
        LookupStep::AskWeb { .. } => panic!("dictionary should know Slack"),
    }
    // second time it comes from the cache
    assert_eq!(c.get(&cache_key("Slack", None, "Slack")), Some("social".to_string()));
    let (key, query) = match lookup_category_begin("qwzx", None, "", &mut c) {
        LookupStep::AskWeb { key, query } => (key, query),
        LookupStep::Done(_) => panic!("unknown app"),
    };
    assert_eq!(query, "qwzx");
    assert_eq!(lookup_category_finish(key.clone(), None, &mut c), "other");
    match lookup_category_begin("qwzx", None, "", &mut c) {
        LookupStep::Done(cat) => assert_eq!(cat, "other"),
        LookupStep::AskWeb { .. } => panic!("cached"),
    }
    assert_eq!(lookup_category_finish("k2".into(), Some("dev".into()), &mut c), "dev");
}

#[test]
fn dictionary_beats_a_cached_value() {
    let mut c = CategoryCache::new();
    c.put(cache_key("Slack", None, "Slack"), "dev".to_string());
    match lookup_category_begin("Slack", None, "Slack", &mut c) {
        LookupStep::Done(cat) => assert_eq!(cat, "social"),
        LookupStep::AskWeb { .. } => panic!("dictionary should know Slack"),
    }
    assert_eq!(c.get(&cache_key("Slack", None, "Slack")), Some("social".to_string()));
    // An application the dictionary does not know is answered from the cache.
    c.put(cache_key("qwzx", None, ""), "dev".to_string());
    match lookup_category_begin("qwzx", None, "", &mut c) {
        LookupStep::Done(cat) => assert_eq!(cat, "dev"),
        LookupStep::AskWeb { .. } => panic!("cached"),
    }
}

#[test]
fn cache_never_holds_more_than_its_capacity() {
    let mut c = CategoryCache::new();
    let extra = 44;
    for i in 0..CACHE_CAPACITY + extra {
        c.put(format!("k{}", i), format!("v{}", i));
    }
    let held = (0..CACHE_CAPACITY + extra).filter(|i| c.get(&format!("k{}", i)).is_some()).count();
    assert_eq!(held, CACHE_CAPACITY);
    for i in 0..extra {
        assert_eq!(c.get(&format!("k{}", i)), None);
    }
}
