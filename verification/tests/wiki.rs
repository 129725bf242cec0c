use screentime_pro::wiki::{category_from_summary_reply, summary_url_for};

#[test]
fn summary_address_of_the_best_match() {
    let body = r#"["slack",["Slack (software)","Slackware"],["",""],["https://en.wikipedia.org/wiki/Slack_(software)",""]]"#;
    assert_eq!(
        summary_url_for(body).as_deref(),
        Some("https://en.wikipedia.org/api/rest_v1/page/summary/Slack (software)")
    );
}

#[test]
fn no_address_without_a_title() {
    assert_eq!(summary_url_for(r#"["qwzx",[],[],[]]"#), None);
    assert_eq!(summary_url_for(r#"["qwzx",[5],[],[]]"#), None);
    assert_eq!(summary_url_for(r#"{"a":1}"#), None);
    assert_eq!(summary_url_for("not json"), None);
    assert_eq!(summary_url_for(r#"["q"]"#), None);
}

#[test]
fn category_from_a_summary_reply() {
    let body = r#"{"title":"Slack (software)","extract":"Slack is an Instant Messaging program for teams."}"#;
    assert_eq!(category_from_summary_reply(body).as_deref(), Some("social"));
    let body = r#"{"extract":"Firefox is a free and open-source Web Browser."}"#;
    assert_eq!(category_from_summary_reply(body).as_deref(), Some("efficiency"));
}

#[test]
fn no_category_without_a_text_summary() {
    assert_eq!(category_from_summary_reply(r#"{"extract":"A river in Europe."}"#), None);
    assert_eq!(category_from_summary_reply(r#"{"extract":null}"#), None);
    assert_eq!(category_from_summary_reply(r#"{"extract":5}"#), None);
    assert_eq!(category_from_summary_reply(r#"{"title":"x"}"#), None);
    assert_eq!(category_from_summary_reply("not json"), None);
}
