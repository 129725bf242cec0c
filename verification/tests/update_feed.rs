use regex::Regex;
use screentime_pro::update_feed::parse_atom_latest_release;

/// The same extraction written with the `regex` crate, as a reference.
fn with_regex(xml: &str) -> Option<(String, String, String)> {
    let entry = Regex::new(r"<entry[\s\S]*?</entry>").ok()?.find(xml)?;
    let block = entry.as_str();
    let raw_title = Regex::new(r"<title[^>]*>([\s\S]*?)</title>").ok()?.captures(block)?.get(1)?.as_str().trim().to_string();
    let tag = raw_title
        .trim_start_matches("ScreenTime Pro ")
        .trim_start_matches("Release ")
        .trim_start_matches("release ")
        .trim()
        .trim_start_matches('v')
        .to_string();
    let url = Regex::new(r#"<link[^>]*href="([^"]+)""#).ok()?.captures(block)?.get(1)?.as_str().to_string();
    let notes = Regex::new(r"<summary[^>]*>([\s\S]*?)</summary>")
        .ok()?
        .captures(block)
        .and_then(|c| c.get(1))
        .map(|m| m.as_str().trim().to_string())
        .unwrap_or_default();
    if tag.is_empty() {
        return None;
    }
    Some((tag, url, notes))
}

const FEED: &str = r#"<?xml version="1.0"?><feed><title>Releases</title>
<entry>
  <id>tag:github.com,2008:Repository/1/v0.9.7</id>
  <link rel="alternate" type="text/html" href="https://github.com/x/y/releases/tag/v0.9.7"/>
  <title type="html">ScreenTime Pro v0.9.7</title>
  <summary type="html"> Fixes &amp; more </summary>
</entry>
<entry><title>v0.9.6</title><link href="https://old"/></entry>
</feed>"#;

#[test]
fn newest_release_from_feed() {
    assert_eq!(
        parse_atom_latest_release(FEED),
        Some(("0.9.7".to_string(), "https://github.com/x/y/releases/tag/v0.9.7".to_string(), "Fixes &amp; more".to_string()))
    );
}

#[test]
fn agrees_with_regex_reference() {
    let cases = [
        FEED,
        "",
        "<entry><title>Release 1.2</title></entry>",
        "<entry><title>Release 1.2</title><link href=\"\"/><link href=\"u\"/></entry>",
        "<entry><link rel=\"a\"><link href=\"a\" href=\"b\"></link><title x=1>release v3</title></entry>",
        "<entry><title>ScreenTime Pro </title><link href=\"u\"/></entry>",
        "<entry><title>vv2.0</title><link href=\"u\" /><summary>n</summary></entry><entry></entry>",
        "<entry><title>1</title><link href=\"x>y\"/></entry>",
        "<entry><title>1<link href=\"q\"/></entry>",
        "<entry no close",
    ];
    for c in cases {
        assert_eq!(parse_atom_latest_release(c), with_regex(c), "input: {}", c);
    }
}
