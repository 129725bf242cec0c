use base64::Engine;
use screentime_pro::calendar::last_day_of_month;
use screentime_pro::decimal::{parse_u32, parse_u64, u32_to_string, u64_to_string};
use screentime_pro::export_format::{csv_document, csv_escape, i64_to_string, to_base64, CsvSession};
use screentime_pro::version::{semver_gt, sck_available, trim_leading_v, update_info, check_url, url_allowed};

#[test]
fn decimal_round_trip() {
    for n in [0u32, 7, 10, 99, 4096, u32::MAX] {
        assert_eq!(u32_to_string(n), n.to_string());
        assert_eq!(parse_u32(&n.to_string()), Some(n));
    }
    assert_eq!(u64_to_string(u64::MAX), u64::MAX.to_string());
    assert_eq!(parse_u32("+5"), Some(5));
    assert_eq!(parse_u32("4294967296"), None);
    assert_eq!(parse_u32(""), None);
    assert_eq!(parse_u32("+"), None);
    assert_eq!(parse_u32("-1"), None);
    assert_eq!(parse_u32(" 1"), None);
    assert_eq!(parse_u32("007"), Some(7));
    assert_eq!(parse_u64("18446744073709551615"), Some(u64::MAX));
    assert_eq!(parse_u64("18446744073709551616"), None);
    for s in ["12", "+3", "x", "", "99999999999"] {
        assert_eq!(parse_u32(s), s.parse::<u32>().ok());
    }
}

#[test]
fn month_lengths() {
    assert_eq!(last_day_of_month(2024, 2), 29);
    assert_eq!(last_day_of_month(2023, 2), 28);
    assert_eq!(last_day_of_month(1900, 2), 28);
    assert_eq!(last_day_of_month(2000, 2), 29);
    assert_eq!(last_day_of_month(2023, 4), 30);
    assert_eq!(last_day_of_month(2023, 12), 31);
    assert_eq!(last_day_of_month(2023, 0), 31);
}

#[test]
fn csv_fields_and_document() {
    assert_eq!(csv_escape("plain"), "plain");
    assert_eq!(csv_escape("a,b"), "\"a,b\"");
    assert_eq!(csv_escape("say \"hi\""), "\"say \"\"hi\"\"\"");
    assert_eq!(csv_escape("two\nlines"), "\"two\nlines\"");
    assert_eq!(i64_to_string(-42), "-42");
    assert_eq!(i64_to_string(i64::MIN), i64::MIN.to_string());
    let rows = vec![CsvSession {
        name: "Code, Insiders".into(),
        category_id: "dev".into(),
        start_at: "s".into(),
        end_at: "e".into(),
        duration_seconds: 61,
    }];
    assert_eq!(
        csv_document(&rows),
        "app_name,category_id,start_at,end_at,duration_seconds\n\"Code, Insiders\",dev,s,e,61\n"
    );
}

#[test]
fn base64_matches_the_crate() {
    for data in [&b""[..], b"f", b"fo", b"foo", b"foob", b"fooba", b"foobar", &[0u8, 255, 128, 7][..]] {
        assert_eq!(to_base64(data), base64::engine::general_purpose::STANDARD.encode(data));
    }
    assert_eq!(to_base64(b"foobar"), "Zm9vYmFy");
}

#[test]
fn version_comparison() {
    assert!(semver_gt("0.9.10", "0.9.9"));
    assert!(!semver_gt("0.9.9", "0.9.10"));
    assert!(!semver_gt("1.0.0", "1.0.0"));
    assert!(semver_gt("1.0.1-beta.2", "1.0.0"));
    assert!(!semver_gt("1.0", "1.0.0"));
    assert!(semver_gt("2", "1.9.9"));
    assert!(!semver_gt("1.2.3.9", "1.2.3"));
    assert_eq!(trim_leading_v("vv1.2"), "1.2");
    let u = update_info("0.9.0".into(), "0.10.0".into(), "u".into(), "n".into());
    assert!(u.has_update);
}

#[test]
fn url_schemes() {
    assert!(url_allowed("https://x"));
    assert!(url_allowed("http://x"));
    assert!(!url_allowed("file:///etc"));
    assert_eq!(check_url("ftp://x"), Err("不允许的 URL 协议：ftp://x".to_string()));
    assert_eq!(check_url("https://x"), Ok(()));
}

#[test]
fn screen_capture_kit_needs_14() {
    assert!(sck_available(Some("14.5\n".into())));
    assert!(sck_available(Some("26.1".into())));
    assert!(!sck_available(Some("13.6.1".into())));
    assert!(!sck_available(Some("".into())));
    assert!(!sck_available(None));
}

#[test]
fn version_probe_never_panics() {
    for v in [None, Some(""), Some("abc"), Some("99999999999999999999.1"), Some("14"), Some(".14")] {
        let _ = sck_available(v.map(|s| s.to_string()));
    }
}
