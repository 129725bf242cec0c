use screentime_pro::device_id::{
    gen_device_id, hex12, linux_machine_id_from, mac_uuid_from_ioreg, windows_guid_from_reg,
};
use screentime_pro::logging::{app_version, is_our_log_file, logs_to_remove, new_session_id, session_id, version_stamp};
use screentime_pro::platform::TrackerError;
use screentime_pro::version::{reg_query_value, webview2_status};
use screentime_pro::platform::Platform;

fn fnv(raw: &str) -> u64 {
    let mut h: u64 = 0xcbf29ce484222325;
    for b in raw.bytes() {
        h ^= b as u64;
        h = h.wrapping_mul(0x100000001b3);
    }
    h
}

#[test]
fn generated_id_is_fnv_of_time_and_pid() {
    let id = gen_device_id(1_700_000_000_123_456_789, 4242);
    assert_eq!(id, format!("{:012x}", fnv("17000000001234567894242")));
    assert_eq!(hex12(0), "000000000000");
    assert_eq!(hex12(0xabc), "000000000abc");
    assert_eq!(hex12(u64::MAX), "ffffffffffffffff");
}

#[test]
fn hardware_ids_from_tool_output() {
    let ioreg = "+-o Root\n    \"IOPlatformUUID\" = \"ABCD-1234\"\n";
    // The quoted value after `=` is taken, not the key.
    assert_eq!(mac_uuid_from_ioreg(ioreg).as_deref(), Some("hw-abcd-1234"));
    assert_eq!(mac_uuid_from_ioreg("IOPlatformUUID = \"ABCD-1234\"\n").as_deref(), Some("hw-abcd-1234"));
    assert_eq!(mac_uuid_from_ioreg("IOPlatformUUID = \"  \"\n"), None);
    assert_eq!(mac_uuid_from_ioreg("nothing"), None);
    assert_eq!(mac_uuid_from_ioreg("\"IOPlatformUUID\" \"no-equals\"\n"), None);
    let reg = "\r\nHKEY_LOCAL_MACHINE\\SOFTWARE\\Microsoft\\Cryptography\r\n    MachineGuid    REG_SZ    5F3A-BB\r\n\r\n";
    assert_eq!(windows_guid_from_reg(reg).as_deref(), Some("hw-5f3a-bb"));
    assert_eq!(windows_guid_from_reg("MachineGuid REG_SZ   "), None);
    assert_eq!(linux_machine_id_from(" 0123abc\n").as_deref(), Some("hw-0123abc"));
    assert_eq!(linux_machine_id_from("\n"), None);
}

#[test]
fn registry_values_and_webview() {
    let out = "\r\nHKEY_LOCAL_MACHINE\\...\r\n    pv    REG_SZ    120.0.2210.91\r\n";
    assert_eq!(reg_query_value(out, "pv").as_deref(), Some("120.0.2210.91"));
    assert_eq!(reg_query_value(out, "version"), None);
    assert_eq!(reg_query_value("  pv REG_SZ\n", "pv"), None);
    let w = webview2_status(Platform::Windows, "windows", Some("1.2".into()));
    assert!(w.available);
    assert_eq!(w.version, "1.2");
    let w = webview2_status(Platform::Windows, "windows", None);
    assert!(!w.available);
    assert!(w.hint.starts_with("未检测到 WebView2"));
    let w = webview2_status(Platform::Linux, "linux", None);
    assert!(w.available);
    assert_eq!(w.version, "n/a");
    assert_eq!(w.os, "linux");
}

#[test]
fn log_file_names() {
    assert!(is_our_log_file("app.2026-07-25.log"));
    assert!(is_our_log_file("ScreenTime Pro.log"));
    assert!(!is_our_log_file("app.log"));
    assert!(!is_our_log_file("app.2026-07-2x.log"));
    assert!(!is_our_log_file("app.2026_07-25.log"));
    assert!(!is_our_log_file("notes.log"));
}

#[test]
fn old_logs_beyond_the_newest_are_removed() {
    let names: Vec<String> = vec![
        "app.2026-07-01.log".into(),
        "ScreenTime Pro.log".into(),
        "app.2026-07-03.log".into(),
        "app.2026-07-02.log".into(),
    ];
    assert_eq!(logs_to_remove(&names, 2), vec![0]);
    assert_eq!(logs_to_remove(&names, 0), vec![0, 2, 3]);
    assert_eq!(logs_to_remove(&names, 14), Vec::<usize>::new());
}

#[test]
fn version_stamp_prefixes_lines() {
    let (out, start) = version_stamp(b"v1", true, b"a\nbc\n");
    assert_eq!(out, b"v1 a\nv1 bc\n".to_vec());
    assert!(start);
    let (out, start) = version_stamp(b"v1", false, b"x");
    assert_eq!(out, b"x".to_vec());
    assert!(!start);
    assert_eq!(app_version(None), "unknown");
    assert_eq!(app_version(Some("0.9.7")), "0.9.7");
    assert_eq!(session_id(None), "");
    assert_eq!(new_session_id(255, 16), "sff10");
}

#[test]
fn tracker_error_messages() {
    assert_eq!(TrackerError::NoForeground.message(), "当前无前台应用");
    assert_eq!(TrackerError::Platform("x".into()).message(), "平台 API 调用失败: x");
    assert_eq!(TrackerError::Unsupported("y".into()).message(), "该平台功能尚未实现: y");
}
