use screentime_pro::foreground::{
    windows_idle_seconds, linux_foreground_app, linux_process_name, macos_foreground_app, windows_foreground_app,
    windows_process_name, x11_window_title,
};

#[test]
fn x11_title_prefers_the_utf8_name() {
    assert_eq!(x11_window_title(Some("编辑器 — main.rs\0\0".into()), Some("old".into())), Some("编辑器 — main.rs".to_string()));
    assert_eq!(x11_window_title(Some("  \0".into()), Some(" Terminal \0".into())), Some("Terminal".to_string()));
    assert_eq!(x11_window_title(None, Some("\0".into())), None);
    assert_eq!(x11_window_title(None, None), None);
}

#[test]
fn linux_process_names() {
    assert_eq!(linux_process_name(42, Some("firefox\n".into()), Some("/usr/lib/firefox/firefox-bin".into())), "firefox");
    assert_eq!(linux_process_name(42, None, Some("/usr/bin/code".into())), "code");
    assert_eq!(linux_process_name(42, None, None), "pid-42");
    assert_eq!(linux_process_name(-3, None, None), "pid--3");
    let a = linux_foreground_app(Some("".into()), "gedit".into(), None);
    assert_eq!(a.name, "gedit");
    let a = linux_foreground_app(Some("Notes".into()), "gedit".into(), Some("/usr/bin/gedit".into()));
    assert_eq!(a.name, "Notes");
    assert_eq!(a.process_name, "gedit");
    assert_eq!(a.window_title.as_deref(), Some("Notes"));
}

#[test]
fn windows_names_drop_the_exe_suffix() {
    assert_eq!(windows_process_name(7, None), (None, "pid-7".to_string()));
    let a = windows_foreground_app(Some("Inbox".into()), None, "OUTLOOK.EXE".into());
    assert_eq!(a.name, "OUTLOOK");
    let a = windows_foreground_app(None, None, "code.exe".into());
    assert_eq!(a.name, "code");
    assert_eq!(a.process_name, "code.exe");
}

#[test]
fn macos_process_name_is_the_executable() {
    let a = macos_foreground_app(Some("微信".into()), Some("com.tencent.xinWeChat".into()), Some("/Applications/WeChat.app/Contents/MacOS/WeChat".into()), None);
    assert_eq!(a.name, "微信");
    assert_eq!(a.process_name, "WeChat");
    let a = macos_foreground_app(None, None, None, None);
    assert_eq!(a.name, "Unknown");
    assert_eq!(a.process_name, "Unknown");
}

#[test]
fn windows_idle_time_from_tick_counts() {
    assert_eq!(windows_idle_seconds(10_000, 2_500), 7);
    assert_eq!(windows_idle_seconds(5, 5), 0);
    assert_eq!(windows_idle_seconds(100, 4_000_000_000), 0);
}
