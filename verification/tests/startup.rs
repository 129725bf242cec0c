use screentime_pro::platform::Platform;
use screentime_pro::settings::SettingsStore;
use screentime_pro::startup::{idle_threshold, settle_autostart, settle_device_name, stored_device_id};
use screentime_pro::status_bar::StatusBarConfig;
use screentime_pro::status_loop::{DisplayState, LoadEvent, OverheatMonitor};

fn cfg(enabled: bool, float_enabled: bool) -> StatusBarConfig {
    StatusBarConfig { enabled, show_cpu: true, show_mem: true, show_disk: false, show_net: true, float_enabled }
}

#[test]
fn placeholder_device_name_is_replaced_by_the_host_name() {
    let mut s = SettingsStore::new();
    assert_eq!(settle_device_name(&mut s, "abc123", Some("  studio-mac \n".to_string())), "studio-mac");
    assert_eq!(s.get_setting("device_name"), Some("studio-mac".to_string()));

    let mut s = SettingsStore::new();
    s.set_setting("device_name", " abc123 ");
    assert_eq!(settle_device_name(&mut s, "abc123", Some("   ".to_string())), "abc123");
    assert_eq!(s.get_setting("device_name"), Some("abc123".to_string()));

    let mut s = SettingsStore::new();
    s.set_setting("device_name", "Office PC");
    assert_eq!(settle_device_name(&mut s, "abc123", Some("host".to_string())), "Office PC");
    assert_eq!(s.get_setting("device_name"), Some("Office PC".to_string()));
}

#[test]
fn device_id_and_idle_threshold_from_settings() {
    let mut s = SettingsStore::new();
    assert_eq!(stored_device_id(&s), None);
    assert_eq!(idle_threshold(&s), 300);
    s.set_setting("device_id", "");
    assert_eq!(stored_device_id(&s), None);
    s.set_setting("device_id", "f00d");
    assert_eq!(stored_device_id(&s), Some("f00d".to_string()));
    s.set_setting("idle_threshold", "120");
    assert_eq!(idle_threshold(&s), 120);
    s.set_setting("idle_threshold", " 120");
    assert_eq!(idle_threshold(&s), 300);
}

#[test]
fn strip_toggle_turns_the_status_bar_on() {
    let c = cfg(false, false).toggled_float();
    assert!(c.enabled && c.float_enabled);
    let c = cfg(true, true).toggled_float();
    assert!(c.enabled && !c.float_enabled);
    let c = cfg(false, true).toggled_float();
    assert!(!c.enabled && !c.float_enabled);
}

#[test]
fn status_loop_follows_the_settings() {
    let mut d = DisplayState::new();
    let p = d.tick(Platform::Windows, &cfg(true, false), false);
    assert!(p.draw_tray_metrics && !p.restore_tray && p.set_float_visible.is_none());
    assert_eq!(p.pause_ms, 1000);
    let p = d.tick(Platform::Windows, &cfg(true, true), false);
    assert_eq!(p.set_float_visible, Some(true));
    assert!(p.restore_tray && !p.draw_tray_metrics);
    let p = d.tick(Platform::Windows, &cfg(true, true), true);
    assert_eq!(p.set_float_visible, Some(false));
    let p = d.tick(Platform::Windows, &cfg(true, true), true);
    assert_eq!(p.set_float_visible, None);
    let p = d.tick(Platform::Windows, &cfg(false, true), false);
    assert_eq!(p.set_float_visible, None);
    assert_eq!(p.pause_ms, 5000);
    assert!(!p.refresh_title);
}

#[test]
fn macos_title_is_refreshed_every_sixty_ticks() {
    let mut d = DisplayState::new();
    let mut refreshed = 0;
    for i in 1..=120u64 {
        let p = d.tick(Platform::MacOS, &cfg(true, false), false);
        if p.refresh_title {
            refreshed += 1;
            assert_eq!(i % 60, 0);
        }
    }
    assert_eq!(refreshed, 2);
}

#[test]
fn overload_needs_four_hot_readings_and_three_cool_ones() {
    let mut m = OverheatMonitor::new();
    assert_eq!(m.observe(true, false), None);
    assert_eq!(m.observe(true, false), None);
    assert_eq!(m.observe(false, false), None);
    for _ in 0..3 {
        assert_eq!(m.observe(true, false), None);
    }
    assert_eq!(m.observe(true, false), Some(LoadEvent::Overloaded));
    assert_eq!(m.observe(true, false), None);
    assert_eq!(m.observe(false, true), None);
    assert_eq!(m.observe(false, true), None);
    assert_eq!(m.observe(false, false), None);
    assert_eq!(m.observe(false, true), None);
    assert_eq!(m.observe(false, true), None);
    assert_eq!(m.observe(false, true), Some(LoadEvent::Cooled));
    assert!(!m.is_overheating);
}

#[test]
fn first_run_turns_autostart_on_once() {
    let mut s = SettingsStore::new();
    assert!(settle_autostart(&mut s));
    assert_eq!(s.get_setting("autostart"), Some("true".to_string()));
    assert!(!settle_autostart(&mut s));
    assert_eq!(s.get_setting("autostart"), Some("true".to_string()));

    let mut s = SettingsStore::new();
    s.set_setting("autostart", "false");
    assert!(!settle_autostart(&mut s));
    assert_eq!(s.get_setting("autostart"), Some("false".to_string()));
}
