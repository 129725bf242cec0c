use screentime_pro::ocr_engine::system_engine_available;
use screentime_pro::platform::Platform;
use screentime_pro::screenshot_config::ScreenshotConfig;
use screentime_pro::settings::SettingsStore;

const PLATFORMS: [Platform; 3] = [Platform::Windows, Platform::MacOS, Platform::Linux];

#[test]
fn normalize_canonicalizes_ocr_engine() {
    for p in PLATFORMS {
        let mut cfg = ScreenshotConfig::default_for(p);
        let fallback = if system_engine_available(p) { "system" } else { "enhanced" };

        cfg.ocr_engine = "garbage-engine".into();
        cfg.normalize(p);
        assert_eq!(cfg.ocr_engine, fallback, "未知值必须回落到本平台可用引擎");

        cfg.ocr_engine = "  ".into();
        cfg.normalize(p);
        assert_eq!(cfg.ocr_engine, fallback, "空白值必须回落到本平台可用引擎");

        cfg.ocr_engine = "ONNX".into();
        cfg.normalize(p);
        assert_eq!(cfg.ocr_engine, "enhanced", "别名 ONNX 应归一化为 enhanced");

        cfg.normalize(p);
        assert_eq!(cfg.ocr_engine, "enhanced", "归一化必须幂等");
    }
}

#[test]
fn default_config_engine_is_usable_on_this_platform() {
    for p in PLATFORMS {
        let cfg = ScreenshotConfig::default_for(p);
        let expected = if system_engine_available(p) { "system" } else { "enhanced" };
        assert_eq!(cfg.ocr_engine, expected);
    }
}

#[test]
fn load_of_empty_table_gives_defaults() {
    let store = SettingsStore::new();
    let c = ScreenshotConfig::load(&store, Platform::Linux);
    assert!(c.enabled);
    assert_eq!(c.shortcut, "CmdOrCtrl+Shift+A");
    assert!(c.auto_copy);
    assert!(!c.auto_save);
    assert_eq!(c.corner_radius, 8);
    assert!(!c.shadow);
    assert_eq!(c.max_count, 200);
    assert_eq!(c.ocr_engine, "enhanced");
}

#[test]
fn load_after_save_round_trips() {
    let mut store = SettingsStore::new();
    let mut c = ScreenshotConfig::default_for(Platform::Windows);
    c.enabled = false;
    c.shortcut = "Alt+S".into();
    c.auto_save = true;
    c.corner_radius = 0;
    c.shadow = true;
    c.max_count = 10;
    c.ocr_engine = "ONNX".into();
    c.save(&mut store, Platform::Windows);
    assert_eq!(store.get_setting("screenshot_ocr_engine").as_deref(), Some("enhanced"));
    assert_eq!(store.get_setting("screenshot_max_count").as_deref(), Some("10"));
    let back = ScreenshotConfig::load(&store, Platform::Windows);
    assert!(!back.enabled);
    assert_eq!(back.shortcut, "Alt+S");
    assert!(back.auto_copy);
    assert!(back.auto_save);
    assert_eq!(back.corner_radius, 0);
    assert!(back.shadow);
    assert_eq!(back.max_count, 10);
    assert_eq!(back.ocr_engine, "enhanced");
}

#[test]
fn load_rejects_unusable_values() {
    let mut store = SettingsStore::new();
    store.set_setting("screenshot_shortcut", "   ");
    store.set_setting("screenshot_max_count", "9");
    store.set_setting("screenshot_corner_radius", "-3");
    store.set_setting("screenshot_enabled", "TRUE");
    store.set_setting("screenshot_ocr_engine", "system");
    let c = ScreenshotConfig::load(&store, Platform::MacOS);
    assert_eq!(c.shortcut, "CmdOrCtrl+Shift+A");
    assert_eq!(c.max_count, 200);
    assert_eq!(c.corner_radius, 8);
    assert!(!c.enabled);
    assert_eq!(c.ocr_engine, "enhanced");
    store.set_setting("screenshot_corner_radius", "+12");
    assert_eq!(ScreenshotConfig::load(&store, Platform::MacOS).corner_radius, 12);
    assert_eq!(ScreenshotConfig::b(true), "true");
    assert_eq!(ScreenshotConfig::b(false), "false");
}
