//! The screenshot settings: eight keys of the settings table, with their
//! defaults and the clean-up applied when they are read back.

use vstd::prelude::*;
use crate::platform::Platform;
use crate::settings::SettingsStore;
use crate::text::{str_eq, str_to_chars, trim_chars, trim_seq};
use crate::decimal::{parse_u32, spec_parse_u32, u32_to_string, spec_decimal, law_parse_decimal};
use crate::ocr_engine::{
    EngineKind, spec_as_str, spec_effective_kind, spec_default_engine, default_engine,
    effective_kind, law_parse_as_str,
};

verus! {

/// The screenshot settings.
#[derive(Debug, Clone)]
pub struct ScreenshotConfig {
    /// Master switch: when off, neither the shortcut nor the tray entry
    /// starts a capture.
    pub enabled: bool,
    /// Global shortcut, e.g. `CmdOrCtrl+Shift+A`.
    pub shortcut: String,
    /// Copy the capture to the clipboard on confirm.
    pub auto_copy: bool,
    /// Also save the capture to the history folder on confirm.
    pub auto_save: bool,
    /// Corner radius in logical pixels (0 = square corners).
    pub corner_radius: u32,
    /// Add a drop shadow to the exported image.
    pub shadow: bool,
    /// How many captures the history keeps (the oldest go to the trash).
    pub max_count: u32,
    /// Recognition engine setting value (`system` or `enhanced`), always in
    /// normal form once loaded or normalised.
    pub ocr_engine: String,
}

pub open spec fn default_shortcut() -> Seq<char> {
    "CmdOrCtrl+Shift+A"@
}

/// A stored flag: `"true"` reads as true, any other stored text as false,
/// and a missing key as `default`.
pub open spec fn stored_bool(m: Map<Seq<char>, Seq<char>>, key: Seq<char>, default: bool) -> bool {
    if m.contains_key(key) {
        m[key] == "true"@
    } else {
        default
    }
}

/// A stored number: its decimal value when it parses as a `u32` and passes
/// `ok`, else `default`.
pub open spec fn stored_u32(
    m: Map<Seq<char>, Seq<char>>,
    key: Seq<char>,
    default: u32,
    min: u32,
) -> u32 {
    if m.contains_key(key) && spec_parse_u32(m[key]) is Some && spec_parse_u32(m[key])->0 >= min {
        spec_parse_u32(m[key])->0
    } else {
        default
    }
}

/// The flag's stored text.
pub open spec fn bool_text(v: bool) -> Seq<char> {
    if v {
        "true"@
    } else {
        "false"@
    }
}

/// The engine value as loading and saving normalise it.
pub open spec fn normal_engine(raw: Seq<char>, p: Platform) -> Seq<char> {
    spec_as_str(spec_effective_kind(raw, p))
}

/// What loading gives on platform `p` from table `m`.
pub open spec fn loads_as(c: ScreenshotConfig, m: Map<Seq<char>, Seq<char>>, p: Platform) -> bool {
    &&& c.enabled == stored_bool(m, "screenshot_enabled"@, true)
    &&& c.shortcut@ == (if m.contains_key("screenshot_shortcut"@) && trim_seq(
        m["screenshot_shortcut"@],
    ).len() > 0 {
        m["screenshot_shortcut"@]
    } else {
        default_shortcut()
    })
    &&& c.auto_copy == stored_bool(m, "screenshot_auto_copy"@, true)
    &&& c.auto_save == stored_bool(m, "screenshot_auto_save"@, false)
    &&& c.corner_radius == stored_u32(m, "screenshot_corner_radius"@, 8, 0)
    &&& c.shadow == stored_bool(m, "screenshot_shadow"@, false)
    &&& c.max_count == stored_u32(m, "screenshot_max_count"@, 200, 10)
    &&& c.ocr_engine@ == normal_engine(
        if m.contains_key("screenshot_ocr_engine"@) {
            m["screenshot_ocr_engine"@]
        } else {
            spec_as_str(spec_default_engine(p))
        },
        p,
    )
}

/// The table after saving `c` on platform `p` into table `m`.
pub open spec fn saved_into(
    c: ScreenshotConfig,
    m: Map<Seq<char>, Seq<char>>,
    p: Platform,
) -> Map<Seq<char>, Seq<char>> {
    m.insert("screenshot_enabled"@, bool_text(c.enabled)).insert(
        "screenshot_shortcut"@,
        c.shortcut@,
    ).insert("screenshot_auto_copy"@, bool_text(c.auto_copy)).insert(
        "screenshot_auto_save"@,
        bool_text(c.auto_save),
    ).insert("screenshot_corner_radius"@, spec_decimal(c.corner_radius as nat)).insert(
        "screenshot_shadow"@,
        bool_text(c.shadow),
    ).insert("screenshot_max_count"@, spec_decimal(c.max_count as nat)).insert(
        "screenshot_ocr_engine"@,
        normal_engine(c.ocr_engine@, p),
    )
}

/// A stored flag (see [`stored_bool`]).
fn read_bool(store: &SettingsStore, key: &str, default: bool) -> (r: bool)
    ensures
        r == stored_bool(store@, key@, default),
{
    match store.get_setting(key) {
        Some(s) => {
            proof {
                reveal_strlit("true");
            }
            str_eq(s.as_str(), "true")
        },
        None => default,
    }
}

/// A stored number (see [`stored_u32`]).
fn read_u32(store: &SettingsStore, key: &str, default: u32, min: u32) -> (r: u32)
    ensures
        r == stored_u32(store@, key@, default, min),
{
    match store.get_setting(key) {
        Some(s) => match parse_u32(s.as_str()) {
            Some(v) => if v >= min {
                v
            } else {
                default
            },
            None => default,
        },
        None => default,
    }
}

impl ScreenshotConfig {
    /// The defaults on platform `p`: enabled, `CmdOrCtrl+Shift+A`, copy on
    /// confirm, no saving, radius 8, no shadow, 200 kept, and the engine
    /// that platform has out of the box.
    pub fn default_for(p: Platform) -> (c: Self)
        ensures
            c.enabled,
            c.shortcut@ == default_shortcut(),
            c.auto_copy,
            !c.auto_save,
            c.corner_radius == 8,
            !c.shadow,
            c.max_count == 200,
            c.ocr_engine@ == spec_as_str(spec_default_engine(p)),
    {
        ScreenshotConfig {
            enabled: true,
            shortcut: "CmdOrCtrl+Shift+A".to_string(),
            auto_copy: true,
            auto_save: false,
            corner_radius: 8,
            shadow: false,
            max_count: 200,
            ocr_engine: default_engine(p).as_str().to_string(),
        }
    }

    /// The stored text of a flag.
    pub fn b(v: bool) -> (r: &'static str)
        ensures
            r@ == bool_text(v),
    {
        if v {
            "true"
        } else {
            "false"
        }
    }

    /// The engine value in normal form on platform `p`.
    pub fn normalized_engine(&self, p: Platform) -> (r: &'static str)
        ensures
            r@ == normal_engine(self.ocr_engine@, p),
    {
        effective_kind(self.ocr_engine.as_str(), p).as_str()
    }

    /// Puts the engine value in normal form; the other fields stay.
    pub fn normalize(&mut self, p: Platform)
        ensures
            final(self).ocr_engine@ == normal_engine(old(self).ocr_engine@, p),
            final(self).enabled == old(self).enabled,
            final(self).shortcut == old(self).shortcut,
            final(self).auto_copy == old(self).auto_copy,
            final(self).auto_save == old(self).auto_save,
            final(self).corner_radius == old(self).corner_radius,
            final(self).shadow == old(self).shadow,
            final(self).max_count == old(self).max_count,
    {
        self.ocr_engine = self.normalized_engine(p).to_string();
    }

    /// Reads the settings from the table; missing or unusable values take
    /// their defaults (a blank shortcut, a number that does not parse, or a
    /// history size under 10), and the engine value is normalised.
    pub fn load(store: &SettingsStore, p: Platform) -> (c: Self)
        ensures
            loads_as(c, store@, p),
    {
        let d = Self::default_for(p);
        let shortcut = match store.get_setting("screenshot_shortcut") {
            Some(s) => {
                let t = trim_chars(&str_to_chars(s.as_str()));
                if t.len() > 0 {
                    s
                } else {
                    d.shortcut
                }
            },
            None => d.shortcut,
        };
        let engine = match store.get_setting("screenshot_ocr_engine") {
            Some(s) => s,
            None => d.ocr_engine,
        };
        let mut cfg = ScreenshotConfig {
            enabled: read_bool(store, "screenshot_enabled", d.enabled),
            shortcut,
            auto_copy: read_bool(store, "screenshot_auto_copy", d.auto_copy),
            auto_save: read_bool(store, "screenshot_auto_save", d.auto_save),
            corner_radius: read_u32(store, "screenshot_corner_radius", d.corner_radius, 0),
            shadow: read_bool(store, "screenshot_shadow", d.shadow),
            max_count: read_u32(store, "screenshot_max_count", d.max_count, 10),
            ocr_engine: engine,
        };
        cfg.normalize(p);
        cfg
    }

    /// Writes the settings into the table, the engine value in normal form.
    pub fn save(&self, store: &mut SettingsStore, p: Platform)
        ensures
            final(store)@ == saved_into(*self, old(store)@, p),
    {
        store.set_setting("screenshot_enabled", Self::b(self.enabled));
        store.set_setting("screenshot_shortcut", self.shortcut.as_str());
        store.set_setting("screenshot_auto_copy", Self::b(self.auto_copy));
        store.set_setting("screenshot_auto_save", Self::b(self.auto_save));
        store.set_setting("screenshot_corner_radius", u32_to_string(self.corner_radius).as_str());
        store.set_setting("screenshot_shadow", Self::b(self.shadow));
        store.set_setting("screenshot_max_count", u32_to_string(self.max_count).as_str());
        store.set_setting("screenshot_ocr_engine", self.normalized_engine(p));
    }
}

/// The eight keys are pairwise different.
proof fn lemma_keys_distinct()
    ensures
        "screenshot_enabled"@ != "screenshot_shortcut"@,
        "screenshot_enabled"@ != "screenshot_auto_copy"@,
        "screenshot_enabled"@ != "screenshot_auto_save"@,
        "screenshot_enabled"@ != "screenshot_corner_radius"@,
        "screenshot_enabled"@ != "screenshot_shadow"@,
        "screenshot_enabled"@ != "screenshot_max_count"@,
        "screenshot_enabled"@ != "screenshot_ocr_engine"@,
        "screenshot_shortcut"@ != "screenshot_auto_copy"@,
        "screenshot_shortcut"@ != "screenshot_auto_save"@,
        "screenshot_shortcut"@ != "screenshot_corner_radius"@,
        "screenshot_shortcut"@ != "screenshot_shadow"@,
        "screenshot_shortcut"@ != "screenshot_max_count"@,
        "screenshot_shortcut"@ != "screenshot_ocr_engine"@,
        "screenshot_auto_copy"@ != "screenshot_auto_save"@,
        "screenshot_auto_copy"@ != "screenshot_corner_radius"@,
        "screenshot_auto_copy"@ != "screenshot_shadow"@,
        "screenshot_auto_copy"@ != "screenshot_max_count"@,
        "screenshot_auto_copy"@ != "screenshot_ocr_engine"@,
        "screenshot_auto_save"@ != "screenshot_corner_radius"@,
        "screenshot_auto_save"@ != "screenshot_shadow"@,
        "screenshot_auto_save"@ != "screenshot_max_count"@,
        "screenshot_auto_save"@ != "screenshot_ocr_engine"@,
        "screenshot_corner_radius"@ != "screenshot_shadow"@,
        "screenshot_corner_radius"@ != "screenshot_max_count"@,
        "screenshot_corner_radius"@ != "screenshot_ocr_engine"@,
        "screenshot_shadow"@ != "screenshot_max_count"@,
        "screenshot_shadow"@ != "screenshot_ocr_engine"@,
        "screenshot_max_count"@ != "screenshot_ocr_engine"@,
{
    reveal_strlit("screenshot_enabled");
    reveal_strlit("screenshot_shortcut");
    reveal_strlit("screenshot_auto_copy");
    reveal_strlit("screenshot_auto_save");
    reveal_strlit("screenshot_corner_radius");
    reveal_strlit("screenshot_shadow");
    reveal_strlit("screenshot_max_count");
    reveal_strlit("screenshot_ocr_engine");
    assert("screenshot_enabled"@.len() != "screenshot_shortcut"@.len());
    assert("screenshot_enabled"@.len() != "screenshot_auto_copy"@.len());
    assert("screenshot_enabled"@.len() != "screenshot_auto_save"@.len());
    assert("screenshot_enabled"@.len() != "screenshot_corner_radius"@.len());
    assert("screenshot_enabled"@.len() != "screenshot_shadow"@.len());
    assert("screenshot_enabled"@.len() != "screenshot_max_count"@.len());
    assert("screenshot_enabled"@.len() != "screenshot_ocr_engine"@.len());
    assert("screenshot_shortcut"@.len() != "screenshot_auto_copy"@.len());
    assert("screenshot_shortcut"@.len() != "screenshot_auto_save"@.len());
    assert("screenshot_shortcut"@.len() != "screenshot_corner_radius"@.len());
    assert("screenshot_shortcut"@.len() != "screenshot_shadow"@.len());
    assert("screenshot_shortcut"@.len() != "screenshot_max_count"@.len());
    assert("screenshot_shortcut"@.len() != "screenshot_ocr_engine"@.len());
    assert("screenshot_auto_copy"@.len() != "screenshot_corner_radius"@.len());
    assert("screenshot_auto_copy"@.len() != "screenshot_shadow"@.len());
    assert("screenshot_auto_copy"@.len() != "screenshot_ocr_engine"@.len());
    assert("screenshot_auto_save"@.len() != "screenshot_corner_radius"@.len());
    assert("screenshot_auto_save"@.len() != "screenshot_shadow"@.len());
    assert("screenshot_auto_save"@.len() != "screenshot_ocr_engine"@.len());
    assert("screenshot_corner_radius"@.len() != "screenshot_shadow"@.len());
    assert("screenshot_corner_radius"@.len() != "screenshot_max_count"@.len());
    assert("screenshot_corner_radius"@.len() != "screenshot_ocr_engine"@.len());
    assert("screenshot_shadow"@.len() != "screenshot_max_count"@.len());
    assert("screenshot_shadow"@.len() != "screenshot_ocr_engine"@.len());
    assert("screenshot_max_count"@.len() != "screenshot_ocr_engine"@.len());
    assert("screenshot_auto_copy"@[16] != "screenshot_auto_save"@[16]);
    assert("screenshot_auto_copy"@[11] != "screenshot_max_count"@[11]);
    assert("screenshot_auto_save"@[11] != "screenshot_max_count"@[11]);
}

/// Loading what was saved gives the saved settings back, the engine value
/// in normal form, provided the shortcut is not blank and the history size
/// is at least 10 (otherwise loading puts the default in their place).
pub proof fn law_load_after_save(
    c: ScreenshotConfig,
    m: Map<Seq<char>, Seq<char>>,
    p: Platform,
    loaded: ScreenshotConfig,
)
    requires
        trim_seq(c.shortcut@).len() > 0,
        c.max_count >= 10,
        loads_as(loaded, saved_into(c, m, p), p),
    ensures
        loaded.enabled == c.enabled,
        loaded.shortcut@ == c.shortcut@,
        loaded.auto_copy == c.auto_copy,
        loaded.auto_save == c.auto_save,
        loaded.corner_radius == c.corner_radius,
        loaded.shadow == c.shadow,
        loaded.max_count == c.max_count,
        loaded.ocr_engine@ == normal_engine(c.ocr_engine@, p),
{
    lemma_keys_distinct();
    reveal_strlit("true");
    reveal_strlit("false");
    assert("true"@.len() != "false"@.len());
    law_parse_decimal(c.corner_radius as nat, u32::MAX as nat);
    law_parse_decimal(c.max_count as nat, u32::MAX as nat);
    law_parse_as_str(spec_effective_kind(c.ocr_engine@, p));
}

/// Normalising twice is normalising once.
pub proof fn law_normalize_idempotent(raw: Seq<char>, p: Platform)
    ensures
        normal_engine(normal_engine(raw, p), p) == normal_engine(raw, p),
{
    law_parse_as_str(spec_effective_kind(raw, p));
}

} // verus!
