//! Settings of the tray status bar and the floating metrics strip.

use vstd::prelude::*;
use crate::settings::SettingsStore;
use crate::screenshot_config::{stored_bool, bool_text};
use crate::text::str_eq;

verus! {

/// Which metrics the tray status bar and the floating strip show.
#[derive(Debug, Clone, Copy)]
pub struct StatusBarConfig {
    /// Tray status bar on or off.
    pub enabled: bool,
    pub show_cpu: bool,
    pub show_mem: bool,
    pub show_disk: bool,
    pub show_net: bool,
    /// Floating metrics strip on or off; it shows only while the status
    /// bar is on, and then in place of the tray metrics.
    pub float_enabled: bool,
}

impl Default for StatusBarConfig {
    /// Tray off, CPU, memory and network shown, disk hidden, strip off.
    fn default() -> (c: Self)
        ensures
            !c.enabled,
            c.show_cpu,
            c.show_mem,
            !c.show_disk,
            c.show_net,
            !c.float_enabled,
    {
        StatusBarConfig {
            enabled: false,
            show_cpu: true,
            show_mem: true,
            show_disk: false,
            show_net: true,
            float_enabled: false,
        }
    }
}

/// What loading gives from table `m`. The master switch is read from
/// `status_bar_enabled`, or, when that is missing, from the older key
/// `statusbar_metrics_enabled`.
pub open spec fn status_loads_as(c: StatusBarConfig, m: Map<Seq<char>, Seq<char>>) -> bool {
    &&& c.enabled == (if m.contains_key("status_bar_enabled"@) {
        m["status_bar_enabled"@] == "true"@
    } else {
        stored_bool(m, "statusbar_metrics_enabled"@, false)
    })
    &&& c.show_cpu == stored_bool(m, "status_bar_show_cpu"@, true)
    &&& c.show_mem == stored_bool(m, "status_bar_show_mem"@, true)
    &&& c.show_disk == stored_bool(m, "status_bar_show_disk"@, false)
    &&& c.show_net == stored_bool(m, "status_bar_show_net"@, true)
    &&& c.float_enabled == stored_bool(m, "status_bar_float_enabled"@, false)
}

/// The table after saving `c` into `m`: the master switch goes under both
/// its keys.
pub open spec fn status_saved_into(c: StatusBarConfig, m: Map<Seq<char>, Seq<char>>) -> Map<
    Seq<char>,
    Seq<char>,
> {
    m.insert("statusbar_metrics_enabled"@, bool_text(c.enabled)).insert(
        "status_bar_enabled"@,
        bool_text(c.enabled),
    ).insert("status_bar_show_cpu"@, bool_text(c.show_cpu)).insert(
        "status_bar_show_mem"@,
        bool_text(c.show_mem),
    ).insert("status_bar_show_disk"@, bool_text(c.show_disk)).insert(
        "status_bar_show_net"@,
        bool_text(c.show_net),
    ).insert("status_bar_float_enabled"@, bool_text(c.float_enabled))
}

fn flag(store: &SettingsStore, key: &str, default: bool) -> (r: bool)
    ensures
        r == stored_bool(store@, key@, default),
{
    match store.get_setting(key) {
        Some(s) => {
            proof {
                reveal_strlit("true");
            }
            str_eq(s.as_str(), "true")
        },
        None => default,
    }
}

fn flag_text(v: bool) -> (r: &'static str)
    ensures
        r@ == bool_text(v),
{
    if v {
        "true"
    } else {
        "false"
    }
}

impl StatusBarConfig {
    /// Reads the settings (see [`status_loads_as`]).
    pub fn load(store: &SettingsStore) -> (c: Self)
        ensures
            status_loads_as(c, store@),
    {
        let enabled = match store.get_setting("status_bar_enabled") {
            Some(s) => {
                proof {
                    reveal_strlit("true");
                }
                str_eq(s.as_str(), "true")
            },
            None => flag(store, "statusbar_metrics_enabled", false),
        };
        StatusBarConfig {
            enabled,
            show_cpu: flag(store, "status_bar_show_cpu", true),
            show_mem: flag(store, "status_bar_show_mem", true),
            show_disk: flag(store, "status_bar_show_disk", false),
            show_net: flag(store, "status_bar_show_net", true),
            float_enabled: flag(store, "status_bar_float_enabled", false),
        }
    }

    /// The settings after the tray menu's strip item is clicked: the strip
    /// flips, and turning it on turns the status bar on too, so that the
    /// strip does show.
    pub fn toggled_float(&self) -> (c: Self)
        ensures
            c.float_enabled == !self.float_enabled,
            c.enabled == (self.enabled || c.float_enabled),
            c.show_cpu == self.show_cpu,
            c.show_mem == self.show_mem,
            c.show_disk == self.show_disk,
            c.show_net == self.show_net,
    {
        let mut c = *self;
        c.float_enabled = !c.float_enabled;
        if c.float_enabled && !c.enabled {
            c.enabled = true;
        }
        c
    }

    /// Writes the settings (see [`status_saved_into`]).
    pub fn save(&self, store: &mut SettingsStore)
        ensures
            final(store)@ == status_saved_into(*self, old(store)@),
    {
        store.set_setting("statusbar_metrics_enabled", flag_text(self.enabled));
        store.set_setting("status_bar_enabled", flag_text(self.enabled));
        store.set_setting("status_bar_show_cpu", flag_text(self.show_cpu));
        store.set_setting("status_bar_show_mem", flag_text(self.show_mem));
        store.set_setting("status_bar_show_disk", flag_text(self.show_disk));
        store.set_setting("status_bar_show_net", flag_text(self.show_net));
        store.set_setting("status_bar_float_enabled", flag_text(self.float_enabled));
    }
}

/// The seven keys are pairwise different.
proof fn lemma_status_keys_distinct()
    ensures
        "statusbar_metrics_enabled"@ != "status_bar_enabled"@,
        "statusbar_metrics_enabled"@ != "status_bar_show_cpu"@,
        "statusbar_metrics_enabled"@ != "status_bar_show_mem"@,
        "statusbar_metrics_enabled"@ != "status_bar_show_disk"@,
        "statusbar_metrics_enabled"@ != "status_bar_show_net"@,
        "statusbar_metrics_enabled"@ != "status_bar_float_enabled"@,
        "status_bar_enabled"@ != "status_bar_show_cpu"@,
        "status_bar_enabled"@ != "status_bar_show_mem"@,
        "status_bar_enabled"@ != "status_bar_show_disk"@,
        "status_bar_enabled"@ != "status_bar_show_net"@,
        "status_bar_enabled"@ != "status_bar_float_enabled"@,
        "status_bar_show_cpu"@ != "status_bar_show_mem"@,
        "status_bar_show_cpu"@ != "status_bar_show_disk"@,
        "status_bar_show_cpu"@ != "status_bar_show_net"@,
        "status_bar_show_cpu"@ != "status_bar_float_enabled"@,
        "status_bar_show_mem"@ != "status_bar_show_disk"@,
        "status_bar_show_mem"@ != "status_bar_show_net"@,
        "status_bar_show_mem"@ != "status_bar_float_enabled"@,
        "status_bar_show_disk"@ != "status_bar_show_net"@,
        "status_bar_show_disk"@ != "status_bar_float_enabled"@,
        "status_bar_show_net"@ != "status_bar_float_enabled"@,
{
    reveal_strlit("statusbar_metrics_enabled");
    reveal_strlit("status_bar_enabled");
    reveal_strlit("status_bar_show_cpu");
    reveal_strlit("status_bar_show_mem");
    reveal_strlit("status_bar_show_disk");
    reveal_strlit("status_bar_show_net");
    reveal_strlit("status_bar_float_enabled");
    assert("statusbar_metrics_enabled"@.len() != "status_bar_enabled"@.len());
    assert("statusbar_metrics_enabled"@.len() != "status_bar_show_cpu"@.len());
    assert("statusbar_metrics_enabled"@.len() != "status_bar_show_mem"@.len());
    assert("statusbar_metrics_enabled"@.len() != "status_bar_show_disk"@.len());
    assert("statusbar_metrics_enabled"@.len() != "status_bar_show_net"@.len());
    assert("statusbar_metrics_enabled"@.len() != "status_bar_float_enabled"@.len());
    assert("status_bar_enabled"@.len() != "status_bar_show_cpu"@.len());
    assert("status_bar_enabled"@.len() != "status_bar_show_mem"@.len());
    assert("status_bar_enabled"@.len() != "status_bar_show_disk"@.len());
    assert("status_bar_enabled"@.len() != "status_bar_show_net"@.len());
    assert("status_bar_enabled"@.len() != "status_bar_float_enabled"@.len());
    assert("status_bar_show_cpu"@[16] != "status_bar_show_mem"@[16]);
    assert("status_bar_show_cpu"@.len() != "status_bar_show_disk"@.len());
    assert("status_bar_show_cpu"@[16] != "status_bar_show_net"@[16]);
    assert("status_bar_show_cpu"@.len() != "status_bar_float_enabled"@.len());
    assert("status_bar_show_mem"@.len() != "status_bar_show_disk"@.len());
    assert("status_bar_show_mem"@[16] != "status_bar_show_net"@[16]);
    assert("status_bar_show_mem"@.len() != "status_bar_float_enabled"@.len());
    assert("status_bar_show_disk"@.len() != "status_bar_show_net"@.len());
    assert("status_bar_show_disk"@.len() != "status_bar_float_enabled"@.len());
    assert("status_bar_show_net"@.len() != "status_bar_float_enabled"@.len());
}

/// Loading what was saved gives the saved settings back, whatever the
/// table held before.
pub proof fn law_status_load_after_save(
    c: StatusBarConfig,
    m: Map<Seq<char>, Seq<char>>,
    loaded: StatusBarConfig,
)
    requires
        status_loads_as(loaded, status_saved_into(c, m)),
    ensures
        loaded == c,
{
    lemma_status_keys_distinct();
    reveal_strlit("true");
    reveal_strlit("false");
    assert("true"@.len() != "false"@.len());
}

} // verus!
