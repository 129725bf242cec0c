//! What the program settles from its stored settings when it starts: the
//! device's id and name and the idle threshold.

use crate::decimal::{parse_u64, spec_parse_u64};
use crate::settings::SettingsStore;
use crate::text::{chars_eq, chars_to_string, str_to_chars, trim_chars, trim_seq};
use vstd::prelude::*;

verus! {

/// Seconds without input after which the user counts as away, unless the
/// settings say otherwise.
pub const DEFAULT_IDLE_THRESHOLD: u64 = 300;

/// The value stored under `k`, or the empty text.
pub open spec fn stored_or_empty(m: Map<Seq<char>, Seq<char>>, k: Seq<char>) -> Seq<char> {
    if m.contains_key(k) {
        m[k]
    } else {
        Seq::empty()
    }
}

/// The stored device id, when there is a non-empty one.
pub fn stored_device_id(store: &SettingsStore) -> (r: Option<String>)
    ensures
        r matches Some(v) ==> store@.contains_key("device_id"@) && v@ == store@["device_id"@]
            && v@.len() > 0,
        r is None <==> !(store@.contains_key("device_id"@) && store@["device_id"@].len() > 0),
{
    match store.get_setting("device_id") {
        Some(v) => if v.as_str().is_empty() {
            None
        } else {
            Some(v)
        },
        None => None,
    }
}

/// A stored device name that is blank, or just the device id, stands in
/// for a name that was never chosen.
pub open spec fn is_placeholder_name(raw: Seq<char>, id: Seq<char>) -> bool {
    trim_seq(raw).len() == 0 || trim_seq(raw) == id
}

/// The host name without surrounding whitespace, unless that is blank;
/// else the device id.
pub open spec fn host_or_id(host: Option<Seq<char>>, id: Seq<char>) -> Seq<char> {
    match host {
        Some(h) => if trim_seq(h).len() > 0 {
            trim_seq(h)
        } else {
            id
        },
        None => id,
    }
}

pub open spec fn opt_text(o: Option<String>) -> Option<Seq<char>> {
    match o {
        Some(s) => Some(s@),
        None => None,
    }
}

/// Settles the name this device goes by: a chosen name stays; in place of
/// a placeholder the host name (or, without one, the device id) is stored
/// and used.
pub fn settle_device_name(store: &mut SettingsStore, device_id: &str, hostname: Option<String>) -> (name:
    String)
    ensures
        ({
            let raw = stored_or_empty(old(store)@, "device_name"@);
            let chosen = host_or_id(opt_text(hostname), device_id@);
            if is_placeholder_name(raw, device_id@) {
                &&& final(store)@ == old(store)@.insert("device_name"@, chosen)
                &&& name@ == chosen
            } else {
                &&& final(store)@ == old(store)@
                &&& name@ == raw
            }
        }),
{
    let raw = match store.get_setting("device_name") {
        Some(v) => v,
        None => String::new(),
    };
    let id = str_to_chars(device_id);
    let trimmed = trim_chars(&str_to_chars(raw.as_str()));
    if trimmed.len() == 0 || chars_eq(&trimmed, &id) {
        let name = match hostname {
            Some(h) => {
                let t = trim_chars(&str_to_chars(h.as_str()));
                if t.len() > 0 {
                    chars_to_string(t.as_slice())
                } else {
                    chars_to_string(id.as_slice())
                }
            },
            None => chars_to_string(id.as_slice()),
        };
        store.set_setting("device_name", name.as_str());
        name
    } else {
        raw
    }
}

/// On the first run, when no `autostart` preference is stored yet, records
/// `autostart = true` and answers `true`: the caller then turns launch at
/// login on. Once a preference is stored, it is left as it is and the
/// answer is `false`.
pub fn settle_autostart(store: &mut SettingsStore) -> (enable: bool)
    ensures
        enable == !old(store)@.contains_key("autostart"@),
        enable ==> final(store)@ == old(store)@.insert("autostart"@, "true"@),
        !enable ==> final(store)@ == old(store)@,
{
    match store.get_setting("autostart") {
        Some(_) => false,
        None => {
            store.set_setting("autostart", "true");
            true
        },
    }
}

/// The idle threshold: the stored `idle_threshold` when it reads as a
/// number, else [`DEFAULT_IDLE_THRESHOLD`].
pub open spec fn spec_idle_threshold(m: Map<Seq<char>, Seq<char>>) -> u64 {
    if m.contains_key("idle_threshold"@) {
        match spec_parse_u64(m["idle_threshold"@]) {
            Some(v) => v,
            None => DEFAULT_IDLE_THRESHOLD,
        }
    } else {
        DEFAULT_IDLE_THRESHOLD
    }
}

/// The idle threshold from the settings (see [`spec_idle_threshold`]).
pub fn idle_threshold(store: &SettingsStore) -> (r: u64)
    ensures
        r == spec_idle_threshold(store@),
{
    match store.get_setting("idle_threshold") {
        Some(v) => match parse_u64(v.as_str()) {
            Some(n) => n,
            None => DEFAULT_IDLE_THRESHOLD,
        },
        None => DEFAULT_IDLE_THRESHOLD,
    }
}

} // verus!
