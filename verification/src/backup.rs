//! Daily JSON backups: their settings, when one is due, where it goes, and
//! which earlier backup files are recycled or pruned. Listing, writing and
//! deleting the files is the caller's part.

use vstd::prelude::*;
use crate::settings::SettingsStore;
use crate::screenshot_config::{stored_bool, bool_text};
use crate::decimal::{spec_parse_u32, parse_u32, u32_to_string, spec_decimal};
use crate::text::{
    str_eq, str_to_chars, chars_to_string, trim_seq, trim_chars, seq_starts_with, seq_ends_with,
    chars_starts_with, chars_ends_with, strip_prefixes, strip_suffixes, trim_start_matches_chars,
    trim_end_matches_chars, seq_less, chars_less,
};

verus! {

/// The backup settings as the settings page shows them.
#[derive(Debug, Clone)]
pub struct BackupConfig {
    pub enabled: bool,
    pub path: String,
    pub keep_days: u32,
    /// Date (`YYYY-MM-DD`) of the last backup, empty when none was made.
    pub last_date: String,
}

/// A stored text, empty when missing.
pub open spec fn stored_text(m: Map<Seq<char>, Seq<char>>, key: Seq<char>) -> Seq<char> {
    if m.contains_key(key) {
        m[key]
    } else {
        Seq::empty()
    }
}

fn read_text(store: &SettingsStore, key: &str) -> (r: String)
    ensures
        r@ == stored_text(store@, key@),
{
    match store.get_setting(key) {
        Some(s) => s,
        None => String::new(),
    }
}

/// The days to keep: the stored number when it parses, else 30.
pub open spec fn stored_keep_days(m: Map<Seq<char>, Seq<char>>) -> u32 {
    if m.contains_key("backup_keep_days"@) && spec_parse_u32(m["backup_keep_days"@]) is Some {
        spec_parse_u32(m["backup_keep_days"@])->0
    } else {
        30
    }
}

impl BackupConfig {
    /// Reads the backup settings: off, no folder, 30 days and no backup yet
    /// when nothing is stored.
    pub fn load(store: &SettingsStore) -> (c: Self)
        ensures
            c.enabled == stored_bool(store@, "backup_enabled"@, false),
            c.path@ == stored_text(store@, "backup_path"@),
            c.keep_days == stored_keep_days(store@),
            c.last_date@ == stored_text(store@, "backup_last_date"@),
    {
        let enabled = match store.get_setting("backup_enabled") {
            Some(s) => {
                proof {
                    reveal_strlit("true");
                }
                str_eq(s.as_str(), "true")
            },
            None => false,
        };
        let keep_days = match store.get_setting("backup_keep_days") {
            Some(s) => match parse_u32(s.as_str()) {
                Some(v) => v,
                None => 30,
            },
            None => 30,
        };
        BackupConfig {
            enabled,
            path: read_text(store, "backup_path"),
            keep_days,
            last_date: read_text(store, "backup_last_date"),
        }
    }
}

/// The message when the chosen folder cannot be created.
pub open spec fn folder_error(e: Seq<char>) -> Seq<char> {
    "无法创建备份目录："@ + e
}

/// Saves the backup settings. The switch is stored first; a blank folder
/// is stored as empty; a folder that could not be created (`created` holds
/// the reason) ends the save with an error, so neither the folder nor the
/// days are stored.
pub fn save_backup_config(
    store: &mut SettingsStore,
    enabled: bool,
    path: &str,
    keep_days: u32,
    created: Result<(), String>,
) -> (r: Result<(), String>)
    ensures
        ({
            let m1 = old(store)@.insert("backup_enabled"@, bool_text(enabled));
            if trim_seq(path@).len() == 0 {
                &&& r is Ok
                &&& final(store)@ == m1.insert("backup_path"@, Seq::empty()).insert(
                    "backup_keep_days"@,
                    spec_decimal(keep_days as nat),
                )
            } else {
                match created {
                    Err(e) => r matches Err(m) && m@ == folder_error(e@) && final(store)@ == m1,
                    Ok(()) => r is Ok && final(store)@ == m1.insert("backup_path"@, path@).insert(
                        "backup_keep_days"@,
                        spec_decimal(keep_days as nat),
                    ),
                }
            }
        }),
{
    let flag: &str = if enabled {
        "true"
    } else {
        "false"
    };
    store.set_setting("backup_enabled", flag);
    assert(store@ == old(store)@.insert("backup_enabled"@, bool_text(enabled)));
    let blank = trim_chars(&str_to_chars(path)).len() == 0;
    if blank {
        proof {
            reveal_strlit("");
        }
        store.set_setting("backup_path", "");
        assert(""@ =~= Seq::<char>::empty());
    } else {
        match created {
            Err(e) => {
                let mut v = str_to_chars("无法创建备份目录：");
                let mut t = str_to_chars(e.as_str());
                v.append(&mut t);
                return Err(chars_to_string(v.as_slice()));
            },
            Ok(()) => {
                store.set_setting("backup_path", path);
            },
        }
    }
    store.set_setting("backup_keep_days", u32_to_string(keep_days).as_str());
    Ok(())
}

/// An automatic backup is due when backups are on and none was made today.
pub fn auto_backup_due(store: &SettingsStore, today: &str) -> (r: bool)
    ensures
        r == (stored_bool(store@, "backup_enabled"@, false) && stored_text(
            store@,
            "backup_last_date"@,
        ) != today@),
{
    let cfg = BackupConfig::load(store);
    cfg.enabled && !str_eq(cfg.last_date.as_str(), today)
}

/// Where a backup goes: the override when it is not blank, else the stored
/// folder when it is not empty, else `None` (the default folder).
pub fn backup_dir_choice(path_override: Option<&str>, store: &SettingsStore) -> (r: Option<String>)
    ensures
        match path_override {
            Some(p) if trim_seq(p@).len() > 0 => r is Some && r->0@ == p@,
            _ => if stored_text(store@, "backup_path"@).len() > 0 {
                r is Some && r->0@ == stored_text(store@, "backup_path"@)
            } else {
                r is None
            },
        },
{
    match path_override {
        Some(p) => {
            if trim_chars(&str_to_chars(p)).len() > 0 {
                return Some(p.to_string());
            }
        },
        None => {},
    }
    let stored = read_text(store, "backup_path");
    if str_to_chars(stored.as_str()).len() > 0 {
        Some(stored)
    } else {
        None
    }
}

pub open spec fn backup_prefix() -> Seq<char> {
    "screentime_backup_"@
}

/// The backup file name for date `today`.
pub open spec fn spec_backup_file_name(today: Seq<char>) -> Seq<char> {
    backup_prefix() + today + ".json"@
}

pub fn backup_file_name(today: &str) -> (r: String)
    ensures
        r@ == spec_backup_file_name(today@),
{
    let mut v = str_to_chars("screentime_backup_");
    let mut t = str_to_chars(today);
    let mut e = str_to_chars(".json");
    v.append(&mut t);
    v.append(&mut e);
    chars_to_string(v.as_slice())
}

/// The date part of a backup file name: `None` for a name that is not a
/// backup file; else the name with the leading prefixes and trailing
/// `.json` removed.
pub open spec fn backup_date_part(name: Seq<char>) -> Option<Seq<char>> {
    if seq_starts_with(name, backup_prefix()) && seq_ends_with(name, ".json"@) {
        Some(strip_suffixes(strip_prefixes(name, backup_prefix()), ".json"@))
    } else {
        None
    }
}

fn date_part_of(name: &str) -> (r: Option<Vec<char>>)
    ensures
        match r {
            Some(d) => backup_date_part(name@) == Some(d@),
            None => backup_date_part(name@) is None,
        },
{
    let n = str_to_chars(name);
    let pre = str_to_chars("screentime_backup_");
    let suf = str_to_chars(".json");
    if chars_starts_with(&n, &pre) && chars_ends_with(&n, &suf) {
        let a = trim_start_matches_chars(&n, &pre);
        Some(trim_end_matches_chars(&a, &suf))
    } else {
        None
    }
}

/// File `i` is the backup to recycle: the newest backup dated before
/// `today` (the first such when several share that date).
pub open spec fn is_previous_backup(names: Seq<String>, today: Seq<char>, i: int) -> bool {
    &&& 0 <= i < names.len()
    &&& backup_date_part(names[i]@) matches Some(d) && seq_less(d, today)
    &&& forall|j: int|
        0 <= j < names.len() && j != i ==> match backup_date_part(#[trigger] names[j]@) {
            Some(e) => seq_less(e, today) ==> (if j < i {
                seq_less(e, backup_date_part(names[i]@)->0)
            } else {
                !seq_less(backup_date_part(names[i]@)->0, e)
            }),
            None => true,
        }
}

/// Picks the backup to recycle before writing today's (see
/// [`is_previous_backup`]); `None` when there is no earlier backup.
pub fn previous_backup(names: &Vec<String>, today: &str) -> (r: Option<usize>)
    ensures
        match r {
            Some(i) => is_previous_backup(names@, today@, i as int),
            None => forall|j: int|
                0 <= j < names@.len() ==> match backup_date_part(#[trigger] names@[j]@) {
                    Some(e) => !seq_less(e, today@),
                    None => true,
                },
        },
{
    let t = str_to_chars(today);
    let mut best: Option<usize> = None;
    let mut best_date: Vec<char> = Vec::new();
    let mut k: usize = 0;
    while k < names.len()
        invariant
            k <= names@.len(),
            t@ == today@,
            match best {
                Some(b) => {
                    &&& b < k
                    &&& backup_date_part(names@[b as int]@) == Some(best_date@)
                    &&& seq_less(best_date@, today@)
                    &&& forall|j: int|
                        0 <= j < k && j != b ==> match backup_date_part(#[trigger] names@[j]@) {
                            Some(e) => seq_less(e, today@) ==> (if j < b {
                                seq_less(e, best_date@)
                            } else {
                                !seq_less(best_date@, e)
                            }),
                            None => true,
                        }
                },
                None => forall|j: int|
                    0 <= j < k ==> match backup_date_part(#[trigger] names@[j]@) {
                        Some(e) => !seq_less(e, today@),
                        None => true,
                    },
            },
        decreases names.len() - k,
    {
        match date_part_of(names[k].as_str()) {
            Some(d) => {
                if chars_less(&d, &t) {
                    let newer = match best {
                        Some(_) => chars_less(&best_date, &d),
                        None => true,
                    };
                    if newer {
                        proof {
                            lemma_less_total();
                        }
                        best = Some(k);
                        best_date = d;
                    }
                }
            },
            None => {},
        }
        k = k + 1;
    }
    best
}

/// Strict order facts for [`seq_less`].
proof fn lemma_less_total()
    ensures
        forall|a: Seq<char>, b: Seq<char>| #[trigger] seq_less(a, b) ==> !seq_less(b, a),
        forall|a: Seq<char>, b: Seq<char>, c: Seq<char>|
            #[trigger] seq_less(a, b) && #[trigger] seq_less(b, c) ==> seq_less(a, c),
        forall|a: Seq<char>, b: Seq<char>|
            !#[trigger] seq_less(a, b) && !seq_less(b, a) ==> a == b,
{
    assert forall|a: Seq<char>, b: Seq<char>| #[trigger] seq_less(a, b) implies !seq_less(b, a) by {
        lemma_less_asym(a, b);
    }
    assert forall|a: Seq<char>, b: Seq<char>, c: Seq<char>|
        #[trigger] seq_less(a, b) && #[trigger] seq_less(b, c) implies seq_less(a, c) by {
        lemma_less_trans(a, b, c);
    }
    assert forall|a: Seq<char>, b: Seq<char>| !#[trigger] seq_less(a, b) && !seq_less(b, a) implies a
        == b by {
        lemma_less_connex(a, b);
    }
}

proof fn lemma_less_asym(a: Seq<char>, b: Seq<char>)
    ensures
        seq_less(a, b) ==> !seq_less(b, a),
    decreases a.len(),
{
    if a.len() > 0 && b.len() > 0 && a[0] == b[0] {
        lemma_less_asym(a.drop_first(), b.drop_first());
    }
}

proof fn lemma_less_trans(a: Seq<char>, b: Seq<char>, c: Seq<char>)
    ensures
        seq_less(a, b) && seq_less(b, c) ==> seq_less(a, c),
    decreases a.len(),
{
    if a.len() > 0 && b.len() > 0 && c.len() > 0 && a[0] == b[0] && b[0] == c[0] {
        lemma_less_trans(a.drop_first(), b.drop_first(), c.drop_first());
    }
}

proof fn lemma_less_connex(a: Seq<char>, b: Seq<char>)
    ensures
        !seq_less(a, b) && !seq_less(b, a) ==> a == b,
    decreases a.len(),
{
    if a.len() > 0 && b.len() > 0 && a[0] == b[0] {
        lemma_less_connex(a.drop_first(), b.drop_first());
        if a.drop_first() == b.drop_first() {
            assert(a =~= seq![a[0]] + a.drop_first());
            assert(b =~= seq![b[0]] + b.drop_first());
        }
    }
    if a.len() == 0 && b.len() == 0 {
        assert(a =~= b);
    }
}

/// The backup files older than `cutoff`: those whose date part sorts
/// before it, by position in `names`, in order.
pub fn expired_backups(names: &Vec<String>, cutoff: &str) -> (r: Vec<usize>)
    ensures
        forall|i: int| 0 <= i < r@.len() ==> r@[i] < names@.len(),
        forall|i: int, j: int| 0 <= i < j < r@.len() ==> r@[i] < r@[j],
        forall|j: int|
            0 <= j < names@.len() ==> (r@.contains(j as usize) <==> match backup_date_part(
                #[trigger] names@[j]@,
            ) {
                Some(d) => seq_less(d, cutoff@),
                None => false,
            }),
{
    let c = str_to_chars(cutoff);
    let mut r: Vec<usize> = Vec::new();
    let mut k: usize = 0;
    while k < names.len()
        invariant
            k <= names@.len(),
            c@ == cutoff@,
            forall|i: int| 0 <= i < r@.len() ==> r@[i] < k,
            forall|i: int, j: int| 0 <= i < j < r@.len() ==> r@[i] < r@[j],
            forall|j: int|
                0 <= j < k ==> (r@.contains(j as usize) <==> match backup_date_part(
                    #[trigger] names@[j]@,
                ) {
                    Some(d) => seq_less(d, cutoff@),
                    None => false,
                }),
        decreases names.len() - k,
    {
        let hit = match date_part_of(names[k].as_str()) {
            Some(d) => chars_less(&d, &c),
            None => false,
        };
        let ghost before = r@;
        if hit {
            r.push(k);
        }
        assert forall|j: int|
            0 <= j < k + 1 implies (r@.contains(j as usize) <==> match backup_date_part(
            #[trigger] names@[j]@,
        ) {
            Some(d) => seq_less(d, cutoff@),
            None => false,
        }) by {
            if j < k {
                if hit {
                    if r@.contains(j as usize) {
                        let w = choose|w: int| 0 <= w < r@.len() && r@[w] == j as usize;
                        if w < before.len() {
                            assert(before[w] == j as usize);
                        }
                    }
                    if before.contains(j as usize) {
                        let w = choose|w: int| 0 <= w < before.len() && before[w] == j as usize;
                        assert(r@[w] == j as usize);
                    }
                }
            } else {
                if hit {
                    assert(r@[r@.len() - 1] == k);
                } else {
                    if r@.contains(j as usize) {
                        let w = choose|w: int| 0 <= w < r@.len() && r@[w] == j as usize;
                    }
                }
            }
        }
        k = k + 1;
    }
    r
}

} // verus!
