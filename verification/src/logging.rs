//! The logic of the log files: which files in the log folder are ours,
//! which old ones to delete, the session id, and the version stamp put at
//! the start of every log line. Writing, listing and deleting files is the
//! caller's part.

use vstd::prelude::*;
use crate::text::{
    str_to_chars, chars_to_string, str_eq, seq_starts_with, seq_ends_with, chars_starts_with,
    chars_ends_with, seq_less, chars_less, chars_eq,
};
use crate::device_id::{spec_hex, hex_of};

verus! {

/// The version recorded at start-up, or `unknown` before that.
pub fn app_version(recorded: Option<&'static str>) -> (r: &'static str)
    ensures
        match recorded {
            Some(v) => r == v,
            None => r@ == "unknown"@,
        },
{
    match recorded {
        Some(v) => v,
        None => "unknown",
    }
}

/// The session id recorded at start-up, or empty before that.
pub fn session_id(recorded: Option<&String>) -> (r: String)
    ensures
        match recorded {
            Some(v) => r@ == v@,
            None => r@ == Seq::<char>::empty(),
        },
{
    match recorded {
        Some(v) => v.clone(),
        None => String::new(),
    }
}

/// A session id: `s`, then the start time in nanoseconds and the process
/// id, both in lower-case hexadecimal.
pub open spec fn spec_session_id(nanos: u128, pid: u32) -> Seq<char> {
    seq!['s'] + spec_hex(nanos as nat) + spec_hex(pid as nat)
}

pub fn new_session_id(nanos: u128, pid: u32) -> (r: String)
    ensures
        r@ == spec_session_id(nanos, pid),
{
    let mut v = vec!['s'];
    let mut a = hex_of(nanos);
    let mut b = hex_of(pid as u128);
    v.append(&mut a);
    v.append(&mut b);
    chars_to_string(v.as_slice())
}

/// A lower-case hexadecimal digit.
pub open spec fn is_lower_hex(c: char) -> bool {
    ('0' <= c <= '9') || ('a' <= c <= 'f')
}

proof fn lemma_hex_shape(n: nat)
    ensures
        spec_hex(n).len() >= 1,
        forall|i: int| 0 <= i < spec_hex(n).len() ==> is_lower_hex(#[trigger] spec_hex(n)[i]),
    decreases n,
{
    if n >= 16 {
        lemma_hex_shape(n / 16);
        let h = spec_hex(n);
        assert forall|i: int| 0 <= i < h.len() implies is_lower_hex(#[trigger] h[i]) by {
            if i < h.len() - 1 {
                assert(h[i] == spec_hex(n / 16)[i]);
            }
        }
    }
}

/// A session id is `s` followed by at least one lower-case hexadecimal
/// digit.
pub proof fn law_session_id_shape(nanos: u128, pid: u32)
    ensures
        spec_session_id(nanos, pid).len() > 1,
        spec_session_id(nanos, pid)[0] == 's',
        forall|i: int|
            1 <= i < spec_session_id(nanos, pid).len() ==> is_lower_hex(
                #[trigger] spec_session_id(nanos, pid)[i],
            ),
{
    lemma_hex_shape(nanos as nat);
    lemma_hex_shape(pid as nat);
    let a = spec_hex(nanos as nat);
    let b = spec_hex(pid as nat);
    let s = spec_session_id(nanos, pid);
    assert(s == seq!['s'] + a + b);
    assert forall|i: int| 1 <= i < s.len() implies is_lower_hex(#[trigger] s[i]) by {
        if i < 1 + a.len() {
            assert(s[i] == a[i - 1]);
        } else {
            assert(s[i] == b[i - 1 - a.len()]);
        }
    }
}

/// What the logging set-up records once per process: the version it was
/// first given and the session id it first made.
pub struct LogIdentity {
    version: Option<String>,
    session: Option<String>,
}

/// `s` has the shape of a session id: `s` and then at least one lower-case
/// hexadecimal digit.
pub open spec fn is_session_id_shape(s: Seq<char>) -> bool {
    &&& s.len() > 1
    &&& s[0] == 's'
    &&& forall|i: int| 1 <= i < s.len() ==> is_lower_hex(#[trigger] s[i])
}

impl LogIdentity {
    /// A recorded session id is one that [`new_session_id`] made.
    #[verifier::type_invariant]
    closed spec fn made_by_setup(&self) -> bool {
        self.session matches Some(s) ==> exists|nanos: u128, pid: u32| s@ == spec_session_id(nanos, pid)
    }

    pub closed spec fn recorded_version(&self) -> Option<Seq<char>> {
        match self.version {
            Some(v) => Some(v@),
            None => None,
        }
    }

    pub closed spec fn recorded_session(&self) -> Option<Seq<char>> {
        match self.session {
            Some(v) => Some(v@),
            None => None,
        }
    }

    /// Nothing recorded yet.
    pub fn new() -> (r: Self)
        ensures
            r.recorded_version() is None,
            r.recorded_session() is None,
    {
        LogIdentity { version: None, session: None }
    }

    /// One logging set-up with `version`, at time `nanos` in process
    /// `pid`: the first set-up records the version and the session id;
    /// later ones change nothing.
    pub fn record(&mut self, version: &str, nanos: u128, pid: u32)
        ensures
            final(self).recorded_version() == (match old(self).recorded_version() {
                Some(v) => Some(v),
                None => Some(version@),
            }),
            final(self).recorded_session() == (match old(self).recorded_session() {
                Some(s) => Some(s),
                None => Some(spec_session_id(nanos, pid)),
            }),
    {
        proof {
            use_type_invariant(&*self);
        }
        if self.version.is_none() {
            self.version = Some(version.to_owned());
        }
        if self.session.is_none() {
            let id = new_session_id(nanos, pid);
            assert(id@ == spec_session_id(nanos, pid));
            self.session = Some(id);
        }
    }

    /// The version of the first set-up, or `unknown` before any.
    pub fn app_version(&self) -> (r: String)
        ensures
            r@ == (match self.recorded_version() {
                Some(v) => v,
                None => "unknown"@,
            }),
    {
        match &self.version {
            Some(v) => v.clone(),
            None => "unknown".to_owned(),
        }
    }

    /// The session id made by the first set-up, or empty before any; once
    /// made it has the shape of a session id.
    pub fn session_id(&self) -> (r: String)
        ensures
            r@ == (match self.recorded_session() {
                Some(s) => s,
                None => Seq::<char>::empty(),
            }),
            self.recorded_session() is Some ==> is_session_id_shape(r@),
    {
        proof {
            use_type_invariant(self);
            if let Some(s) = &self.session {
                let (nanos, pid) = choose|nanos: u128, pid: u32| s@ == spec_session_id(nanos, pid);
                law_session_id_shape(nanos, pid);
            }
        }
        match &self.session {
            Some(v) => v.clone(),
            None => String::new(),
        }
    }
}

/// The version and session id after a run of set-ups: those of the first
/// one, whatever came after.
pub open spec fn version_after(first: Option<Seq<char>>, versions: Seq<Seq<char>>) -> Option<Seq<char>>
    decreases versions.len(),
{
    if versions.len() == 0 {
        first
    } else {
        version_after(
            match first {
                Some(v) => Some(v),
                None => Some(versions[0]),
            },
            versions.drop_first(),
        )
    }
}

/// Of any run of set-ups, the first one's version is what is read back.
pub proof fn law_first_setup_wins(versions: Seq<Seq<char>>)
    requires
        versions.len() > 0,
    ensures
        version_after(None, versions) == Some(versions[0]),
{
    lemma_version_kept(versions[0], versions.drop_first());
}

proof fn lemma_version_kept(v: Seq<char>, rest: Seq<Seq<char>>)
    ensures
        version_after(Some(v), rest) == Some(v),
    decreases rest.len(),
{
    if rest.len() > 0 {
        lemma_version_kept(v, rest.drop_first());
    }
}

pub open spec fn is_ascii_digit(c: char) -> bool {
    '0' <= c <= '9'
}

/// `d` has the shape `YYYY-MM-DD`: ten characters, `-` at positions 4 and
/// 7, ASCII digits elsewhere.
pub open spec fn is_date_shape(d: Seq<char>) -> bool {
    &&& d.len() == 10
    &&& d[4] == '-'
    &&& d[7] == '-'
    &&& forall|i: int| 0 <= i < 10 && i != 4 && i != 7 ==> is_ascii_digit(#[trigger] d[i])
}

/// The files this program writes to its log folder: the daily
/// `app.YYYY-MM-DD.log` files and the plug-in's `ScreenTime Pro.log`.
pub open spec fn spec_is_our_log_file(name: Seq<char>) -> bool {
    ||| (seq_starts_with(name, "app."@) && name.len() == 18 && seq_ends_with(name, ".log"@)
        && is_date_shape(name.subrange(4, 14)))
    ||| name == "ScreenTime Pro.log"@
}

/// Whether `name` is one of our log files (see [`spec_is_our_log_file`]).
pub fn is_our_log_file(name: &str) -> (r: bool)
    ensures
        r == spec_is_our_log_file(name@),
{
    let n = str_to_chars(name);
    proof {
        reveal_strlit("app.");
        reveal_strlit(".log");
    }
    if chars_starts_with(&n, &str_to_chars("app.")) && n.len() == 18 && chars_ends_with(
        &n,
        &str_to_chars(".log"),
    ) {
        let ghost d = n@.subrange(4, 14);
        let mut ok = n[8] == '-' && n[11] == '-';
        let mut i: usize = 4;
        while i < 14
            invariant
                4 <= i <= 14,
                n@.len() == 18,
                d == n@.subrange(4, 14),
                ok == (n@[8] == '-' && n@[11] == '-' && forall|j: int|
                    4 <= j < i && j != 8 && j != 11 ==> is_ascii_digit(#[trigger] n@[j])),
            decreases 14 - i,
        {
            if i != 8 && i != 11 {
                let c = n[i];
                ok = ok && '0' <= c && c <= '9';
            }
            i = i + 1;
        }
        if ok {
            assert forall|k: int| 0 <= k < 10 && k != 4 && k != 7 implies is_ascii_digit(
                #[trigger] d[k],
            ) by {
                assert(d[k] == n@[k + 4]);
            }
            return true;
        } else {
            proof {
                if is_date_shape(d) {
                    assert(d[4] == n@[8]);
                    assert(d[7] == n@[11]);
                    assert forall|j: int| 4 <= j < 14 && j != 8 && j != 11 implies is_ascii_digit(
                        #[trigger] n@[j],
                    ) by {
                        assert(n@[j] == d[j - 4]);
                    }
                }
            }
        }
    }
    str_eq(name, "ScreenTime Pro.log")
}

/// A daily log file (`app.` … `.log`), the only kind old-log clean-up
/// looks at.
pub open spec fn is_rolled_log(name: Seq<char>) -> bool {
    seq_starts_with(name, "app."@) && seq_ends_with(name, ".log"@)
}

/// The position of file `i` among the daily log files, newest (greatest
/// name) first; equal names keep their listing order.
pub open spec fn newer_count(names: Seq<Seq<char>>, i: int, n: int) -> nat
    decreases n,
{
    if n <= 0 {
        0
    } else {
        let j = n - 1;
        let before = newer_count(names, i, j);
        if j != i && is_rolled_log(names[j]) && (seq_less(names[i], names[j]) || (names[j] == names[i]
            && j < i)) {
            before + 1
        } else {
            before
        }
    }
}

/// File `i` is deleted by the clean-up that keeps the newest `keep` daily
/// logs.
pub open spec fn log_removed(names: Seq<Seq<char>>, i: int, keep: nat) -> bool {
    is_rolled_log(names[i]) && newer_count(names, i, names.len() as int) >= keep
}

pub open spec fn name_views(v: Seq<String>) -> Seq<Seq<char>> {
    v.map_values(|s: String| s@)
}

fn rolled_log(name: &Vec<char>) -> (r: bool)
    ensures
        r == is_rolled_log(name@),
{
    chars_starts_with(name, &str_to_chars("app.")) && chars_ends_with(name, &str_to_chars(".log"))
}

/// The files the clean-up deletes (see [`log_removed`]), by position, in
/// listing order.
pub fn logs_to_remove(names: &Vec<String>, keep: usize) -> (r: Vec<usize>)
    ensures
        forall|k: int| 0 <= k < r@.len() ==> r@[k] < names@.len(),
        forall|k: int, m: int| 0 <= k < m < r@.len() ==> r@[k] < r@[m],
        forall|i: int|
            0 <= i < names@.len() ==> (r@.contains(i as usize) <==> log_removed(
                name_views(names@),
                i,
                keep as nat,
            )),
{
    let ghost nv = name_views(names@);
    let mut cs: Vec<Vec<char>> = Vec::new();
    let mut k: usize = 0;
    while k < names.len()
        invariant
            k <= names@.len(),
            nv == name_views(names@),
            cs@.len() == k,
            forall|j: int| 0 <= j < k ==> cs@[j]@ == nv[j],
        decreases names.len() - k,
    {
        cs.push(str_to_chars(names[k].as_str()));
        k = k + 1;
    }
    let mut r: Vec<usize> = Vec::new();
    let mut i: usize = 0;
    while i < names.len()
        invariant
            i <= names@.len(),
            cs@.len() == names@.len(),
            nv == name_views(names@),
            forall|j: int| 0 <= j < names@.len() ==> cs@[j]@ == nv[j],
            forall|m: int| 0 <= m < r@.len() ==> r@[m] < i,
            forall|a: int, b: int| 0 <= a < b < r@.len() ==> r@[a] < r@[b],
            forall|j: int|
                0 <= j < i ==> (r@.contains(j as usize) <==> log_removed(nv, j, keep as nat)),
        decreases names.len() - i,
    {
        let mine = rolled_log(&cs[i]);
        let mut removed = false;
        if mine {
            let mut count: usize = 0;
            let mut j: usize = 0;
            while j < cs.len()
                invariant
                    j <= cs@.len(),
                    i < cs@.len(),
                    cs@.len() == nv.len(),
                    forall|t: int| 0 <= t < nv.len() ==> cs@[t]@ == nv[t],
                    count == newer_count(nv, i as int, j as int),
                    count <= j,
                decreases cs.len() - j,
            {
                if j != i && rolled_log(&cs[j]) && (chars_less(&cs[i], &cs[j]) || (chars_eq(
                    &cs[j],
                    &cs[i],
                ) && j < i)) {
                    count = count + 1;
                }
                j = j + 1;
            }
            removed = count >= keep;
        }
        let ghost before = r@;
        if removed {
            r.push(i);
        }
        assert(removed == log_removed(nv, i as int, keep as nat));
        assert forall|j: int|
            0 <= j < i + 1 implies (r@.contains(j as usize) <==> log_removed(nv, j, keep as nat)) by {
            if j < i {
                if r@.contains(j as usize) {
                    let w = choose|w: int| 0 <= w < r@.len() && r@[w] == j as usize;
                    if w < before.len() {
                        assert(before[w] == j as usize);
                    }
                }
                if before.contains(j as usize) {
                    let w = choose|w: int| 0 <= w < before.len() && before[w] == j as usize;
                    assert(r@[w] == j as usize);
                }
            } else {
                if removed {
                    assert(r@[r@.len() - 1] == i);
                } else {
                    if r@.contains(j as usize) {
                        let w = choose|w: int| 0 <= w < r@.len() && r@[w] == j as usize;
                    }
                }
            }
        }
        i = i + 1;
    }
    r
}

/// The bytes written for `buf` by the version-stamping writer, read from
/// the left: the output so far and whether the next byte starts a line.
/// Every line starts with the version and a space.
pub open spec fn stamp_state(version: Seq<u8>, at_start: bool, buf: Seq<u8>) -> (Seq<u8>, bool)
    decreases buf.len(),
{
    if buf.len() == 0 {
        (Seq::empty(), at_start)
    } else {
        let (out, start) = stamp_state(version, at_start, buf.drop_last());
        let b = buf.last();
        let out2 = if start {
            out + version + seq![32u8] + seq![b]
        } else {
            out.push(b)
        };
        (out2, b == 10u8)
    }
}

/// Stamps `buf` (see [`stamp_state`]): the bytes to write and whether the
/// next byte will start a line.
pub fn version_stamp(version: &[u8], at_line_start: bool, buf: &[u8]) -> (r: (Vec<u8>, bool))
    ensures
        r.0@ == stamp_state(version@, at_line_start, buf@).0,
        r.1 == stamp_state(version@, at_line_start, buf@).1,
{
    let mut out: Vec<u8> = Vec::new();
    let mut start = at_line_start;
    let mut k: usize = 0;
    while k < buf.len()
        invariant
            k <= buf@.len(),
            (out@, start) == stamp_state(version@, at_line_start, buf@.subrange(0, k as int)),
        decreases buf.len() - k,
    {
        assert(buf@.subrange(0, k + 1).drop_last() =~= buf@.subrange(0, k as int));
        let b = buf[k];
        let ghost before = out@;
        if start {
            let mut j: usize = 0;
            while j < version.len()
                invariant
                    j <= version@.len(),
                    out@ == before + version@.subrange(0, j as int),
                decreases version.len() - j,
            {
                out.push(version[j]);
                assert(out@ =~= before + version@.subrange(0, j + 1));
                j = j + 1;
            }
            assert(version@.subrange(0, version@.len() as int) =~= version@);
            out.push(32u8);
            start = false;
        }
        out.push(b);
        if b == 10u8 {
            start = true;
        }
        assert(out@ =~= stamp_state(version@, at_line_start, buf@.subrange(0, k + 1)).0);
        k = k + 1;
    }
    assert(buf@.subrange(0, buf@.len() as int) =~= buf@);
    (out, start)
}

} // verus!
