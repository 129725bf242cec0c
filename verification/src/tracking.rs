//! The sampling loop's decisions: which category the foreground
//! application gets, when the running session ends, how an ended session
//! is cut at midnights and which of its pieces are recorded. Times are
//! seconds since the Unix epoch; local dates and midnights are computed by
//! the caller, who also runs the loop, talks to the database and sleeps.

use vstd::prelude::*;
use crate::classifier::{classify_app, RawApp, Rule, spec_classify};
use crate::categorizer::{lookup_local_only, spec_lookup_local, opt_view};
use crate::models::CurrentForegroundOut;
use crate::platform::TrackerError;
use crate::text::{str_eq, opt_chars, str_to_chars, chars_eq};

verus! {

/// Seconds between two samples.
pub const SAMPLE_INTERVAL: u64 = 2;

/// Shortest recorded session piece, in effective seconds.
pub const MIN_SESSION_SECS: i64 = 10;

/// The greatest magnitude of a timestamp a `chrono` date-time can hold is
/// below this bound (about 262 000 years either way).
pub open spec fn time_bound() -> int {
    0x2000_0000_0000
}

pub open spec fn valid_time(t: i64) -> bool {
    -time_bound() <= t <= time_bound()
}

/// Whether `t` lies within [`time_bound`].
pub fn is_valid_time(t: i64) -> (r: bool)
    ensures
        r == valid_time(t),
{
    -0x2000_0000_0000i64 <= t && t <= 0x2000_0000_0000i64
}

/// The session being recorded.
pub struct ActiveSession {
    pub app: RawApp,
    pub app_id: i64,
    pub category_id: String,
    pub started_at: i64,
    /// Local date (`YYYY-MM-DD`) of `started_at`.
    pub started_date: String,
    /// Time of the last sample that extended the session.
    pub last_input_at: i64,
}

pub open spec fn opt_same(a: Option<String>, b: Option<String>) -> bool {
    match (a, b) {
        (Some(x), Some(y)) => x@ == y@,
        (None, None) => true,
        _ => false,
    }
}

/// Two samples show the same application: same process name and same
/// executable path.
pub open spec fn same_app(a: RawApp, b: RawApp) -> bool {
    a.process_name@ == b.process_name@ && opt_same(a.exe_path, b.exe_path)
}

pub open spec fn spec_should_finalize(
    a: ActiveSession,
    fg: RawApp,
    idle: u64,
    threshold: u64,
    now_date: Seq<char>,
) -> bool {
    !same_app(a.app, fg) || idle >= threshold || a.started_date@ != now_date
}

/// When the session being recorded ends: it goes on exactly while the
/// foreground sample shows the same process name and the same executable
/// path (both absent counts as the same), the user has been idle for less
/// than the threshold, and the day it started is still today. Reaching
/// the threshold exactly ends it.
pub proof fn law_session_end_rule(a: ActiveSession, fg: RawApp, idle: u64, threshold: u64, today: Seq<char>)
    ensures
        !spec_should_finalize(a, fg, idle, threshold, today) <==> {
            &&& a.app.process_name@ == fg.process_name@
            &&& (a.app.exe_path is None <==> fg.exe_path is None)
            &&& (a.app.exe_path matches Some(x) ==> fg.exe_path matches Some(y) && x@ == y@)
            &&& idle < threshold
            &&& a.started_date@ == today
        },
        idle == threshold ==> spec_should_finalize(a, fg, idle, threshold, today),
        a.app.process_name@ != fg.process_name@ ==> spec_should_finalize(a, fg, idle, threshold, today),
        a.started_date@ != today ==> spec_should_finalize(a, fg, idle, threshold, today),
{
}

fn opt_str_eq(a: &Option<String>, b: &Option<String>) -> (r: bool)
    ensures
        r == opt_same(*a, *b),
{
    match (a, b) {
        (Some(x), Some(y)) => str_eq(x.as_str(), y.as_str()),
        (None, None) => true,
        _ => false,
    }
}

/// The running session ends when another application is in front, when
/// the user has been idle for at least `threshold` seconds, or when the
/// local date has changed.
pub fn should_finalize(
    a: &ActiveSession,
    fg: &RawApp,
    idle: u64,
    threshold: u64,
    now_date: &str,
) -> (r: bool)
    ensures
        r == spec_should_finalize(*a, *fg, idle, threshold, now_date@),
{
    let same = str_eq(a.app.process_name.as_str(), fg.process_name.as_str()) && opt_str_eq(
        &a.app.exe_path,
        &fg.exe_path,
    );
    !same || idle >= threshold || !str_eq(a.started_date.as_str(), now_date)
}

/// The loop's memory between samples: the session being recorded.
pub struct Tracker {
    pub current: Option<ActiveSession>,
}

impl Tracker {
    pub fn new() -> (t: Self)
        ensures
            t.current is None,
    {
        Tracker { current: None }
    }

    /// Takes one sample into account: either the running session ends (it
    /// is handed back to be recorded and no session is running), or it
    /// goes on with its last input moved to `now`.
    pub fn observe(&mut self, fg: &RawApp, idle: u64, threshold: u64, now: i64, now_date: &str) -> (ended:
        Option<ActiveSession>)
        ensures
            match old(self).current {
                None => ended is None && final(self).current is None,
                Some(a) => if spec_should_finalize(a, *fg, idle, threshold, now_date@) {
                    ended == Some(a) && final(self).current is None
                } else {
                    &&& ended is None
                    &&& final(self).current matches Some(b)
                    &&& b.last_input_at == now
                    &&& b.app == a.app
                    &&& b.app_id == a.app_id
                    &&& b.category_id == a.category_id
                    &&& b.started_at == a.started_at
                    &&& b.started_date == a.started_date
                },
            },
    {
        match self.current.take() {
            None => None,
            Some(mut a) => {
                if should_finalize(&a, fg, idle, threshold, now_date) {
                    Some(a)
                } else {
                    a.last_input_at = now;
                    self.current = Some(a);
                    None
                }
            },
        }
    }

    /// Starts a new session for `app` at `now`.
    pub fn begin(&mut self, app: RawApp, app_id: i64, category_id: String, now: i64, now_date: String)
        requires
            old(self).current is None,
        ensures
            final(self).current matches Some(b) && b.app == app && b.app_id == app_id && b.category_id
                == category_id && b.started_at == now && b.last_input_at == now && b.started_date
                == now_date,
    {
        self.current = Some(
            ActiveSession {
                app,
                app_id,
                category_id,
                started_at: now,
                started_date: now_date,
                last_input_at: now,
            },
        );
    }
}

/// How the foreground application gets its category.
pub enum CategoryChoice {
    /// A user rule or the built-in dictionary decided.
    Decided(String),
    /// Neither did: look it up through the cache and the encyclopedia.
    LookUp,
}

/// The characters of an optional owned text.
pub open spec fn string_view(o: Option<String>) -> Option<Seq<char>> {
    match o {
        Some(s) => Some(s@),
        None => None,
    }
}

/// The user's rules decide when they give a category other than `other`;
/// otherwise the built-in dictionary; otherwise a lookup is needed.
pub fn choose_category(app: &RawApp, rules: &[Rule]) -> (r: CategoryChoice)
    ensures
        spec_classify(*app, rules@) != "other"@ ==> (r matches CategoryChoice::Decided(c) && c@
            == spec_classify(*app, rules@)),
        spec_classify(*app, rules@) == "other"@ ==> match r {
            CategoryChoice::Decided(c) => spec_lookup_local(
                app.process_name@,
                string_view(app.exe_path),
                app.name@,
                Some(c),
            ),
            CategoryChoice::LookUp => spec_lookup_local(
                app.process_name@,
                string_view(app.exe_path),
                app.name@,
                None,
            ),
        },
{
    let user = classify_app(app, rules);
    proof {
        reveal_strlit("other");
    }
    if !str_eq(user.as_str(), "other") {
        return CategoryChoice::Decided(user);
    }
    let exe: Option<&str> = match &app.exe_path {
        Some(s) => Some(s.as_str()),
        None => None,
    };
    assert(opt_view(exe) == string_view(app.exe_path));
    match lookup_local_only(app.process_name.as_str(), exe, app.name.as_str()) {
        Some(c) => CategoryChoice::Decided(c),
        None => CategoryChoice::LookUp,
    }
}

/// The stretches of an ended session, cut at the local midnights after its
/// start: `ms` are those midnights in order, as far as they could be
/// computed, and `cursor` is where the next stretch starts.
pub open spec fn segments_from(ms: Seq<i64>, cursor: i64, now: i64) -> Seq<(i64, i64)>
    decreases ms.len(),
{
    if ms.len() == 0 {
        Seq::empty()
    } else if ms[0] > now {
        seq![(cursor, now)]
    } else {
        seq![(cursor, ms[0])] + segments_from(ms.drop_first(), ms[0], now)
    }
}

/// The stretches of a session from `start` to `now`: one when it ended on
/// the day it started, else one per day (see [`segments_from`]).
pub open spec fn spec_segments(start: i64, now: i64, same_day: bool, midnights: Seq<i64>) -> Seq<(i64, i64)> {
    if same_day {
        seq![(start, now)]
    } else {
        segments_from(midnights, start, now)
    }
}

/// The total length of some stretches, in seconds.
pub open spec fn total_seconds(segs: Seq<(i64, i64)>) -> int
    decreases segs.len(),
{
    if segs.len() == 0 {
        0
    } else {
        (segs[0].1 - segs[0].0) + total_seconds(segs.drop_first())
    }
}

proof fn lemma_segments_from_total(ms: Seq<i64>, cursor: i64, now: i64)
    requires
        exists|j: int| 0 <= j < ms.len() && ms[j] > now,
    ensures
        total_seconds(segments_from(ms, cursor, now)) == now - cursor,
    decreases ms.len(),
{
    let j = choose|j: int| 0 <= j < ms.len() && ms[j] > now;
    if ms[0] <= now {
        assert(ms.drop_first()[j - 1] == ms[j]);
        lemma_segments_from_total(ms.drop_first(), ms[0], now);
        let segs = segments_from(ms, cursor, now);
        assert(segs[0] == (cursor, ms[0]));
        assert(segs.drop_first() =~= segments_from(ms.drop_first(), ms[0], now));
        assert(total_seconds(segs) == (ms[0] - cursor) + total_seconds(segs.drop_first()));
    } else {
        let segs = segments_from(ms, cursor, now);
        assert(segs[0] == (cursor, now));
        assert(segs.drop_first() =~= Seq::<(i64, i64)>::empty());
        assert(total_seconds(segs.drop_first()) == 0);
        assert(total_seconds(segs) == (now - cursor) + total_seconds(segs.drop_first()));
    }
}

/// Cutting a session at midnights neither loses nor repeats time: when the
/// session ended on its first day, or the midnights reach past its end,
/// the stretches add up to the time from its start to now.
pub proof fn law_segments_cover_session(start: i64, now: i64, same_day: bool, midnights: Seq<i64>)
    requires
        same_day || exists|j: int| 0 <= j < midnights.len() && midnights[j] > now,
    ensures
        total_seconds(spec_segments(start, now, same_day, midnights)) == now - start,
{
    if same_day {
        let segs = spec_segments(start, now, same_day, midnights);
        assert(segs[0] == (start, now));
        assert(segs.drop_first() =~= Seq::<(i64, i64)>::empty());
        assert(total_seconds(segs.drop_first()) == 0);
        assert(total_seconds(segs) == (now - start) + total_seconds(segs.drop_first()));
    } else {
        lemma_segments_from_total(midnights, start, now);
    }
}

/// Cuts a session into day stretches (see [`spec_segments`]).
pub fn session_segments(start: i64, now: i64, same_day: bool, midnights: &Vec<i64>) -> (r: Vec<(i64, i64)>)
    ensures
        r@ == spec_segments(start, now, same_day, midnights@),
{
    if same_day {
        return vec![(start, now)];
    }
    let mut out: Vec<(i64, i64)> = Vec::new();
    let mut cursor = start;
    let mut k: usize = 0;
    assert(midnights@.subrange(0, midnights@.len() as int) =~= midnights@);
    while k < midnights.len()
        invariant
            k <= midnights@.len(),
            !same_day,
            out@ + segments_from(midnights@.subrange(k as int, midnights@.len() as int), cursor, now)
                == segments_from(midnights@, start, now),
        decreases midnights.len() - k,
    {
        let ghost rest = midnights@.subrange(k as int, midnights@.len() as int);
        assert(rest[0] == midnights@[k as int]);
        assert(rest.drop_first() =~= midnights@.subrange(k + 1, midnights@.len() as int));
        let m = midnights[k];
        if m > now {
            let ghost before = out@;
            out.push((cursor, now));
            assert(out@ =~= before + seq![(cursor, now)]);
            assert(out@ =~= segments_from(midnights@, start, now));
            return out;
        }
        let ghost before = out@;
        out.push((cursor, m));
        assert(out@ =~= before + seq![(cursor, m)]);
        cursor = m;
        k = k + 1;
    }
    assert(midnights@.subrange(k as int, midnights@.len() as int) =~= Seq::<i64>::empty());
    assert(out@ =~= out@ + Seq::<(i64, i64)>::empty());
    out
}

pub open spec fn max0(v: int) -> int {
    if v < 0 {
        0
    } else {
        v
    }
}

/// The seconds of a stretch the user was active: its length minus the
/// idle time at its end (from the last input, or from its start when the
/// last input came before it), never below 0.
pub open spec fn spec_effective(seg_start: i64, seg_end: i64, last_input: i64) -> int {
    let dur = max0(seg_end - seg_start);
    let last_in = if last_input < seg_start {
        seg_start
    } else {
        last_input
    };
    let idle = max0(seg_end - last_in);
    max0(dur - idle)
}

/// The active seconds of one stretch (see [`spec_effective`]).
pub fn effective_seconds(seg_start: i64, seg_end: i64, last_input: i64) -> (r: i64)
    requires
        valid_time(seg_start),
        valid_time(seg_end),
        valid_time(last_input),
    ensures
        r == spec_effective(seg_start, seg_end, last_input),
        0 <= r,
        r <= max0(seg_end - seg_start),
{
    let d = seg_end - seg_start;
    let dur = if d < 0 {
        0
    } else {
        d
    };
    let last_in = if last_input < seg_start {
        seg_start
    } else {
        last_input
    };
    let i = seg_end - last_in;
    let idle = if i < 0 {
        0
    } else {
        i
    };
    let e = dur - idle;
    if e < 0 {
        0
    } else {
        e
    }
}

/// A stretch of a session that is written to the database.
#[derive(Debug, Clone, Copy, PartialEq, Eq, Structural)]
pub struct SessionPiece {
    pub start: i64,
    pub end: i64,
    /// Active seconds, at least [`MIN_SESSION_SECS`].
    pub effective: i64,
}

/// The stretches that are recorded: those with at least
/// [`MIN_SESSION_SECS`] active seconds, in order.
pub open spec fn recorded_pieces(segs: Seq<(i64, i64)>, last_input: i64) -> Seq<SessionPiece>
    decreases segs.len(),
{
    if segs.len() == 0 {
        Seq::empty()
    } else {
        let prev = recorded_pieces(segs.drop_last(), last_input);
        let (a, b) = segs.last();
        let e = spec_effective(a, b, last_input);
        if e >= MIN_SESSION_SECS {
            prev.push(SessionPiece { start: a, end: b, effective: e as i64 })
        } else {
            prev
        }
    }
}

proof fn lemma_segments_valid(ms: Seq<i64>, cursor: i64, now: i64)
    requires
        valid_time(cursor),
        valid_time(now),
        forall|i: int| 0 <= i < ms.len() ==> valid_time(#[trigger] ms[i]),
    ensures
        forall|i: int|
            0 <= i < segments_from(ms, cursor, now).len() ==> valid_time(
                (#[trigger] segments_from(ms, cursor, now)[i]).0,
            ) && valid_time(segments_from(ms, cursor, now)[i].1),
    decreases ms.len(),
{
    if ms.len() > 0 && ms[0] <= now {
        let t = ms.drop_first();
        assert forall|i: int| 0 <= i < t.len() implies valid_time(#[trigger] t[i]) by {
            assert(t[i] == ms[i + 1]);
        }
        lemma_segments_valid(t, ms[0], now);
        let s = segments_from(ms, cursor, now);
        assert forall|i: int| 0 <= i < s.len() implies valid_time((#[trigger] s[i]).0) && valid_time(
            s[i].1,
        ) by {
            if i > 0 {
                assert(s[i] == segments_from(t, ms[0], now)[i - 1]);
            }
        }
    }
}

/// What is written when a session ends at `now`: its day stretches that
/// were active for at least [`MIN_SESSION_SECS`] seconds.
pub fn finalize_plan(a: &ActiveSession, now: i64, same_day: bool, midnights: &Vec<i64>) -> (r: Vec<
    SessionPiece,
>)
    requires
        valid_time(a.started_at),
        valid_time(a.last_input_at),
        valid_time(now),
        forall|i: int| 0 <= i < midnights@.len() ==> valid_time(#[trigger] midnights@[i]),
    ensures
        r@ == recorded_pieces(spec_segments(a.started_at, now, same_day, midnights@), a.last_input_at),
        forall|i: int| 0 <= i < r@.len() ==> (#[trigger] r@[i]).effective >= MIN_SESSION_SECS,
{
    let segs = session_segments(a.started_at, now, same_day, midnights);
    proof {
        if !same_day {
            lemma_segments_valid(midnights@, a.started_at, now);
        }
    }
    let mut out: Vec<SessionPiece> = Vec::new();
    let mut k: usize = 0;
    while k < segs.len()
        invariant
            k <= segs@.len(),
            segs@ == spec_segments(a.started_at, now, same_day, midnights@),
            forall|i: int| 0 <= i < segs@.len() ==> valid_time((#[trigger] segs@[i]).0) && valid_time(
                segs@[i].1,
            ),
            valid_time(a.last_input_at),
            out@ == recorded_pieces(segs@.subrange(0, k as int), a.last_input_at),
            forall|i: int| 0 <= i < out@.len() ==> (#[trigger] out@[i]).effective >= MIN_SESSION_SECS,
        decreases segs.len() - k,
    {
        assert(segs@.subrange(0, k + 1).drop_last() =~= segs@.subrange(0, k as int));
        let (s0, s1) = segs[k];
        let e = effective_seconds(s0, s1, a.last_input_at);
        if e >= MIN_SESSION_SECS {
            out.push(SessionPiece { start: s0, end: s1, effective: e });
        }
        k = k + 1;
    }
    assert(segs@.subrange(0, segs@.len() as int) =~= segs@);
    out
}

/// A new application gets an automatic rule unless an enabled rule already
/// matches its process name exactly on `process_name`.
pub fn needs_auto_rule(rules: &[Rule], process_name: &str) -> (r: bool)
    ensures
        r == !exists|i: int|
            0 <= i < rules@.len() && (#[trigger] rules@[i]).enabled && rules@[i].field@
                == "process_name"@ && rules@[i].pattern@ == process_name@,
{
    let mut k: usize = 0;
    while k < rules.len()
        invariant
            k <= rules@.len(),
            forall|j: int|
                0 <= j < k ==> !((#[trigger] rules@[j]).enabled && rules@[j].field@ == "process_name"@
                    && rules@[j].pattern@ == process_name@),
        decreases rules.len() - k,
    {
        let r = &rules[k];
        if r.enabled && str_eq(r.field.as_str(), "process_name") && str_eq(
            r.pattern.as_str(),
            process_name,
        ) {
            return false;
        }
        k = k + 1;
    }
    true
}

/// How long the running session has lasted at `now` (0 without one, and
/// never negative).
pub fn session_seconds(current: &Option<ActiveSession>, now: i64) -> (r: i64)
    requires
        valid_time(now),
        current matches Some(a) ==> valid_time(a.started_at),
    ensures
        match current {
            Some(a) => r == max0(now - a.started_at),
            None => r == 0,
        },
{
    match current {
        Some(a) => {
            let d = now - a.started_at;
            if d < 0 {
                0
            } else {
                d
            }
        },
        None => 0,
    }
}

/// The foreground card: the application with its category, or, when
/// there is none, `无` in category `other`.
pub fn current_foreground_out(
    fg: Result<RawApp, TrackerError>,
    rules: &[Rule],
    idle_seconds: u64,
    tracking: bool,
    session_seconds: i64,
) -> (r: CurrentForegroundOut)
    ensures
        r.idle_seconds == idle_seconds,
        r.tracking == tracking,
        r.session_seconds == session_seconds,
        match fg {
            Ok(app) => r.name == app.name && r.process_name == app.process_name && r.category_id@
                == spec_classify(app, rules@) && r.window_title == app.window_title && r.bundle_id
                == app.bundle_id,
            Err(_) => r.name@ == "无"@ && r.process_name@ == Seq::<char>::empty() && r.category_id@
                == "other"@ && r.window_title is None && r.bundle_id is None,
        },
{
    match fg {
        Ok(app) => {
            let cat = classify_app(&app, rules);
            CurrentForegroundOut {
                name: app.name,
                process_name: app.process_name,
                category_id: cat,
                idle_seconds,
                tracking,
                window_title: app.window_title,
                bundle_id: app.bundle_id,
                session_seconds,
            }
        },
        Err(_) => CurrentForegroundOut {
            name: "无".to_string(),
            process_name: String::new(),
            category_id: "other".to_string(),
            idle_seconds,
            tracking,
            window_title: None,
            bundle_id: None,
            session_seconds,
        },
    }
}

} // verus!
