//! System load sampling: reading the kernel's counter texts, turning two
//! successive counter readings into deltas, and caching the disk reading.
//! The readings themselves (files, system calls) and the final fractions
//! and rates (floating point) are the caller's part.

use vstd::prelude::*;
use crate::text::{
    str_to_chars, chars_to_string, str_eq, spec_lines, split_lines, spec_words, split_words, views,
    trim_seq, trim_chars, find_char, chars_take, chars_from, chars_eq, strip_suffixes,
    trim_end_matches_chars,
};
use crate::decimal::{spec_parse_u64, parse_u64};

verus! {

/// The change between two counter readings: ticks spent busy and ticks in
/// all. A zero `total` means no tick passed (the caller reports 0 %).
#[derive(Debug, Clone, Copy, PartialEq, Eq, Structural)]
pub struct CpuDelta {
    pub used: u64,
    pub total: u64,
}

/// The CPU counter state on Linux and Windows: the previous reading of
/// the total and idle tick counters.
#[derive(Debug, Clone, Copy, Default)]
pub struct Inner {
    pub last_total: Option<u64>,
    pub last_idle: Option<u64>,
}

impl Inner {
    pub fn new() -> (c: Self)
        ensures
            c.last_total is None,
            c.last_idle is None,
    {
        Inner { last_total: None, last_idle: None }
    }

    /// Records a reading and returns the change since the previous one
    /// (`None` for the first reading). Counters that went backwards count
    /// as no change.
    pub fn advance(&mut self, total: u64, idle: u64) -> (r: Option<CpuDelta>)
        ensures
            r matches Some(d) ==> d.used <= d.total,
            final(self).last_total == Some(total),
            final(self).last_idle == Some(idle),
            match (old(self).last_total, old(self).last_idle) {
                (Some(lt), Some(li)) => {
                    let dt = if total >= lt {
                        (total - lt) as u64
                    } else {
                        0u64
                    };
                    let di = if idle >= li {
                        (idle - li) as u64
                    } else {
                        0u64
                    };
                    r == Some(CpuDelta { used: if dt >= di { (dt - di) as u64 } else { 0u64 }, total: dt })
                },
                _ => r is None,
            },
    {
        let last_total = self.last_total;
        let last_idle = self.last_idle;
        self.last_total = Some(total);
        self.last_idle = Some(idle);
        match (last_total, last_idle) {
            (Some(lt), Some(li)) => {
                let d_total = total.saturating_sub(lt);
                let d_idle = idle.saturating_sub(li);
                Some(CpuDelta { used: d_total.saturating_sub(d_idle), total: d_total })
            },
            _ => None,
        }
    }
}


impl Inner {
    /// Records a Windows reading (idle, kernel and user time; kernel time
    /// includes idle time): the total is kernel + user.
    pub fn record_times(&mut self, idle: u64, kernel: u64, user: u64) -> (r: Option<CpuDelta>)
        requires
            kernel as int + user as int <= u64::MAX,
        ensures
            r matches Some(d) ==> d.used <= d.total,
            final(self).last_total == Some((kernel + user) as u64),
            final(self).last_idle == Some(idle),
            match (old(self).last_total, old(self).last_idle) {
                (Some(lt), Some(li)) => {
                    let total = (kernel + user) as u64;
                    let dt = if total >= lt {
                        (total - lt) as u64
                    } else {
                        0u64
                    };
                    let di = if idle >= li {
                        (idle - li) as u64
                    } else {
                        0u64
                    };
                    r == Some(CpuDelta { used: if dt >= di { (dt - di) as u64 } else { 0u64 }, total: dt })
                },
                _ => r is None,
            },
    {
        self.advance(kernel + user, idle)
    }
}

/// The cross-platform CPU monitor (Linux and Windows counters).
pub struct CpuMonitor {
    pub inner: Inner,
}

impl CpuMonitor {
    pub fn new() -> (c: Self)
        ensures
            c.inner.last_total is None,
            c.inner.last_idle is None,
    {
        CpuMonitor { inner: Inner::new() }
    }
}

/// `b - a` on 32-bit counters that wrap around.
pub open spec fn wrap_diff(a: u32, b: u32) -> u64 {
    if b >= a {
        (b - a) as u64
    } else {
        (b + 0x1_0000_0000 - a) as u64
    }
}

/// The number of counters in a macOS CPU load reading.
pub const HOST_CPU_LOAD_INFO_COUNT: u32 = 4;

/// A macOS CPU load reading as `host_statistics` returned it: usable when
/// the call succeeded (`rc` 0), filled all four counters, and not all of
/// them are zero (all zeros is no data, not an idle machine).
pub fn mac_cpu_ticks(rc: i32, count: u32, ticks: [u32; 4]) -> (r: Option<[u32; 4]>)
    ensures
        r == (if rc == 0 && count >= HOST_CPU_LOAD_INFO_COUNT && !(ticks[0] == 0 && ticks[1] == 0
            && ticks[2] == 0 && ticks[3] == 0) {
            Some(ticks)
        } else {
            None
        }),
{
    if rc != 0 || count < HOST_CPU_LOAD_INFO_COUNT {
        return None;
    }
    if ticks[0] == 0 && ticks[1] == 0 && ticks[2] == 0 && ticks[3] == 0 {
        return None;
    }
    Some(ticks)
}

/// The previous reading of the four macOS tick counters (user, system,
/// idle, nice).
#[derive(Debug, Clone, Copy, Default)]
pub struct MacInner {
    pub last: Option<[u32; 4]>,
}

impl MacInner {
    pub fn new() -> (c: Self)
        ensures
            c.last is None,
    {
        MacInner { last: None }
    }

    /// Records a reading and returns the change since the previous one
    /// (`None` for the first). The counters wrap around, so each change is
    /// taken modulo 2^32; busy time is user + system + nice.
    pub fn advance(&mut self, cur: [u32; 4]) -> (r: Option<CpuDelta>)
        ensures
            r matches Some(d) ==> d.used <= d.total,
            final(self).last == Some(cur),
            match old(self).last {
                Some(prev) => r == Some(
                    CpuDelta {
                        used: (wrap_diff(prev[0], cur[0]) + wrap_diff(prev[1], cur[1]) + wrap_diff(
                            prev[3],
                            cur[3],
                        )) as u64,
                        total: (wrap_diff(prev[0], cur[0]) + wrap_diff(prev[1], cur[1]) + wrap_diff(
                            prev[2],
                            cur[2],
                        ) + wrap_diff(prev[3], cur[3])) as u64,
                    },
                ),
                None => r is None,
            },
    {
        let prev = self.last;
        self.last = Some(cur);
        match prev {
            None => None,
            Some(p) => {
                let d_user = diff32(p[0], cur[0]);
                let d_system = diff32(p[1], cur[1]);
                let d_idle = diff32(p[2], cur[2]);
                let d_nice = diff32(p[3], cur[3]);
                Some(
                    CpuDelta {
                        used: d_user + d_system + d_nice,
                        total: d_user + d_system + d_idle + d_nice,
                    },
                )
            },
        }
    }
}

fn diff32(a: u32, b: u32) -> (r: u64)
    ensures
        r == wrap_diff(a, b),
        r < 0x1_0000_0000,
{
    if b >= a {
        (b - a) as u64
    } else {
        (b as u64) + 0x1_0000_0000 - (a as u64)
    }
}

/// A tick reading of all zeros is not a real reading.
pub fn ticks_valid(t: [u32; 4]) -> (r: bool)
    ensures
        r == !(t[0] == 0 && t[1] == 0 && t[2] == 0 && t[3] == 0),
{
    !(t[0] == 0 && t[1] == 0 && t[2] == 0 && t[3] == 0)
}

/// A Windows `FILETIME` as one 64-bit count: high part, then low part.
pub fn filetime_u64(high: u32, low: u32) -> (r: u64)
    ensures
        r == high as nat * 0x1_0000_0000 + low as nat,
{
    let r = ((high as u64) << 32u64) | (low as u64);
    assert(((high as u64) << 32u64) | (low as u64) == (high as u64) * 0x1_0000_0000 + (low as u64))
        by (bit_vector);
    r
}

/// The numbers at the start of `words` that parse as `u64`, up to the
/// first one that does not.
pub open spec fn leading_numbers(words: Seq<Seq<char>>) -> Seq<u64>
    decreases words.len(),
{
    if words.len() == 0 {
        Seq::empty()
    } else {
        match spec_parse_u64(words[0]) {
            Some(v) => seq![v] + leading_numbers(words.drop_first()),
            None => Seq::empty(),
        }
    }
}

pub open spec fn field(v: Seq<u64>, i: int) -> int {
    if 0 <= i < v.len() {
        v[i] as int
    } else {
        0
    }
}

/// The aggregate `cpu` line of `/proc/stat`: the total of the first eight
/// counters (user, nice, system, idle, iowait, irq, softirq, steal) and
/// the idle time (idle + iowait); `None` when the first line is not the
/// aggregate line.
pub open spec fn spec_stat_ticks(text: Seq<char>) -> Option<(int, int)> {
    let ls = spec_lines(text);
    if ls.len() == 0 {
        None
    } else {
        let ws = spec_words(ls[0]);
        if ws.len() == 0 || ws[0] != "cpu"@ {
            None
        } else {
            let v = leading_numbers(ws.drop_first());
            Some(
                (
                    field(v, 0) + field(v, 1) + field(v, 2) + field(v, 3) + field(v, 4) + field(v, 5)
                        + field(v, 6) + field(v, 7),
                    field(v, 3) + field(v, 4),
                ),
            )
        }
    }
}

/// The counters fit in 64 bits.
pub open spec fn stat_fits(text: Seq<char>) -> bool {
    match spec_stat_ticks(text) {
        Some((t, _)) => t <= u64::MAX,
        None => true,
    }
}

fn leading_numbers_of(words: &Vec<Vec<char>>, from: usize) -> (r: Vec<u64>)
    requires
        from <= words@.len(),
    ensures
        r@ == leading_numbers(views(words@).subrange(from as int, words@.len() as int)),
{
    let ghost ws = views(words@);
    let mut r: Vec<u64> = Vec::new();
    let mut k: usize = from;
    while k < words.len()
        invariant
            from <= k <= words@.len(),
            ws == views(words@),
            r@ + leading_numbers(ws.subrange(k as int, ws.len() as int)) == leading_numbers(
                ws.subrange(from as int, ws.len() as int),
            ),
        decreases words.len() - k,
    {
        assert(ws.subrange(k as int, ws.len() as int)[0] == words@[k as int]@);
        assert(ws.subrange(k as int, ws.len() as int).drop_first() =~= ws.subrange(
            k + 1,
            ws.len() as int,
        ));
        match parse_u64(chars_to_string(words[k].as_slice()).as_str()) {
            Some(v) => {
                let ghost before = r@;
                r.push(v);
                assert(r@ =~= before + seq![v]);
            },
            None => {
                return r;
            },
        }
        k = k + 1;
    }
    assert(ws.subrange(k as int, ws.len() as int) =~= Seq::<Seq<char>>::empty());
    r
}

fn field_of(v: &Vec<u64>, i: usize) -> (r: u64)
    ensures
        r == field(v@, i as int),
{
    if i < v.len() {
        v[i]
    } else {
        0
    }
}

/// Reads the aggregate line of `/proc/stat` (see [`spec_stat_ticks`]):
/// `(total, idle)`.
pub fn parse_proc_stat(text: &str) -> (r: Option<(u64, u64)>)
    requires
        stat_fits(text@),
    ensures
        match spec_stat_ticks(text@) {
            Some((t, i)) => r == Some((t as u64, i as u64)),
            None => r is None,
        },
{
    let lines = split_lines(&str_to_chars(text));
    assert(views(lines@).len() == lines@.len());
    if lines.len() == 0 {
        return None;
    }
    assert(views(lines@)[0] == lines@[0]@);
    let words = split_words(&lines[0]);
    assert(views(words@).len() == words@.len());
    if words.len() == 0 {
        return None;
    }
    assert(views(words@)[0] == words@[0]@);
    if !chars_eq(&words[0], &str_to_chars("cpu")) {
        return None;
    }
    let v = leading_numbers_of(&words, 1);
    assert(views(words@).subrange(1, words@.len() as int) =~= views(words@).drop_first());
    let user = field_of(&v, 0);
    let nice = field_of(&v, 1);
    let system = field_of(&v, 2);
    let idle = field_of(&v, 3);
    let iowait = field_of(&v, 4);
    let irq = field_of(&v, 5);
    let softirq = field_of(&v, 6);
    let steal = field_of(&v, 7);
    let total = user + nice + system + idle + iowait + irq + softirq + steal;
    Some((total, idle + iowait))
}

/// `/proc/meminfo`, read line by line: the `MemTotal:` and `MemAvailable:`
/// values in kB, stopping once both are non-zero.
pub open spec fn meminfo_state(lines: Seq<Seq<char>>) -> (u64, u64)
    decreases lines.len(),
{
    if lines.len() == 0 {
        (0, 0)
    } else {
        let (t, a) = meminfo_state(lines.drop_last());
        if t > 0 && a > 0 {
            (t, a)
        } else {
            let ws = spec_words(lines.last());
            if ws.len() < 2 || spec_parse_u64(ws[1]) is None {
                (t, a)
            } else if ws[0] == "MemTotal:"@ {
                (spec_parse_u64(ws[1])->0, a)
            } else if ws[0] == "MemAvailable:"@ {
                (t, spec_parse_u64(ws[1])->0)
            } else {
                (t, a)
            }
        }
    }
}

pub open spec fn sat_mul_1024(v: u64) -> u64 {
    if v as int * 1024 > u64::MAX {
        u64::MAX
    } else {
        (v * 1024) as u64
    }
}

/// Memory in use and in all, in bytes, from `/proc/meminfo`: used is total
/// minus available (available capped at total); `(0, 0)` without a total.
pub open spec fn spec_meminfo(text: Seq<char>) -> (u64, u64) {
    let (t, a) = meminfo_state(spec_lines(text));
    if t == 0 {
        (0, 0)
    } else {
        let total = sat_mul_1024(t);
        let avail = if sat_mul_1024(a) < total {
            sat_mul_1024(a)
        } else {
            total
        };
        ((total - avail) as u64, total)
    }
}

fn word_value(ws: &Vec<Vec<char>>, i: usize) -> (r: Option<u64>)
    requires
        i < ws@.len(),
    ensures
        r == spec_parse_u64(ws@[i as int]@),
{
    parse_u64(chars_to_string(ws[i].as_slice()).as_str())
}

/// `v.saturating_mul(1024)`.
fn times_1024(v: u64) -> (r: u64)
    ensures
        r == sat_mul_1024(v),
{
    if v > 0xFFFF_FFFF_FFFF_FFFF / 1024 {
        0xFFFF_FFFF_FFFF_FFFF
    } else {
        v * 1024
    }
}

/// Reads memory use out of `/proc/meminfo` (see [`spec_meminfo`]):
/// `(used, total)` in bytes.
pub fn parse_meminfo(text: &str) -> (r: (u64, u64))
    ensures
        r == spec_meminfo(text@),
        r.0 <= r.1,
{
    let lines = split_lines(&str_to_chars(text));
    let ghost ls = views(lines@);
    let key_total = str_to_chars("MemTotal:");
    let key_avail = str_to_chars("MemAvailable:");
    let mut total_kb: u64 = 0;
    let mut avail_kb: u64 = 0;
    let mut k: usize = 0;
    while k < lines.len() && !(total_kb > 0 && avail_kb > 0)
        invariant
            k <= lines@.len(),
            ls == views(lines@),
            ls == spec_lines(text@),
            key_total@ == "MemTotal:"@,
            key_avail@ == "MemAvailable:"@,
            (total_kb, avail_kb) == meminfo_state(ls.subrange(0, k as int)),
            total_kb > 0 && avail_kb > 0 ==> meminfo_state(ls) == (total_kb, avail_kb),
        decreases lines.len() - k,
    {
        assert(ls.subrange(0, k + 1).drop_last() =~= ls.subrange(0, k as int));
        assert(ls[k as int] == lines@[k as int]@);
        let ws = split_words(&lines[k]);
        assert(views(ws@).len() == ws@.len());
        if ws.len() >= 2 {
            assert(views(ws@)[0] == ws@[0]@);
            assert(views(ws@)[1] == ws@[1]@);
            match word_value(&ws, 1) {
                Some(v) => {
                    if chars_eq(&ws[0], &key_total) {
                        total_kb = v;
                    } else if chars_eq(&ws[0], &key_avail) {
                        avail_kb = v;
                    }
                },
                None => {},
            }
        }
        proof {
            if total_kb > 0 && avail_kb > 0 {
                lemma_meminfo_stops(ls, k as int + 1);
            }
        }
        k = k + 1;
    }
    proof {
        if !(total_kb > 0 && avail_kb > 0) {
            assert(ls.subrange(0, ls.len() as int) =~= ls);
        }
    }
    if total_kb == 0 {
        return (0, 0);
    }
    let total = times_1024(total_kb);
    let a = times_1024(avail_kb);
    let avail = if a < total {
        a
    } else {
        total
    };
    (total - avail, total)
}

/// Once both values are known, later lines change nothing.
proof fn lemma_meminfo_stops(ls: Seq<Seq<char>>, n: int)
    requires
        0 <= n <= ls.len(),
        meminfo_state(ls.subrange(0, n)).0 > 0,
        meminfo_state(ls.subrange(0, n)).1 > 0,
    ensures
        meminfo_state(ls) == meminfo_state(ls.subrange(0, n)),
    decreases ls.len() - n,
{
    if n == ls.len() {
        assert(ls.subrange(0, n) =~= ls);
    } else {
        assert(ls.subrange(0, n + 1).drop_last() =~= ls.subrange(0, n));
        lemma_meminfo_stops(ls, n + 1);
    }
}

pub open spec fn sat_add(a: u64, b: u64) -> u64 {
    if a as int + b as int > u64::MAX {
        u64::MAX
    } else {
        (a + b) as u64
    }
}

/// The texts of a list of names.
pub open spec fn name_texts(v: Seq<String>) -> Seq<Seq<char>> {
    v.map_values(|s: String| s@)
}

/// The received and sent bytes on one interface line of `/proc/net/dev`
/// (`name: rx_bytes ... tx_bytes ...`): `None` for a line without a colon,
/// for the loop-back interface and for an interface named in `down`; a
/// field that is missing or does not parse counts as 0.
pub open spec fn net_line(line: Seq<char>, down: Seq<Seq<char>>) -> Option<(u64, u64)> {
    match line.index_of_first(':') {
        None => None,
        Some(c) => if trim_seq(line.subrange(0, c)) == "lo"@ || down.contains(
            trim_seq(line.subrange(0, c)),
        ) {
            None
        } else {
            let ws = spec_words(line.subrange(c + 1, line.len() as int));
            let rx = if ws.len() > 0 && spec_parse_u64(ws[0]) is Some {
                spec_parse_u64(ws[0])->0
            } else {
                0
            };
            let tx = if ws.len() > 8 && spec_parse_u64(ws[8]) is Some {
                spec_parse_u64(ws[8])->0
            } else {
                0
            };
            Some((rx, tx))
        },
    }
}

/// The byte totals over the interface lines, added with saturation.
pub open spec fn net_totals(lines: Seq<Seq<char>>, down: Seq<Seq<char>>) -> (u64, u64)
    decreases lines.len(),
{
    if lines.len() == 0 {
        (0, 0)
    } else {
        let (r, t) = net_totals(lines.drop_last(), down);
        match net_line(lines.last(), down) {
            Some((a, b)) => (sat_add(r, a), sat_add(t, b)),
            None => (r, t),
        }
    }
}

/// The totals of `/proc/net/dev`: every line after the two header lines,
/// interfaces named in `down` left out.
pub open spec fn spec_net_dev(text: Seq<char>, down: Seq<Seq<char>>) -> (u64, u64) {
    let ls = spec_lines(text);
    if ls.len() <= 2 {
        (0, 0)
    } else {
        net_totals(ls.subrange(2, ls.len() as int), down)
    }
}

fn name_listed(names: &Vec<String>, name: &Vec<char>) -> (r: bool)
    ensures
        r == name_texts(names@).contains(name@),
{
    let mut i: usize = 0;
    while i < names.len()
        invariant
            i <= names@.len(),
            forall|j: int| 0 <= j < i ==> name_texts(names@)[j] != name@,
        decreases names.len() - i,
    {
        if chars_eq(&str_to_chars(names[i].as_str()), name) {
            assert(name_texts(names@)[i as int] == name@);
            return true;
        }
        i = i + 1;
    }
    false
}

fn net_line_of(line: &Vec<char>, down: &Vec<String>) -> (r: Option<(u64, u64)>)
    ensures
        r == net_line(line@, name_texts(down@)),
{
    let colon = match find_char(line, ':') {
        Some(c) => c,
        None => return None,
    };
    proof {
        line@.index_of_first_ensures(':');
    }
    let name = trim_chars(&chars_take(line, colon));
    proof {
        reveal_strlit("lo");
    }
    if chars_eq(&name, &str_to_chars("lo")) || name_listed(down, &name) {
        return None;
    }
    assert(colon < line.len());
    let ws = split_words(&chars_from(line, colon + 1));
    assert(views(ws@).len() == ws@.len());
    let rx = if ws.len() > 0 {
        assert(views(ws@)[0] == ws@[0]@);
        match word_value(&ws, 0) {
            Some(v) => v,
            None => 0,
        }
    } else {
        0
    };
    let tx = if ws.len() > 8 {
        assert(views(ws@)[8] == ws@[8]@);
        match word_value(&ws, 8) {
            Some(v) => v,
            None => 0,
        }
    } else {
        0
    };
    Some((rx, tx))
}

/// Reads the byte totals of the interfaces that are up, the loop-back one
/// left out, from `/proc/net/dev` (see [`spec_net_dev`]): `(received,
/// sent)`. `down` names the interfaces that are down.
pub fn parse_net_dev(text: &str, down: &Vec<String>) -> (r: (u64, u64))
    ensures
        r == spec_net_dev(text@, name_texts(down@)),
{
    let lines = split_lines(&str_to_chars(text));
    let ghost ls = views(lines@);
    assert(ls.len() == lines@.len());
    if lines.len() <= 2 {
        return (0, 0);
    }
    let ghost body = ls.subrange(2, ls.len() as int);
    let mut rx: u64 = 0;
    let mut tx: u64 = 0;
    let mut k: usize = 2;
    while k < lines.len()
        invariant
            2 <= k <= lines@.len(),
            ls == views(lines@),
            body == ls.subrange(2, ls.len() as int),
            (rx, tx) == net_totals(ls.subrange(2, k as int), name_texts(down@)),
        decreases lines.len() - k,
    {
        assert(ls.subrange(2, k + 1).drop_last() =~= ls.subrange(2, k as int));
        assert(ls[k as int] == lines@[k as int]@);
        match net_line_of(&lines[k], down) {
            Some((a, b)) => {
                rx = rx.saturating_add(a);
                tx = tx.saturating_add(b);
            },
            None => {},
        }
        k = k + 1;
    }
    (rx, tx)
}

/// The previous byte totals of the network counters.
#[derive(Debug, Clone, Copy, Default)]
pub struct NetCounter {
    pub last_rx: Option<u64>,
    pub last_tx: Option<u64>,
}

impl NetCounter {
    pub fn new() -> (c: Self)
        ensures
            c.last_rx is None,
            c.last_tx is None,
    {
        NetCounter { last_rx: None, last_tx: None }
    }

    /// Records the totals and returns the bytes received and sent since
    /// the previous reading (`None` for the first); totals that went
    /// backwards count as no traffic.
    pub fn advance(&mut self, rx: u64, tx: u64) -> (r: Option<(u64, u64)>)
        ensures
            final(self).last_rx == Some(rx),
            final(self).last_tx == Some(tx),
            match (old(self).last_rx, old(self).last_tx) {
                (Some(lr), Some(lt)) => r == Some(
                    (
                        if rx >= lr {
                            (rx - lr) as u64
                        } else {
                            0u64
                        },
                        if tx >= lt {
                            (tx - lt) as u64
                        } else {
                            0u64
                        },
                    ),
                ),
                _ => r is None,
            },
    {
        let prev = (self.last_rx, self.last_tx);
        self.last_rx = Some(rx);
        self.last_tx = Some(tx);
        match prev {
            (Some(lr), Some(lt)) => Some((rx.saturating_sub(lr), tx.saturating_sub(lt))),
            _ => None,
        }
    }
}

/// The last disk reading and when it was taken (seconds since the epoch).
#[derive(Debug, Clone, Copy, Default)]
pub struct DiskCache {
    pub last: Option<(u64, u64)>,
    pub last_secs: u64,
}

/// How long a disk reading is reused, in seconds.
pub const DISK_CACHE_SECS: u64 = 30;

impl DiskCache {
    pub fn new() -> (c: Self)
        ensures
            c.last is None,
            c.last_secs == 0,
    {
        DiskCache { last: None, last_secs: 0 }
    }

    /// The cached reading when it is younger than [`DISK_CACHE_SECS`] at
    /// `now` (a clock that went backwards counts as no time passed).
    pub fn fresh(&self, now: u64) -> (r: Option<(u64, u64)>)
        ensures
            r == (if self.last is Some && (if now >= self.last_secs {
                now - self.last_secs
            } else {
                0
            }) < DISK_CACHE_SECS {
                self.last
            } else {
                None
            }),
    {
        match self.last {
            Some(v) => if now.saturating_sub(self.last_secs) < DISK_CACHE_SECS {
                Some(v)
            } else {
                None
            },
            None => None,
        }
    }

    /// Keeps a new reading taken at `now`; a reading with a zero part is
    /// not kept.
    pub fn store(&mut self, used: u64, total: u64, now: u64)
        ensures
            used > 0 && total > 0 ==> final(self).last == Some((used, total)) && final(self).last_secs
                == now,
            !(used > 0 && total > 0) ==> *final(self) == *old(self),
    {
        if used > 0 && total > 0 {
            self.last = Some((used, total));
            self.last_secs = now;
        }
    }
}

/// A rectangle in screen coordinates.
#[derive(Debug, Clone, Copy, PartialEq, Eq, Structural)]
pub struct Rect {
    pub left: i32,
    pub top: i32,
    pub right: i32,
    pub bottom: i32,
}

/// Window classes of the shell (desktop, taskbar) that cover the screen
/// without being a full-screen application.
pub open spec fn is_shell_class(name: Seq<char>) -> bool {
    name == "Progman"@ || name == "WorkerW"@ || name == "Shell_TrayWnd"@
}

/// The foreground window is full-screen: it is not a shell window and its
/// rectangle is its monitor's rectangle. A missing window, rectangle or
/// monitor means no.
pub fn foreground_is_fullscreen(class_name: Option<String>, window: Option<Rect>, monitor: Option<Rect>) -> (r:
    bool)
    ensures
        r == (!(class_name matches Some(n) && is_shell_class(n@)) && window is Some && monitor is Some
            && window->0 == monitor->0),
{
    match class_name {
        Some(n) => {
            if str_eq(n.as_str(), "Progman") || str_eq(n.as_str(), "WorkerW") || str_eq(
                n.as_str(),
                "Shell_TrayWnd",
            ) {
                return false;
            }
        },
        None => {},
    }
    match (window, monitor) {
        (Some(w), Some(m)) => w.left == m.left && w.top == m.top && w.right == m.right && w.bottom
            == m.bottom,
        _ => false,
    }
}

/// Network rate sampling: the previous byte totals.
pub struct NetworkSampler {
    pub counter: NetCounter,
}

impl NetworkSampler {
    pub fn new() -> (s: Self)
        ensures
            s.counter.last_rx is None,
            s.counter.last_tx is None,
    {
        NetworkSampler { counter: NetCounter::new() }
    }

    /// The byte totals of the interfaces that are up and not the
    /// loop-back one, read from the text of `/proc/net/dev` (see
    /// [`spec_net_dev`]); `down` names the interfaces that are down. The
    /// rate baseline is left alone.
    pub fn sample_totals(&self, proc_net_dev: &str, down: &Vec<String>) -> (r: (u64, u64))
        ensures
            r == spec_net_dev(proc_net_dev@, name_texts(down@)),
    {
        parse_net_dev(proc_net_dev, down)
    }
}

/// The sampler's state: the memory constants read once at start (macOS)
/// and the cached disk reading.
pub struct MetricsInner {
    pub page_size: u64,
    pub memory_total: u64,
    pub disk: DiskCache,
}

/// The metrics sampler: CPU, network and the sampler's own state.
pub struct MetricsSampler {
    pub cpu: CpuMonitor,
    pub network: NetworkSampler,
    pub inner: MetricsInner,
}

impl MetricsSampler {
    /// A sampler with no readings yet, a 4096-byte page and no known
    /// memory total.
    pub fn new() -> (m: Self)
        ensures
            m.cpu.inner.last_total is None,
            m.network.counter.last_rx is None,
            m.inner.page_size == 4096,
            m.inner.memory_total == 0,
            m.inner.disk.last is None,
    {
        MetricsSampler {
            cpu: CpuMonitor::new(),
            network: NetworkSampler::new(),
            inner: MetricsInner { page_size: 4096, memory_total: 0, disk: DiskCache::new() },
        }
    }

    /// Takes the first CPU and network readings, so that the next sample
    /// has something to compare with.
    pub fn warmup(&mut self, cpu_total: u64, cpu_idle: u64, rx: u64, tx: u64)
        ensures
            final(self).cpu.inner.last_total == Some(cpu_total),
            final(self).cpu.inner.last_idle == Some(cpu_idle),
            final(self).network.counter.last_rx == Some(rx),
            final(self).network.counter.last_tx == Some(tx),
            final(self).inner == old(self).inner,
    {
        let _ = self.cpu.inner.advance(cpu_total, cpu_idle);
        let _ = self.network.counter.advance(rx, tx);
    }

    /// Records the memory constants (macOS): the page size, never below
    /// 4096, and the physical memory size.
    pub fn init(&mut self, page_size: u64, memory_total: u64)
        ensures
            final(self).inner.page_size == (if page_size > 4096 {
                page_size
            } else {
                4096
            }),
            final(self).inner.memory_total == memory_total,
            final(self).inner.disk == old(self).inner.disk,
    {
        self.inner.page_size = if page_size > 4096 {
            page_size
        } else {
            4096
        };
        self.inner.memory_total = memory_total;
    }

    /// Memory in use and in all on macOS from the page counts (free,
    /// inactive, speculative): available pages times the page size, taken
    /// from the total; without counts nothing is in use.
    pub fn mac_memory(&self, pages: Option<(u64, u64, u64)>) -> (r: (u64, u64))
        requires
            match pages {
                Some((f, i, s)) => f + i + s <= u64::MAX,
                None => true,
            },
        ensures
            r.0 <= r.1,
            match pages {
                Some((f, i, s)) => {
                    let avail = if (f + i + s) * self.inner.page_size > u64::MAX {
                        u64::MAX as int
                    } else {
                        (f + i + s) * self.inner.page_size
                    };
                    r == ((if self.inner.memory_total >= avail {
                        self.inner.memory_total - avail
                    } else {
                        0
                    }) as u64, self.inner.memory_total)
                },
                None => r == (0u64, self.inner.memory_total),
            },
    {
        match pages {
            Some((f, i, s)) => {
                let pages_avail = f + i + s;
                let avail = sat_mul(pages_avail, self.inner.page_size);
                (self.inner.memory_total.saturating_sub(avail), self.inner.memory_total)
            },
            None => (0, self.inner.memory_total),
        }
    }
}

/// `a.saturating_mul(b)`.
fn sat_mul(a: u64, b: u64) -> (r: u64)
    ensures
        r == (if a * b > u64::MAX {
            u64::MAX as int
        } else {
            a * b
        }),
{
    if b != 0 && a > 0xFFFF_FFFF_FFFF_FFFF / b {
        assert(a * b > u64::MAX) by (nonlinear_arith)
            requires
                b != 0,
                a > 0xFFFF_FFFF_FFFF_FFFFu64 / b,
        ;
        0xFFFF_FFFF_FFFF_FFFF
    } else {
        assert(a * b <= u64::MAX) by (nonlinear_arith)
            requires
                b == 0 || a <= 0xFFFF_FFFF_FFFF_FFFFu64 / b,
        ;
        a * b
    }
}

/// Memory use on Windows from the physical total and available sizes
/// (available capped at total); `(0, 0)` without a total.
pub fn windows_memory(total: u64, avail: u64) -> (r: (u64, u64))
    ensures
        r.0 <= r.1,
        total == 0 ==> r == (0u64, 0u64),
        total > 0 ==> r == ((total - (if avail < total {
            avail
        } else {
            total
        })) as u64, total),
{
    if total == 0 {
        return (0, 0);
    }
    let a = if avail < total {
        avail
    } else {
        total
    };
    (total - a, total)
}

/// Disk use from `statvfs` on Linux: blocks of the fragment size (the
/// block size when the fragment size is 0), free space being what an
/// unprivileged user may still write; `(0, 0)` without a size.
pub fn statvfs_usage(frsize: u64, bsize: u64, blocks: u64, bavail: u64) -> (r: (u64, u64))
    ensures
        r.0 <= r.1,
        ({
            let unit = if frsize > 0 {
                frsize
            } else {
                bsize
            };
            if unit == 0 || blocks == 0 {
                r == (0u64, 0u64)
            } else {
                let total = if blocks * unit > u64::MAX {
                    u64::MAX as int
                } else {
                    blocks * unit
                };
                let free = if bavail * unit > u64::MAX {
                    u64::MAX as int
                } else {
                    bavail * unit
                };
                r == ((if total >= free {
                    total - free
                } else {
                    0
                }) as u64, total as u64)
            }
        }),
{
    let unit = if frsize > 0 {
        frsize
    } else {
        bsize
    };
    if unit == 0 || blocks == 0 {
        return (0, 0);
    }
    let total = sat_mul(blocks, unit);
    let free = sat_mul(bavail, unit);
    (total.saturating_sub(free), total)
}

/// Disk use on Windows from `GetDiskFreeSpaceExW` on the system drive:
/// `(0, 0)` when the call failed or gave no size, else the free bytes
/// taken from the total (never below zero).
pub fn windows_disk_usage(ok: bool, total: u64, total_free: u64) -> (r: (u64, u64))
    ensures
        r.0 <= r.1,
        r == (if !ok || total == 0 {
            (0u64, 0u64)
        } else {
            ((if total >= total_free {
                total - total_free
            } else {
                0
            }) as u64, total)
        }),
{
    if !ok || total == 0 {
        return (0, 0);
    }
    (total.saturating_sub(total_free), total)
}

/// The root of the system drive, the drive and one backslash (trailing backslashes of the
/// drive dropped first); `C:` when the environment names no drive.
pub open spec fn spec_system_drive_root(drive: Option<Seq<char>>) -> Seq<char> {
    let d = match drive {
        Some(d) => d,
        None => "C:"@,
    };
    strip_suffixes(d, seq!['\\']) + seq!['\\']
}

/// The root of the system drive (see [`spec_system_drive_root`]) from the
/// value of `SystemDrive`.
pub fn system_drive_root(drive: Option<&str>) -> (r: String)
    ensures
        r@ == spec_system_drive_root(opt_str(drive)),
{
    let d = match drive {
        Some(d) => str_to_chars(d),
        None => str_to_chars("C:"),
    };
    let bs = vec!['\\'];
    assert(bs@ == seq!['\\']);
    let mut v = trim_end_matches_chars(&d, &bs);
    v.push('\\');
    chars_to_string(v.as_slice())
}

pub open spec fn opt_str(o: Option<&str>) -> Option<Seq<char>> {
    match o {
        Some(s) => Some(s@),
        None => None,
    }
}

/// Disk use from `statfs` on macOS: block size times block counts.
pub fn statfs_usage(bsize: u64, blocks: u64, bfree: u64) -> (r: (u64, u64))
    ensures
        r.0 <= r.1,
        ({
            if bsize == 0 || blocks == 0 {
                r == (0u64, 0u64)
            } else {
                let total = if blocks * bsize > u64::MAX {
                    u64::MAX as int
                } else {
                    blocks * bsize
                };
                let free = if bfree * bsize > u64::MAX {
                    u64::MAX as int
                } else {
                    bfree * bsize
                };
                r == ((if total >= free {
                    total - free
                } else {
                    0
                }) as u64, total as u64)
            }
        }),
{
    if bsize == 0 || blocks == 0 {
        return (0, 0);
    }
    let total = sat_mul(blocks, bsize);
    let free = sat_mul(bfree, bsize);
    (total.saturating_sub(free), total)
}

} // verus!
