//! Release version comparison and the checks made around the update
//! query and the links the app opens.

use vstd::prelude::*;
use crate::text::{
    str_to_chars, chars_to_string, seq_starts_with, chars_starts_with, views, trim_start_seq,
    trim_start_chars, split_lines, spec_lines, split_words, spec_words,
};
use crate::platform::Platform;
use crate::decimal::{spec_parse_u32, parse_u32};

verus! {

/// Splitting `s` at `sep`, read from the left: the finished pieces and the
/// piece still open.
pub open spec fn split_state(s: Seq<char>, sep: char) -> (Seq<Seq<char>>, Seq<char>)
    decreases s.len(),
{
    if s.len() == 0 {
        (Seq::empty(), Seq::empty())
    } else {
        let (done, cur) = split_state(s.drop_last(), sep);
        if s.last() == sep {
            (done.push(cur), Seq::empty())
        } else {
            (done, cur.push(s.last()))
        }
    }
}

/// What `str::split(sep)` yields: every piece between separators, empty
/// pieces included.
pub open spec fn spec_split(s: Seq<char>, sep: char) -> Seq<Seq<char>> {
    let (done, cur) = split_state(s, sep);
    done.push(cur)
}

/// Splits at `sep` (see [`spec_split`]).
pub fn split_char(s: &Vec<char>, sep: char) -> (r: Vec<Vec<char>>)
    ensures
        views(r@) == spec_split(s@, sep),
{
    let mut done: Vec<Vec<char>> = Vec::new();
    let mut cur: Vec<char> = Vec::new();
    let mut k: usize = 0;
    while k < s.len()
        invariant
            k <= s@.len(),
            (views(done@), cur@) == split_state(s@.subrange(0, k as int), sep),
        decreases s.len() - k,
    {
        assert(s@.subrange(0, k + 1).drop_last() =~= s@.subrange(0, k as int));
        let c = s[k];
        if c == sep {
            let ghost d = done@;
            done.push(cur);
            cur = Vec::new();
            assert(views(done@) =~= views(d).push(done@.last()@));
        } else {
            cur.push(c);
        }
        k = k + 1;
    }
    assert(s@.subrange(0, s@.len() as int) =~= s@);
    let ghost d = done@;
    done.push(cur);
    assert(views(done@) =~= views(d).push(done@.last()@));
    done
}

/// The number in one dotted part: the text before its first `-`, read as
/// a `u32` (`None` when it does not parse).
pub open spec fn part_number(p: Seq<char>) -> Option<u32> {
    spec_parse_u32(spec_split(p, '-')[0])
}

/// The numbers of the parts that parse, in order.
pub open spec fn numbers_of(parts: Seq<Seq<char>>) -> Seq<u32>
    decreases parts.len(),
{
    if parts.len() == 0 {
        Seq::empty()
    } else {
        match part_number(parts.last()) {
            Some(v) => numbers_of(parts.drop_last()).push(v),
            None => numbers_of(parts.drop_last()),
        }
    }
}

/// The numbers of a version text `a.b.c-pre`: parts that do not parse are
/// skipped.
pub open spec fn version_numbers(s: Seq<char>) -> Seq<u32> {
    numbers_of(spec_split(s, '.'))
}

/// Number `i` of a version, 0 when it has fewer.
pub open spec fn number_at(v: Seq<u32>, i: int) -> u32 {
    if i < v.len() {
        v[i]
    } else {
        0
    }
}

/// `l` is newer than `c` when, comparing the first three numbers in order,
/// the first that differs is larger in `l`.
pub open spec fn newer_from(l: Seq<u32>, c: Seq<u32>, i: int) -> bool
    decreases 3 - i,
{
    if i >= 3 {
        false
    } else if number_at(l, i) > number_at(c, i) {
        true
    } else if number_at(l, i) < number_at(c, i) {
        false
    } else {
        newer_from(l, c, i + 1)
    }
}

pub open spec fn spec_semver_gt(latest: Seq<char>, current: Seq<char>) -> bool {
    newer_from(version_numbers(latest), version_numbers(current), 0)
}

fn version_numbers_of(s: &str) -> (r: Vec<u32>)
    ensures
        r@ == version_numbers(s@),
{
    let parts = split_char(&str_to_chars(s), '.');
    let ghost ps = views(parts@);
    let mut r: Vec<u32> = Vec::new();
    let mut k: usize = 0;
    while k < parts.len()
        invariant
            k <= parts@.len(),
            ps == views(parts@),
            ps == spec_split(s@, '.'),
            r@ == numbers_of(ps.subrange(0, k as int)),
        decreases parts.len() - k,
    {
        assert(ps.subrange(0, k + 1).drop_last() =~= ps.subrange(0, k as int));
        let pieces = split_char(&parts[k], '-');
        assert(views(pieces@).len() == pieces@.len());
        assert(views(pieces@)[0] == pieces@[0]@);
        assert(ps[k as int] == parts@[k as int]@);
        let head = chars_to_string(pieces[0].as_slice());
        match parse_u32(head.as_str()) {
            Some(v) => r.push(v),
            None => {},
        }
        k = k + 1;
    }
    assert(ps.subrange(0, ps.len() as int) =~= ps);
    r
}

/// Whether version `latest` is newer than `current` (see
/// [`spec_semver_gt`]).
pub fn semver_gt(latest: &str, current: &str) -> (r: bool)
    ensures
        r == spec_semver_gt(latest@, current@),
{
    let l = version_numbers_of(latest);
    let c = version_numbers_of(current);
    let mut i: usize = 0;
    while i < 3
        invariant
            i <= 3,
            l@ == version_numbers(latest@),
            c@ == version_numbers(current@),
            newer_from(l@, c@, i as int) == newer_from(l@, c@, 0),
        decreases 3 - i,
    {
        let lv = if i < l.len() {
            l[i]
        } else {
            0
        };
        let cv = if i < c.len() {
            c[i]
        } else {
            0
        };
        if lv > cv {
            return true;
        }
        if lv < cv {
            return false;
        }
        i = i + 1;
    }
    false
}

proof fn lemma_newer_irreflexive(v: Seq<u32>, i: int)
    ensures
        !newer_from(v, v, i),
    decreases 3 - i,
{
    if i < 3 {
        lemma_newer_irreflexive(v, i + 1);
    }
}

proof fn lemma_newer_asymmetric(a: Seq<u32>, b: Seq<u32>, i: int)
    ensures
        newer_from(a, b, i) ==> !newer_from(b, a, i),
    decreases 3 - i,
{
    if i < 3 {
        lemma_newer_asymmetric(a, b, i + 1);
    }
}

/// No version is newer than itself, and of two versions at most one is
/// newer than the other.
pub proof fn law_semver_order(a: Seq<char>, b: Seq<char>)
    ensures
        !spec_semver_gt(a, a),
        spec_semver_gt(a, b) ==> !spec_semver_gt(b, a),
{
    lemma_newer_irreflexive(version_numbers(a), 0);
    lemma_newer_asymmetric(version_numbers(a), version_numbers(b), 0);
}

/// Splitting more text keeps the pieces already finished.
proof fn lemma_split_prefix(a: Seq<char>, b: Seq<char>, sep: char)
    ensures
        split_state(a + b, sep).0.len() >= split_state(a, sep).0.len(),
        forall|i: int|
            0 <= i < split_state(a, sep).0.len() ==> #[trigger] split_state(a + b, sep).0[i]
                == split_state(a, sep).0[i],
    decreases b.len(),
{
    if b.len() == 0 {
        assert(a + b =~= a);
    } else {
        assert((a + b).drop_last() =~= a + b.drop_last());
        lemma_split_prefix(a, b.drop_last(), sep);
    }
}

/// Text without the separator only extends the open piece.
proof fn lemma_split_plain(a: Seq<char>, b: Seq<char>, sep: char)
    requires
        !b.contains(sep),
    ensures
        split_state(a + b, sep) == (split_state(a, sep).0, split_state(a, sep).1 + b),
    decreases b.len(),
{
    if b.len() == 0 {
        assert(a + b =~= a);
        assert(split_state(a, sep).1 + b =~= split_state(a, sep).1);
    } else {
        assert((a + b).drop_last() =~= a + b.drop_last());
        assert(!b.drop_last().contains(sep)) by {
            if b.drop_last().contains(sep) {
                let i = choose|i: int| 0 <= i < b.drop_last().len() && b.drop_last()[i] == sep;
                assert(b[i] == sep);
            }
        }
        assert(b[b.len() - 1] != sep);
        lemma_split_plain(a, b.drop_last(), sep);
        assert(split_state(a, sep).1 + b.drop_last() + seq![b.last()] =~= split_state(a, sep).1 + b);
    }
}

/// The first piece of `p + sep + t` is `p`, when `p` holds no `sep`.
proof fn lemma_split_first(p: Seq<char>, t: Seq<char>, sep: char)
    requires
        !p.contains(sep),
    ensures
        spec_split(p + seq![sep] + t, sep)[0] == p,
        spec_split(p, sep) == seq![p],
{
    lemma_split_plain(Seq::<char>::empty(), p, sep);
    assert(Seq::<char>::empty() + p =~= p);
    assert(split_state(Seq::<char>::empty(), sep) == (Seq::<Seq<char>>::empty(), Seq::<char>::empty()));
    assert(Seq::<char>::empty() + p == p);
    let a = p + seq![sep];
    assert(a.drop_last() =~= p);
    assert(split_state(a, sep).0 == seq![p]);
    lemma_split_prefix(a, t, sep);
    assert(split_state(a + t, sep).0[0] == p);
}

/// A pre-release suffix does not count: the number of a dotted part `p`
/// followed by `-` and anything is the number of `p` itself (for a `p`
/// without a `-` of its own).
pub proof fn law_part_number_ignores_suffix(p: Seq<char>, t: Seq<char>)
    requires
        !p.contains('-'),
    ensures
        part_number(p + seq!['-'] + t) == part_number(p),
        part_number(p) == spec_parse_u32(p),
{
    lemma_split_first(p, t, '-');
}

/// Splitting `a + b` finishes the pieces of `a` first, then splits what is
/// left open of `a` together with `b`.
proof fn lemma_split_concat(a: Seq<char>, b: Seq<char>, sep: char)
    ensures
        spec_split(a + b, sep) == split_state(a, sep).0 + spec_split(split_state(a, sep).1 + b, sep),
    decreases b.len(),
{
    let (done, cur) = split_state(a, sep);
    if b.len() == 0 {
        assert(a + b =~= a);
        assert(cur + b =~= cur);
        lemma_open_piece_within(a, sep);
        assert(!cur.contains(sep)) by {
            lemma_open_piece_no_sep(a, sep);
        }
        lemma_split_plain(Seq::<char>::empty(), cur, sep);
        assert(Seq::<char>::empty() + cur =~= cur);
        assert(spec_split(cur, sep) =~= seq![cur]);
        assert(done + seq![cur] =~= done.push(cur));
    } else {
        let b2 = b.drop_last();
        let z = b.last();
        lemma_split_concat(a, b2, sep);
        assert((a + b).drop_last() =~= a + b2);
        assert((cur + b).drop_last() =~= cur + b2);
        assert((a + b).last() == z);
        assert((cur + b).last() == z);
        let (d1, c1) = split_state(a + b2, sep);
        let (e1, f1) = split_state(cur + b2, sep);
        assert(d1.push(c1) == (done + e1).push(f1)) by {
            assert(done + e1.push(f1) =~= (done + e1).push(f1));
        }
        assert(d1 =~= d1.push(c1).drop_last());
        assert(done + e1 =~= (done + e1).push(f1).drop_last());
        assert(d1 == done + e1);
        assert(c1 == d1.push(c1).last());
        if z == sep {
            assert(done + e1.push(f1).push(Seq::<char>::empty()) =~= d1.push(c1).push(Seq::<char>::empty()));
        } else {
            assert(done + e1.push(f1.push(z)) =~= d1.push(c1.push(z)));
        }
    }
}

/// The open piece never holds the separator.
proof fn lemma_open_piece_no_sep(s: Seq<char>, sep: char)
    ensures
        !split_state(s, sep).1.contains(sep),
    decreases s.len(),
{
    if s.len() > 0 {
        lemma_open_piece_no_sep(s.drop_last(), sep);
        let c0 = split_state(s.drop_last(), sep).1;
        let c = split_state(s, sep).1;
        if c.contains(sep) {
            let i = choose|i: int| 0 <= i < c.len() && c[i] == sep;
            if s.last() != sep {
                if i < c0.len() {
                    assert(c0[i] == sep);
                }
            }
        }
    }
}

/// The first piece of `u + v`, for a `u` without the separator, is `u`
/// followed by the first piece of `v`.
proof fn lemma_split_first_piece(u: Seq<char>, v: Seq<char>, sep: char)
    requires
        !u.contains(sep),
    ensures
        spec_split(u + v, sep)[0] == u + spec_split(v, sep)[0],
    decreases v.len(),
{
    if v.len() == 0 {
        assert(u + v =~= u);
        lemma_split_first(u, Seq::<char>::empty(), sep);
        lemma_split_first(Seq::<char>::empty(), Seq::<char>::empty(), sep);
        assert(u + Seq::<char>::empty() =~= u);
    } else {
        let c = v[0];
        let v2 = v.drop_first();
        if c == sep {
            assert(u + v =~= u + seq![sep] + v2);
            lemma_split_first(u, v2, sep);
            assert(v =~= Seq::<char>::empty() + seq![sep] + v2);
            lemma_split_first(Seq::<char>::empty(), v2, sep);
            assert(u + Seq::<char>::empty() =~= u);
        } else {
            let u2 = u.push(c);
            assert(!u2.contains(sep)) by {
                if u2.contains(sep) {
                    let i = choose|i: int| 0 <= i < u2.len() && u2[i] == sep;
                    if i < u.len() {
                        assert(u[i] == sep);
                    }
                }
            }
            assert(!seq![c].contains(sep)) by {
                if seq![c].contains(sep) {
                    let i = choose|i: int| 0 <= i < 1 && seq![c][i] == sep;
                }
            }
            lemma_split_first_piece(u2, v2, sep);
            lemma_split_first_piece(seq![c], v2, sep);
            assert(u + v =~= u2 + v2);
            assert(v =~= seq![c] + v2);
            assert(u2 + spec_split(v2, sep)[0] =~= u + (seq![c] + spec_split(v2, sep)[0]));
        }
    }
}

/// The numbers of two runs of parts, one after the other.
proof fn lemma_numbers_concat(ps: Seq<Seq<char>>, qs: Seq<Seq<char>>)
    ensures
        numbers_of(ps + qs) == numbers_of(ps) + numbers_of(qs),
    decreases qs.len(),
{
    if qs.len() == 0 {
        assert(ps + qs =~= ps);
        assert(numbers_of(ps) + numbers_of(qs) =~= numbers_of(ps));
    } else {
        assert((ps + qs).drop_last() =~= ps + qs.drop_last());
        lemma_numbers_concat(ps, qs.drop_last());
        assert((ps + qs).last() == qs.last());
        match part_number(qs.last()) {
            Some(v) => {
                assert(numbers_of(ps) + numbers_of(qs.drop_last()).push(v) =~= (numbers_of(ps)
                    + numbers_of(qs.drop_last())).push(v));
            },
            None => {},
        }
    }
}

/// Versions that agree in their first three numbers: neither is newer.
proof fn lemma_newer_first_three(l: Seq<u32>, c: Seq<u32>, i: int)
    requires
        0 <= i,
        forall|k: int| i <= k < 3 ==> number_at(l, k) == number_at(c, k),
    ensures
        !newer_from(l, c, i),
    decreases 3 - i,
{
    if i < 3 {
        assert(number_at(l, i) == number_at(c, i));
        lemma_newer_first_three(l, c, i + 1);
    }
}

/// A pre-release suffix does not make a version newer: the numbers of
/// `x` followed by `-` and any text `t` begin with the numbers of `x` (for
/// an `x` without a `-`), so once `x` has its three numbers, neither of
/// `x` and `x-t` is newer than the other.
pub proof fn law_prerelease_not_newer(x: Seq<char>, t: Seq<char>)
    requires
        !x.contains('-'),
    ensures
        version_numbers(x + seq!['-'] + t).len() >= version_numbers(x).len(),
        forall|i: int|
            0 <= i < version_numbers(x).len() ==> #[trigger] version_numbers(x + seq!['-'] + t)[i]
                == version_numbers(x)[i],
        version_numbers(x).len() >= 3 ==> !spec_semver_gt(x + seq!['-'] + t, x) && !spec_semver_gt(
            x,
            x + seq!['-'] + t,
        ),
{
    let tail = seq!['-'] + t;
    assert(x + seq!['-'] + t =~= x + tail);
    let (done, cur) = split_state(x, '.');
    lemma_split_concat(x, tail, '.');
    lemma_open_piece_within(x, '.');
    assert(!cur.contains('-')) by {
        if cur.contains('-') {
            let i = choose|i: int| 0 <= i < cur.len() && cur[i] == '-';
            let j = choose|j: int| 0 <= j < x.len() && x[j] == cur[i];
        }
    }
    lemma_open_piece_no_sep(x, '.');
    let u = cur.push('-');
    assert(!u.contains('.')) by {
        if u.contains('.') {
            let i = choose|i: int| 0 <= i < u.len() && u[i] == '.';
            if i < cur.len() {
                assert(cur[i] == '.');
            }
        }
    }
    assert(cur + tail =~= u + t);
    let qs = spec_split(u + t, '.');
    lemma_split_first_piece(u, t, '.');
    let t0 = spec_split(t, '.')[0];
    assert(qs[0] == u + t0);
    assert(u + t0 =~= cur + seq!['-'] + t0);
    law_part_number_ignores_suffix(cur, t0);
    assert(qs.len() >= 1);
    assert(qs =~= seq![qs[0]] + qs.drop_first());
    lemma_numbers_concat(seq![qs[0]], qs.drop_first());
    lemma_numbers_concat(done, qs);
    lemma_numbers_concat(done, seq![cur]);
    assert(spec_split(x, '.') =~= done + seq![cur]);
    assert(seq![qs[0]].drop_last() =~= Seq::<Seq<char>>::empty());
    assert(seq![cur].drop_last() =~= Seq::<Seq<char>>::empty());
    assert(numbers_of(seq![qs[0]]) == numbers_of(seq![cur]));
    let nx = version_numbers(x);
    let ny = version_numbers(x + tail);
    assert(ny == nx + numbers_of(qs.drop_first())) by {
        assert(numbers_of(done) + (numbers_of(seq![cur]) + numbers_of(qs.drop_first())) =~= numbers_of(done)
            + numbers_of(seq![cur]) + numbers_of(qs.drop_first()));
    }
    if nx.len() >= 3 {
        assert forall|k: int| 0 <= k < 3 implies number_at(ny, k) == number_at(nx, k) by {
            assert(ny[k] == nx[k]);
        }
        lemma_newer_first_three(ny, nx, 0);
        lemma_newer_first_three(nx, ny, 0);
    }
}

/// Every character of the open piece comes from the text.
proof fn lemma_open_piece_within(s: Seq<char>, sep: char)
    ensures
        forall|i: int| 0 <= i < split_state(s, sep).1.len() ==> exists|j: int|
            0 <= j < s.len() && s[j] == #[trigger] split_state(s, sep).1[i],
    decreases s.len(),
{
    if s.len() > 0 {
        lemma_open_piece_within(s.drop_last(), sep);
        let (d0, c0) = split_state(s.drop_last(), sep);
        let c = split_state(s, sep).1;
        assert forall|i: int| 0 <= i < c.len() implies exists|j: int| 0 <= j < s.len() && s[j] == #[trigger] c[i] by {
            if s.last() != sep {
                if i < c0.len() {
                    assert(c[i] == c0[i]);
                    let j = choose|j: int| 0 <= j < s.drop_last().len() && s.drop_last()[j] == c0[i];
                    assert(s[j] == c[i]);
                } else {
                    assert(s[s.len() - 1] == c[i]);
                }
            }
        }
    }
}

/// A link may be opened only when it starts with `http://` or `https://`.
pub open spec fn spec_url_allowed(url: Seq<char>) -> bool {
    seq_starts_with(url, "http://"@) || seq_starts_with(url, "https://"@)
}

/// Whether `url` may be opened (see [`spec_url_allowed`]).
pub fn url_allowed(url: &str) -> (r: bool)
    ensures
        r == spec_url_allowed(url@),
{
    let u = str_to_chars(url);
    chars_starts_with(&u, &str_to_chars("http://")) || chars_starts_with(&u, &str_to_chars("https://"))
}

/// The refusal text for a link with another scheme.
pub open spec fn url_refusal(url: Seq<char>) -> Seq<char> {
    "不允许的 URL 协议："@ + url
}

/// Checks a link before it is opened: `Err` with [`url_refusal`] exactly
/// when [`spec_url_allowed`] does not hold.
pub fn check_url(url: &str) -> (r: Result<(), String>)
    ensures
        r is Ok <==> spec_url_allowed(url@),
        r matches Err(e) ==> e@ == url_refusal(url@),
{
    if url_allowed(url) {
        Ok(())
    } else {
        let mut v = str_to_chars("不允许的 URL 协议：");
        let mut u = str_to_chars(url);
        v.append(&mut u);
        Err(chars_to_string(v.as_slice()))
    }
}

/// A release tag without its leading `v` characters.
pub open spec fn strip_v(s: Seq<char>) -> Seq<char>
    decreases s.len(),
{
    if s.len() > 0 && s[0] == 'v' {
        strip_v(s.drop_first())
    } else {
        s
    }
}

/// `tag.trim_start_matches('v')`.
pub fn trim_leading_v(tag: &str) -> (r: String)
    ensures
        r@ == strip_v(tag@),
{
    let cs = str_to_chars(tag);
    let mut i: usize = 0;
    assert(cs@.subrange(0, cs@.len() as int) =~= cs@);
    while i < cs.len() && cs[i] == 'v'
        invariant
            i <= cs@.len(),
            cs@ == tag@,
            strip_v(cs@.subrange(i as int, cs@.len() as int)) == strip_v(tag@),
        decreases cs.len() - i,
    {
        assert(cs@.subrange(i as int, cs@.len() as int).drop_first() =~= cs@.subrange(
            i + 1,
            cs@.len() as int,
        ));
        i = i + 1;
    }
    let mut out: Vec<char> = Vec::new();
    let mut k: usize = i;
    while k < cs.len()
        invariant
            i <= k <= cs@.len(),
            out@ == cs@.subrange(i as int, k as int),
        decreases cs.len() - k,
    {
        out.push(cs[k]);
        assert(out@ =~= cs@.subrange(i as int, k + 1));
        k = k + 1;
    }
    chars_to_string(out.as_slice())
}

/// The answer to an update check.
#[derive(Debug, Clone)]
pub struct UpdateInfo {
    pub current: String,
    pub latest: String,
    pub has_update: bool,
    pub url: String,
    pub notes: String,
}

/// Builds the answer once the latest release is known: an update exists
/// exactly when `latest` is newer than `current`.
pub fn update_info(current: String, latest: String, url: String, notes: String) -> (r: UpdateInfo)
    ensures
        r.has_update == spec_semver_gt(latest@, current@),
        r.current == current,
        r.latest == latest,
        r.url == url,
        r.notes == notes,
{
    let has_update = semver_gt(latest.as_str(), current.as_str());
    UpdateInfo { current, latest, has_update, url, notes }
}

/// The value on one line of `reg query ... /v NAME` output: on a line that,
/// leading white space aside, starts with `name`, its third word.
pub open spec fn reg_line_value(line: Seq<char>, name: Seq<char>) -> Option<Seq<char>> {
    if seq_starts_with(trim_start_seq(line), name) && spec_words(line).len() > 2 {
        Some(spec_words(line)[2])
    } else {
        None
    }
}

/// The value of the first line that yields one.
pub open spec fn first_reg_value(lines: Seq<Seq<char>>, name: Seq<char>) -> Option<Seq<char>>
    decreases lines.len(),
{
    if lines.len() == 0 {
        None
    } else {
        match reg_line_value(lines[0], name) {
            Some(v) => Some(v),
            None => first_reg_value(lines.drop_first(), name),
        }
    }
}

/// Reads a value out of `reg query` output (see [`first_reg_value`]). A
/// line that starts with the name but has fewer than three words is passed
/// over.
pub fn reg_query_value(text: &str, name: &str) -> (r: Option<String>)
    ensures
        match first_reg_value(spec_lines(text@), name@) {
            Some(v) => r is Some && r->0@ == v,
            None => r is None,
        },
{
    let lines = split_lines(&str_to_chars(text));
    let n = str_to_chars(name);
    let ghost ls = views(lines@);
    let mut k: usize = 0;
    assert(ls.subrange(0, ls.len() as int) =~= ls);
    while k < lines.len()
        invariant
            k <= lines@.len(),
            ls == views(lines@),
            ls == spec_lines(text@),
            n@ == name@,
            first_reg_value(ls.subrange(k as int, ls.len() as int), name@) == first_reg_value(ls, name@),
        decreases lines.len() - k,
    {
        let line = &lines[k];
        assert(ls[k as int] == line@);
        assert(ls.subrange(k as int, ls.len() as int)[0] == ls[k as int]);
        assert(ls.subrange(k as int, ls.len() as int).drop_first() =~= ls.subrange(
            k + 1,
            ls.len() as int,
        ));
        if chars_starts_with(&trim_start_chars(line), &n) {
            let words = split_words(line);
            assert(views(words@).len() == words@.len());
            if words.len() > 2 {
                assert(views(words@)[2] == words@[2]@);
                return Some(chars_to_string(words[2].as_slice()));
            }
        }
        k = k + 1;
    }
    None
}

/// What the settings page shows about the WebView2 runtime.
#[derive(Debug, Clone)]
pub struct Webview2Status {
    pub os: String,
    pub available: bool,
    pub version: String,
    pub hint: String,
}

pub open spec fn webview2_hint() -> Seq<char> {
    "未检测到 WebView2 运行时，请先安装 Microsoft Edge WebView2 Runtime（永驻版）后再运行本应用：\nhttps://developer.microsoft.com/en-us/microsoft-edge/webview2/"@
}

/// The runtime status on platform `p` named `os`: on Windows it is
/// available exactly when a version was read (else the install hint is
/// given); elsewhere the system web view is always there (version `n/a`).
pub fn webview2_status(p: Platform, os: &str, version: Option<String>) -> (r: Webview2Status)
    ensures
        p == Platform::Windows ==> r.os@ == "windows"@ && match version {
            Some(v) => r.available && r.version == v && r.hint@ == Seq::<char>::empty(),
            None => !r.available && r.version@ == Seq::<char>::empty() && r.hint@ == webview2_hint(),
        },
        p != Platform::Windows ==> r.os@ == os@ && r.available && r.version@ == "n/a"@ && r.hint@
            == Seq::<char>::empty(),
{
    if p == Platform::Windows {
        match version {
            Some(v) => Webview2Status {
                os: "windows".to_string(),
                available: true,
                version: v,
                hint: String::new(),
            },
            None => Webview2Status {
                os: "windows".to_string(),
                available: false,
                version: String::new(),
                hint: "未检测到 WebView2 运行时，请先安装 Microsoft Edge WebView2 Runtime（永驻版）后再运行本应用：\nhttps://developer.microsoft.com/en-us/microsoft-edge/webview2/".to_string(),
            },
        }
    } else {
        Webview2Status {
            os: os.to_string(),
            available: true,
            version: "n/a".to_string(),
            hint: String::new(),
        }
    }
}

/// Whether the screen-capture framework can take screenshots: macOS 14 or
/// later, read from the major number of `sw_vers -productVersion` output
/// (`None` when it could not be run).
pub open spec fn spec_sck_available(product_version: Option<Seq<char>>) -> bool {
    match product_version {
        None => false,
        Some(v) => match spec_parse_u32(spec_split(crate::text::trim_seq(v), '.')[0]) {
            Some(major) => major >= 14,
            None => false,
        },
    }
}

pub fn sck_available(product_version: Option<String>) -> (r: bool)
    ensures
        r == spec_sck_available(match product_version {
            Some(s) => Some(s@),
            None => None,
        }),
{
    match product_version {
        None => false,
        Some(v) => {
            let pieces = split_char(&crate::text::trim_chars(&str_to_chars(v.as_str())), '.');
            assert(views(pieces@).len() == pieces@.len());
            assert(views(pieces@)[0] == pieces@[0]@);
            match parse_u32(chars_to_string(pieces[0].as_slice()).as_str()) {
                Some(major) => major >= 14,
                None => false,
            }
        },
    }
}

} // verus!
