//! Post-processing of the text returned by the system OCR engine.
//!
//! The system engine joins every recognised word with a space, and it cuts
//! Chinese text into one-character words, so raw output reads
//! `OCR 的 识 别`. Spaces that touch a CJK character are dropped; spaces
//! between Latin words stay.

use vstd::prelude::*;
use crate::text::{str_to_chars, chars_to_string};

verus! {

/// Whether `c` belongs to the CJK context: ideographs, CJK punctuation and
/// full-width forms.
pub open spec fn spec_is_cjk(c: char) -> bool {
    let u = c as u32;
    ||| 0x2E80 <= u <= 0x2EFF
    ||| 0x3000 <= u <= 0x303F
    ||| 0x3400 <= u <= 0x4DBF
    ||| 0x4E00 <= u <= 0x9FFF
    ||| 0xF900 <= u <= 0xFAFF
    ||| 0xFE30 <= u <= 0xFE4F
    ||| 0xFF00 <= u <= 0xFFEF
    ||| 0x20000 <= u <= 0x2FA1F
}

/// `\r\n` and a lone `\r` both become `\n`.
pub open spec fn normalize_newlines(s: Seq<char>) -> Seq<char>
    decreases s.len(),
{
    if s.len() == 0 {
        s
    } else if s[0] == '\r' && s.len() >= 2 && s[1] == '\n' {
        seq!['\n'] + normalize_newlines(s.subrange(2, s.len() as int))
    } else if s[0] == '\r' {
        seq!['\n'] + normalize_newlines(s.subrange(1, s.len() as int))
    } else {
        seq![s[0]] + normalize_newlines(s.subrange(1, s.len() as int))
    }
}

/// The nearest non-space character before position `i` is CJK.
pub open spec fn prev_nonspace_cjk(cs: Seq<char>, i: int) -> bool {
    exists|j: int|
        0 <= j < i && cs[j] != ' ' && spec_is_cjk(cs[j]) && (forall|k: int|
            j < k < i ==> cs[k] == ' ')
}

/// The nearest non-space character after position `i` is CJK.
pub open spec fn next_nonspace_cjk(cs: Seq<char>, i: int) -> bool {
    exists|j: int|
        i < j < cs.len() && cs[j] != ' ' && spec_is_cjk(cs[j]) && (forall|k: int|
            i < k < j ==> cs[k] == ' ')
}

/// Character `i` survives: it is not a space, or neither neighbouring
/// non-space character is CJK.
pub open spec fn keeps(cs: Seq<char>, i: int) -> bool {
    cs[i] != ' ' || (!prev_nonspace_cjk(cs, i) && !next_nonspace_cjk(cs, i))
}

/// The surviving characters among the first `n`, in order.
pub open spec fn kept_prefix(cs: Seq<char>, n: int) -> Seq<char>
    decreases n,
{
    if n <= 0 {
        Seq::empty()
    } else if keeps(cs, n - 1) {
        kept_prefix(cs, n - 1).push(cs[n - 1])
    } else {
        kept_prefix(cs, n - 1)
    }
}

/// What `tidy_text` returns for `raw`.
pub open spec fn spec_tidy(raw: Seq<char>) -> Seq<char> {
    let cs = normalize_newlines(raw);
    kept_prefix(cs, cs.len() as int)
}

/// Whether a character is in the CJK context (see [`spec_is_cjk`]).
pub fn is_cjk(c: char) -> (r: bool)
    ensures
        r == spec_is_cjk(c),
{
    let u = c as u32;
    (0x2E80 <= u && u <= 0x2EFF) || (0x3000 <= u && u <= 0x303F) || (0x3400 <= u && u
        <= 0x4DBF) || (0x4E00 <= u && u <= 0x9FFF) || (0xF900 <= u && u <= 0xFAFF) || (0xFE30
        <= u && u <= 0xFE4F) || (0xFF00 <= u && u <= 0xFFEF) || (0x20000 <= u && u <= 0x2FA1F)
}

/// Rewrites line endings as in [`normalize_newlines`].
pub fn normalize_newline_chars(raw: &Vec<char>) -> (out: Vec<char>)
    ensures
        out@ == normalize_newlines(raw@),
{
    let mut out: Vec<char> = Vec::new();
    let mut i: usize = 0;
    assert(raw@.subrange(0, raw@.len() as int) =~= raw@);
    while i < raw.len()
        invariant
            i <= raw.len(),
            out@ + normalize_newlines(raw@.subrange(i as int, raw@.len() as int)) == normalize_newlines(raw@),
        decreases raw.len() - i,
    {
        let ghost rest = raw@.subrange(i as int, raw@.len() as int);
        let c = raw[i];
        if c == '\r' && i + 1 < raw.len() && raw[i + 1] == '\n' {
            assert(rest.subrange(2, rest.len() as int) =~= raw@.subrange(i + 2, raw@.len() as int));
            let ghost old_out = out@;
            out.push('\n');
            i = i + 2;
            assert(out@ + normalize_newlines(raw@.subrange(i as int, raw@.len() as int)) =~= old_out + normalize_newlines(rest));
        } else if c == '\r' {
            assert(rest.subrange(1, rest.len() as int) =~= raw@.subrange(i + 1, raw@.len() as int));
            let ghost old_out = out@;
            out.push('\n');
            i = i + 1;
            assert(out@ + normalize_newlines(raw@.subrange(i as int, raw@.len() as int)) =~= old_out + normalize_newlines(rest));
        } else {
            assert(rest.subrange(1, rest.len() as int) =~= raw@.subrange(i + 1, raw@.len() as int));
            let ghost old_out = out@;
            out.push(c);
            i = i + 1;
            assert(out@ + normalize_newlines(raw@.subrange(i as int, raw@.len() as int)) =~= old_out + normalize_newlines(rest));
        }
    }
    assert(raw@.subrange(i as int, raw@.len() as int) =~= Seq::<char>::empty());
    out
}


/// Looks past the spaces that follow position `i`.
fn next_nonspace_is_cjk(cs: &Vec<char>, i: usize) -> (r: bool)
    requires
        i < cs.len(),
    ensures
        r == next_nonspace_cjk(cs@, i as int),
{
    let mut j: usize = i + 1;
    while j < cs.len() && cs[j] == ' '
        invariant
            i < j <= cs.len(),
            forall|k: int| i < k < j ==> cs@[k] == ' ',
        decreases cs.len() - j,
    {
        j = j + 1;
    }
    if j < cs.len() {
        let r = is_cjk(cs[j]);
        if !r {
            assert forall|m: int|
                i < m < cs@.len() && cs@[m] != ' ' && spec_is_cjk(cs@[m]) implies !(forall|k: int|
                i < k < m ==> cs@[k] == ' ') by {
                if m < j {
                } else if m > j {
                    assert(cs@[j as int] != ' ');
                } else {
                }
            }
        }
        r
    } else {
        assert forall|m: int|
            i < m < cs@.len() && cs@[m] != ' ' implies !(forall|k: int| i < k < m ==> cs@[k] == ' ')
            by {
            assert(cs@[m] == ' ');
        }
        false
    }
}

/// How the "nearest non-space on the left is CJK" flag moves one step right.
proof fn lemma_prev_step(cs: Seq<char>, i: int)
    requires
        0 <= i < cs.len(),
    ensures
        cs[i] != ' ' ==> (prev_nonspace_cjk(cs, i + 1) == spec_is_cjk(cs[i])),
        cs[i] == ' ' ==> (prev_nonspace_cjk(cs, i + 1) == prev_nonspace_cjk(cs, i)),
{
    if cs[i] != ' ' {
        if spec_is_cjk(cs[i]) {
            assert(0 <= i < i + 1 && cs[i] != ' ' && spec_is_cjk(cs[i]) && (forall|k: int|
                i < k < i + 1 ==> cs[k] == ' '));
        } else {
            assert forall|j: int|
                0 <= j < i + 1 && cs[j] != ' ' && spec_is_cjk(cs[j]) implies !(forall|k: int|
                j < k < i + 1 ==> cs[k] == ' ') by {
                assert(j != i);
                assert(cs[i] != ' ');
            }
        }
    } else {
        if prev_nonspace_cjk(cs, i) {
            let j = choose|j: int|
                0 <= j < i && cs[j] != ' ' && spec_is_cjk(cs[j]) && (forall|k: int|
                    j < k < i ==> cs[k] == ' ');
            assert(forall|k: int| j < k < i + 1 ==> cs[k] == ' ');
        }
        if prev_nonspace_cjk(cs, i + 1) {
            let j = choose|j: int|
                0 <= j < i + 1 && cs[j] != ' ' && spec_is_cjk(cs[j]) && (forall|k: int|
                    j < k < i + 1 ==> cs[k] == ' ');
            assert(j != i);
            assert(forall|k: int| j < k < i ==> cs[k] == ' ');
        }
    }
}

/// Cleans raw OCR text: line endings become `\n`, and every space whose
/// nearest non-space neighbour on either side is CJK is removed.
pub fn tidy_text(raw: &str) -> (r: String)
    ensures
        r@ == spec_tidy(raw@),
{
    let rawc = str_to_chars(raw);
    let cs = normalize_newline_chars(&rawc);
    let mut out: Vec<char> = Vec::new();
    let mut i: usize = 0;
    assert(!prev_nonspace_cjk(cs@, 0));
    while i < cs.len()
        invariant
            i <= cs.len(),
            out@ == kept_prefix(cs@, i as int),
            (out@.len() > 0 && spec_is_cjk(out@.last())) <==> prev_nonspace_cjk(cs@, i as int),
        decreases cs.len() - i,
    {
        let c = cs[i];
        proof {
            lemma_prev_step(cs@, i as int);
        }
        if c == ' ' {
            let prev_cjk = out.len() > 0 && is_cjk(out[out.len() - 1]);
            let next_cjk = next_nonspace_is_cjk(&cs, i);
            if prev_cjk || next_cjk {
                i = i + 1;
                continue;
            }
        }
        out.push(c);
        i = i + 1;
    }
    chars_to_string(out.as_slice())
}


/// `s` with its spaces taken out.
pub open spec fn without_spaces(s: Seq<char>) -> Seq<char>
    decreases s.len(),
{
    if s.len() == 0 {
        s
    } else if s.last() == ' ' {
        without_spaces(s.drop_last())
    } else {
        without_spaces(s.drop_last()).push(s.last())
    }
}

proof fn lemma_normalize_has_no_cr(s: Seq<char>)
    ensures
        forall|i: int| 0 <= i < normalize_newlines(s).len() ==> normalize_newlines(s)[i] != '\r',
    decreases s.len(),
{
    if s.len() > 0 {
        if s[0] == '\r' && s.len() >= 2 && s[1] == '\n' {
            lemma_normalize_has_no_cr(s.subrange(2, s.len() as int));
        } else {
            lemma_normalize_has_no_cr(s.subrange(1, s.len() as int));
        }
        let n = normalize_newlines(s);
        assert forall|i: int| 0 <= i < n.len() implies n[i] != '\r' by {
            if i > 0 {
                if s[0] == '\r' && s.len() >= 2 && s[1] == '\n' {
                    assert(n[i] == normalize_newlines(s.subrange(2, s.len() as int))[i - 1]);
                } else {
                    assert(n[i] == normalize_newlines(s.subrange(1, s.len() as int))[i - 1]);
                }
            }
        }
    }
}

proof fn lemma_kept_prefix_from(cs: Seq<char>, n: int)
    requires
        0 <= n <= cs.len(),
    ensures
        forall|i: int|
            0 <= i < kept_prefix(cs, n).len() ==> exists|j: int| 0 <= j < n && cs[j] == #[trigger] kept_prefix(cs, n)[i],
        without_spaces(kept_prefix(cs, n)) == without_spaces(cs.take(n)),
    decreases n,
{
    if n > 0 {
        lemma_kept_prefix_from(cs, n - 1);
        let k = kept_prefix(cs, n);
        let k0 = kept_prefix(cs, n - 1);
        assert forall|i: int| 0 <= i < k.len() implies exists|j: int| 0 <= j < n && cs[j] == #[trigger] k[i] by {
            if i < k0.len() {
                assert(k[i] == k0[i]);
                let j = choose|j: int| 0 <= j < n - 1 && cs[j] == k0[i];
                assert(0 <= j < n && cs[j] == k[i]);
            } else {
                assert(k[i] == cs[n - 1]);
            }
        }
        assert(cs.take(n).drop_last() =~= cs.take(n - 1));
        assert(cs.take(n).last() == cs[n - 1]);
        if cs[n - 1] != ' ' {
            assert(keeps(cs, n - 1));
            assert(k == k0.push(cs[n - 1]));
            assert(k.drop_last() =~= k0);
        } else if keeps(cs, n - 1) {
            assert(k.drop_last() =~= k0);
        }
    }
}

/// A character of the CJK context as the clean-up documents it: CJK
/// radicals, CJK punctuation (`。`, `、`, `《`, `」` ...), the ideograph
/// blocks and their extensions, compatibility ideographs and forms, and
/// full-width forms (`，`, `？`, `！` ...).
pub open spec fn in_cjk_blocks(u: u32) -> bool {
    ||| 0x2E80 <= u <= 0x2EFF
    ||| 0x3000 <= u <= 0x303F
    ||| 0x3400 <= u <= 0x4DBF
    ||| 0x4E00 <= u <= 0x9FFF
    ||| 0xF900 <= u <= 0xFAFF
    ||| 0xFE30 <= u <= 0xFE4F
    ||| 0xFF00 <= u <= 0xFFEF
    ||| 0x20000 <= u <= 0x2FA1F
}

proof fn lemma_three_normalized(a: char, b: char, c: char)
    requires
        a != '\r',
        b != '\r',
        c != '\r',
    ensures
        normalize_newlines(seq![a, b, c]) == seq![a, b, c],
{
    let s = seq![a, b, c];
    let s1 = s.subrange(1, 3);
    let s2 = s1.subrange(1, 2);
    let s3 = s2.subrange(1, 1);
    assert(s1 =~= seq![b, c]);
    assert(s2 =~= seq![c]);
    assert(s3 =~= Seq::<char>::empty());
    assert(normalize_newlines(s3) == s3);
    assert(normalize_newlines(s2) =~= seq![c]);
    assert(normalize_newlines(s1) =~= seq![b, c]);
    assert(normalize_newlines(s) =~= s);
}

/// A space next to a character of the CJK context goes, whatever stands
/// on its other side: `x c` becomes `xc` and `c x` becomes `cx` for any
/// other character `x` (such as `Windows 。` turning into `Windows。`).
pub proof fn law_space_next_to_cjk_dropped(x: char, c: char)
    requires
        x != ' ',
        x != '\r',
        in_cjk_blocks(c as u32),
    ensures
        spec_tidy(seq![x, ' ', c]) == seq![x, c],
        spec_tidy(seq![c, ' ', x]) == seq![c, x],
{
    assert(c != ' ' && c != '\r');
    assert(spec_is_cjk(c));
    lemma_three_normalized(x, ' ', c);
    lemma_three_normalized(c, ' ', x);
    let s = seq![x, ' ', c];
    assert(keeps(s, 0));
    assert(s[2] != ' ' && spec_is_cjk(s[2]) && (forall|k: int| 1 < k < 2 ==> s[k] == ' '));
    assert(next_nonspace_cjk(s, 1));
    assert(!keeps(s, 1));
    assert(keeps(s, 2));
    assert(kept_prefix(s, 0) == Seq::<char>::empty());
    assert(kept_prefix(s, 1) =~= seq![x]);
    assert(kept_prefix(s, 2) =~= seq![x]);
    assert(kept_prefix(s, 3) =~= seq![x, c]);
    let t = seq![c, ' ', x];
    assert(keeps(t, 0));
    assert(t[0] != ' ' && spec_is_cjk(t[0]) && (forall|k: int| 0 < k < 1 ==> t[k] == ' '));
    assert(prev_nonspace_cjk(t, 1));
    assert(!keeps(t, 1));
    assert(keeps(t, 2));
    assert(kept_prefix(t, 0) == Seq::<char>::empty());
    assert(kept_prefix(t, 1) =~= seq![c]);
    assert(kept_prefix(t, 2) =~= seq![c]);
    assert(kept_prefix(t, 3) =~= seq![c, x]);
}

/// A space between two ASCII characters (Latin words) stays: `a b` is
/// left as it is.
pub proof fn law_space_between_ascii_kept(a: char, b: char)
    requires
        a != ' ',
        a != '\r',
        b != ' ',
        b != '\r',
        (a as u32) < 0x80,
        (b as u32) < 0x80,
    ensures
        spec_tidy(seq![a, ' ', b]) == seq![a, ' ', b],
{
    lemma_three_normalized(a, ' ', b);
    let s = seq![a, ' ', b];
    assert(!spec_is_cjk(a));
    assert(!spec_is_cjk(b));
    assert(!prev_nonspace_cjk(s, 1)) by {
        if prev_nonspace_cjk(s, 1) {
            let j = choose|j: int|
                0 <= j < 1 && s[j] != ' ' && spec_is_cjk(s[j]) && (forall|k: int| j < k < 1 ==> s[k] == ' ');
            assert(j == 0);
        }
    }
    assert(!next_nonspace_cjk(s, 1)) by {
        if next_nonspace_cjk(s, 1) {
            let j = choose|j: int|
                1 < j < 3 && s[j] != ' ' && spec_is_cjk(s[j]) && (forall|k: int| 1 < k < j ==> s[k] == ' ');
            assert(j == 2);
        }
    }
    assert(keeps(s, 0));
    assert(keeps(s, 1));
    assert(keeps(s, 2));
    assert(kept_prefix(s, 0) == Seq::<char>::empty());
    assert(kept_prefix(s, 1) =~= seq![a]);
    assert(kept_prefix(s, 2) =~= seq![a, ' ']);
    assert(kept_prefix(s, 3) =~= s);
}

/// What the clean-up does to OCR text: it leaves no carriage return, and
/// it only takes out spaces: with the spaces removed, the result is the
/// input with its line endings made `\n` and its spaces removed.
pub proof fn law_tidy_only_drops_spaces(raw: Seq<char>)
    ensures
        forall|i: int| 0 <= i < spec_tidy(raw).len() ==> spec_tidy(raw)[i] != '\r',
        without_spaces(spec_tidy(raw)) == without_spaces(normalize_newlines(raw)),
{
    let cs = normalize_newlines(raw);
    lemma_normalize_has_no_cr(raw);
    lemma_kept_prefix_from(cs, cs.len() as int);
    assert(cs.take(cs.len() as int) =~= cs);
    let t = spec_tidy(raw);
    assert forall|i: int| 0 <= i < t.len() implies t[i] != '\r' by {
        let j = choose|j: int| 0 <= j < cs.len() && cs[j] == t[i];
    }
}

/// The positions in `cs` of the characters that survive among the first
/// `n`, in order (they line up with [`kept_prefix`]).
pub open spec fn kept_indices(cs: Seq<char>, n: int) -> Seq<int>
    decreases n,
{
    if n <= 0 {
        Seq::empty()
    } else if keeps(cs, n - 1) {
        kept_indices(cs, n - 1).push(n - 1)
    } else {
        kept_indices(cs, n - 1)
    }
}

proof fn lemma_kept_indices(cs: Seq<char>, n: int)
    requires
        0 <= n <= cs.len(),
    ensures
        kept_indices(cs, n).len() == kept_prefix(cs, n).len(),
        forall|i: int|
            0 <= i < kept_indices(cs, n).len() ==> 0 <= #[trigger] kept_indices(cs, n)[i] < n
                && kept_prefix(cs, n)[i] == cs[kept_indices(cs, n)[i]],
        forall|i: int, j: int|
            0 <= i < j < kept_indices(cs, n).len() ==> #[trigger] kept_indices(cs, n)[i]
                < #[trigger] kept_indices(cs, n)[j],
        forall|r: int|
            0 <= r < n && keeps(cs, r) ==> exists|i: int|
                0 <= i < kept_indices(cs, n).len() && #[trigger] kept_indices(cs, n)[i] == r,
    decreases n,
{
    if n > 0 {
        lemma_kept_indices(cs, n - 1);
        let x = kept_indices(cs, n);
        let x0 = kept_indices(cs, n - 1);
        let k = kept_prefix(cs, n);
        let k0 = kept_prefix(cs, n - 1);
        if keeps(cs, n - 1) {
            assert forall|i: int| 0 <= i < x.len() implies 0 <= #[trigger] x[i] < n && k[i] == cs[x[i]] by {
                if i < x0.len() {
                    assert(x[i] == x0[i]);
                    assert(k[i] == k0[i]);
                }
            }
            assert forall|i: int, j: int| 0 <= i < j < x.len() implies #[trigger] x[i] < #[trigger] x[j] by {
                if j < x0.len() {
                    assert(x[i] == x0[i] && x[j] == x0[j]);
                } else {
                    assert(x[i] == x0[i]);
                }
            }
            assert forall|r: int| 0 <= r < n && keeps(cs, r) implies exists|i: int|
                0 <= i < x.len() && #[trigger] x[i] == r by {
                if r == n - 1 {
                    assert(x[x.len() - 1] == r);
                } else {
                    let i = choose|i: int| 0 <= i < x0.len() && x0[i] == r;
                    assert(x[i] == r);
                }
            }
        } else {
            assert forall|r: int| 0 <= r < n && keeps(cs, r) implies exists|i: int|
                0 <= i < x.len() && #[trigger] x[i] == r by {
                let i = choose|i: int| 0 <= i < x0.len() && x0[i] == r;
                assert(x[i] == r);
            }
        }
    }
}

proof fn lemma_normalize_identity(s: Seq<char>)
    requires
        forall|i: int| 0 <= i < s.len() ==> s[i] != '\r',
    ensures
        normalize_newlines(s) == s,
    decreases s.len(),
{
    if s.len() > 0 {
        let t = s.subrange(1, s.len() as int);
        assert forall|i: int| 0 <= i < t.len() implies t[i] != '\r' by {
            assert(t[i] == s[i + 1]);
        }
        lemma_normalize_identity(t);
        assert(seq![s[0]] + t =~= s);
    }
}

/// Cleaning up text that was already cleaned up changes nothing.
pub proof fn law_tidy_idempotent(raw: Seq<char>)
    ensures
        spec_tidy(spec_tidy(raw)) == spec_tidy(raw),
{
    let cs = normalize_newlines(raw);
    let n = cs.len() as int;
    let out = spec_tidy(raw);
    law_tidy_only_drops_spaces(raw);
    lemma_normalize_identity(out);
    lemma_kept_indices(cs, n);
    let idx = kept_indices(cs, n);
    // Every character of `out` survives a second pass.
    assert forall|i: int| 0 <= i < out.len() implies keeps(out, i) by {
        if out[i] == ' ' {
            let p = idx[i];
            assert(out[i] == cs[p]);
            lemma_kept_only(cs, n, i);
            assert(keeps(cs, p));
            if prev_nonspace_cjk(out, i) {
                let j = choose|j: int|
                    0 <= j < i && out[j] != ' ' && spec_is_cjk(out[j]) && (forall|k: int|
                        j < k < i ==> out[k] == ' ');
                let q = idx[j];
                assert(idx[j] < idx[i]);
                assert forall|r: int| q < r < p implies cs[r] == ' ' by {
                    if cs[r] != ' ' {
                        assert(keeps(cs, r));
                        let m = choose|m: int| 0 <= m < idx.len() && #[trigger] idx[m] == r;
                        if m <= j {
                            if m < j {
                                assert(idx[m] < idx[j]);
                            }
                        }
                        if m >= i {
                            if m > i {
                                assert(idx[i] < idx[m]);
                            }
                        }
                        assert(j < m < i);
                        assert(out[m] == cs[r]);
                    }
                }
                assert(prev_nonspace_cjk(cs, p));
            }
            if next_nonspace_cjk(out, i) {
                let j = choose|j: int|
                    i < j < out.len() && out[j] != ' ' && spec_is_cjk(out[j]) && (forall|k: int|
                        i < k < j ==> out[k] == ' ');
                let q = idx[j];
                assert(idx[i] < idx[j]);
                assert forall|r: int| p < r < q implies cs[r] == ' ' by {
                    if cs[r] != ' ' {
                        assert(keeps(cs, r));
                        let m = choose|m: int| 0 <= m < idx.len() && #[trigger] idx[m] == r;
                        if m <= i {
                            if m < i {
                                assert(idx[m] < idx[i]);
                            }
                        }
                        if m >= j {
                            if m > j {
                                assert(idx[j] < idx[m]);
                            }
                        }
                        assert(i < m < j);
                        assert(out[m] == cs[r]);
                    }
                }
                assert(next_nonspace_cjk(cs, p));
            }
        }
    }
    lemma_all_kept(out, out.len() as int);
}

/// Positions listed as kept are kept.
proof fn lemma_kept_only(cs: Seq<char>, n: int, i: int)
    requires
        0 <= n <= cs.len(),
        0 <= i < kept_indices(cs, n).len(),
    ensures
        keeps(cs, kept_indices(cs, n)[i]),
    decreases n,
{
    if n > 0 {
        let x0 = kept_indices(cs, n - 1);
        if keeps(cs, n - 1) && i == x0.len() {
        } else {
            lemma_kept_only(cs, n - 1, i);
        }
    }
}

proof fn lemma_all_kept(cs: Seq<char>, n: int)
    requires
        0 <= n <= cs.len(),
        forall|i: int| 0 <= i < cs.len() ==> keeps(cs, i),
    ensures
        kept_prefix(cs, n) == cs.take(n),
    decreases n,
{
    if n > 0 {
        lemma_all_kept(cs, n - 1);
        assert(keeps(cs, n - 1));
        assert(cs.take(n) =~= cs.take(n - 1).push(cs[n - 1]));
    }
}

} // verus!
