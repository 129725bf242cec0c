//! Text recognition around the engines: the result record, the languages
//! asked of the system engine, the pixel layout it reads, and the decoding
//! of the neural recogniser's per-step classes into text.

use vstd::prelude::*;
use crate::text::{
    str_to_chars, chars_to_string, spec_lines, split_lines, views, strip_suffixes,
    trim_end_matches_chars,
};

verus! {

/// The result of recognising a selection.
#[derive(Debug, Clone)]
pub struct OcrOut {
    /// The recognised text, lines separated by `\n`.
    pub text: String,
    /// Size of the recognised image in physical pixels.
    pub width: u32,
    pub height: u32,
    /// Language actually used, when the engine reports one.
    pub language: Option<String>,
    /// Engine that produced the text (`system` or `enhanced`).
    pub engine: String,
    /// Number of recognised lines.
    pub lines: usize,
}

/// The languages asked of the system engine, in order of preference.
pub open spec fn spec_preferred_langs() -> Seq<&'static str> {
    seq!["zh-Hans", "zh-Hans-CN", "en-US"]
}

pub fn preferred_langs() -> (v: Vec<&'static str>)
    ensures
        v@ == spec_preferred_langs(),
{
    let v = vec!["zh-Hans", "zh-Hans-CN", "en-US"];
    assert(v@ =~= spec_preferred_langs());
    v
}

/// The preferred languages that `supported` lists, in preference order.
pub open spec fn wanted_langs(supported: Seq<Seq<char>>, n: int) -> Seq<Seq<char>>
    decreases n,
{
    if n <= 0 {
        Seq::empty()
    } else {
        let w = wanted_langs(supported, n - 1);
        let l = spec_preferred_langs()[n - 1]@;
        if supported.contains(l) {
            w.push(l)
        } else {
            w
        }
    }
}

fn str_in(list: &Vec<String>, s: &str) -> (r: bool)
    ensures
        r == views_of(list@).contains(s@),
{
    let t = str_to_chars(s);
    let mut k: usize = 0;
    while k < list.len()
        invariant
            k <= list@.len(),
            t@ == s@,
            forall|j: int| 0 <= j < k ==> list@[j]@ != s@,
        decreases list.len() - k,
    {
        if crate::text::chars_eq(&str_to_chars(list[k].as_str()), &t) {
            assert(views_of(list@)[k as int] == s@);
            return true;
        }
        k = k + 1;
    }
    proof {
        if views_of(list@).contains(s@) {
            let j = choose|j: int| 0 <= j < views_of(list@).len() && views_of(list@)[j] == s@;
            assert(list@[j]@ == s@);
        }
    }
    false
}

pub open spec fn views_of(v: Seq<String>) -> Seq<Seq<char>> {
    v.map_values(|s: String| s@)
}

/// Picks the languages to set: the preferred ones the system supports, in
/// preference order, and the first of them as the main language; `None`
/// when the system supports none of them.
pub fn choose_languages(supported: &Vec<String>) -> (r: Option<(Vec<String>, String)>)
    ensures
        ({
            let w = wanted_langs(views_of(supported@), 3);
            match r {
                Some((list, main)) => w.len() > 0 && views_of(list@) == w && main@ == w[0],
                None => w.len() == 0,
            }
        }),
{
    let prefs = preferred_langs();
    let mut wanted: Vec<String> = Vec::new();
    let mut k: usize = 0;
    while k < prefs.len()
        invariant
            k <= 3,
            prefs@ == spec_preferred_langs(),
            views_of(wanted@) == wanted_langs(views_of(supported@), k as int),
        decreases 3 - k,
    {
        let l = prefs[k];
        if str_in(supported, l) {
            let ghost before = wanted@;
            wanted.push(l.to_string());
            assert(views_of(wanted@) =~= views_of(before).push(l@));
        }
        k = k + 1;
    }
    if wanted.len() == 0 {
        return None;
    }
    let main = wanted[0].clone();
    assert(views_of(wanted@)[0] == wanted@[0]@);
    Some((wanted, main))
}

/// `rgba` (four bytes per pixel) with red and blue swapped in every whole
/// pixel: the BGRA layout the system engine reads. A trailing partial
/// pixel is dropped.
pub open spec fn spec_bgra(rgba: Seq<u8>) -> Seq<u8>
    decreases rgba.len(),
{
    if rgba.len() < 4 {
        Seq::empty()
    } else {
        seq![rgba[2], rgba[1], rgba[0], rgba[3]] + spec_bgra(rgba.subrange(4, rgba.len() as int))
    }
}

/// Converts RGBA pixels to BGRA (see [`spec_bgra`]).
pub fn rgba_to_bgra(rgba: &[u8]) -> (r: Vec<u8>)
    ensures
        r@ == spec_bgra(rgba@),
{
    let mut out: Vec<u8> = Vec::new();
    let mut i: usize = 0;
    assert(rgba@.subrange(0, rgba@.len() as int) =~= rgba@);
    assert(out@ + spec_bgra(rgba@) =~= spec_bgra(rgba@));
    while rgba.len() - i >= 4
        invariant
            i <= rgba@.len(),
            out@ + spec_bgra(rgba@.subrange(i as int, rgba@.len() as int)) == spec_bgra(rgba@),
        decreases rgba.len() - i,
    {
        let ghost tail = rgba@.subrange(i as int, rgba@.len() as int);
        let ghost before = out@;
        out.push(rgba[i + 2]);
        out.push(rgba[i + 1]);
        out.push(rgba[i]);
        out.push(rgba[i + 3]);
        assert(tail.subrange(4, tail.len() as int) =~= rgba@.subrange(i + 4, rgba@.len() as int));
        assert(out@ =~= before + seq![tail[2], tail[1], tail[0], tail[3]]);
        assert(out@ + spec_bgra(rgba@.subrange(i + 4, rgba@.len() as int)) =~= before + spec_bgra(
            tail,
        ));
        i = i + 4;
    }
    assert(out@ + spec_bgra(rgba@.subrange(i as int, rgba@.len() as int)) == spec_bgra(rgba@));
    assert(spec_bgra(rgba@.subrange(i as int, rgba@.len() as int)) =~= Seq::<u8>::empty());
    assert(out@ =~= spec_bgra(rgba@));
    out
}

/// Why a selection cannot be recognised before any engine runs.
#[derive(Debug, Clone, Copy, PartialEq, Eq, Structural)]
pub enum SelectionProblem {
    /// Zero width or height.
    Empty,
    /// Wider or taller than the system engine's limit.
    TooLarge,
}

/// Checks a selection of `w` by `h` pixels against the system engine's
/// largest side `max` (0 means no limit is known).
pub fn check_selection(w: u32, h: u32, max: u32) -> (r: Option<SelectionProblem>)
    ensures
        r == (if w == 0 || h == 0 {
            Some(SelectionProblem::Empty)
        } else if max > 0 && (w > max || h > max) {
            Some(SelectionProblem::TooLarge)
        } else {
            None
        }),
{
    if w == 0 || h == 0 {
        Some(SelectionProblem::Empty)
    } else if max > 0 && (w > max || h > max) {
        Some(SelectionProblem::TooLarge)
    } else {
        None
    }
}

/// The lines joined by `\n`.
pub open spec fn joined(lines: Seq<Seq<char>>) -> Seq<char>
    decreases lines.len(),
{
    if lines.len() == 0 {
        Seq::empty()
    } else if lines.len() == 1 {
        lines[0]
    } else {
        joined(lines.drop_last()) + seq!['\n'] + lines.last()
    }
}

/// The result record of the neural engine: the recognised lines joined by
/// `\n`, the image size, language `ch` and engine `enhanced`.
pub fn enhanced_output(lines: &Vec<String>, width: u32, height: u32) -> (r: OcrOut)
    ensures
        r.text@ == joined(views_of(lines@)),
        r.width == width,
        r.height == height,
        r.language matches Some(l) && l@ == "ch"@,
        r.engine@ == "enhanced"@,
        r.lines == lines@.len(),
{
    let mut text: Vec<char> = Vec::new();
    let mut k: usize = 0;
    while k < lines.len()
        invariant
            k <= lines@.len(),
            text@ == joined(views_of(lines@).subrange(0, k as int)),
        decreases lines.len() - k,
    {
        let ghost pre = views_of(lines@).subrange(0, k as int);
        let ghost next = views_of(lines@).subrange(0, k + 1);
        assert(next.drop_last() =~= pre);
        if k > 0 {
            text.push('\n');
        }
        let mut l = str_to_chars(lines[k].as_str());
        text.append(&mut l);
        if k == 0 {
            assert(text@ =~= joined(next));
        } else {
            assert(text@ =~= joined(next));
        }
        k = k + 1;
    }
    assert(views_of(lines@).subrange(0, lines@.len() as int) =~= views_of(lines@));
    OcrOut {
        text: chars_to_string(text.as_slice()),
        width,
        height,
        language: Some("ch".to_string()),
        engine: "enhanced".to_string(),
        lines: lines.len(),
    }
}

/// The recogniser's classes: index 0 is the blank, then one class per
/// non-empty line of the dictionary text (trailing carriage returns
/// removed), then a space.
pub open spec fn dict_entries(lines: Seq<Seq<char>>) -> Seq<Seq<char>>
    decreases lines.len(),
{
    if lines.len() == 0 {
        Seq::empty()
    } else {
        let e = strip_suffixes(lines.last(), seq!['\r']);
        if e.len() > 0 {
            dict_entries(lines.drop_last()).push(e)
        } else {
            dict_entries(lines.drop_last())
        }
    }
}

pub open spec fn spec_charset(dict: Seq<char>) -> Seq<Seq<char>> {
    seq![Seq::empty()] + dict_entries(spec_lines(dict)) + seq![seq![' ']]
}

/// Builds the class table from the dictionary text (see [`spec_charset`]).
pub fn build_charset(dict: &str) -> (r: Vec<String>)
    ensures
        views_of(r@) == spec_charset(dict@),
{
    let lines = split_lines(&str_to_chars(dict));
    let ghost ls = views(lines@);
    let cr = vec!['\r'];
    assert(cr@ =~= seq!['\r']);
    let mut v: Vec<String> = Vec::new();
    v.push(String::new());
    let mut k: usize = 0;
    while k < lines.len()
        invariant
            k <= lines@.len(),
            ls == views(lines@),
            cr@ == seq!['\r'],
            views_of(v@) == seq![Seq::<char>::empty()] + dict_entries(ls.subrange(0, k as int)),
        decreases lines.len() - k,
    {
        assert(ls.subrange(0, k + 1).drop_last() =~= ls.subrange(0, k as int));
        assert(ls[k as int] == lines@[k as int]@);
        let e = trim_end_matches_chars(&lines[k], &cr);
        if e.len() > 0 {
            let ghost before = v@;
            v.push(chars_to_string(e.as_slice()));
            assert(views_of(v@) =~= views_of(before).push(e@));
        }
        k = k + 1;
    }
    assert(ls.subrange(0, ls.len() as int) =~= ls);
    let ghost before = v@;
    let space = " ".to_string();
    proof {
        reveal_strlit(" ");
    }
    assert(space@ =~= seq![' ']);
    v.push(space);
    assert(views_of(v@) =~= views_of(before).push(seq![' ']));
    v
}

/// A class index the table does not have.
#[derive(Debug, Clone, Copy, PartialEq, Eq, Structural)]
pub struct CtcIndexOutOfRange {
    pub index: usize,
    pub classes: usize,
}

/// Greedy CTC decoding of the best class at each step, read from the left:
/// the text so far and the previous class, or the first out-of-range index.
pub open spec fn ctc_state(best: Seq<usize>, charset: Seq<Seq<char>>) -> Result<(Seq<char>, usize), usize>
    decreases best.len(),
{
    if best.len() == 0 {
        Ok((Seq::empty(), 0))
    } else {
        match ctc_state(best.drop_last(), charset) {
            Err(i) => Err(i),
            Ok((text, last)) => {
                let b = best.last();
                if b != 0 && b != last {
                    if b < charset.len() {
                        Ok((text + charset[b as int], b))
                    } else {
                        Err(b)
                    }
                } else {
                    Ok((text, b))
                }
            },
        }
    }
}

/// Decodes the best class of every step: a class is written when it is not
/// the blank (0) and differs from the class of the step before.
pub fn ctc_collapse(best: &Vec<usize>, charset: &Vec<String>) -> (r: Result<String, CtcIndexOutOfRange>)
    ensures
        match ctc_state(best@, views_of(charset@)) {
            Ok((text, _)) => r matches Ok(s) && s@ == text,
            Err(i) => r matches Err(e) && e.index == i && e.classes == charset@.len(),
        },
{
    let mut text: Vec<char> = Vec::new();
    let mut last: usize = 0;
    let mut t: usize = 0;
    while t < best.len()
        invariant
            t <= best@.len(),
            ctc_state(best@.subrange(0, t as int), views_of(charset@)) == Ok::<(Seq<char>, usize), usize>((text@, last)),
        decreases best.len() - t,
    {
        assert(best@.subrange(0, t + 1).drop_last() =~= best@.subrange(0, t as int));
        let b = best[t];
        if b != 0 && b != last {
            if b < charset.len() {
                let mut c = str_to_chars(charset[b].as_str());
                assert(views_of(charset@)[b as int] == charset@[b as int]@);
                text.append(&mut c);
            } else {
                proof {
                    lemma_ctc_err_sticks(best@, views_of(charset@), t as int + 1, b);
                }
                return Err(CtcIndexOutOfRange { index: b, classes: charset.len() });
            }
        }
        last = b;
        t = t + 1;
    }
    assert(best@.subrange(0, best@.len() as int) =~= best@);
    Ok(chars_to_string(text.as_slice()))
}

/// Once decoding meets an out-of-range index it stays at that error.
proof fn lemma_ctc_err_sticks(best: Seq<usize>, charset: Seq<Seq<char>>, n: int, i: usize)
    requires
        0 <= n <= best.len(),
        ctc_state(best.subrange(0, n), charset) == Err::<(Seq<char>, usize), usize>(i),
    ensures
        ctc_state(best, charset) == Err::<(Seq<char>, usize), usize>(i),
    decreases best.len() - n,
{
    if n == best.len() {
        assert(best.subrange(0, n) =~= best);
    } else {
        assert(best.subrange(0, n + 1).drop_last() =~= best.subrange(0, n));
        lemma_ctc_err_sticks(best, charset, n + 1, i);
    }
}

} // verus!
