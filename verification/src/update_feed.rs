//! Reading the newest release out of the project's Atom feed: the first
//! `<entry>…</entry>` block, its title (the version tag), its link and its
//! summary (the release notes).

use vstd::prelude::*;
use crate::text::{
    occurs_at, str_to_chars, chars_to_string, chars_occur_at, trim_seq, trim_chars, strip_prefixes,
    trim_start_matches_chars, chars_take, chars_from,
};
use crate::version::strip_v;

verus! {

/// The first position at or after `from` where `needle` occurs.
pub open spec fn find_from(hay: Seq<char>, needle: Seq<char>, from: int) -> Option<int>
    decreases hay.len() - from,
{
    if from < 0 || from > hay.len() {
        None
    } else if occurs_at(hay, needle, from) {
        Some(from)
    } else if from == hay.len() {
        None
    } else {
        find_from(hay, needle, from + 1)
    }
}

pub proof fn lemma_find_from_bounds(hay: Seq<char>, needle: Seq<char>, from: int)
    ensures
        find_from(hay, needle, from) matches Some(j) ==> from <= j && occurs_at(hay, needle, j),
    decreases hay.len() - from,
{
    if 0 <= from < hay.len() && !occurs_at(hay, needle, from) {
        lemma_find_from_bounds(hay, needle, from + 1);
    }
}

/// Finds `needle` at or after `from` (see [`find_from`]).
pub fn find_from_chars(hay: &Vec<char>, needle: &Vec<char>, from: usize) -> (r: Option<usize>)
    ensures
        match r {
            Some(j) => find_from(hay@, needle@, from as int) == Some(j as int) && from <= j <= hay@.len()
                && occurs_at(hay@, needle@, j as int),
            None => find_from(hay@, needle@, from as int) is None,
        },
{
    proof {
        lemma_find_from_bounds(hay@, needle@, from as int);
    }
    if from > hay.len() {
        return None;
    }
    let mut k = from;
    while k <= hay.len()
        invariant
            from <= k <= hay@.len() + 1,
            find_from(hay@, needle@, k as int) == find_from(hay@, needle@, from as int),
        decreases hay.len() + 1 - k,
    {
        if chars_occur_at(hay, needle, k) {
            return Some(k);
        }
        if k == hay.len() {
            return None;
        }
        k = k + 1;
    }
    None
}

pub open spec fn open_entry() -> Seq<char> {
    "<entry"@
}

pub open spec fn close_entry() -> Seq<char> {
    "</entry>"@
}

/// The first `<entry ... </entry>` block: from the first `<entry` to the
/// first `</entry>` after it (what the lazy pattern `<entry[\s\S]*?</entry>`
/// matches first).
pub open spec fn first_entry(x: Seq<char>) -> Option<Seq<char>> {
    match find_from(x, open_entry(), 0) {
        None => None,
        Some(i) => match find_from(x, close_entry(), i + 6) {
            None => None,
            Some(j) => Some(x.subrange(i, j + 8)),
        },
    }
}

/// An element's text: after the first `<tag`, past the first `>` that
/// follows, up to the first `</tag>` after that (the pattern
/// `<tag[^>]*>([\s\S]*?)</tag>`); `open` is `<tag` and `close` `</tag>`.
pub open spec fn element_text(b: Seq<char>, open: Seq<char>, close: Seq<char>) -> Option<Seq<char>> {
    match find_from(b, open, 0) {
        None => None,
        Some(i) => match find_from(b, seq!['>'], i + open.len()) {
            None => None,
            Some(g) => match find_from(b, close, g + 1) {
                None => None,
                Some(t) => Some(b.subrange(g + 1, t)),
            },
        },
    }
}

/// At `q` stands `href="`, followed by at least one character and a
/// closing quote.
pub open spec fn href_at(b: Seq<char>, q: int) -> bool {
    occurs_at(b, "href=\""@, q) && match find_from(b, seq!['"'], q + 6) {
        Some(p) => p > q + 6,
        None => false,
    }
}

/// The last `href="…"` that starts in `[lo, hi)` (the greedy `[^>]*`
/// takes the longest run before it).
pub open spec fn last_href(b: Seq<char>, lo: int, hi: int) -> Option<int>
    decreases hi - lo,
{
    if hi <= lo {
        None
    } else if href_at(b, hi - 1) {
        Some(hi - 1)
    } else {
        last_href(b, lo, hi - 1)
    }
}

/// The link address: in the first `<link` tag (from `from` on) that has a
/// `href="…"` before its closing `>`, the quoted text (the pattern
/// `<link[^>]*href="([^"]+)"`).
pub open spec fn link_from(b: Seq<char>, from: int) -> Option<Seq<char>>
    decreases b.len() - from,
{
    if from < 0 || from > b.len() {
        None
    } else {
        match find_from(b, "<link"@, from) {
            None => None,
            Some(i) => {
                let g = match find_from(b, seq!['>'], i + 5) {
                    Some(g) => g,
                    None => b.len() as int,
                };
                match last_href(b, i + 5, g) {
                    Some(q) => match find_from(b, seq!['"'], q + 6) {
                        Some(p) => Some(b.subrange(q + 6, p)),
                        None => None,
                    },
                    None => {
                        proof {
                            lemma_find_from_bounds(b, "<link"@, from);
                            reveal_strlit("<link");
                        }
                        if i + 1 > from && i < b.len() {
                            link_from(b, i + 1)
                        } else {
                            None
                        }
                    },
                }
            },
        }
    }
}

/// The version tag read from an entry title: trimmed, with the leading
/// `ScreenTime Pro `, `Release ` and `release ` words removed, trimmed
/// again, without leading `v`.
pub open spec fn tag_of_title(title: Seq<char>) -> Seq<char> {
    strip_v(
        trim_seq(
            strip_prefixes(
                strip_prefixes(strip_prefixes(trim_seq(title), "ScreenTime Pro "@), "Release "@),
                "release "@,
            ),
        ),
    )
}

/// The newest release in the feed: `(tag, link, notes)` from the first
/// entry; `None` when there is no entry, no title, no link, or the tag is
/// empty. Missing notes read as empty.
pub open spec fn spec_latest_release(x: Seq<char>) -> Option<(Seq<char>, Seq<char>, Seq<char>)> {
    match first_entry(x) {
        None => None,
        Some(b) => match element_text(b, "<title"@, "</title>"@) {
            None => None,
            Some(title) => match link_from(b, 0) {
                None => None,
                Some(url) => {
                    let tag = tag_of_title(title);
                    let notes = match element_text(b, "<summary"@, "</summary>"@) {
                        Some(s) => trim_seq(s),
                        None => Seq::empty(),
                    };
                    if tag.len() == 0 {
                        None
                    } else {
                        Some((tag, url, notes))
                    }
                },
            },
        },
    }
}

fn subrange_chars(v: &Vec<char>, a: usize, b: usize) -> (r: Vec<char>)
    requires
        a <= b <= v@.len(),
    ensures
        r@ == v@.subrange(a as int, b as int),
{
    let t = chars_take(v, b);
    let r = chars_from(&t, a);
    assert(r@ =~= v@.subrange(a as int, b as int));
    r
}

fn element_text_of(b: &Vec<char>, open: &str, close: &str) -> (r: Option<Vec<char>>)
    ensures
        match element_text(b@, open@, close@) {
            Some(t) => r matches Some(v) && v@ == t,
            None => r is None,
        },
{
    let _blen = b.len();
    let o = str_to_chars(open);
    let c = str_to_chars(close);
    let gt = vec!['>'];
    assert(gt@ =~= seq!['>']);
    let i = match find_from_chars(b, &o, 0) {
        Some(i) => i,
        None => return None,
    };
    assert(i + o@.len() <= b@.len());
    let g = match find_from_chars(b, &gt, i + o.len()) {
        Some(g) => g,
        None => return None,
    };
    assert(g < b@.len());
    let t = match find_from_chars(b, &c, g + 1) {
        Some(t) => t,
        None => return None,
    };
    Some(subrange_chars(b, g + 1, t))
}

fn href_at_exec(b: &Vec<char>, q: usize) -> (r: bool)
    ensures
        r == href_at(b@, q as int),
{
    let _blen = b.len();
    let h = str_to_chars("href=\"");
    if !chars_occur_at(b, &h, q) {
        return false;
    }
    proof {
        reveal_strlit("href=\"");
    }
    assert(q + 6 <= b@.len());
    let quote = vec!['"'];
    assert(quote@ =~= seq!['"']);
    match find_from_chars(b, &quote, q + 6) {
        Some(p) => p > q + 6,
        None => false,
    }
}

fn last_href_exec(b: &Vec<char>, lo: usize, hi: usize) -> (r: Option<usize>)
    requires
        hi <= b@.len(),
    ensures
        match r {
            Some(q) => last_href(b@, lo as int, hi as int) == Some(q as int),
            None => last_href(b@, lo as int, hi as int) is None,
        },
{
    let mut h = hi;
    while h > lo
        invariant
            h <= hi,
            last_href(b@, lo as int, h as int) == last_href(b@, lo as int, hi as int),
        decreases h,
    {
        if href_at_exec(b, h - 1) {
            return Some(h - 1);
        }
        h = h - 1;
    }
    None
}

proof fn lemma_last_href_range(b: Seq<char>, lo: int, hi: int)
    ensures
        last_href(b, lo, hi) matches Some(q) ==> lo <= q < hi && href_at(b, q),
    decreases hi - lo,
{
    if hi > lo && !href_at(b, hi - 1) {
        lemma_last_href_range(b, lo, hi - 1);
    }
}

fn link_of(b: &Vec<char>) -> (r: Option<Vec<char>>)
    ensures
        match link_from(b@, 0) {
            Some(t) => r matches Some(v) && v@ == t,
            None => r is None,
        },
{
    let _blen = b.len();
    let open = str_to_chars("<link");
    proof {
        reveal_strlit("<link");
    }
    let gt = vec!['>'];
    assert(gt@ =~= seq!['>']);
    let quote = vec!['"'];
    assert(quote@ =~= seq!['"']);
    let mut from: usize = 0;
    while from <= b.len()
        invariant
            from <= b@.len() + 1,
            open@ == "<link"@,
            open@.len() == 5,
            gt@ == seq!['>'],
            quote@ == seq!['"'],
            link_from(b@, from as int) == link_from(b@, 0),
        decreases b.len() + 1 - from,
    {
        let i = match find_from_chars(b, &open, from) {
            Some(i) => i,
            None => return None,
        };
        assert(i + 5 <= b@.len());
        let g = match find_from_chars(b, &gt, i + 5) {
            Some(g) => g,
            None => b.len(),
        };
        match last_href_exec(b, i + 5, g) {
            Some(q) => {
                proof {
                    lemma_last_href_range(b@, i + 5, g as int);
                    reveal_strlit("href=\"");
                }
                assert(q + 6 <= b@.len());
                let p = match find_from_chars(b, &quote, q + 6) {
                    Some(p) => p,
                    None => {
                        assert(link_from(b@, from as int) is None);
                        return None;
                    },
                };
                assert(link_from(b@, from as int) == Some(b@.subrange(q + 6, p as int)));
                return Some(subrange_chars(b, q + 6, p));
            },
            None => {},
        }
        if i + 1 <= from {
            assert(link_from(b@, from as int) is None);
            return None;
        }
        assert(link_from(b@, from as int) == link_from(b@, i + 1));
        from = i + 1;
    }
    None
}

fn strip_word(v: &Vec<char>, w: &str) -> (r: Vec<char>)
    ensures
        r@ == strip_prefixes(v@, w@),
{
    trim_start_matches_chars(v, &str_to_chars(w))
}

/// Reads the newest release out of the feed (see [`spec_latest_release`]).
pub fn parse_atom_latest_release(xml: &str) -> (r: Option<(String, String, String)>)
    ensures
        match spec_latest_release(xml@) {
            Some((tag, url, notes)) => r matches Some((t, u, n)) && t@ == tag && u@ == url && n@
                == notes,
            None => r is None,
        },
{
    let x = str_to_chars(xml);
    let _xlen = x.len();
    let oe = str_to_chars("<entry");
    let ce = str_to_chars("</entry>");
    proof {
        reveal_strlit("<entry");
        reveal_strlit("</entry>");
    }
    let i = match find_from_chars(&x, &oe, 0) {
        Some(i) => i,
        None => return None,
    };
    assert(i + 6 <= x@.len());
    let j = match find_from_chars(&x, &ce, i + 6) {
        Some(j) => j,
        None => return None,
    };
    assert(j + 8 <= x@.len());
    let block = subrange_chars(&x, i, j + 8);
    let title = match element_text_of(&block, "<title", "</title>") {
        Some(t) => t,
        None => return None,
    };
    let url = match link_of(&block) {
        Some(u) => u,
        None => return None,
    };
    let t1 = strip_word(&trim_chars(&title), "ScreenTime Pro ");
    let t2 = strip_word(&t1, "Release ");
    let t3 = strip_word(&t2, "release ");
    let t4 = trim_chars(&t3);
    let tag = crate::version::trim_leading_v(chars_to_string(t4.as_slice()).as_str());
    let notes = match element_text_of(&block, "<summary", "</summary>") {
        Some(s) => chars_to_string(trim_chars(&s).as_slice()),
        None => String::new(),
    };
    if str_to_chars(tag.as_str()).len() == 0 {
        return None;
    }
    Some((tag, chars_to_string(url.as_slice()), notes))
}

} // verus!
