//! Reading the encyclopedia's answers: the titles an `opensearch` query
//! returns, the page-summary address of the best match, and the category
//! that the page summary suggests.

use crate::categorizer::{category_from_summary, opt_string_view, summary_suggests};
use crate::text::{chars_to_string, lowercase, str_to_chars};
use vstd::prelude::*;

verus! {

/// What `serde_json` reads out of an `opensearch` reply: when the body is
/// JSON whose element 1 is an array, one entry per item of that array, the
/// item's text when it is a string.
pub uninterp spec fn opensearch_titles_of(body: Seq<char>) -> Option<Seq<Option<Seq<char>>>>;

/// `serde_json::from_str::<serde_json::Value>` on the reply body, then
/// element 1 and, per item of it, `as_str`; named by
/// [`opensearch_titles_of`].
#[verifier::external_body]
fn opensearch_titles(body: &str) -> (r: Option<Vec<Option<String>>>)
    ensures
        r is Some <==> opensearch_titles_of(body@) is Some,
        r matches Some(v) ==> v@.len() == opensearch_titles_of(body@)->0.len() && forall|i: int|
            0 <= i < v@.len() ==> #[trigger] opt_string_view(v@[i]) == opensearch_titles_of(body@)->0[i],
{
    let value: serde_json::Value = serde_json::from_str(body).ok()?;
    match value.get(1) {
        Some(serde_json::Value::Array(items)) => Some(
            items.iter().map(|t| t.as_str().map(|s| s.to_string())).collect(),
        ),
        _ => None,
    }
}

/// The best match of an `opensearch` reply: its first title, when the
/// reply has one and it is text.
pub open spec fn best_title(search_body: Seq<char>) -> Option<Seq<char>> {
    match opensearch_titles_of(search_body) {
        Some(ts) => if ts.len() > 0 {
            ts[0]
        } else {
            None
        },
        None => None,
    }
}

pub open spec fn summary_prefix() -> Seq<char> {
    "https://en.wikipedia.org/api/rest_v1/page/summary/"@
}

/// The page-summary address for the best match of an `opensearch` reply
/// (see [`best_title`]); `None` when the reply names no page.
pub fn summary_url_for(search_body: &str) -> (r: Option<String>)
    ensures
        r is Some <==> best_title(search_body@) is Some,
        r matches Some(u) ==> u@ == summary_prefix() + best_title(search_body@)->0,
{
    let titles = match opensearch_titles(search_body) {
        Some(t) => t,
        None => return None,
    };
    if titles.len() == 0 {
        return None;
    }
    assert(opt_string_view(titles@[0]) == opensearch_titles_of(search_body@)->0[0]);
    match &titles[0] {
        Some(t) => {
            let mut v = str_to_chars("https://en.wikipedia.org/api/rest_v1/page/summary/");
            let mut d = str_to_chars(t.as_str());
            v.append(&mut d);
            Some(chars_to_string(v.as_slice()))
        },
        None => None,
    }
}


/// What `serde_json` reads out of a page-summary reply: when the body is a
/// JSON object whose `extract` member is a string, that string.
pub uninterp spec fn summary_extract_of(body: Seq<char>) -> Option<Seq<char>>;

/// `serde_json::from_str::<serde_json::Value>` on the reply body, then the
/// member `extract` and `as_str`; named by [`summary_extract_of`].
#[verifier::external_body]
fn summary_extract(body: &str) -> (r: Option<String>)
    ensures
        opt_string_view(r) == summary_extract_of(body@),
{
    let value: serde_json::Value = serde_json::from_str(body).ok()?;
    value.get("extract")?.as_str().map(|s| s.to_string())
}

/// The category that a page-summary reply suggests: `None` when the reply
/// carries no text summary; else the category of the first phrase of the
/// keyword list that the lower-cased summary contains, `None` when it
/// contains none (see [`category_from_summary`]).
pub fn category_from_summary_reply(summary_body: &str) -> (r: Option<String>)
    ensures
        match summary_extract_of(summary_body@) {
            None => r is None,
            Some(e) => summary_suggests(lowercase(e), opt_string_view(r)),
        },
{
    match summary_extract(summary_body) {
        Some(e) => category_from_summary(e.as_str()),
        None => None,
    }
}

} // verus!
