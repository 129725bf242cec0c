//! Automatic categorisation of unknown applications: a built-in
//! dictionary, a keyword scan of an encyclopedia summary, and an LRU cache
//! in front of both. The network fetch itself is done by the caller; this
//! module decides what to ask for and what to make of the answer.

use vstd::prelude::*;
use crate::text::{
    lowercase, seq_contains, str_to_chars, to_lowercase, chars_contains, chars_to_string,
};

verus! {

/// The built-in dictionary, in lookup order: a key (matched as a
/// case-insensitive substring) and the category it stands for.
pub open spec fn local_dict_spec() -> Seq<(&'static str, &'static str)> {
    seq![
        ("chrome", "efficiency"),
        ("chromium", "efficiency"),
        ("firefox", "efficiency"),
        ("safari", "efficiency"),
        ("edge", "efficiency"),
        ("brave", "efficiency"),
        ("opera", "efficiency"),
        ("vivaldi", "efficiency"),
        ("arc", "efficiency"),
        ("word", "efficiency"),
        ("excel", "efficiency"),
        ("powerpoint", "efficiency"),
        ("pages", "efficiency"),
        ("numbers", "efficiency"),
        ("keynote", "efficiency"),
        ("notion", "efficiency"),
        ("obsidian", "efficiency"),
        ("logseq", "efficiency"),
        ("typora", "efficiency"),
        ("evernote", "efficiency"),
        ("onenote", "efficiency"),
        ("bear", "efficiency"),
        ("ulysses", "efficiency"),
        ("wechat", "social"),
        ("qq", "social"),
        ("dingtalk", "social"),
        ("lark", "efficiency"),
        ("feishu", "efficiency"),
        ("slack", "social"),
        ("discord", "social"),
        ("telegram", "social"),
        ("whatsapp", "social"),
        ("telegram desktop", "social"),
        ("skype", "social"),
        ("zoom", "social"),
        ("teams", "social"),
        ("meet", "social"),
        ("微信", "social"),
        ("vscode", "dev"),
        ("code", "dev"),
        ("intellij", "dev"),
        ("webstorm", "dev"),
        ("pycharm", "dev"),
        ("goland", "dev"),
        ("clion", "dev"),
        ("rider", "dev"),
        ("android studio", "dev"),
        ("xcode", "dev"),
        ("terminal", "dev"),
        ("iterm", "dev"),
        ("warp", "dev"),
        ("postman", "dev"),
        ("insomnia", "dev"),
        ("docker", "dev"),
        ("git", "dev"),
        ("sublime", "dev"),
        ("vim", "dev"),
        ("nvim", "dev"),
        ("photoshop", "creative"),
        ("illustrator", "creative"),
        ("figma", "creative"),
        ("sketch", "creative"),
        ("xd", "creative"),
        ("figjam", "creative"),
        ("blender", "creative"),
        ("maya", "creative"),
        ("cinema 4d", "creative"),
        ("after effects", "creative"),
        ("premiere", "creative"),
        ("final cut", "creative"),
        ("davinci", "creative"),
        ("lightroom", "creative"),
        ("capture one", "creative"),
        ("steam", "entertainment"),
        ("epic games", "entertainment"),
        ("battle.net", "entertainment"),
        ("origin", "entertainment"),
        ("league of legends", "entertainment"),
        ("steam_app", "entertainment"),
        ("spotify", "entertainment"),
        ("网易云", "entertainment"),
        ("netease", "entertainment"),
        ("qq music", "entertainment"),
        ("apple music", "entertainment"),
        ("youtube", "entertainment"),
        ("netflix", "entertainment"),
        ("bilibili", "entertainment"),
        ("哔哩哔哩", "entertainment"),
        ("腾讯视频", "entertainment"),
        ("爱奇艺", "entertainment"),
        ("youku", "entertainment"),
        ("优酷", "entertainment"),
        ("抖音", "entertainment"),
        ("tiktok", "entertainment"),
        ("finder", "tools"),
        ("explorer", "tools"),
        ("settings", "tools"),
        ("系统偏好", "tools"),
        ("系统设置", "tools"),
        ("preferences", "tools"),
        ("activity monitor", "tools"),
        ("任务管理器", "tools"),
        ("anki", "learning"),
        ("zotero", "learning"),
        ("marginnote", "learning"),
        ("goodnotes", "learning"),
        ("notability", "learning")
    ]
}

/// The built-in dictionary (see [`local_dict_spec`]).
pub fn local_dict() -> (v: Vec<(&'static str, &'static str)>)
    ensures
        v@ == local_dict_spec(),
{
    let v = vec![
        ("chrome", "efficiency"),
        ("chromium", "efficiency"),
        ("firefox", "efficiency"),
        ("safari", "efficiency"),
        ("edge", "efficiency"),
        ("brave", "efficiency"),
        ("opera", "efficiency"),
        ("vivaldi", "efficiency"),
        ("arc", "efficiency"),
        ("word", "efficiency"),
        ("excel", "efficiency"),
        ("powerpoint", "efficiency"),
        ("pages", "efficiency"),
        ("numbers", "efficiency"),
        ("keynote", "efficiency"),
        ("notion", "efficiency"),
        ("obsidian", "efficiency"),
        ("logseq", "efficiency"),
        ("typora", "efficiency"),
        ("evernote", "efficiency"),
        ("onenote", "efficiency"),
        ("bear", "efficiency"),
        ("ulysses", "efficiency"),
        ("wechat", "social"),
        ("qq", "social"),
        ("dingtalk", "social"),
        ("lark", "efficiency"),
        ("feishu", "efficiency"),
        ("slack", "social"),
        ("discord", "social"),
        ("telegram", "social"),
        ("whatsapp", "social"),
        ("telegram desktop", "social"),
        ("skype", "social"),
        ("zoom", "social"),
        ("teams", "social"),
        ("meet", "social"),
        ("微信", "social"),
        ("vscode", "dev"),
        ("code", "dev"),
        ("intellij", "dev"),
        ("webstorm", "dev"),
        ("pycharm", "dev"),
        ("goland", "dev"),
        ("clion", "dev"),
        ("rider", "dev"),
        ("android studio", "dev"),
        ("xcode", "dev"),
        ("terminal", "dev"),
        ("iterm", "dev"),
        ("warp", "dev"),
        ("postman", "dev"),
        ("insomnia", "dev"),
        ("docker", "dev"),
        ("git", "dev"),
        ("sublime", "dev"),
        ("vim", "dev"),
        ("nvim", "dev"),
        ("photoshop", "creative"),
        ("illustrator", "creative"),
        ("figma", "creative"),
        ("sketch", "creative"),
        ("xd", "creative"),
        ("figjam", "creative"),
        ("blender", "creative"),
        ("maya", "creative"),
        ("cinema 4d", "creative"),
        ("after effects", "creative"),
        ("premiere", "creative"),
        ("final cut", "creative"),
        ("davinci", "creative"),
        ("lightroom", "creative"),
        ("capture one", "creative"),
        ("steam", "entertainment"),
        ("epic games", "entertainment"),
        ("battle.net", "entertainment"),
        ("origin", "entertainment"),
        ("league of legends", "entertainment"),
        ("steam_app", "entertainment"),
        ("spotify", "entertainment"),
        ("网易云", "entertainment"),
        ("netease", "entertainment"),
        ("qq music", "entertainment"),
        ("apple music", "entertainment"),
        ("youtube", "entertainment"),
        ("netflix", "entertainment"),
        ("bilibili", "entertainment"),
        ("哔哩哔哩", "entertainment"),
        ("腾讯视频", "entertainment"),
        ("爱奇艺", "entertainment"),
        ("youku", "entertainment"),
        ("优酷", "entertainment"),
        ("抖音", "entertainment"),
        ("tiktok", "entertainment"),
        ("finder", "tools"),
        ("explorer", "tools"),
        ("settings", "tools"),
        ("系统偏好", "tools"),
        ("系统设置", "tools"),
        ("preferences", "tools"),
        ("activity monitor", "tools"),
        ("任务管理器", "tools"),
        ("anki", "learning"),
        ("zotero", "learning"),
        ("marginnote", "learning"),
        ("goodnotes", "learning"),
        ("notability", "learning")
    ];
    assert(v@ =~= local_dict_spec());
    v
}

/// The lower-cased characters of an optional text; an absent text gives
/// the empty sequence (it is not lower-cased).
pub open spec fn lower_or_empty(o: Option<Seq<char>>) -> Seq<char> {
    match o {
        Some(s) => lowercase(s),
        None => Seq::empty(),
    }
}

/// The characters of an optional text.
/// The text of an optional owned string.
pub open spec fn opt_string_view(o: Option<String>) -> Option<Seq<char>> {
    match o {
        Some(s) => Some(s@),
        None => None,
    }
}

pub open spec fn opt_view(o: Option<&str>) -> Option<Seq<char>> {
    match o {
        Some(s) => Some(s@),
        None => None,
    }
}

/// Dictionary key `key` hits one of the lower-cased fields: the process
/// name, the display name, or a non-empty executable path.
pub open spec fn dict_key_hits(pn: Seq<char>, dn: Seq<char>, ep: Seq<char>, key: Seq<char>) -> bool {
    let k = lowercase(key);
    seq_contains(pn, k) || seq_contains(dn, k) || (seq_contains(ep, k) && ep.len() > 0)
}

/// Entry `i` is the first dictionary entry that hits.
pub open spec fn is_first_dict_hit(pn: Seq<char>, dn: Seq<char>, ep: Seq<char>, i: int) -> bool {
    let d = local_dict_spec();
    &&& 0 <= i < d.len()
    &&& dict_key_hits(pn, dn, ep, d[i].0@)
    &&& forall|j: int| 0 <= j < i ==> !dict_key_hits(pn, dn, ep, #[trigger] d[j].0@)
}

/// What the dictionary says for an application: the category of the first
/// entry whose key occurs in one of its lower-cased fields, if any.
pub open spec fn spec_lookup_local(
    process_name: Seq<char>,
    exe_path: Option<Seq<char>>,
    display_name: Seq<char>,
    r: Option<String>,
) -> bool {
    let pn = lowercase(process_name);
    let dn = lowercase(display_name);
    let ep = lower_or_empty(exe_path);
    match r {
        Some(c) => exists|i: int| is_first_dict_hit(pn, dn, ep, i) && c@ == local_dict_spec()[i].1@,
        None => forall|i: int|
            0 <= i < local_dict_spec().len() ==> !dict_key_hits(
                pn,
                dn,
                ep,
                #[trigger] local_dict_spec()[i].0@,
            ),
    }
}

/// Looks an application up in the built-in dictionary.
pub fn lookup_local(process_name: &str, exe_path: Option<&str>, display_name: &str) -> (r: Option<
    String,
>)
    ensures
        spec_lookup_local(process_name@, opt_view(exe_path), display_name@, r),
{
    let pn = str_to_chars(to_lowercase(process_name).as_str());
    let dn = str_to_chars(to_lowercase(display_name).as_str());
    let ep: Vec<char> = match exe_path {
        Some(s) => str_to_chars(to_lowercase(s).as_str()),
        None => Vec::new(),
    };
    let dict = local_dict();
    let mut i: usize = 0;
    while i < dict.len()
        invariant
            dict@ == local_dict_spec(),
            pn@ == lowercase(process_name@),
            dn@ == lowercase(display_name@),
            ep@ == lower_or_empty(opt_view(exe_path)),
            i <= dict@.len(),
            forall|j: int| 0 <= j < i ==> !dict_key_hits(pn@, dn@, ep@, #[trigger] local_dict_spec()[j].0@),
        decreases dict.len() - i,
    {
        let (key, cat) = dict[i];
        let k = str_to_chars(to_lowercase(key).as_str());
        if chars_contains(&pn, &k) || chars_contains(&dn, &k) || (chars_contains(&ep, &k)
            && ep.len() > 0) {
            let c = cat.to_string();
            assert(is_first_dict_hit(pn@, dn@, ep@, i as int));
            return Some(c);
        }
        i = i + 1;
    }
    None
}

/// Dictionary lookup only: no cache and no network, so it never blocks.
pub fn lookup_local_only(process_name: &str, exe_path: Option<&str>, display_name: &str) -> (r:
    Option<String>)
    ensures
        spec_lookup_local(process_name@, opt_view(exe_path), display_name@, r),
{
    lookup_local(process_name, exe_path, display_name)
}

/// Phrases looked for in an encyclopedia summary, in order, with the
/// category each one stands for.
pub open spec fn summary_keywords_spec() -> Seq<(&'static str, &'static str)> {
    seq![
        ("web browser", "efficiency"),
        ("search engine", "efficiency"),
        ("office suite", "efficiency"),
        ("word processor", "efficiency"),
        ("spreadsheet", "efficiency"),
        ("presentation", "efficiency"),
        ("messaging app", "social"),
        ("chat", "social"),
        ("social media", "social"),
        ("instant messaging", "social"),
        ("video calling", "social"),
        ("video conferencing", "social"),
        ("integrated development environment", "dev"),
        ("code editor", "dev"),
        ("source-code editor", "dev"),
        ("version control", "dev"),
        ("image editing", "creative"),
        ("photo editing", "creative"),
        ("vector graphics", "creative"),
        ("3d modeling", "creative"),
        ("video editing", "creative"),
        ("video player", "entertainment"),
        ("music streaming", "entertainment"),
        ("music player", "entertainment"),
        ("streaming media", "entertainment"),
        ("video game", "entertainment")
    ]
}

/// The summary phrases (see [`summary_keywords_spec`]).
pub fn summary_keywords() -> (v: Vec<(&'static str, &'static str)>)
    ensures
        v@ == summary_keywords_spec(),
{
    let v = vec![
        ("web browser", "efficiency"),
        ("search engine", "efficiency"),
        ("office suite", "efficiency"),
        ("word processor", "efficiency"),
        ("spreadsheet", "efficiency"),
        ("presentation", "efficiency"),
        ("messaging app", "social"),
        ("chat", "social"),
        ("social media", "social"),
        ("instant messaging", "social"),
        ("video calling", "social"),
        ("video conferencing", "social"),
        ("integrated development environment", "dev"),
        ("code editor", "dev"),
        ("source-code editor", "dev"),
        ("version control", "dev"),
        ("image editing", "creative"),
        ("photo editing", "creative"),
        ("vector graphics", "creative"),
        ("3d modeling", "creative"),
        ("video editing", "creative"),
        ("video player", "entertainment"),
        ("music streaming", "entertainment"),
        ("music player", "entertainment"),
        ("streaming media", "entertainment"),
        ("video game", "entertainment")
    ];
    assert(v@ =~= summary_keywords_spec());
    v
}

/// Phrase `i` is the first phrase that occurs in the lower-cased summary.
pub open spec fn is_first_keyword(text: Seq<char>, i: int) -> bool {
    let k = summary_keywords_spec();
    &&& 0 <= i < k.len()
    &&& seq_contains(text, k[i].0@)
    &&& forall|j: int| 0 <= j < i ==> !seq_contains(text, #[trigger] k[j].0@)
}

/// `r` is the category that the lower-cased summary `text` suggests: that
/// of its first phrase, or none when it holds no phrase of the list.
pub open spec fn summary_suggests(text: Seq<char>, r: Option<Seq<char>>) -> bool {
    match r {
        Some(c) => exists|i: int| is_first_keyword(text, i) && c == summary_keywords_spec()[i].1@,
        None => forall|i: int|
            0 <= i < summary_keywords_spec().len() ==> !seq_contains(
                text,
                #[trigger] summary_keywords_spec()[i].0@,
            ),
    }
}

/// Reads a category out of an encyclopedia summary: the category of the
/// first phrase that occurs in the lower-cased text, if any.
pub fn category_from_summary(extract: &str) -> (r: Option<String>)
    ensures
        summary_suggests(lowercase(extract@), opt_string_view(r)),
{
    let text = str_to_chars(to_lowercase(extract).as_str());
    let kws = summary_keywords();
    let mut i: usize = 0;
    while i < kws.len()
        invariant
            kws@ == summary_keywords_spec(),
            text@ == lowercase(extract@),
            i <= kws@.len(),
            forall|j: int|
                0 <= j < i ==> !seq_contains(text@, #[trigger] summary_keywords_spec()[j].0@),
        decreases kws.len() - i,
    {
        let (kw, cat) = kws[i];
        let k = str_to_chars(kw);
        if chars_contains(&text, &k) {
            let c = cat.to_string();
            assert(is_first_keyword(text@, i as int));
            return Some(c);
        }
        i = i + 1;
    }
    None
}

#[verifier::external_type_specification]
#[verifier::external_body]
#[verifier::reject_recursive_types(K)]
#[verifier::reject_recursive_types(V)]
#[verifier::reject_recursive_types(S)]
pub struct ExLruCache<K, V, S>(lru::LruCache<K, V, S>);

#[verifier::external_type_specification]
#[verifier::external_body]
pub struct ExLruHasher(lru::DefaultHasher);

/// What an `lru::LruCache` of strings holds: each key's text mapped to its
/// value's text.
pub uninterp spec fn lru_contents(c: lru::LruCache<String, String>) -> Map<Seq<char>, Seq<char>>;

/// The capacity an `lru::LruCache` was made with.
pub uninterp spec fn lru_capacity(c: lru::LruCache<String, String>) -> nat;

/// The keys of an `lru::LruCache` of strings in the order of their last
/// use, from the least to the most recently used (the cache's list, read
/// from its tail to its head).
pub uninterp spec fn lru_order(c: lru::LruCache<String, String>) -> Seq<Seq<char>>;

/// `s` with every copy of `k` taken out, the rest in order.
pub open spec fn without_key(s: Seq<Seq<char>>, k: Seq<char>) -> Seq<Seq<char>>
    decreases s.len(),
{
    if s.len() == 0 {
        s
    } else if s.last() == k {
        without_key(s.drop_last(), k)
    } else {
        without_key(s.drop_last(), k).push(s.last())
    }
}

/// The use order after `k` is used: `k` moves to the most recent end.
pub open spec fn touched(s: Seq<Seq<char>>, k: Seq<char>) -> Seq<Seq<char>> {
    without_key(s, k).push(k)
}

/// The order lists each key of the contents once, and no more keys than
/// the capacity.
pub open spec fn lru_shape(m: Map<Seq<char>, Seq<char>>, order: Seq<Seq<char>>, cap: nat) -> bool {
    &&& m.dom().finite()
    &&& order.no_duplicates()
    &&& forall|x: Seq<char>| #[trigger] order.contains(x) <==> m.contains_key(x)
    &&& order.len() <= cap
}

pub open spec fn lru_ok(c: lru::LruCache<String, String>) -> bool {
    lru_shape(lru_contents(c), lru_order(c), lru_capacity(c))
}

/// Contents and use order after `put(k, v)`: a key already held takes the
/// new value and becomes the most recently used; a new key joins as the
/// most recently used, and when the cache is full the least recently used
/// entry leaves first.
pub open spec fn lru_after_put(
    m: Map<Seq<char>, Seq<char>>,
    order: Seq<Seq<char>>,
    cap: nat,
    k: Seq<char>,
    v: Seq<char>,
) -> (Map<Seq<char>, Seq<char>>, Seq<Seq<char>>) {
    if m.contains_key(k) {
        (m.insert(k, v), touched(order, k))
    } else if order.len() < cap {
        (m.insert(k, v), order.push(k))
    } else {
        (m.remove(order[0]).insert(k, v), order.drop_first().push(k))
    }
}

/// `lru::LruCache::new`: an empty cache holding at most `cap` entries.
#[verifier::external_body]
fn lru_new(cap: usize) -> (c: lru::LruCache<String, String>)
    requires
        cap > 0,
    ensures
        lru_contents(c).dom().is_empty(),
        lru_order(c).len() == 0,
        lru_capacity(c) == cap,
{
    lru::LruCache::new(std::num::NonZeroUsize::new(cap).unwrap())
}

/// `lru::LruCache::get`, with the value cloned: the value stored under
/// `key`, if any. The entries stay as they were; a key found becomes the
/// most recently used.
#[verifier::external_body]
fn lru_get(c: &mut lru::LruCache<String, String>, key: &str) -> (r: Option<String>)
    ensures
        lru_contents(*final(c)) == lru_contents(*old(c)),
        lru_capacity(*final(c)) == lru_capacity(*old(c)),
        lru_order(*final(c)) == (if lru_contents(*old(c)).contains_key(key@) {
            touched(lru_order(*old(c)), key@)
        } else {
            lru_order(*old(c))
        }),
        match r {
            Some(v) => lru_contents(*old(c)).contains_key(key@) && lru_contents(*old(c))[key@]
                == v@,
            None => !lru_contents(*old(c)).contains_key(key@),
        },
{
    c.get(key).cloned()
}

/// `lru::LruCache::put`: stores `val` under `key` as [`lru_after_put`]
/// describes; the replaced or evicted value it hands back is dropped.
#[verifier::external_body]
fn lru_put(c: &mut lru::LruCache<String, String>, key: String, val: String)
    ensures
        lru_capacity(*final(c)) == lru_capacity(*old(c)),
        (lru_contents(*final(c)), lru_order(*final(c))) == lru_after_put(
            lru_contents(*old(c)),
            lru_order(*old(c)),
            lru_capacity(*old(c)),
            key@,
            val@,
        ),
{
    c.put(key, val);
}

proof fn lemma_without_key(s: Seq<Seq<char>>, k: Seq<char>)
    ensures
        forall|x: Seq<char>| #[trigger] without_key(s, k).contains(x) <==> s.contains(x) && x != k,
        s.no_duplicates() ==> without_key(s, k).no_duplicates(),
        s.no_duplicates() && s.contains(k) ==> without_key(s, k).len() == s.len() - 1,
        !s.contains(k) ==> without_key(s, k) == s,
    decreases s.len(),
{
    if s.len() > 0 {
        let t = s.drop_last();
        lemma_without_key(t, k);
        let w = without_key(t, k);
        assert forall|x: Seq<char>| #[trigger] without_key(s, k).contains(x) <==> s.contains(x) && x != k by {
            let r = without_key(s, k);
            if s.last() == k {
                assert(r == w);
                if s.contains(x) && x != k {
                    let i = choose|i: int| 0 <= i < s.len() && s[i] == x;
                    assert(i != s.len() - 1);
                    assert(t[i] == x);
                    assert(t.contains(x));
                    assert(w.contains(x));
                }
                if w.contains(x) {
                    assert(t.contains(x));
                    let i = choose|i: int| 0 <= i < t.len() && t[i] == x;
                    assert(s[i] == x);
                }
            } else {
                assert(r == w.push(s.last()));
                if s.contains(x) && x != k {
                    let i = choose|i: int| 0 <= i < s.len() && s[i] == x;
                    if i == s.len() - 1 {
                        assert(r[r.len() - 1] == x);
                    } else {
                        assert(t[i] == x);
                        assert(t.contains(x));
                        assert(w.contains(x));
                        let j = choose|j: int| 0 <= j < w.len() && w[j] == x;
                        assert(r[j] == x);
                    }
                }
                if r.contains(x) {
                    let j = choose|j: int| 0 <= j < r.len() && r[j] == x;
                    if j == r.len() - 1 {
                        assert(s[s.len() - 1] == x);
                    } else {
                        assert(w[j] == x);
                        assert(w.contains(x));
                        assert(t.contains(x));
                        let i = choose|i: int| 0 <= i < t.len() && t[i] == x;
                        assert(s[i] == x);
                    }
                }
            }
        }
        if s.no_duplicates() {
            assert(t.no_duplicates());
            assert(!t.contains(s.last())) by {
                if t.contains(s.last()) {
                    let i = choose|i: int| 0 <= i < t.len() && t[i] == s.last();
                    assert(s[i] == s[s.len() - 1]);
                }
            }
            if s.last() != k {
                assert(!w.contains(s.last()));
                let ws = w.push(s.last());
                assert forall|a: int, b: int| 0 <= a < ws.len() && 0 <= b < ws.len() && a != b implies ws[a]
                    != ws[b] by {
                    if a == ws.len() - 1 {
                        assert(w.contains(ws[b]) || b == ws.len() - 1);
                    } else if b == ws.len() - 1 {
                        assert(w[a] == ws[a]);
                        assert(w.contains(ws[a]));
                    }
                }
            }
            if s.contains(k) {
                if s.last() != k {
                    assert(t.contains(k)) by {
                        let i = choose|i: int| 0 <= i < s.len() && s[i] == k;
                        assert(t[i] == k);
                    }
                }
            }
        }
        if !s.contains(k) {
            assert(!t.contains(k)) by {
                if t.contains(k) {
                    let i = choose|i: int| 0 <= i < t.len() && t[i] == k;
                    assert(s[i] == k);
                }
            }
            assert(s.last() != k);
            assert(t.push(s.last()) =~= s);
        }
    }
}

/// Putting into a well-shaped cache keeps it well shaped.
/// In a well-shaped cache the use order lists exactly the cached keys, so
/// the cache holds as many entries as the order is long, at most `cap`.
pub proof fn lemma_shape_size(m: Map<Seq<char>, Seq<char>>, order: Seq<Seq<char>>, cap: nat)
    requires
        lru_shape(m, order, cap),
    ensures
        m.dom().len() == order.len(),
        m.dom().len() <= cap,
{
    order.unique_seq_to_set();
    assert(order.to_set() =~= m.dom()) by {
        assert forall|x: Seq<char>| order.to_set().contains(x) <==> m.dom().contains(x) by {
            assert(order.to_set().contains(x) <==> order.contains(x));
        }
    }
}

proof fn lemma_put_keeps_shape(
    m: Map<Seq<char>, Seq<char>>,
    order: Seq<Seq<char>>,
    cap: nat,
    k: Seq<char>,
    v: Seq<char>,
)
    requires
        lru_shape(m, order, cap),
        cap > 0,
    ensures
        lru_shape(lru_after_put(m, order, cap, k, v).0, lru_after_put(m, order, cap, k, v).1, cap),
{
    lemma_without_key(order, k);
    let (m2, o2) = lru_after_put(m, order, cap, k, v);
    if m.contains_key(k) {
        assert(order.contains(k));
        let w = without_key(order, k);
        assert(!w.contains(k));
        assert forall|a: int, b: int| 0 <= a < o2.len() && 0 <= b < o2.len() && a != b implies o2[a]
            != o2[b] by {
            if a == o2.len() - 1 {
                if b < w.len() {
                    assert(w[b] == o2[b]);
                    assert(w.contains(o2[b]));
                }
            } else if b == o2.len() - 1 {
                assert(w[a] == o2[a]);
                assert(w.contains(o2[a]));
            }
        }
        assert forall|x: Seq<char>| #[trigger] o2.contains(x) <==> m2.contains_key(x) by {
            if o2.contains(x) && x != k {
                let i = choose|i: int| 0 <= i < o2.len() && o2[i] == x;
                assert(w[i] == x);
                assert(w.contains(x));
            }
            if x == k {
                assert(o2[o2.len() - 1] == k);
            } else if m2.contains_key(x) {
                assert(w.contains(x));
                let i = choose|i: int| 0 <= i < w.len() && w[i] == x;
                assert(o2[i] == x);
            }
        }
    } else if order.len() < cap {
        assert(!order.contains(k));
        assert forall|a: int, b: int| 0 <= a < o2.len() && 0 <= b < o2.len() && a != b implies o2[a]
            != o2[b] by {
            if a == o2.len() - 1 {
                assert(order[b] == o2[b]);
            } else if b == o2.len() - 1 {
                assert(order[a] == o2[a]);
            }
        }
        assert forall|x: Seq<char>| #[trigger] o2.contains(x) <==> m2.contains_key(x) by {
            if o2.contains(x) && x != k {
                let i = choose|i: int| 0 <= i < o2.len() && o2[i] == x;
                assert(order[i] == x);
                assert(order.contains(x));
            }
            if x == k {
                assert(o2[o2.len() - 1] == k);
            } else if m2.contains_key(x) {
                assert(order.contains(x));
                let i = choose|i: int| 0 <= i < order.len() && order[i] == x;
                assert(o2[i] == x);
            }
        }
    } else {
        assert(!order.contains(k));
        assert(order.len() > 0);
        let d = order.drop_first();
        let e = order[0];
        assert forall|a: int, b: int| 0 <= a < o2.len() && 0 <= b < o2.len() && a != b implies o2[a]
            != o2[b] by {
            if a == o2.len() - 1 {
                assert(order[b + 1] == o2[b]);
            } else if b == o2.len() - 1 {
                assert(order[a + 1] == o2[a]);
            } else {
                assert(order[a + 1] == o2[a]);
                assert(order[b + 1] == o2[b]);
            }
        }
        assert forall|x: Seq<char>| #[trigger] o2.contains(x) <==> m2.contains_key(x) by {
            if o2.contains(x) && x != k {
                let i = choose|i: int| 0 <= i < o2.len() && o2[i] == x;
                assert(order[i + 1] == x);
                assert(order.contains(x));
                assert(x != e);
            }
            if x == k {
                assert(o2[o2.len() - 1] == k);
            } else if m2.contains_key(x) {
                assert(order.contains(x));
                let i = choose|i: int| 0 <= i < order.len() && order[i] == x;
                assert(i != 0);
                assert(o2[i - 1] == x);
            }
        }
    }
}

/// How many entries a [`CategoryCache`] keeps.
pub const CACHE_CAPACITY: usize = 256;

/// A bounded cache of lookup results, keyed by [`spec_cache_key`]; the
/// least recently used entry makes room when it is full, and both reads
/// and writes count as a use.
pub struct CategoryCache {
    map: lru::LruCache<String, String>,
}

impl View for CategoryCache {
    type V = Map<Seq<char>, Seq<char>>;

    closed spec fn view(&self) -> Map<Seq<char>, Seq<char>> {
        lru_contents(self.map)
    }
}

impl CategoryCache {
    /// The keys in the order of their last use, least recent first.
    pub closed spec fn order(&self) -> Seq<Seq<char>> {
        lru_order(self.map)
    }

    /// The order lists each cached key once, at most [`CACHE_CAPACITY`] of
    /// them.
    pub closed spec fn wf(&self) -> bool {
        lru_capacity(self.map) == CACHE_CAPACITY && lru_ok(self.map)
    }

    /// A well-formed cache is well shaped for [`CACHE_CAPACITY`]: it holds
    /// at most that many entries, each listed once in the use order.
    pub proof fn lemma_wf_bound(&self)
        requires
            self.wf(),
        ensures
            lru_shape(self@, self.order(), CACHE_CAPACITY as nat),
            self@.dom().len() == self.order().len(),
            self@.dom().len() <= CACHE_CAPACITY,
    {
        lemma_shape_size(self@, self.order(), CACHE_CAPACITY as nat);
    }

    pub fn new() -> (c: Self)
        ensures
            c.wf(),
            c@ == Map::<Seq<char>, Seq<char>>::empty(),
            c.order() == Seq::<Seq<char>>::empty(),
            c@.dom().len() <= CACHE_CAPACITY,
    {
        let c = CategoryCache { map: lru_new(CACHE_CAPACITY) };
        assert(c@ =~= Map::<Seq<char>, Seq<char>>::empty());
        assert(c.order() =~= Seq::<Seq<char>>::empty());
        c
    }

    /// The category cached under `key`, if any; a key found becomes the
    /// most recently used.
    pub fn get(&mut self, key: &str) -> (r: Option<String>)
        requires
            old(self).wf(),
        ensures
            final(self).wf(),
            final(self)@.dom().len() <= CACHE_CAPACITY,
            final(self)@ == old(self)@,
            final(self).order() == (if old(self)@.contains_key(key@) {
                touched(old(self).order(), key@)
            } else {
                old(self).order()
            }),
            match r {
                Some(v) => old(self)@.contains_key(key@) && old(self)@[key@] == v@,
                None => !old(self)@.contains_key(key@),
            },
    {
        let r = lru_get(&mut self.map, key);
        proof {
            let o = lru_order(old(self).map);
            lemma_without_key(o, key@);
            if lru_contents(old(self).map).contains_key(key@) {
                let w = without_key(o, key@);
                let o2 = w.push(key@);
                assert(o.contains(key@));
                assert forall|a: int, b: int| 0 <= a < o2.len() && 0 <= b < o2.len() && a != b implies o2[a]
                    != o2[b] by {
                    if a == o2.len() - 1 {
                        assert(w[b] == o2[b]);
                        assert(w.contains(o2[b]));
                    } else if b == o2.len() - 1 {
                        assert(w[a] == o2[a]);
                        assert(w.contains(o2[a]));
                    }
                }
                assert forall|x: Seq<char>| #[trigger] o2.contains(x) <==> lru_contents(self.map).contains_key(x) by {
                    if o2.contains(x) && x != key@ {
                        let i = choose|i: int| 0 <= i < o2.len() && o2[i] == x;
                        assert(w[i] == x);
                        assert(w.contains(x));
                    }
                    if x == key@ {
                        assert(o2[o2.len() - 1] == x);
                    } else if lru_contents(self.map).contains_key(x) {
                        assert(w.contains(x));
                        let i = choose|i: int| 0 <= i < w.len() && w[i] == x;
                        assert(o2[i] == x);
                    }
                }
            }
        }
        proof {
            self.lemma_wf_bound();
        }
        r
    }

    /// Caches `val` under `key` (see [`lru_after_put`]).
    pub fn put(&mut self, key: String, val: String)
        requires
            old(self).wf(),
        ensures
            final(self).wf(),
            final(self)@.dom().len() <= CACHE_CAPACITY,
            (final(self)@, final(self).order()) == lru_after_put(
                old(self)@,
                old(self).order(),
                CACHE_CAPACITY as nat,
                key@,
                val@,
            ),
    {
        proof {
            lemma_put_keeps_shape(
                lru_contents(self.map),
                lru_order(self.map),
                CACHE_CAPACITY as nat,
                key@,
                val@,
            );
        }
        lru_put(&mut self.map, key, val);
        proof {
            self.lemma_wf_bound();
        }
    }
}

impl Default for CategoryCache {
    fn default() -> (c: Self)
        ensures
            c.wf(),
            c@ == Map::<Seq<char>, Seq<char>>::empty(),
            c.order() == Seq::<Seq<char>>::empty(),
    {
        Self::new()
    }
}

/// A read right after a write gives back what was written, and the key
/// written is then the most recently used.
pub proof fn law_get_after_put(
    m: Map<Seq<char>, Seq<char>>,
    order: Seq<Seq<char>>,
    cap: nat,
    k: Seq<char>,
    v: Seq<char>,
)
    ensures
        lru_after_put(m, order, cap, k, v).0.contains_key(k),
        lru_after_put(m, order, cap, k, v).0[k] == v,
        lru_after_put(m, order, cap, k, v).1.last() == k,
{
}

/// A write touches no other key, except that a new key written into a full
/// cache evicts the least recently used one: every other entry keeps its
/// value.
pub proof fn law_put_keeps_others(
    m: Map<Seq<char>, Seq<char>>,
    order: Seq<Seq<char>>,
    cap: nat,
    k: Seq<char>,
    v: Seq<char>,
    other: Seq<char>,
)
    requires
        lru_shape(m, order, cap),
        cap > 0,
        other != k,
        m.contains_key(other),
    ensures
        !m.contains_key(k) && order.len() >= cap && other == order[0] ==> !lru_after_put(
            m,
            order,
            cap,
            k,
            v,
        ).0.contains_key(other),
        !(!m.contains_key(k) && order.len() >= cap && other == order[0]) ==> lru_after_put(
            m,
            order,
            cap,
            k,
            v,
        ).0.contains_key(other) && lru_after_put(m, order, cap, k, v).0[other] == m[other],
{
}

/// The entry that a new key pushes out of a full cache is the least
/// recently used one: the first of the use order, not the key written.
pub proof fn law_put_evicts_least_recent(
    m: Map<Seq<char>, Seq<char>>,
    order: Seq<Seq<char>>,
    cap: nat,
    k: Seq<char>,
    v: Seq<char>,
)
    requires
        lru_shape(m, order, cap),
        cap > 0,
        !m.contains_key(k),
        order.len() == cap,
    ensures
        m.contains_key(order[0]),
        lru_after_put(m, order, cap, k, v).0 == m.remove(order[0]).insert(k, v),
{
    assert(order.contains(order[0]));
}

/// The cache key of an application: its lower-cased process name, display
/// name and executable path (empty when absent), joined by `|`.
pub open spec fn spec_cache_key(
    process_name: Seq<char>,
    exe_path: Option<Seq<char>>,
    display_name: Seq<char>,
) -> Seq<char> {
    let ep = match exe_path {
        Some(s) => s,
        None => Seq::empty(),
    };
    lowercase(process_name) + seq!['|'] + lowercase(display_name) + seq!['|'] + lowercase(ep)
}

/// The cache key is the lower-cased process name, `|`, the lower-cased
/// display name, `|`, and the lower-cased executable path (nothing when
/// there is none), in that order; so two descriptions that agree once
/// lower-cased share a key.
pub proof fn law_cache_key_layout(
    process_name: Seq<char>,
    exe_path: Option<Seq<char>>,
    display_name: Seq<char>,
    p2: Seq<char>,
    e2: Option<Seq<char>>,
    d2: Seq<char>,
)
    ensures
        exe_path matches Some(e) ==> spec_cache_key(process_name, exe_path, display_name) == lowercase(
            process_name,
        ) + "|"@ + lowercase(display_name) + "|"@ + lowercase(e),
        exe_path is None ==> spec_cache_key(process_name, exe_path, display_name) == lowercase(process_name)
            + "|"@ + lowercase(display_name) + "|"@ + lowercase(Seq::empty()),
        lowercase(process_name) == lowercase(p2) && lowercase(display_name) == lowercase(d2) && lowercase(
            opt_or_empty(exe_path),
        ) == lowercase(opt_or_empty(e2)) ==> spec_cache_key(process_name, exe_path, display_name)
            == spec_cache_key(p2, e2, d2),
{
    reveal_strlit("|");
    assert(seq!['|'] =~= "|"@);
}

pub open spec fn opt_or_empty(o: Option<Seq<char>>) -> Seq<char> {
    match o {
        Some(s) => s,
        None => Seq::empty(),
    }
}

/// Builds the cache key (see [`spec_cache_key`]).
pub fn cache_key(process_name: &str, exe_path: Option<&str>, display_name: &str) -> (k: String)
    ensures
        k@ == spec_cache_key(process_name@, opt_view(exe_path), display_name@),
{
    proof {
        reveal_strlit("");
    }
    let ep = match exe_path {
        Some(s) => s,
        None => "",
    };
    let mut v = str_to_chars(to_lowercase(process_name).as_str());
    v.push('|');
    let mut dn = str_to_chars(to_lowercase(display_name).as_str());
    v.append(&mut dn);
    v.push('|');
    let mut e = str_to_chars(to_lowercase(ep).as_str());
    v.append(&mut e);
    proof {
        assert(ep@ == match opt_view(exe_path) {
            Some(s) => s,
            None => Seq::<char>::empty(),
        });
    }
    let k = chars_to_string(v.as_slice());
    assert(k@ =~= spec_cache_key(process_name@, opt_view(exe_path), display_name@));
    k
}

/// The text to search the encyclopedia for: the display name, or the
/// process name when the display name is empty.
pub open spec fn spec_web_query(process_name: Seq<char>, display_name: Seq<char>) -> Seq<char> {
    if display_name.len() > 0 {
        display_name
    } else {
        process_name
    }
}

/// The encyclopedia is searched for the display name whenever there is
/// one; the process name stands in only for an empty display name.
pub proof fn law_web_query_prefers_display_name(process_name: Seq<char>, display_name: Seq<char>)
    ensures
        display_name.len() > 0 ==> spec_web_query(process_name, display_name) == display_name,
        display_name.len() == 0 ==> spec_web_query(process_name, display_name) == process_name,
        spec_web_query(process_name, display_name).len() > 0 <==> display_name.len() > 0
            || process_name.len() > 0,
{
}

/// Where a category lookup stands after the steps that need no network.
pub enum LookupStep {
    /// The category is known, from the cache or from the dictionary.
    Done(String),
    /// Nothing local knows the application: search the encyclopedia for
    /// `query`, then call [`lookup_category_finish`] with `key`.
    AskWeb { key: String, query: String },
}

/// Whether the built-in dictionary knows an application.
pub open spec fn dict_knows(process_name: Seq<char>, exe_path: Option<Seq<char>>, display_name: Seq<char>) -> bool {
    !spec_lookup_local(process_name, exe_path, display_name, None)
}

/// The steps of a category lookup that need no network: the dictionary
/// first (its answer is cached), then the cache.
pub fn lookup_category_begin(
    process_name: &str,
    exe_path: Option<&str>,
    display_name: &str,
    cache: &mut CategoryCache,
) -> (r: LookupStep)
    requires
        old(cache).wf(),
    ensures
        final(cache).wf(),
        ({
            let key = spec_cache_key(process_name@, opt_view(exe_path), display_name@);
            if dict_knows(process_name@, opt_view(exe_path), display_name@) {
                &&& r matches LookupStep::Done(c)
                &&& spec_lookup_local(process_name@, opt_view(exe_path), display_name@, Some(c))
                &&& (final(cache)@, final(cache).order()) == lru_after_put(
                    old(cache)@,
                    old(cache).order(),
                    CACHE_CAPACITY as nat,
                    key,
                    c@,
                )
            } else if old(cache)@.contains_key(key) {
                &&& r matches LookupStep::Done(c) && c@ == old(cache)@[key]
                &&& final(cache)@ == old(cache)@
                &&& final(cache).order() == touched(old(cache).order(), key)
            } else {
                &&& r matches LookupStep::AskWeb { key: k, query: q } && k@ == key && q@
                    == spec_web_query(process_name@, display_name@)
                &&& final(cache)@ == old(cache)@
                &&& final(cache).order() == old(cache).order()
            }
        }),
        r matches LookupStep::AskWeb { query: q, .. } ==> (display_name@.len() > 0 ==> q@ == display_name@)
            && (display_name@.len() == 0 ==> q@ == process_name@),
{
    let key = cache_key(process_name, exe_path, display_name);
    let local = lookup_local(process_name, exe_path, display_name);
    if let Some(cat) = local {
        cache.put(key, cat.clone());
        return LookupStep::Done(cat);
    }
    if let Some(cat) = cache.get(key.as_str()) {
        return LookupStep::Done(cat);
    }
    let query = if !display_name.is_empty() {
        display_name.to_string()
    } else {
        process_name.to_string()
    };
    LookupStep::AskWeb { key, query }
}

/// Ends a lookup that went to the encyclopedia: its category, or `"other"`
/// when it found none, is cached under `key` and returned.
pub fn lookup_category_finish(key: String, web: Option<String>, cache: &mut CategoryCache) -> (r:
    String)
    requires
        old(cache).wf(),
    ensures
        final(cache).wf(),
        r@ == match web {
            Some(c) => c@,
            None => "other"@,
        },
        (final(cache)@, final(cache).order()) == lru_after_put(
            old(cache)@,
            old(cache).order(),
            CACHE_CAPACITY as nat,
            key@,
            r@,
        ),
{
    let cat = match web {
        Some(c) => c,
        None => "other".to_string(),
    };
    cache.put(key, cat.clone());
    cat
}

} // verus!
