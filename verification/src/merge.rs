//! Merging an exported bundle into the local history: a session is the
//! same session when its start time, application and device agree, and
//! the merge adds each such session once, whatever was imported before.

use crate::text::str_eq;
use vstd::prelude::*;

verus! {

/// What identifies a recorded session: when it started, the application's
/// row and the device it was recorded on.
pub struct SessionKey {
    pub start_at: String,
    pub app_id: i64,
    pub device: String,
}

/// A session key as plain values.
pub type KeyView = (Seq<char>, i64, Seq<char>);

impl SessionKey {
    pub open spec fn key(&self) -> KeyView {
        (self.start_at@, self.app_id, self.device@)
    }
}

pub open spec fn keys_of(v: Seq<SessionKey>) -> Seq<KeyView> {
    v.map_values(|k: SessionKey| k.key())
}

/// The key of each session of a bundle: `None` where the bundle's
/// application could not be found, so the session cannot be placed.
pub open spec fn candidate_keys(v: Seq<Option<SessionKey>>) -> Seq<Option<KeyView>> {
    v.map_values(
        |o: Option<SessionKey>|
            match o {
                Some(k) => Some(k.key()),
                None => None,
            },
    )
}

/// Walking the bundle in order: the keys known so far (the history's,
/// then each added one) and the positions of the sessions to add. A
/// session is added when it can be placed and its key is not known yet.
pub open spec fn import_state(known: Seq<KeyView>, cand: Seq<Option<KeyView>>) -> (
    Seq<KeyView>,
    Seq<int>,
)
    decreases cand.len(),
{
    if cand.len() == 0 {
        (known, Seq::empty())
    } else {
        let prev = import_state(known, cand.drop_last());
        match cand.last() {
            Some(k) => if prev.0.contains(k) {
                prev
            } else {
                (prev.0.push(k), prev.1.push(cand.len() - 1))
            },
            None => prev,
        }
    }
}

fn same_key(a: &SessionKey, b: &SessionKey) -> (r: bool)
    ensures
        r == (a.key() == b.key()),
{
    a.app_id == b.app_id && str_eq(a.start_at.as_str(), b.start_at.as_str()) && str_eq(
        a.device.as_str(),
        b.device.as_str(),
    )
}

/// The keys of the sessions chosen so far.
pub open spec fn chosen_keys(cand: Seq<Option<KeyView>>, sel: Seq<usize>) -> Seq<KeyView> {
    sel.map_values(|j: usize| cand[j as int]->Some_0)
}

pub open spec fn as_ints(sel: Seq<usize>) -> Seq<int> {
    sel.map_values(|j: usize| j as int)
}

/// Whether `k` is among the history's keys or those of the chosen sessions.
fn is_known(
    existing: &Vec<SessionKey>,
    candidates: &Vec<Option<SessionKey>>,
    sel: &Vec<usize>,
    k: &SessionKey,
) -> (r: bool)
    requires
        forall|j: int| 0 <= j < sel@.len() ==> sel@[j] < candidates@.len() && candidates@[sel@[j] as int] is Some,
    ensures
        r == (keys_of(existing@) + chosen_keys(candidate_keys(candidates@), sel@)).contains(k.key()),
{
    let ghost all = keys_of(existing@) + chosen_keys(candidate_keys(candidates@), sel@);
    let mut i: usize = 0;
    while i < existing.len()
        invariant
            i <= existing@.len(),
            all == keys_of(existing@) + chosen_keys(candidate_keys(candidates@), sel@),
            forall|j: int| 0 <= j < i ==> all[j] != k.key(),
        decreases existing.len() - i,
    {
        if same_key(&existing[i], k) {
            assert(all[i as int] == k.key());
            return true;
        }
        i = i + 1;
    }
    let n = existing.len();
    let mut t: usize = 0;
    while t < sel.len()
        invariant
            n == existing@.len(),
            t <= sel@.len(),
            all == keys_of(existing@) + chosen_keys(candidate_keys(candidates@), sel@),
            forall|j: int| 0 <= j < sel@.len() ==> sel@[j] < candidates@.len() && candidates@[sel@[j] as int] is Some,
            forall|j: int| 0 <= j < n + t ==> all[j] != k.key(),
        decreases sel.len() - t,
    {
        let j = sel[t];
        match &candidates[j] {
            Some(c) => {
                if same_key(c, k) {
                    assert(all[n + t] == k.key());
                    return true;
                }
            },
            None => {},
        }
        t = t + 1;
    }
    assert(all.len() == n + t);
    false
}

/// The positions, in bundle order, of the sessions that a merge adds to a
/// history holding `existing`; `None` marks a session whose application
/// is missing. Adding them leaves the history with each key once.
pub fn plan_import(existing: &Vec<SessionKey>, candidates: &Vec<Option<SessionKey>>) -> (r: Vec<
    usize,
>)
    ensures
        as_ints(r@) == import_state(keys_of(existing@), candidate_keys(candidates@)).1,
        import_state(keys_of(existing@), candidate_keys(candidates@)).0 == keys_of(existing@)
            + chosen_keys(candidate_keys(candidates@), r@),
{
    let ghost ks = keys_of(existing@);
    let ghost cs = candidate_keys(candidates@);
    let mut sel: Vec<usize> = Vec::new();
    let mut i: usize = 0;
    assert(cs.take(0) =~= Seq::<Option<KeyView>>::empty());
    assert(ks + chosen_keys(cs, sel@) =~= ks);
    assert(as_ints(sel@) =~= Seq::<int>::empty());
    while i < candidates.len()
        invariant
            i <= candidates@.len(),
            ks == keys_of(existing@),
            cs == candidate_keys(candidates@),
            forall|j: int| 0 <= j < sel@.len() ==> sel@[j] < i && candidates@[sel@[j] as int] is Some,
            import_state(ks, cs.take(i as int)) == (ks + chosen_keys(cs, sel@), as_ints(sel@)),
        decreases candidates.len() - i,
    {
        let ghost before = sel@;
        assert(cs.take(i + 1).drop_last() =~= cs.take(i as int));
        match &candidates[i] {
            Some(k) => {
                if !is_known(existing, candidates, &sel, k) {
                    sel.push(i);
                    assert(chosen_keys(cs, sel@) =~= chosen_keys(cs, before).push(k.key()));
                    assert(as_ints(sel@) =~= as_ints(before).push(i as int));
                }
            },
            None => {},
        }
        i = i + 1;
    }
    assert(cs.take(i as int) =~= cs);
    sel
}

proof fn lemma_import_keeps(known: Seq<KeyView>, cand: Seq<Option<KeyView>>)
    ensures
        forall|j: int| 0 <= j < known.len() ==> import_state(known, cand).0.contains(#[trigger] known[j]),
        forall|j: int|
            0 <= j < cand.len() && cand[j] is Some ==> import_state(known, cand).0.contains(
                #[trigger] cand[j]->Some_0,
            ),
    decreases cand.len(),
{
    if cand.len() > 0 {
        let prev = import_state(known, cand.drop_last());
        lemma_import_keeps(known, cand.drop_last());
        let cur = import_state(known, cand);
        assert forall|j: int| 0 <= j < known.len() implies cur.0.contains(#[trigger] known[j]) by {
            assert(prev.0.contains(known[j]));
            let w = choose|x: int| 0 <= x < prev.0.len() && prev.0[x] == known[j];
            if cur.0 != prev.0 {
                assert(cur.0[w] == known[j]);
            }
        }
        assert forall|j: int| 0 <= j < cand.len() && cand[j] is Some implies cur.0.contains(
            #[trigger] cand[j]->Some_0,
        ) by {
            if j < cand.len() - 1 {
                assert(cand.drop_last()[j] == cand[j]);
                assert(prev.0.contains(cand[j]->Some_0));
                let w = choose|x: int| 0 <= x < prev.0.len() && prev.0[x] == cand[j]->Some_0;
                if cur.0 != prev.0 {
                    assert(cur.0[w] == cand[j]->Some_0);
                }
            } else if !prev.0.contains(cand[j]->Some_0) {
                assert(cur.0[cur.0.len() - 1] == cand[j]->Some_0);
            }
        }
    }
}

proof fn lemma_import_nothing_new(known: Seq<KeyView>, cand: Seq<Option<KeyView>>)
    requires
        forall|j: int| 0 <= j < cand.len() && cand[j] is Some ==> known.contains(#[trigger] cand[j]->Some_0),
    ensures
        import_state(known, cand) == (known, Seq::<int>::empty()),
    decreases cand.len(),
{
    if cand.len() > 0 {
        assert forall|j: int| 0 <= j < cand.drop_last().len() && cand.drop_last()[j] is Some implies known.contains(
            #[trigger] cand.drop_last()[j]->Some_0,
        ) by {
            assert(cand.drop_last()[j] == cand[j]);
        }
        lemma_import_nothing_new(known, cand.drop_last());
        if cand.last() is Some {
            assert(cand[cand.len() - 1] is Some);
        }
    }
}

/// Merging the same bundle a second time adds no session: every session
/// of the bundle is then already in the history.
pub proof fn law_import_repeatable(existing: Seq<KeyView>, cand: Seq<Option<KeyView>>)
    ensures
        import_state(import_state(existing, cand).0, cand).1 == Seq::<int>::empty(),
{
    lemma_import_keeps(existing, cand);
    lemma_import_nothing_new(import_state(existing, cand).0, cand);
}

/// A history that holds each session key once still does so after a merge.
pub proof fn law_import_no_duplicates(existing: Seq<KeyView>, cand: Seq<Option<KeyView>>)
    requires
        existing.no_duplicates(),
    ensures
        import_state(existing, cand).0.no_duplicates(),
    decreases cand.len(),
{
    if cand.len() > 0 {
        law_import_no_duplicates(existing, cand.drop_last());
        let prev = import_state(existing, cand.drop_last());
        if let Some(k) = cand.last() {
            if !prev.0.contains(k) {
                let s = prev.0.push(k);
                assert forall|a: int, b: int| 0 <= a < s.len() && 0 <= b < s.len() && a != b implies s[a]
                    != s[b] by {
                    if a == s.len() - 1 {
                        assert(prev.0[b] == s[b]);
                    } else if b == s.len() - 1 {
                        assert(prev.0[a] == s[a]);
                    }
                }
            }
        }
    }
}

} // verus!
