//! The key/value settings table, held in memory: the program reads the
//! table's rows into a [`SettingsStore`] and writes back what changed.

use vstd::prelude::*;
use crate::text::{str_to_chars, chars_eq};

verus! {

/// The map that a list of rows describes: a later row for a key overrides
/// an earlier one.
pub open spec fn entries_map(s: Seq<(String, String)>) -> Map<Seq<char>, Seq<char>>
    decreases s.len(),
{
    if s.len() == 0 {
        Map::empty()
    } else {
        entries_map(s.drop_last()).insert(s.last().0@, s.last().1@)
    }
}

/// Rows from position `i` on leave key `k` alone: the map agrees with the
/// map of the first `i` rows on `k`.
proof fn lemma_tail_without_key(s: Seq<(String, String)>, i: int, k: Seq<char>)
    requires
        0 <= i <= s.len(),
        forall|j: int| i <= j < s.len() ==> (#[trigger] s[j]).0@ != k,
    ensures
        entries_map(s).contains_key(k) == entries_map(s.subrange(0, i)).contains_key(k),
        entries_map(s).contains_key(k) ==> entries_map(s)[k] == entries_map(s.subrange(0, i))[k],
    decreases s.len() - i,
{
    if i == s.len() {
        assert(s.subrange(0, i) =~= s);
    } else {
        let t = s.drop_last();
        assert(s[s.len() - 1].0@ != k);
        assert forall|j: int| i <= j < t.len() implies (#[trigger] t[j]).0@ != k by {
            assert(t[j] == s[j]);
        }
        lemma_tail_without_key(t, i, k);
        assert(t.subrange(0, i) =~= s.subrange(0, i));
    }
}

/// The settings table.
pub struct SettingsStore {
    rows: Vec<(String, String)>,
}

impl View for SettingsStore {
    type V = Map<Seq<char>, Seq<char>>;

    closed spec fn view(&self) -> Map<Seq<char>, Seq<char>> {
        entries_map(self.rows@)
    }
}

impl SettingsStore {
    /// An empty table.
    pub fn new() -> (s: Self)
        ensures
            s@ == Map::<Seq<char>, Seq<char>>::empty(),
    {
        SettingsStore { rows: Vec::new() }
    }

    /// A table holding `rows` (a later row for a key overrides an earlier one).
    pub fn from_rows(rows: Vec<(String, String)>) -> (s: Self)
        ensures
            s@ == entries_map(rows@),
    {
        SettingsStore { rows }
    }

    /// The rows, in the order they were added.
    pub fn rows(&self) -> (r: &Vec<(String, String)>)
        ensures
            entries_map(r@) == self@,
    {
        &self.rows
    }

    /// The value stored under `key`, if any.
    pub fn get_setting(&self, key: &str) -> (r: Option<String>)
        ensures
            match r {
                Some(v) => self@.contains_key(key@) && self@[key@] == v@,
                None => !self@.contains_key(key@),
            },
    {
        let k = str_to_chars(key);
        let mut i: usize = self.rows.len();
        while i > 0
            invariant
                i <= self.rows@.len(),
                k@ == key@,
                forall|j: int| i <= j < self.rows@.len() ==> (#[trigger] self.rows@[j]).0@ != key@,
            decreases i,
        {
            let row_key = str_to_chars(self.rows[i - 1].0.as_str());
            if chars_eq(&row_key, &k) {
                let ghost s = self.rows@;
                proof {
                    lemma_tail_without_key(s, i as int, key@);
                    assert(s.subrange(0, i as int).drop_last() =~= s.subrange(0, i - 1));
                    assert(s.subrange(0, i as int).last() == s[i - 1]);
                }
                return Some(self.rows[i - 1].1.clone());
            }
            i = i - 1;
        }
        proof {
            lemma_tail_without_key(self.rows@, 0, key@);
            assert(self.rows@.subrange(0, 0) =~= Seq::<(String, String)>::empty());
        }
        None
    }

    /// Stores `value` under `key`, replacing any earlier value.
    pub fn set_setting(&mut self, key: &str, value: &str)
        ensures
            final(self)@ == old(self)@.insert(key@, value@),
    {
        let ghost before = self.rows@;
        self.rows.push((key.to_string(), value.to_string()));
        assert(self.rows@.drop_last() =~= before);
    }
}

/// A read after a write gives back the written value.
pub proof fn law_get_after_set(
    before: Map<Seq<char>, Seq<char>>,
    k: Seq<char>,
    v: Seq<char>,
)
    ensures
        before.insert(k, v).contains_key(k),
        before.insert(k, v)[k] == v,
        forall|other: Seq<char>|
            other != k ==> before.insert(k, v).contains_key(other) == before.contains_key(other)
                && before.insert(k, v)[other] == before[other],
{
}

} // verus!
