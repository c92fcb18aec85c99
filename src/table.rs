//! A keyed store held as a list of entries, used for the identity registry
//! and for the rating history.
use vstd::prelude::*;

verus! {

/// A key that can be compared with another of its type by its abstract value.
pub trait TableKey: View + Sized {
    fn same_key(&self, other: &Self) -> (r: bool)
        ensures
            r == (self@ == other@),
    ;
}

impl TableKey for String {
    fn same_key(&self, other: &Self) -> (r: bool) {
        *self == *other
    }
}

/// The ordered pair (rater, ratee) that keys the rating history.
#[derive(Debug)]
pub struct RatingPair {
    pub rater: String,
    pub ratee: String,
}

impl View for RatingPair {
    type V = (Seq<char>, Seq<char>);

    open spec fn view(&self) -> (Seq<char>, Seq<char>) {
        (self.rater@, self.ratee@)
    }
}

impl TableKey for RatingPair {
    fn same_key(&self, other: &Self) -> (r: bool) {
        self.rater == other.rater && self.ratee == other.ratee
    }
}

/// The map that a list of entries stands for: a later entry for a key
/// overrides an earlier one.
pub open spec fn map_of<K: View, T>(s: Seq<(K, T)>) -> Map<<K as View>::V, T>
    decreases s.len(),
{
    if s.len() == 0 {
        Map::empty()
    } else {
        map_of(s.drop_last()).insert(s.last().0@, s.last().1)
    }
}

/// No entry at or after index `from` has key `k`.
pub open spec fn absent_from<K: View, T>(s: Seq<(K, T)>, k: <K as View>::V, from: int) -> bool {
    forall|j: int| from <= j < s.len() ==> #[trigger] s[j].0@ != k
}

proof fn lemma_absent<K: View, T>(s: Seq<(K, T)>, k: <K as View>::V)
    requires
        absent_from(s, k, 0),
    ensures
        !map_of(s).contains_key(k),
    decreases s.len(),
{
    if s.len() > 0 {
        lemma_absent(s.drop_last(), k);
    }
}

proof fn lemma_last_entry<K: View, T>(s: Seq<(K, T)>, i: int)
    requires
        0 <= i < s.len(),
        absent_from(s, s[i].0@, i + 1),
    ensures
        map_of(s).contains_key(s[i].0@),
        map_of(s)[s[i].0@] == s[i].1,
    decreases s.len(),
{
    if i < s.len() - 1 {
        lemma_last_entry(s.drop_last(), i);
    }
}

proof fn lemma_update_last<K: View, T>(s: Seq<(K, T)>, i: int, e: (K, T))
    requires
        0 <= i < s.len(),
        e.0@ == s[i].0@,
        absent_from(s, s[i].0@, i + 1),
    ensures
        map_of(s.update(i, e)) == map_of(s).insert(e.0@, e.1),
    decreases s.len(),
{
    let t = s.update(i, e);
    if i == s.len() - 1 {
        assert(t.drop_last() =~= s.drop_last());
        assert(map_of(t) =~= map_of(s).insert(e.0@, e.1));
    } else {
        lemma_update_last(s.drop_last(), i, e);
        assert(t.drop_last() =~= s.drop_last().update(i, e));
        assert(map_of(t) =~= map_of(s).insert(e.0@, e.1));
    }
}

proof fn lemma_push<K: View, T>(s: Seq<(K, T)>, e: (K, T))
    ensures
        map_of(s.push(e)) == map_of(s).insert(e.0@, e.1),
{
    assert(s.push(e).drop_last() =~= s);
}

/// A store from keys to copyable values.
pub struct Table<K, T> {
    entries: Vec<(K, T)>,
}

impl<K: TableKey, T: Copy> View for Table<K, T> {
    type V = Map<<K as View>::V, T>;

    closed spec fn view(&self) -> Map<<K as View>::V, T> {
        map_of(self.entries@)
    }
}

impl<K: TableKey, T: Copy> Table<K, T> {
    pub fn new() -> (r: Table<K, T>)
        ensures
            r@ == Map::<<K as View>::V, T>::empty(),
    {
        Table { entries: Vec::new() }
    }

    /// The index of the last entry with key `k`, if any.
    fn find(&self, k: &K) -> (r: Option<usize>)
        ensures
            match r {
                Some(i) => i < self.entries@.len() && self.entries@[i as int].0@ == k@
                    && absent_from(self.entries@, k@, i + 1),
                None => absent_from(self.entries@, k@, 0),
            },
    {
        let mut i: usize = self.entries.len();
        while i > 0
            invariant
                i <= self.entries@.len(),
                absent_from(self.entries@, k@, i as int),
            decreases i,
        {
            i = i - 1;
            if self.entries[i].0.same_key(k) {
                return Some(i);
            }
        }
        None
    }

    pub fn contains(&self, k: &K) -> (r: bool)
        ensures
            r == self@.contains_key(k@),
    {
        match self.find(k) {
            Some(i) => {
                proof {
                    lemma_last_entry(self.entries@, i as int);
                }
                true
            },
            None => {
                proof {
                    lemma_absent(self.entries@, k@);
                }
                false
            },
        }
    }

    pub fn get(&self, k: &K) -> (r: Option<T>)
        ensures
            r == (if self@.contains_key(k@) {
                Some(self@[k@])
            } else {
                None
            }),
    {
        match self.find(k) {
            Some(i) => {
                proof {
                    lemma_last_entry(self.entries@, i as int);
                }
                Some(self.entries[i].1)
            },
            None => {
                proof {
                    lemma_absent(self.entries@, k@);
                }
                None
            },
        }
    }

    /// Maps `k` to `v`, replacing what `k` mapped to before.
    pub fn set(&mut self, k: K, v: T)
        ensures
            final(self)@ == old(self)@.insert(k@, v),
    {
        match self.find(&k) {
            Some(i) => {
                proof {
                    lemma_update_last(self.entries@, i as int, (k, v));
                }
                self.entries.set(i, (k, v));
            },
            None => {
                proof {
                    lemma_push(self.entries@, (k, v));
                }
                self.entries.push((k, v));
            },
        }
    }
}

} // verus!
