//! A string-keyed map held as a vector of entries, with a well-formedness
//! invariant that keys are pairwise distinct. Its view is a `Map` from the
//! key's character sequence to the value's view, so contracts elsewhere can
//! speak in ordinary map terms.

use vstd::prelude::*;
use crate::text::str_eq;

verus! {

/// The mapping described by an entry list: a later entry shadows an earlier
/// one with the same key.
pub open spec fn map_of<V: View>(es: Seq<(String, V)>) -> Map<Seq<char>, V::V>
    decreases es.len(),
{
    if es.len() == 0 {
        Map::empty()
    } else {
        map_of(es.drop_last()).insert(es.last().0@, es.last().1@)
    }
}

/// A map from strings to values, stored as a vector of entries.
#[derive(Debug)]
#[verifier::reject_recursive_types(V)]
pub struct StrMap<V> {
    entries: Vec<(String, V)>,
}

impl<V: View> View for StrMap<V> {
    type V = Map<Seq<char>, V::V>;

    closed spec fn view(&self) -> Map<Seq<char>, V::V> {
        map_of(self.entries@)
    }
}

/// If no entry from index `i` on has key `k`, the whole list and its first
/// `i` entries agree about `k`.
proof fn lemma_map_of_agree<V: View>(es: Seq<(String, V)>, i: int, k: Seq<char>)
    requires
        0 <= i <= es.len(),
        forall|j: int| i <= j < es.len() ==> es[j].0@ != k,
    ensures
        map_of(es).contains_key(k) == map_of(es.take(i)).contains_key(k),
        map_of(es.take(i)).contains_key(k) ==> map_of(es)[k] == map_of(es.take(i))[k],
    decreases es.len() - i,
{
    if i == es.len() {
        assert(es.take(i) =~= es);
    } else {
        lemma_map_of_agree(es, i + 1, k);
        assert(es.take(i + 1).drop_last() =~= es.take(i));
        assert(map_of(es.take(i + 1)) == map_of(es.take(i)).insert(es[i].0@, es[i].1@));
    }
}

/// A key is in the map exactly when some entry carries it.
pub proof fn lemma_map_of_contains<V: View>(es: Seq<(String, V)>, k: Seq<char>)
    ensures
        map_of(es).contains_key(k) <==> exists|i: int| 0 <= i < es.len() && es[i].0@ == k,
    decreases es.len(),
{
    if es.len() > 0 {
        lemma_map_of_contains(es.drop_last(), k);
        if map_of(es).contains_key(k) {
            if es.last().0@ == k {
                assert(es[es.len() - 1].0@ == k);
            } else {
                let i = choose|i: int| 0 <= i < es.drop_last().len() && es.drop_last()[i].0@
                    == k;
                assert(es[i].0@ == k);
            }
        }
        if exists|i: int| 0 <= i < es.len() && es[i].0@ == k {
            let i = choose|i: int| 0 <= i < es.len() && es[i].0@ == k;
            if i < es.len() - 1 {
                assert(es.drop_last()[i].0@ == k);
            }
        }
    }
}

/// Replacing the entry at `i`, whose key no later entry repeats, updates the
/// map at that key alone.
proof fn lemma_map_of_update<V: View>(es: Seq<(String, V)>, i: int, key: String, value: V)
    requires
        0 <= i < es.len(),
        es[i].0@ == key@,
        forall|j: int| i < j < es.len() ==> es[j].0@ != key@,
    ensures
        map_of(es.update(i, (key, value))) == map_of(es).insert(key@, value@),
    decreases es.len(),
{
    let up = es.update(i, (key, value));
    if i == es.len() - 1 {
        assert(up.drop_last() =~= es.drop_last());
        assert(map_of(up) =~= map_of(es).insert(key@, value@));
    } else {
        assert(up.drop_last() =~= es.drop_last().update(i, (key, value)));
        lemma_map_of_update(es.drop_last(), i, key, value);
        assert(up.last() == es.last());
        assert(map_of(up) == map_of(es.drop_last()).insert(key@, value@).insert(
            es.last().0@,
            es.last().1@,
        ));
        assert(es.last().0@ != key@);
        assert(map_of(up) =~= map_of(es).insert(key@, value@));
    }
}

/// With pairwise distinct keys the map has exactly one element per entry.
proof fn lemma_map_of_len<V: View>(es: Seq<(String, V)>)
    requires
        forall|i: int, j: int| 0 <= i < j < es.len() ==> es[i].0@ != es[j].0@,
    ensures
        map_of(es).dom().finite(),
        map_of(es).dom().len() == es.len(),
    decreases es.len(),
{
    if es.len() > 0 {
        let dl = es.drop_last();
        lemma_map_of_len(dl);
        lemma_map_of_contains(dl, es.last().0@);
        assert(forall|i: int| 0 <= i < dl.len() ==> dl[i].0@ != es.last().0@);
        assert(!map_of(dl).contains_key(es.last().0@));
        assert(map_of(es).dom() =~= map_of(dl).dom().insert(es.last().0@));
    }
}

impl<V: View> StrMap<V> {
    /// Keys are pairwise distinct, so that each key names one entry.
    pub closed spec fn wf(&self) -> bool {
        forall|i: int, j: int|
            0 <= i < j < self.entries@.len() ==> self.entries@[i].0@ != self.entries@[j].0@
    }

    /// An empty map.
    pub fn new() -> (m: Self)
        ensures
            m@ == Map::<Seq<char>, V::V>::empty(),
            m.wf(),
    {
        StrMap { entries: Vec::new() }
    }

    /// The number of keys.
    pub fn len(&self) -> (n: usize)
        requires
            self.wf(),
        ensures
            n == self@.dom().len(),
    {
        proof {
            lemma_map_of_len(self.entries@);
        }
        self.entries.len()
    }

    /// Look a key up; never mutates, never blocks.
    pub fn get<'a>(&'a self, key: &str) -> (r: Option<&'a V>)
        ensures
            match r {
                Some(v) => self@.contains_key(key@) && v@ == self@[key@],
                None => !self@.contains_key(key@),
            },
    {
        let ghost es = self.entries@;
        let mut i: usize = self.entries.len();
        while i > 0
            invariant
                i <= es.len(),
                es == self.entries@,
                forall|j: int| i <= j < es.len() ==> es[j].0@ != key@,
            decreases i,
        {
            i = i - 1;
            let e = &self.entries[i];
            if str_eq(e.0.as_str(), key) {
                proof {
                    lemma_map_of_agree(es, i + 1, key@);
                    assert(es.take(i + 1).drop_last() =~= es.take(i as int));
                    assert(es.take(i + 1).last() == es[i as int]);
                    assert(map_of(es.take(i + 1)) == map_of(es.take(i as int)).insert(
                        es[i as int].0@,
                        es[i as int].1@,
                    ));
                }
                return Some(&e.1);
            }
        }
        proof {
            lemma_map_of_agree(es, 0, key@);
            assert(es.take(0) =~= Seq::<(String, V)>::empty());
        }
        None
    }

    /// Bind a key to a value, replacing any previous binding.
    #[verifier::loop_isolation(false)]
    pub fn insert(&mut self, key: String, value: V)
        requires
            old(self).wf(),
        ensures
            final(self)@ == old(self)@.insert(key@, value@),
            final(self).wf(),
    {
        let ghost es = self.entries@;
        let n = self.entries.len();
        let mut i: usize = 0;
        while i < n
            invariant
                i <= n,
                n == es.len(),
                es == self.entries@,
                forall|j: int| 0 <= j < i ==> es[j].0@ != key@,
            decreases n - i,
        {
            if str_eq(self.entries[i].0.as_str(), key.as_str()) {
                proof {
                    assert(forall|j: int| i < j < es.len() ==> es[j].0@ != key@) by {
                        assert(forall|j: int|
                            i < j < es.len() ==> es[i as int].0@ != #[trigger] es[j].0@);
                    }
                    lemma_map_of_update(es, i as int, key, value);
                }
                let ghost k = key@;
                self.entries.set(i, (key, value));
                proof {
                    assert(forall|a: int, b: int|
                        0 <= a < b < self.entries@.len() ==> self.entries@[a].0@
                            != self.entries@[b].0@) by {
                        assert(forall|a: int|
                            0 <= a < self.entries@.len() ==> #[trigger] self.entries@[a].0@
                                == es[a].0@);
                    }
                }
                return;
            }
            i += 1;
        }
        self.entries.push((key, value));
        proof {
            assert(self.entries@.drop_last() =~= es);
            assert(self.entries@.last() == (key, value));
        }
    }
}

impl StrMap<String> {
    /// An equal copy of the map.
    pub fn snapshot(&self) -> (r: Self)
        ensures
            r@ == self@,
            r.wf() == self.wf(),
    {
        let ghost es = self.entries@;
        let mut entries: Vec<(String, String)> = Vec::new();
        let mut i: usize = 0;
        while i < self.entries.len()
            invariant
                i <= es.len(),
                es == self.entries@,
                entries@ =~= es.take(i as int),
            decreases es.len() - i,
        {
            let e = &self.entries[i];
            entries.push((e.0.clone(), e.1.clone()));
            proof {
                assert(entries@ =~= es.take(i + 1));
            }
            i += 1;
        }
        proof {
            assert(entries@ =~= es);
        }
        let r = StrMap { entries };
        proof {
            assert(r.entries@ == self.entries@);
        }
        r
    }
}

} // verus!
