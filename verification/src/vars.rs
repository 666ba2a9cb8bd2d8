//! Session-owned store of shell variables.
//!
//! Internal commands read and write named values through explicit access to
//! this store, never through ambient process-global state. The store is a
//! list of (name, value) pairs with pairwise-distinct names, read in
//! contracts as a map from name to value.

use vstd::prelude::*;

verus! {

/// The map a pair list denotes: later pairs win, though the store keeps the
/// names distinct so that each name occurs at most once.
pub open spec fn entry_map(es: Seq<(String, String)>) -> Map<Seq<char>, Seq<char>>
    decreases es.len(),
{
    if es.len() == 0 {
        Map::empty()
    } else {
        entry_map(es.drop_last()).insert(es.last().0@, es.last().1@)
    }
}

/// No two pairs share a name.
pub open spec fn distinct_keys(es: Seq<(String, String)>) -> bool {
    forall|i: int, j: int| 0 <= i < j < es.len() ==> es[i].0@ != es[j].0@
}

/// The variable store: names bound to string values, one binding per name.
pub struct VarStore {
    entries: Vec<(String, String)>,
}

impl View for VarStore {
    type V = Map<Seq<char>, Seq<char>>;

    closed spec fn view(&self) -> Map<Seq<char>, Seq<char>> {
        entry_map(self.entries@)
    }
}

proof fn lemma_entry_map_contains(es: Seq<(String, String)>, k: Seq<char>)
    ensures
        entry_map(es).contains_key(k) <==> (exists|i: int|
            0 <= i < es.len() && es[i].0@ == k),
    decreases es.len(),
{
    if es.len() > 0 {
        let dl = es.drop_last();
        lemma_entry_map_contains(dl, k);
        if es.last().0@ == k {
            assert(es[es.len() - 1].0@ == k);
        } else {
            if exists|i: int| 0 <= i < es.len() && es[i].0@ == k {
                let i = choose|i: int| 0 <= i < es.len() && es[i].0@ == k;
                assert(dl[i].0@ == k);
            }
            if exists|i: int| 0 <= i < dl.len() && dl[i].0@ == k {
                let i = choose|i: int| 0 <= i < dl.len() && dl[i].0@ == k;
                assert(es[i].0@ == k);
            }
        }
    }
}

proof fn lemma_entry_map_get(es: Seq<(String, String)>, i: int)
    requires
        distinct_keys(es),
        0 <= i < es.len(),
    ensures
        entry_map(es).contains_key(es[i].0@),
        entry_map(es)[es[i].0@] == es[i].1@,
    decreases es.len(),
{
    if i < es.len() - 1 {
        let dl = es.drop_last();
        assert(distinct_keys(dl));
        assert(dl[i] == es[i]);
        lemma_entry_map_get(dl, i);
        assert(es.last().0@ != es[i].0@);
    }
}

proof fn lemma_entry_map_remove(es: Seq<(String, String)>, i: int)
    requires
        distinct_keys(es),
        0 <= i < es.len(),
    ensures
        entry_map(es.remove(i)) =~= entry_map(es).remove(es[i].0@),
    decreases es.len(),
{
    let k = es[i].0@;
    if i == es.len() - 1 {
        assert(es.remove(i) =~= es.drop_last());
        lemma_entry_map_contains(es.drop_last(), k);
        if exists|j: int| 0 <= j < es.drop_last().len() && es.drop_last()[j].0@ == k {
            let j = choose|j: int| 0 <= j < es.drop_last().len() && es.drop_last()[j].0@ == k;
            assert(es[j].0@ == es[i].0@);
            assert(false);
        }
        assert(entry_map(es.drop_last()).insert(k, es.last().1@).remove(k) =~= entry_map(
            es.drop_last(),
        ));
    } else {
        let dl = es.drop_last();
        assert(distinct_keys(dl));
        assert(dl[i] == es[i]);
        lemma_entry_map_remove(dl, i);
        assert(es.remove(i).drop_last() =~= dl.remove(i));
        assert(es.remove(i).last() == es.last());
        assert(es.last().0@ != k);
        assert(entry_map(dl).remove(k).insert(es.last().0@, es.last().1@) =~= entry_map(
            dl,
        ).insert(es.last().0@, es.last().1@).remove(k));
    }
}

impl VarStore {
    /// The store's names are pairwise distinct.
    pub closed spec fn wf(&self) -> bool {
        distinct_keys(self.entries@)
    }

    /// An empty store: no variable is bound.
    pub fn new() -> (r: VarStore)
        ensures
            r.wf(),
            r@ == Map::<Seq<char>, Seq<char>>::empty(),
    {
        let r = VarStore { entries: Vec::new() };
        proof {
            assert(r@ =~= Map::<Seq<char>, Seq<char>>::empty());
        }
        r
    }

    fn position(&self, name: &str) -> (p: Option<usize>)
        ensures
            match p {
                Some(i) => i < self.entries@.len() && self.entries@[i as int].0@ == name@,
                None => forall|j: int|
                    0 <= j < self.entries@.len() ==> self.entries@[j].0@ != name@,
            },
    {
        let key: String = name.to_owned();
        let n = self.entries.len();
        let mut j: usize = 0;
        while j < n
            invariant
                j <= n,
                n == self.entries@.len(),
                key@ == name@,
                forall|t: int| 0 <= t < j ==> self.entries@[t].0@ != name@,
            decreases n - j,
        {
            if self.entries[j].0 == key {
                return Some(j);
            }
            j = j + 1;
        }
        None
    }

    /// The value bound to `name`, if any.
    pub fn get<'a>(&'a self, name: &str) -> (r: Option<&'a String>)
        requires
            self.wf(),
        ensures
            match r {
                Some(v) => self@.contains_key(name@) && v@ == self@[name@],
                None => !self@.contains_key(name@),
            },
    {
        let p = self.position(name);
        match p {
            Some(i) => {
                proof {
                    lemma_entry_map_get(self.entries@, i as int);
                }
                Some(&self.entries[i].1)
            },
            None => {
                proof {
                    lemma_entry_map_contains(self.entries@, name@);
                }
                None
            },
        }
    }

    /// Binds `name` to `value`, replacing any earlier binding.
    pub fn insert(&mut self, name: String, value: String)
        requires
            old(self).wf(),
        ensures
            final(self).wf(),
            final(self)@ == old(self)@.insert(name@, value@),
    {
        let ghost m0 = self@;
        self.remove(name.as_str());
        let ghost es1 = self.entries@;
        proof {
            lemma_entry_map_contains(es1, name@);
        }
        let ghost key = name@;
        self.entries.push((name, value));
        proof {
            assert(self.entries@.drop_last() =~= es1);
            assert(forall|j: int| 0 <= j < es1.len() ==> self.entries@[j] == es1[j]);
            assert(forall|j: int| 0 <= j < es1.len() ==> es1[j].0@ != key);
            assert(self@ =~= m0.remove(key).insert(key, self.entries@.last().1@));
            assert(self@ =~= m0.insert(key, self.entries@.last().1@));
        }
    }

    /// Drops the binding of `name`, if there is one.
    pub fn remove(&mut self, name: &str)
        requires
            old(self).wf(),
        ensures
            final(self).wf(),
            final(self)@ == old(self)@.remove(name@),
    {
        let ghost es0 = self.entries@;
        let p = self.position(name);
        match p {
            Some(i) => {
                proof {
                    lemma_entry_map_remove(es0, i as int);
                }
                self.entries.remove(i);
                proof {
                    assert forall|a: int, b: int|
                        0 <= a < b < self.entries@.len() implies self.entries@[a].0@
                        != self.entries@[b].0@ by {
                        let ua = if a < i as int {
                            a
                        } else {
                            a + 1
                        };
                        let ub = if b < i as int {
                            b
                        } else {
                            b + 1
                        };
                        assert(self.entries@[a] == es0[ua]);
                        assert(self.entries@[b] == es0[ub]);
                    }
                }
            },
            None => {
                proof {
                    lemma_entry_map_contains(es0, name@);
                    assert(self@.remove(name@) =~= self@);
                }
            },
        }
    }
}

} // verus!
