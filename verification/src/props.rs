//! The per-planner world state: a mapping from string keys to typed
//! [`Value`]s.
//!
//! The store is owned by one planner. Decomposition works on a clone of
//! it (the simulated world state), so planning can never corrupt the live
//! store; effects reach the live store only when an operator completes.

use vstd::prelude::*;

use crate::value::{Value, ValueView};

verus! {

/// Key/value store of the world state. Its mathematical view is a
/// `Map<Seq<char>, ValueView>`.
pub struct PropertyStore {
    entries: Vec<(String, Value)>,
}

/// The map described by an association list; a later entry for a key
/// overrides an earlier one.
spec fn map_of(s: Seq<(String, Value)>) -> Map<Seq<char>, ValueView>
    decreases s.len(),
{
    if s.len() == 0 {
        Map::empty()
    } else {
        map_of(s.drop_last()).insert(s.last().0@, s.last().1@)
    }
}

/// Keys are pairwise distinct.
spec fn unique_keys(s: Seq<(String, Value)>) -> bool {
    forall|i: int, j: int| 0 <= i < j < s.len() ==> s[i].0@ != s[j].0@
}

proof fn lemma_map_of_contains(s: Seq<(String, Value)>, k: Seq<char>)
    ensures
        map_of(s).contains_key(k) <==> exists|i: int| 0 <= i < s.len() && s[i].0@ == k,
    decreases s.len(),
{
    if s.len() > 0 {
        lemma_map_of_contains(s.drop_last(), k);
        if s.last().0@ == k {
            assert(s[s.len() - 1].0@ == k);
        } else if map_of(s).contains_key(k) {
            let i = choose|i: int| 0 <= i < s.drop_last().len() && s.drop_last()[i].0@ == k;
            assert(s[i].0@ == k);
        } else if exists|i: int| 0 <= i < s.len() && s[i].0@ == k {
            let i = choose|i: int| 0 <= i < s.len() && s[i].0@ == k;
            assert(s.drop_last()[i].0@ == k);
        }
    }
}

proof fn lemma_map_of_at(s: Seq<(String, Value)>, i: int)
    requires
        0 <= i < s.len(),
        forall|j: int| i < j < s.len() ==> s[j].0@ != s[i].0@,
    ensures
        map_of(s).contains_key(s[i].0@),
        map_of(s)[s[i].0@] == s[i].1@,
    decreases s.len(),
{
    if i < s.len() - 1 {
        assert(forall|j: int|
            i < j < s.drop_last().len() ==> s.drop_last()[j].0@ != s.drop_last()[i].0@);
        lemma_map_of_at(s.drop_last(), i);
    }
}

proof fn lemma_map_of_update(s: Seq<(String, Value)>, i: int, name: String, v: Value)
    requires
        0 <= i < s.len(),
        name@ == s[i].0@,
        forall|j: int| i < j < s.len() ==> s[j].0@ != s[i].0@,
    ensures
        map_of(s.update(i, (name, v))) =~= map_of(s).insert(s[i].0@, v@),
    decreases s.len(),
{
    let t = s.update(i, (name, v));
    if i == s.len() - 1 {
        assert(t.drop_last() =~= s.drop_last());
    } else {
        assert(t.drop_last() =~= s.drop_last().update(i, (name, v)));
        assert(forall|j: int|
            i < j < s.drop_last().len() ==> s.drop_last()[j].0@ != s.drop_last()[i].0@);
        lemma_map_of_update(s.drop_last(), i, name, v);
        assert(t.last() == s.last());
    }
}

proof fn lemma_map_of_congruent(s1: Seq<(String, Value)>, s2: Seq<(String, Value)>)
    requires
        s1.len() == s2.len(),
        forall|i: int|
            0 <= i < s1.len() ==> s1[i].0@ == s2[i].0@ && s1[i].1@ == s2[i].1@,
    ensures
        map_of(s1) =~= map_of(s2),
    decreases s1.len(),
{
    if s1.len() > 0 {
        lemma_map_of_congruent(s1.drop_last(), s2.drop_last());
    }
}

impl View for PropertyStore {
    type V = Map<Seq<char>, ValueView>;

    closed spec fn view(&self) -> Map<Seq<char>, ValueView> {
        map_of(self.entries@)
    }
}

impl PropertyStore {
    /// Internal invariant: every key occurs at most once.
    pub closed spec fn wf(&self) -> bool {
        unique_keys(self.entries@)
    }

    /// Creates an empty store.
    pub fn new() -> (r: PropertyStore)
        ensures
            r.wf(),
            r@ == Map::<Seq<char>, ValueView>::empty(),
    {
        PropertyStore { entries: Vec::new() }
    }

    /// Looks a key up.
    pub fn get(&self, name: &String) -> (r: Option<&Value>)
        requires
            self.wf(),
        ensures
            match r {
                Some(v) => self@.contains_key(name@) && v@ == self@[name@],
                None => !self@.contains_key(name@),
            },
    {
        let n = self.entries.len();
        let mut i: usize = 0;
        while i < n
            invariant
                self.wf(),
                n == self.entries.len(),
                i <= n,
                forall|j: int| 0 <= j < i ==> self.entries@[j].0@ != name@,
            decreases n - i,
        {
            if self.entries[i].0 == *name {
                proof {
                    lemma_map_of_at(self.entries@, i as int);
                }
                return Some(&self.entries[i].1);
            }
            i += 1;
        }
        proof {
            lemma_map_of_contains(self.entries@, name@);
        }
        None
    }

    /// Writes a key, replacing any previous value under it.
    pub fn set(&mut self, name: &String, value: Value)
        requires
            old(self).wf(),
        ensures
            final(self).wf(),
            final(self)@ == old(self)@.insert(name@, value@),
    {
        let n = self.entries.len();
        let mut i: usize = 0;
        while i < n
            invariant
                self.wf(),
                *self == *old(self),
                n == self.entries.len(),
                i <= n,
                forall|j: int| 0 <= j < i ==> self.entries@[j].0@ != name@,
            decreases n - i,
        {
            if self.entries[i].0 == *name {
                proof {
                    lemma_map_of_update(self.entries@, i as int, *name, value);
                }
                self.entries.set(i, (name.clone(), value));
                assert(self@ =~= old(self)@.insert(name@, value@));
                return ;
            }
            i += 1;
        }
        self.entries.push((name.clone(), value));
        proof {
            assert(self.entries@.drop_last() =~= old(self).entries@);
            assert(self@ =~= old(self)@.insert(name@, value@));
        }
    }
}

impl Clone for PropertyStore {
    fn clone(&self) -> (res: Self)
        ensures
            res@ == self@,
            self.wf() ==> res.wf(),
    {
        let n = self.entries.len();
        let mut entries: Vec<(String, Value)> = Vec::new();
        let mut i: usize = 0;
        while i < n
            invariant
                n == self.entries.len(),
                i <= n,
                entries.len() == i,
                forall|j: int|
                    0 <= j < i ==> entries@[j].0@ == self.entries@[j].0@ && entries@[j].1@
                        == self.entries@[j].1@,
            decreases n - i,
        {
            let pair = (self.entries[i].0.clone(), self.entries[i].1.clone());
            entries.push(pair);
            i += 1;
        }
        proof {
            lemma_map_of_congruent(entries@, self.entries@);
        }
        PropertyStore { entries }
    }
}

} // verus!
