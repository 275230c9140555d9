//! The key-to-value-expression mapping built from an object literal's
//! properties, with last-write-wins insertion.

use vstd::prelude::*;

use crate::ast::Expression;

verus! {

/// The map an entry list denotes: later entries overwrite earlier ones.
pub open spec fn entries_map(s: Seq<(String, Expression)>) -> Map<Seq<char>, Expression>
    decreases s.len(),
{
    if s.len() == 0 {
        Map::<Seq<char>, Expression>::empty()
    } else {
        entries_map(s.drop_last()).insert(s.last().0@, s.last().1)
    }
}

/// A mapping from property-key names to the value expressions declared for
/// them, with last-write-wins insertion.
pub struct OptionsMap {
    entries: Vec<(String, Expression)>,
}

impl View for OptionsMap {
    type V = Map<Seq<char>, Expression>;

    closed spec fn view(&self) -> Map<Seq<char>, Expression> {
        entries_map(self.entries@)
    }
}

/// No two entries share a key.
pub open spec fn keys_unique(s: Seq<(String, Expression)>) -> bool {
    forall|i: int, j: int| 0 <= i < j < s.len() ==> s[i].0@ != s[j].0@
}

proof fn lemma_entries_map_absent(s: Seq<(String, Expression)>, key: Seq<char>)
    requires
        forall|i: int| 0 <= i < s.len() ==> s[i].0@ != key,
    ensures
        !entries_map(s).contains_key(key),
    decreases s.len(),
{
    if s.len() > 0 {
        lemma_entries_map_absent(s.drop_last(), key);
    }
}

proof fn lemma_entries_map_at(s: Seq<(String, Expression)>, i: int)
    requires
        keys_unique(s),
        0 <= i < s.len(),
    ensures
        entries_map(s).contains_key(s[i].0@),
        entries_map(s)[s[i].0@] == s[i].1,
        entries_map(s.remove(i)) =~= entries_map(s).remove(s[i].0@),
    decreases s.len(),
{
    let key = s[i].0@;
    if i == s.len() - 1 {
        assert(s.remove(i) =~= s.drop_last());
        assert(forall|j: int| 0 <= j < s.drop_last().len() ==> s.drop_last()[j].0@ != key);
        lemma_entries_map_absent(s.drop_last(), key);
        assert(entries_map(s.drop_last()) =~= entries_map(s).remove(key));
    } else {
        let t = s.drop_last();
        assert(keys_unique(t));
        lemma_entries_map_at(t, i);
        assert(s.remove(i).drop_last() =~= t.remove(i));
        assert(s.remove(i).last() == s.last());
        assert(entries_map(s.remove(i)) == entries_map(t.remove(i)).insert(s.last().0@, s.last().1));
        assert(s.last().0@ != key);
        assert(entries_map(t).remove(key).insert(s.last().0@, s.last().1) =~= entries_map(
            t,
        ).insert(s.last().0@, s.last().1).remove(key));
    }
}

impl OptionsMap {
    /// Every entry list this type hands out keeps its keys unique.
    pub closed spec fn wf(&self) -> bool {
        keys_unique(self.entries@)
    }

    pub fn new() -> (m: OptionsMap)
        ensures
            m.wf(),
            m@ == Map::<Seq<char>, Expression>::empty(),
    {
        OptionsMap { entries: Vec::new() }
    }

    /// The index of the entry holding `key`, if any.
    fn position_of(&self, key: &String) -> (r: Option<usize>)
        ensures
            match r {
                Some(i) => i < self.entries@.len() && self.entries@[i as int].0@ == key@,
                None => forall|i: int| 0 <= i < self.entries@.len() ==> self.entries@[i].0@ != key@,
            },
    {
        let n = self.entries.len();
        for i in 0..n
            invariant
                n == self.entries@.len(),
                forall|j: int| 0 <= j < i ==> self.entries@[j].0@ != key@,
        {
            if self.entries[i].0 == *key {
                return Some(i);
            }
        }
        None
    }

    /// Insert, overwriting any earlier entry for the same key.
    pub fn insert(&mut self, key: String, value: Expression)
        requires
            old(self).wf(),
        ensures
            final(self).wf(),
            final(self)@ == old(self)@.insert(key@, value),
    {
        let ghost s0 = self.entries@;
        match self.position_of(&key) {
            Some(i) => {
                proof {
                    lemma_entries_map_at(s0, i as int);
                }
                self.entries.remove(i);
                self.entries.push((key, value));
                proof {
                    assert(self.entries@.drop_last() =~= s0.remove(i as int));
                    assert(entries_map(self.entries@) == entries_map(s0.remove(i as int)).insert(
                        key@,
                        value,
                    ));
                    assert(entries_map(s0).remove(key@).insert(key@, value) =~= entries_map(
                        s0,
                    ).insert(key@, value));
                    assert(forall|a: int, b: int|
                        0 <= a < b < s0.remove(i as int).len() ==> s0.remove(i as int)[a].0@ != s0.remove(
                            i as int,
                        )[b].0@);
                    assert(forall|a: int|
                        0 <= a < s0.remove(i as int).len() ==> s0.remove(i as int)[a].0@ != key@);
                }
            },
            None => {
                self.entries.push((key, value));
                proof {
                    assert(self.entries@.drop_last() =~= s0);
                }
            },
        }
    }

    /// Remove and return the value for `key`, if the map holds one.
    pub fn take(&mut self, key: &String) -> (r: Option<Expression>)
        requires
            old(self).wf(),
        ensures
            final(self).wf(),
            match r {
                Some(v) => {
                    &&& old(self)@.contains_key(key@)
                    &&& v == old(self)@[key@]
                    &&& final(self)@ == old(self)@.remove(key@)
                },
                None => {
                    &&& !old(self)@.contains_key(key@)
                    &&& final(self)@ == old(self)@
                },
            },
    {
        let ghost s0 = self.entries@;
        match self.position_of(key) {
            Some(i) => {
                proof {
                    lemma_entries_map_at(s0, i as int);
                }
                let (_, value) = self.entries.remove(i);
                proof {
                    assert(forall|a: int, b: int|
                        0 <= a < b < s0.remove(i as int).len() ==> s0.remove(i as int)[a].0@ != s0.remove(
                            i as int,
                        )[b].0@);
                }
                Some(value)
            },
            None => {
                proof {
                    lemma_entries_map_absent(s0, key@);
                }
                None
            },
        }
    }
}

} // verus!
