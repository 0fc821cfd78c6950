//! The identity-keyed map one deep clone uses to preserve sharing and break
//! cycles.
//!
//! Keys are source-object identities (arena slot indices), never value
//! contents; the map lives for the duration of one top-level clone call and
//! is not reused across calls.

use vstd::prelude::*;

use crate::value::Value;

verus! {

/// The association list behind the map: later entries win, and the map's
/// well-formedness keeps keys distinct.
pub open spec fn assoc_get(s: Seq<(usize, Value)>, k: usize) -> Option<Value>
    decreases s.len(),
{
    if s.len() == 0 {
        None
    } else if s.last().0 == k {
        Some(s.last().1)
    } else {
        assoc_get(s.drop_last(), k)
    }
}

pub open spec fn assoc_keys(s: Seq<(usize, Value)>) -> Set<int>
    decreases s.len(),
{
    if s.len() == 0 {
        Set::<int>::empty()
    } else {
        assoc_keys(s.drop_last()).insert(s.last().0 as int)
    }
}

pub open spec fn distinct_keys(s: Seq<(usize, Value)>) -> bool {
    forall|i: int, j: int| 0 <= i < j < s.len() ==> (#[trigger] s[i]).0 != (#[trigger] s[j]).0
}

/// How the key set, the lookup and the entry count of an association list
/// relate.
pub proof fn lemma_assoc(s: Seq<(usize, Value)>)
    ensures
        assoc_keys(s).finite(),
        assoc_keys(s).len() <= s.len(),
        distinct_keys(s) ==> assoc_keys(s).len() == s.len(),
        forall|k: usize| #[trigger] assoc_get(s, k) is Some ==> assoc_keys(s).contains(k as int),
        forall|x: int| #[trigger] assoc_keys(s).contains(x) ==> exists|i: int|
            0 <= i < s.len() && (#[trigger] s[i]).0 as int == x,
        forall|k: usize, i: int|
            0 <= i < s.len() && (#[trigger] s[i]).0 == k ==> #[trigger] assoc_get(s, k) is Some,
    decreases s.len(),
{
    broadcast use vstd::set::group_set_axioms;

    if s.len() > 0 {
        let d = s.drop_last();
        lemma_assoc(d);
        if distinct_keys(s) {
            assert(forall|i: int, j: int|
                0 <= i < j < d.len() ==> (#[trigger] d[i]).0 != (#[trigger] d[j]).0);
            // the last key is fresh, so the insert grows the key set
            if assoc_keys(d).contains(s.last().0 as int) {
                let i = choose|i: int| 0 <= i < d.len() && (#[trigger] d[i]).0 as int == s.last().0 as int;
                assert(s[i] == d[i]);
                assert(false);
            }
        }
        assert forall|k: usize| #[trigger] assoc_get(s, k) is Some implies assoc_keys(s).contains(
            k as int,
        ) by {
            if s.last().0 != k {
                assert(assoc_get(d, k) is Some);
            }
        }
        assert forall|k: usize, i: int|
            0 <= i < s.len() && (#[trigger] s[i]).0 == k implies #[trigger] assoc_get(s, k) is Some by {
            if s.last().0 == k {
                assert(assoc_get(s, k) is Some);
            } else {
                assert(i < d.len());
                assert(d[i] == s[i]);
                assert(assoc_get(d, k) is Some);
            }
        }
        assert forall|x: int| #[trigger] assoc_keys(s).contains(x) implies exists|i: int|
            0 <= i < s.len() && (#[trigger] s[i]).0 as int == x by {
            if x == s.last().0 as int {
                assert((s[s.len() - 1]).0 as int == x);
            } else {
                let i = choose|i: int| 0 <= i < d.len() && (#[trigger] d[i]).0 as int == x;
                assert(s[i] == d[i]);
            }
        }
    }
}

/// A key that looks up to nothing heads no entry.
pub proof fn lemma_assoc_absent(s: Seq<(usize, Value)>, k: usize)
    requires
        assoc_get(s, k) is None,
    ensures
        forall|i: int| 0 <= i < s.len() ==> (#[trigger] s[i]).0 != k,
    decreases s.len(),
{
    if s.len() > 0 {
        lemma_assoc_absent(s.drop_last(), k);
        assert forall|i: int| 0 <= i < s.len() implies (#[trigger] s[i]).0 != k by {
            if i < s.len() - 1 {
                assert(s.drop_last()[i] == s[i]);
            }
        }
    }
}

/// The visited map: records, for each source object already reached, the
/// value its clone was published as.
pub struct VisitedMap {
    entries: Vec<(usize, Value)>,
}

impl VisitedMap {
    /// The recorded clone for a source identity, if that object was already
    /// visited.
    pub closed spec fn spec_get(&self, k: usize) -> Option<Value> {
        assoc_get(self.entries@, k)
    }

    /// The set of visited source identities.
    pub closed spec fn dom(&self) -> Set<int> {
        assoc_keys(self.entries@)
    }

    /// How many source objects were visited.
    pub closed spec fn len_spec(&self) -> nat {
        self.entries@.len()
    }

    pub closed spec fn wf(&self) -> bool {
        distinct_keys(self.entries@)
    }

    /// The key set is finite, counts one identity per visited object, and
    /// holds exactly the identities that look up to something.
    pub proof fn lemma_dom(&self)
        ensures
            self.dom().finite(),
            self.wf() ==> self.dom().len() == self.len_spec(),
            forall|k: usize| #[trigger] self.spec_get(k) is Some ==> self.dom().contains(k as int),
            forall|x: int| #[trigger] self.dom().contains(x) ==> exists|k: usize|
                k as int == x && #[trigger] self.spec_get(k) is Some,
    {
        lemma_assoc(self.entries@);
        assert forall|x: int| #[trigger] self.dom().contains(x) implies exists|k: usize|
            k as int == x && #[trigger] self.spec_get(k) is Some by {
            let i = choose|i: int|
                0 <= i < self.entries@.len() && (#[trigger] self.entries@[i]).0 as int == x;
            let k = self.entries@[i].0;
            assert(self.spec_get(k) is Some);
        }
    }

    /// An empty map, fresh for one top-level clone call.
    pub fn new() -> (m: VisitedMap)
        ensures
            m.wf(),
            m.len_spec() == 0,
            m.dom() == Set::<int>::empty(),
            forall|k: usize| #[trigger] m.spec_get(k) is None,
    {
        VisitedMap { entries: Vec::new() }
    }

    /// Looks a source identity up.
    pub fn get(&self, k: usize) -> (r: Option<Value>)
        ensures
            r == self.spec_get(k),
    {
        let n = self.entries.len();
        proof {
            assert(self.entries@.take(n as int) =~= self.entries@);
        }
        let mut i = n;
        while i > 0
            invariant
                i <= n,
                n == self.entries@.len(),
                assoc_get(self.entries@, k) == assoc_get(self.entries@.take(i as int), k),
            decreases i,
        {
            i = i - 1;
            proof {
                assert(self.entries@.take(i + 1).drop_last() =~= self.entries@.take(i as int));
                assert(self.entries@.take(i + 1).last() == self.entries@[i as int]);
            }
            let e = self.entries[i];
            if e.0 == k {
                return Some(e.1);
            }
        }
        None
    }

    /// Records the clone published for a source identity not yet visited.
    pub fn insert(&mut self, k: usize, v: Value)
        requires
            old(self).wf(),
            old(self).spec_get(k) is None,
        ensures
            final(self).wf(),
            final(self).spec_get(k) == Some(v),
            forall|k2: usize|
                k2 != k ==> #[trigger] final(self).spec_get(k2) == old(self).spec_get(k2),
            final(self).len_spec() == old(self).len_spec() + 1,
            final(self).dom() == old(self).dom().insert(k as int),
    {
        proof {
            lemma_assoc_absent(self.entries@, k);
        }
        self.entries.push((k, v));
        proof {
            assert(self.entries@.drop_last() =~= old(self).entries@);
            assert(self.entries@.last() == (k, v));
            assert forall|k2: usize|
                k2 != k implies #[trigger] self.spec_get(k2) == old(self).spec_get(k2) by {
            }
        }
    }
}

} // verus!
