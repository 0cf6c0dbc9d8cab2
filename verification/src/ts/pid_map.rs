//! A small association map keyed by PID, with insertion order kept and
//! unique keys as its invariant.  Lookups are specified through
//! `spec_find`, the first (and, by the invariant, only) entry with a key.

use vstd::prelude::*;
use crate::ts::pid::Pid;

verus! {

/// The value of the first entry with key `pid`, if any.
pub open spec fn spec_find<V>(s: Seq<(Pid, V)>, pid: Pid) -> Option<V>
    decreases s.len(),
{
    if s.len() == 0 {
        None
    } else if s[0].0 == pid {
        Some(s[0].1)
    } else {
        spec_find(s.drop_first(), pid)
    }
}

/// Index of the first entry with key `pid`, if any.
pub open spec fn spec_index_of<V>(s: Seq<(Pid, V)>, pid: Pid) -> Option<int>
    decreases s.len(),
{
    if s.len() == 0 {
        None
    } else if s[0].0 == pid {
        Some(0)
    } else {
        match spec_index_of(s.drop_first(), pid) {
            None => None,
            Some(i) => Some(i + 1),
        }
    }
}

/// The entry list after removing the entry for `pid`, if present.
pub open spec fn spec_remove_key<V>(s: Seq<(Pid, V)>, pid: Pid) -> Seq<(Pid, V)> {
    match spec_index_of(s, pid) {
        None => s,
        Some(i) => s.remove(i),
    }
}

/// The entry list after an insert: any old entry for `pid` is dropped and
/// the new one appended.
pub open spec fn spec_insert<V>(s: Seq<(Pid, V)>, pid: Pid, v: V) -> Seq<(Pid, V)> {
    spec_remove_key(s, pid).push((pid, v))
}

proof fn lemma_index_of_some<V>(s: Seq<(Pid, V)>, pid: Pid, i: int)
    requires
        0 <= i < s.len(),
        s[i].0 == pid,
        forall|j: int| 0 <= j < i ==> s[j].0 != pid,
    ensures
        spec_index_of(s, pid) == Some(i),
        spec_find(s, pid) == Some(s[i].1),
    decreases i,
{
    if i > 0 {
        assert(forall|j: int| 0 <= j < i - 1 ==> s.drop_first()[j].0 == s[j + 1].0);
        lemma_index_of_some(s.drop_first(), pid, i - 1);
    }
}

pub proof fn lemma_index_of_none<V>(s: Seq<(Pid, V)>, pid: Pid)
    requires
        spec_find(s, pid) is None,
    ensures
        spec_index_of(s, pid) is None,
    decreases s.len(),
{
    if s.len() > 0 {
        lemma_index_of_none(s.drop_first(), pid);
    }
}

/// A present key's index is in range and holds that key.
pub proof fn lemma_index_of_range<V>(s: Seq<(Pid, V)>, pid: Pid)
    requires
        spec_index_of(s, pid) is Some,
    ensures
        0 <= spec_index_of(s, pid)->Some_0 < s.len(),
        s[spec_index_of(s, pid)->Some_0].0 == pid,
    decreases s.len(),
{
    if s.len() > 0 && s[0].0 != pid {
        lemma_index_of_range(s.drop_first(), pid);
    }
}

/// Removing an absent key changes nothing.
pub proof fn lemma_remove_key_absent<V>(s: Seq<(Pid, V)>, pid: Pid)
    requires
        spec_find(s, pid) is None,
    ensures
        spec_remove_key(s, pid) == s,
{
    lemma_index_of_none(s, pid);
}

/// No key occurs twice.
pub open spec fn unique_keys<V>(s: Seq<(Pid, V)>) -> bool
    decreases s.len(),
{
    s.len() == 0 || (spec_find(s.drop_first(), s[0].0) is None && unique_keys(s.drop_first()))
}

proof fn lemma_find_push_absent<V>(s: Seq<(Pid, V)>, pid: Pid, v: V)
    requires
        spec_find(s, pid) is None,
    ensures
        spec_find(s.push((pid, v)), pid) == Some(v),
    decreases s.len(),
{
    if s.len() == 0 {
        assert(s.push((pid, v)).drop_first() =~= Seq::<(Pid, V)>::empty());
    } else {
        assert(s.push((pid, v)).drop_first() =~= s.drop_first().push((pid, v)));
        lemma_find_push_absent(s.drop_first(), pid, v);
    }
}

proof fn lemma_find_push_other<V>(s: Seq<(Pid, V)>, e: (Pid, V), k: Pid)
    requires
        e.0 != k,
    ensures
        spec_find(s.push(e), k) == spec_find(s, k),
    decreases s.len(),
{
    if s.len() == 0 {
        assert(s.push(e)[0] == e);
        assert(s.push(e).drop_first() =~= Seq::<(Pid, V)>::empty());
        assert(spec_find(Seq::<(Pid, V)>::empty(), k) is None);
        assert(spec_find(s, k) is None);
    } else {
        assert(s.push(e)[0] == s[0]);
        assert(s.push(e).drop_first() =~= s.drop_first().push(e));
        lemma_find_push_other(s.drop_first(), e, k);
    }
}

proof fn lemma_find_remove_other<V>(s: Seq<(Pid, V)>, i: int, k: Pid)
    requires
        0 <= i < s.len(),
        s[i].0 != k,
    ensures
        spec_find(s.remove(i), k) == spec_find(s, k),
    decreases s.len(),
{
    if i == 0 {
        assert(s.remove(0) =~= s.drop_first());
    } else {
        assert(s.remove(i).drop_first() =~= s.drop_first().remove(i - 1));
        assert(s.remove(i)[0] == s[0]);
        lemma_find_remove_other(s.drop_first(), i - 1, k);
    }
}

proof fn lemma_find_remove_none<V>(s: Seq<(Pid, V)>, i: int, k: Pid)
    requires
        0 <= i < s.len(),
        spec_find(s, k) is None,
    ensures
        spec_find(s.remove(i), k) is None,
    decreases s.len(),
{
    if i == 0 {
        assert(s.remove(0) =~= s.drop_first());
    } else {
        assert(s.remove(i).drop_first() =~= s.drop_first().remove(i - 1));
        assert(s.remove(i)[0] == s[0]);
        lemma_find_remove_none(s.drop_first(), i - 1, k);
    }
}

proof fn lemma_find_remove_only<V>(s: Seq<(Pid, V)>, i: int)
    requires
        unique_keys(s),
        0 <= i < s.len(),
        forall|j: int| 0 <= j < i ==> s[j].0 != s[i].0,
    ensures
        spec_find(s.remove(i), s[i].0) is None,
    decreases s.len(),
{
    if i == 0 {
        assert(s.remove(0) =~= s.drop_first());
    } else {
        assert(s.remove(i).drop_first() =~= s.drop_first().remove(i - 1));
        assert(s.remove(i)[0] == s[0]);
        assert(forall|j: int|
            0 <= j < i - 1 ==> s.drop_first()[j].0 == s[j + 1].0 && s[j + 1].0 != s[i].0);
        lemma_find_remove_only(s.drop_first(), i - 1);
    }
}

proof fn lemma_unique_remove<V>(s: Seq<(Pid, V)>, i: int)
    requires
        unique_keys(s),
        0 <= i < s.len(),
    ensures
        unique_keys(s.remove(i)),
    decreases s.len(),
{
    if i == 0 {
        assert(s.remove(0) =~= s.drop_first());
    } else {
        assert(s.remove(i).drop_first() =~= s.drop_first().remove(i - 1));
        assert(s.remove(i)[0] == s[0]);
        lemma_unique_remove(s.drop_first(), i - 1);
        if s.remove(i).len() > 1 || s.remove(i).len() == 1 {
            lemma_find_remove_none(s.drop_first(), i - 1, s[0].0);
        }
    }
}

proof fn lemma_unique_push<V>(s: Seq<(Pid, V)>, pid: Pid, v: V)
    requires
        unique_keys(s),
        spec_find(s, pid) is None,
    ensures
        unique_keys(s.push((pid, v))),
    decreases s.len(),
{
    if s.len() == 0 {
        assert(s.push((pid, v))[0] == (pid, v));
        assert(s.push((pid, v)).drop_first() =~= Seq::<(Pid, V)>::empty());
        assert(spec_find(Seq::<(Pid, V)>::empty(), pid) is None);
        assert(unique_keys(Seq::<(Pid, V)>::empty()));
        assert(spec_find(s.push((pid, v)).drop_first(), pid) is None);
    } else {
        assert(s.push((pid, v))[0] == s[0]);
        assert(s.push((pid, v)).drop_first() =~= s.drop_first().push((pid, v)));
        lemma_unique_push(s.drop_first(), pid, v);
        lemma_find_push_other(s.drop_first(), (pid, v), s[0].0);
    }
}

/// An association map from PID to `V` over a vector of entries.
#[derive(Clone, Debug)]
pub struct PidMap<V> {
    pub entries: Vec<(Pid, V)>,
}

impl<V> PidMap<V> {
    pub open spec fn view(self) -> Seq<(Pid, V)> {
        self.entries@
    }

    pub open spec fn wf(self) -> bool {
        unique_keys(self.entries@)
    }

    /// Lookup in specifications.
    pub open spec fn spec_get(self, pid: Pid) -> Option<V> {
        spec_find(self.entries@, pid)
    }

    pub fn new() -> (r: PidMap<V>)
        ensures
            r.wf(),
            r@ == Seq::<(Pid, V)>::empty(),
    {
        PidMap { entries: Vec::new() }
    }

    pub fn len(&self) -> (r: usize)
        ensures
            r == self@.len(),
    {
        self.entries.len()
    }

    pub fn is_empty(&self) -> (r: bool)
        ensures
            r == (self@.len() == 0),
    {
        self.entries.len() == 0
    }

    /// Index of the first entry with key `pid`, if any.
    fn find_index(&self, pid: Pid) -> (r: Option<usize>)
        ensures
            match r {
                Some(i) => i < self@.len() && self@[i as int].0 == pid && (forall|j: int|
                    0 <= j < i ==> self@[j].0 != pid) && self.spec_get(pid) == Some(
                    self@[i as int].1,
                ),
                None => self.spec_get(pid) is None,
            },
    {
        let mut i: usize = 0;
        while i < self.entries.len()
            invariant
                i <= self@.len(),
                forall|j: int| 0 <= j < i ==> self@[j].0 != pid,
            decreases self@.len() - i,
        {
            if self.entries[i].0 == pid {
                proof {
                    lemma_find_skip(self@, pid, i as int);
                }
                return Some(i);
            }
            i = i + 1;
        }
        proof {
            lemma_find_skip(self@, pid, i as int);
        }
        None
    }

    pub fn contains_key(&self, pid: Pid) -> (r: bool)
        ensures
            r == (self.spec_get(pid) is Some),
    {
        self.find_index(pid).is_some()
    }

    pub fn get(&self, pid: Pid) -> (r: Option<&V>)
        ensures
            match r {
                Some(v) => self.spec_get(pid) == Some(*v),
                None => self.spec_get(pid) is None,
            },
    {
        match self.find_index(pid) {
            Some(i) => Some(&self.entries[i].1),
            None => None,
        }
    }

    /// Remove and return the entry for `pid`, if any.
    pub fn take(&mut self, pid: Pid) -> (r: Option<V>)
        requires
            old(self).wf(),
        ensures
            final(self).wf(),
            final(self)@ == spec_remove_key(old(self)@, pid),
            final(self).spec_get(pid) is None,
            forall|k: Pid| k != pid ==> final(self).spec_get(k) == old(self).spec_get(k),
            match r {
                Some(v) => old(self).spec_get(pid) == Some(v) && final(self)@.len() == old(
                    self,
                )@.len() - 1,
                None => old(self).spec_get(pid) is None && final(self)@ == old(self)@,
            },
    {
        match self.find_index(pid) {
            Some(i) => {
                proof {
                    lemma_index_of_some(old(self)@, pid, i as int);
                }
                let e = self.entries.remove(i);
                proof {
                    lemma_unique_remove(old(self)@, i as int);
                    lemma_find_remove_only(old(self)@, i as int);
                    assert forall|k: Pid| k != pid implies spec_find(self@, k) == spec_find(
                        old(self)@,
                        k,
                    ) by {
                        lemma_find_remove_other(old(self)@, i as int, k);
                    }
                }
                Some(e.1)
            },
            None => {
                proof {
                    lemma_index_of_none(self@, pid);
                }
                None
            },
        }
    }

    /// Insert `v` under `pid`, replacing any previous value.
    pub fn insert(&mut self, pid: Pid, v: V)
        requires
            old(self).wf(),
        ensures
            final(self).wf(),
            final(self)@ == spec_insert(old(self)@, pid, v),
            final(self).spec_get(pid) == Some(v),
            forall|k: Pid| k != pid ==> final(self).spec_get(k) == old(self).spec_get(k),
            final(self)@.len() == old(self)@.len() + (if old(self).spec_get(pid) is Some {
                0int
            } else {
                1int
            }),
    {
        let _ = self.take(pid);
        proof {
            lemma_unique_push(self@, pid, v);
            lemma_find_push_absent(self@, pid, v);
            assert forall|k: Pid| k != pid implies spec_find(self@.push((pid, v)), k) == spec_find(
                self@,
                k,
            ) by {
                lemma_find_push_other(self@, (pid, v), k);
            }
        }
        self.entries.push((pid, v));
    }
}

impl<V: Copy> PidMap<V> {
    /// An entry-for-entry copy of the map.
    pub fn duplicate(&self) -> (r: PidMap<V>)
        ensures
            r@ == self@,
    {
        let mut entries: Vec<(Pid, V)> = Vec::new();
        let mut i: usize = 0;
        while i < self.entries.len()
            invariant
                i <= self@.len(),
                entries@ == self@.subrange(0, i as int),
            decreases self@.len() - i,
        {
            let e = self.entries[i];
            entries.push(e);
            proof {
                assert(self@.subrange(0, i + 1) =~= self@.subrange(0, i as int).push(e));
            }
            i = i + 1;
        }
        proof {
            assert(self@.subrange(0, self@.len() as int) =~= self@);
        }
        PidMap { entries }
    }
}

proof fn lemma_find_skip<V>(s: Seq<(Pid, V)>, pid: Pid, i: int)
    requires
        0 <= i <= s.len(),
        forall|j: int| 0 <= j < i ==> s[j].0 != pid,
    ensures
        spec_find(s, pid) == (if i < s.len() && s[i].0 == pid {
            Some(s[i].1)
        } else {
            spec_find(s.skip(i), pid)
        }),
    decreases i,
{
    if i > 0 {
        assert(s.drop_first() =~= s.skip(1));
        assert(forall|j: int| 0 <= j < i - 1 ==> s.drop_first()[j].0 == s[j + 1].0);
        lemma_find_skip(s.drop_first(), pid, i - 1);
        assert(s.drop_first().skip(i - 1) =~= s.skip(i));
    } else {
        if i < s.len() && s[i].0 == pid {
        } else {
            assert(s.skip(0) =~= s);
        }
    }
}

} // verus!
