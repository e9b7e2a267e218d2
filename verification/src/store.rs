//! The record store: the keyed, potentially large half of the two-tier
//! storage model. It holds at most one participation record per identity and
//! supports existence checks, lookup, insertion and per-key eviction, each
//! key independent of the others.

use vstd::prelude::*;

use crate::record::ParticipationData;

verus! {

/// No two entries name the same participant.
pub open spec fn unique_participants(s: Seq<ParticipationData>) -> bool {
    forall|i: int, j: int|
        0 <= i < j < s.len() ==> s[i].participant != s[j].participant
}

/// Some entry names `p`.
pub open spec fn spec_contains(s: Seq<ParticipationData>, p: u64) -> bool {
    exists|i: int| 0 <= i < s.len() && s[i].participant == p
}

/// The position of the entry naming `p`; meaningful only when
/// `spec_contains(s, p)` holds, and unique when the participants are unique.
pub open spec fn index_of(s: Seq<ParticipationData>, p: u64) -> int {
    choose|i: int| 0 <= i < s.len() && s[i].participant == p
}

/// The entry naming `p`; meaningful only when `spec_contains(s, p)` holds.
pub open spec fn spec_get(s: Seq<ParticipationData>, p: u64) -> ParticipationData {
    s[index_of(s, p)]
}

/// With unique participants, any entry naming `p` is the entry `spec_get`
/// denotes, at the position `index_of` denotes.
pub proof fn lemma_found_is_get(s: Seq<ParticipationData>, i: int, p: u64)
    requires
        unique_participants(s),
        0 <= i < s.len(),
        s[i].participant == p,
    ensures
        spec_contains(s, p),
        index_of(s, p) == i,
        spec_get(s, p) == s[i],
{
    assert(spec_contains(s, p));
    let j = index_of(s, p);
    assert(0 <= j < s.len() && s[j].participant == p);
    if i != j {
        assert(s[i].participant != s[j].participant);
    }
}

/// Removing the entry at `i` from a store with unique participants removes
/// exactly that entry's key: every other key keeps its presence and its
/// record, and uniqueness is preserved.
pub proof fn lemma_remove_keeps(s: Seq<ParticipationData>, i: int)
    requires
        unique_participants(s),
        0 <= i < s.len(),
    ensures
        unique_participants(s.remove(i)),
        !spec_contains(s.remove(i), s[i].participant),
        forall|q: u64|
            q != s[i].participant ==> spec_contains(s.remove(i), q) == spec_contains(s, q),
        forall|q: u64|
            q != s[i].participant && spec_contains(s, q) ==> spec_get(s.remove(i), q) == spec_get(
                s,
                q,
            ),
        s.remove(i).len() == s.len() - 1,
{
    let t = s.remove(i);
    let p = s[i].participant;
    assert forall|j: int| 0 <= j < t.len() implies t[j].participant != p by {
        if j < i {
            assert(t[j] == s[j]);
        } else {
            assert(t[j] == s[j + 1]);
        }
    }
    assert forall|q: u64| q != p && spec_contains(s, q) implies spec_contains(t, q) by {
        let j = choose|j: int| 0 <= j < s.len() && s[j].participant == q;
        if j < i {
            assert(t[j] == s[j]);
        } else {
            assert(j > i);
            assert(t[j - 1] == s[j]);
        }
    }
    assert forall|q: u64| q != p && spec_contains(t, q) implies spec_contains(s, q) by {
        let j = choose|j: int| 0 <= j < t.len() && t[j].participant == q;
        if j < i {
            assert(t[j] == s[j]);
        } else {
            assert(t[j] == s[j + 1]);
        }
    }
    assert forall|q: u64| q != p && spec_contains(s, q) implies spec_get(t, q) == spec_get(
        s,
        q,
    ) by {
        let j = index_of(t, q);
        assert(0 <= j < t.len() && t[j].participant == q);
        if j < i {
            assert(t[j] == s[j]);
            lemma_found_is_get(s, j, q);
        } else {
            assert(t[j] == s[j + 1]);
            lemma_found_is_get(s, j + 1, q);
        }
    }
}

/// Two stores with unique participants that hold records for exactly the
/// same identities hold the same number of records.
pub proof fn lemma_same_keys_same_len(s1: Seq<ParticipationData>, s2: Seq<ParticipationData>)
    requires
        unique_participants(s1),
        unique_participants(s2),
        forall|p: u64| spec_contains(s1, p) <==> spec_contains(s2, p),
    ensures
        s1.len() == s2.len(),
    decreases s1.len(),
{
    if s1.len() == 0 {
        if s2.len() > 0 {
            assert(spec_contains(s2, s2[0].participant));
            assert(spec_contains(s1, s2[0].participant));
            assert(false);
        }
    } else {
        let p = s1[0].participant;
        assert(spec_contains(s1, p));
        assert(spec_contains(s2, p));
        let j = index_of(s2, p);
        assert(0 <= j < s2.len() && s2[j].participant == p);
        let t1 = s1.remove(0);
        let t2 = s2.remove(j);
        lemma_remove_keeps(s1, 0);
        lemma_remove_keeps(s2, j);
        assert forall|q: u64| spec_contains(t1, q) <==> spec_contains(t2, q) by {
            if q == p {
                assert(!spec_contains(t1, q));
                assert(!spec_contains(t2, q));
            } else {
                assert(spec_contains(t1, q) == spec_contains(s1, q));
                assert(spec_contains(t2, q) == spec_contains(s2, q));
            }
        }
        lemma_same_keys_same_len(t1, t2);
    }
}

/// The keyed store. The participants of its entries are unique whenever the
/// store was built through its own operations.
pub struct RecordStore {
    /// The entries, in insertion order.
    pub entries: Vec<ParticipationData>,
}

impl RecordStore {
    /// The store's own invariant: one entry per identity.
    pub open spec fn wf(self) -> bool {
        unique_participants(self.entries@)
    }

    /// An empty store.
    pub fn new() -> (r: RecordStore)
        ensures
            r.entries@ == Seq::<ParticipationData>::empty(),
            r.wf(),
    {
        RecordStore { entries: Vec::new() }
    }

    /// The position of the entry naming `p`, if one exists.
    fn find(&self, p: u64) -> (r: Option<usize>)
        ensures
            match r {
                Some(i) => i < self.entries.len() && self.entries@[i as int].participant == p,
                None => !spec_contains(self.entries@, p),
            },
    {
        let mut i: usize = 0;
        while i < self.entries.len()
            invariant
                i <= self.entries.len(),
                forall|j: int| 0 <= j < i ==> self.entries@[j].participant != p,
            decreases self.entries.len() - i,
        {
            if self.entries[i].participant == p {
                return Some(i);
            }
            i = i + 1;
        }
        None
    }

    /// Whether an entry for `p` exists.
    pub fn contains(&self, p: u64) -> (r: bool)
        ensures
            r == spec_contains(self.entries@, p),
    {
        match self.find(p) {
            Some(i) => {
                proof {
                    assert(spec_contains(self.entries@, p));
                }
                true
            },
            None => false,
        }
    }

    /// The record for `p`, if one exists; absence is not an error.
    pub fn get(&self, p: u64) -> (r: Option<ParticipationData>)
        requires
            self.wf(),
        ensures
            match r {
                Some(rec) => spec_contains(self.entries@, p) && rec == spec_get(self.entries@, p),
                None => !spec_contains(self.entries@, p),
            },
    {
        match self.find(p) {
            Some(i) => {
                proof {
                    lemma_found_is_get(self.entries@, i as int, p);
                }
                Some(self.entries[i].clone())
            },
            None => None,
        }
    }

    /// Appends a record for an identity not yet present.
    pub fn insert(&mut self, rec: ParticipationData)
        requires
            old(self).wf(),
            !spec_contains(old(self).entries@, rec.participant),
        ensures
            final(self).entries@ == old(self).entries@.push(rec),
            final(self).wf(),
    {
        proof {
            let s = self.entries@;
            assert forall|i: int, j: int|
                0 <= i < j < s.push(rec).len() implies s.push(rec)[i].participant != s.push(
                rec,
            )[j].participant by {
                if j < s.len() {
                    assert(s.push(rec)[i] == s[i] && s.push(rec)[j] == s[j]);
                } else {
                    assert(s.push(rec)[j] == rec);
                    assert(s.push(rec)[i] == s[i]);
                    if s[i].participant == rec.participant {
                        assert(spec_contains(s, rec.participant));
                    }
                }
            }
        }
        self.entries.push(rec);
    }

    /// Evicts the record for `p`, if one exists, touching no other key.
    /// Returns whether a record was evicted.
    pub fn remove(&mut self, p: u64) -> (removed: bool)
        requires
            old(self).wf(),
        ensures
            final(self).wf(),
            removed == spec_contains(old(self).entries@, p),
            !spec_contains(final(self).entries@, p),
            forall|q: u64|
                q != p ==> spec_contains(final(self).entries@, q) == spec_contains(
                    old(self).entries@,
                    q,
                ),
            forall|q: u64|
                q != p && spec_contains(old(self).entries@, q) ==> spec_get(
                    final(self).entries@,
                    q,
                ) == spec_get(old(self).entries@, q),
            final(self).entries@.len() + (if removed {
                1int
            } else {
                0int
            }) == old(self).entries@.len(),
    {
        match self.find(p) {
            Some(i) => {
                proof {
                    assert(spec_contains(self.entries@, p));
                    lemma_remove_keeps(self.entries@, i as int);
                }
                self.entries.remove(i);
                true
            },
            None => false,
        }
    }
}

} // verus!
