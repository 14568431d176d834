use vstd::prelude::*;

use crate::ids::UserId;
use crate::kv::{
    assoc_map, distinct_keys, lemma_assoc_map_contains, lemma_assoc_map_index,
    lemma_assoc_map_push, lemma_assoc_map_update,
};

verus! {

/// What a presence record holds for an identity after a mark at `now`: the
/// later of the existing timestamp and `now` — it never decreases.
pub open spec fn marked(m: Map<UserId, u64>, id: UserId, now: u64) -> Map<UserId, u64> {
    if m.contains_key(id) && m[id] > now {
        m
    } else {
        m.insert(id, now)
    }
}

/// Last-seen timestamps per identity.
pub struct LastOnlineDates {
    entries: Vec<(UserId, u64)>,
}

impl LastOnlineDates {
    pub closed spec fn as_map(&self) -> Map<UserId, u64> {
        assoc_map(self.entries@)
    }

    pub closed spec fn wf(&self) -> bool {
        distinct_keys(self.entries@)
    }

    pub fn new() -> (m: LastOnlineDates)
        ensures
            m.wf(),
            m.as_map() == Map::<UserId, u64>::empty(),
    {
        LastOnlineDates { entries: Vec::new() }
    }

    fn find(&self, id: UserId) -> (r: Option<usize>)
        requires
            self.wf(),
        ensures
            match r {
                Some(i) => i < self.entries@.len() && (self.entries@[i as int]).0 == id
                    && self.as_map().contains_key(id) && self.as_map()[id] == (
                self.entries@[i as int]).1,
                None => !self.as_map().contains_key(id),
            },
    {
        let n = self.entries.len();
        let mut i: usize = 0;
        while i < n
            invariant
                self.wf(),
                n == self.entries@.len(),
                i <= n,
                forall|j: int| 0 <= j < i ==> (#[trigger] self.entries@[j]).0 != id,
            decreases n - i,
        {
            if self.entries[i].0 == id {
                proof {
                    lemma_assoc_map_index(self.entries@, i as int);
                }
                return Some(i);
            }
            i += 1;
        }
        proof {
            lemma_assoc_map_contains(self.entries@, id);
        }
        None
    }

    /// Records that `id` was observed online at `now`; an older timestamp
    /// never overwrites a newer one.
    pub fn mark_online(&mut self, id: UserId, now: u64)
        requires
            old(self).wf(),
        ensures
            final(self).wf(),
            final(self).as_map() == marked(old(self).as_map(), id, now),
    {
        match self.find(id) {
            Some(i) => {
                if self.entries[i].1 > now {
                    proof {
                        assert(self.as_map() =~= marked(self.as_map(), id, now));
                    }
                } else {
                    proof {
                        lemma_assoc_map_update(self.entries@, i as int, now);
                    }
                    self.entries[i] = (id, now);
                }
            },
            None => {
                proof {
                    lemma_assoc_map_contains(self.entries@, id);
                    lemma_assoc_map_push(self.entries@, id, now);
                    let t = self.entries@.push((id, now));
                    assert forall|a: int, b: int| 0 <= a < b < t.len() implies (#[trigger] t[a]).0
                        != (#[trigger] t[b]).0 by {
                        if b == t.len() - 1 {
                            assert(t[a] == self.entries@[a]);
                            assert((self.entries@[a]).0 != id);
                        } else {
                            assert(t[a] == self.entries@[a]);
                            assert(t[b] == self.entries@[b]);
                        }
                    }
                }
                self.entries.push((id, now));
            },
        }
    }

    /// When `id` was last observed online, if ever.
    pub fn last_seen(&self, id: UserId) -> (r: Option<u64>)
        requires
            self.wf(),
        ensures
            r == (if self.as_map().contains_key(id) {
                Some(self.as_map()[id])
            } else {
                None::<u64>
            }),
    {
        match self.find(id) {
            Some(i) => Some(self.entries[i].1),
            None => None,
        }
    }
}

/// Presence timestamps are monotonic per identity: marking at `t1` and then
/// at an earlier `t2` leaves the record at `t1`.
pub proof fn lemma_presence_monotonic(m: Map<UserId, u64>, id: UserId, t1: u64, t2: u64)
    requires
        t2 < t1,
        m.contains_key(id) ==> m[id] <= t1,
    ensures
        marked(marked(m, id, t1), id, t2)[id] == t1,
{
}

/// A mark never lowers a recorded timestamp, and afterwards the record is at
/// least the time of the mark.
pub proof fn lemma_presence_never_decreases(m: Map<UserId, u64>, id: UserId, now: u64)
    ensures
        marked(m, id, now).contains_key(id),
        marked(m, id, now)[id] >= now,
        m.contains_key(id) ==> marked(m, id, now)[id] >= m[id],
{
}

} // verus!
