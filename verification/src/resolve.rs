use vstd::prelude::*;

use crate::ids::{IdentityHandle, UserId};
use crate::kv::{
    assoc_map, distinct_keys, lemma_assoc_map_contains, lemma_assoc_map_index,
    lemma_assoc_map_push, lemma_assoc_map_update,
};

verus! {

/// What the external identity authority answers for a handle.
pub enum LookupOutcome {
    Found(UserId),
    NotFound,
    Failure(String),
}

/// The outcome a caller of the resolution protocol receives; a failure
/// carries the authority's diagnostic detail.
pub enum ResolveOutcome {
    Resolved(UserId),
    NotFound,
    InternalError(String),
}

/// The entries of the cache as bindings from handle bytes to identities.
pub open spec fn cache_entries(s: Seq<(IdentityHandle, UserId)>) -> Seq<(Seq<u8>, UserId)> {
    s.map_values(|p: (IdentityHandle, UserId)| (p.0@, p.1))
}

/// The local cache from caller handles to their stable identities. A binding
/// is only written once it was definitively received, from local state or the
/// external authority: no speculative entries.
pub struct PrincipalToUserIdMap {
    entries: Vec<(IdentityHandle, UserId)>,
}

impl PrincipalToUserIdMap {
    pub closed spec fn as_map(&self) -> Map<Seq<u8>, UserId> {
        assoc_map(cache_entries(self.entries@))
    }

    pub closed spec fn wf(&self) -> bool {
        distinct_keys(cache_entries(self.entries@))
    }

    pub fn new() -> (m: PrincipalToUserIdMap)
        ensures
            m.wf(),
            m.as_map() == Map::<Seq<u8>, UserId>::empty(),
    {
        PrincipalToUserIdMap { entries: Vec::new() }
    }

    fn find(&self, handle: &IdentityHandle) -> (r: Option<usize>)
        requires
            self.wf(),
        ensures
            match r {
                Some(i) => i < self.entries@.len() && (self.entries@[i as int]).0@ == handle@
                    && self.as_map().contains_key(handle@) && self.as_map()[handle@] == (
                self.entries@[i as int]).1,
                None => !self.as_map().contains_key(handle@),
            },
    {
        let n = self.entries.len();
        let mut i: usize = 0;
        while i < n
            invariant
                self.wf(),
                n == self.entries@.len(),
                i <= n,
                forall|j: int| 0 <= j < i ==> (#[trigger] self.entries@[j]).0@ != handle@,
            decreases n - i,
        {
            if self.entries[i].0.same_as(handle) {
                proof {
                    assert(cache_entries(self.entries@)[i as int] == (
                        (self.entries@[i as int]).0@,
                        (self.entries@[i as int]).1,
                    ));
                    lemma_assoc_map_index(cache_entries(self.entries@), i as int);
                }
                return Some(i);
            }
            i += 1;
        }
        proof {
            lemma_assoc_map_contains(cache_entries(self.entries@), handle@);
        }
        None
    }

    /// The identity cached for `handle`, if one was ever received for it.
    pub fn get(&self, handle: &IdentityHandle) -> (r: Option<UserId>)
        requires
            self.wf(),
        ensures
            r == spec_resolve_local(self.as_map(), handle@),
    {
        match self.find(handle) {
            Some(i) => Some(self.entries[i].1),
            None => None,
        }
    }

    /// Writes back a definitively received binding; a later write for the
    /// same handle wins.
    pub fn add(&mut self, handle: IdentityHandle, user_id: UserId)
        requires
            old(self).wf(),
        ensures
            final(self).wf(),
            final(self).as_map() == old(self).as_map().insert(handle@, user_id),
    {
        match self.find(&handle) {
            Some(i) => {
                proof {
                    assert(cache_entries(self.entries@)[i as int] == (
                        (self.entries@[i as int]).0@,
                        (self.entries@[i as int]).1,
                    ));
                    lemma_assoc_map_update(cache_entries(self.entries@), i as int, user_id);
                    assert(cache_entries(self.entries@.update(i as int, (handle, user_id)))
                        =~= cache_entries(self.entries@).update(i as int, (handle@, user_id)));
                }
                self.entries[i] = (handle, user_id);
            },
            None => {
                proof {
                    lemma_assoc_map_contains(cache_entries(self.entries@), handle@);
                    lemma_assoc_map_push(cache_entries(self.entries@), handle@, user_id);
                    assert(cache_entries(self.entries@.push((handle, user_id)))
                        =~= cache_entries(self.entries@).push((handle@, user_id)));
                    let t = cache_entries(self.entries@).push((handle@, user_id));
                    assert forall|a: int, b: int| 0 <= a < b < t.len() implies (#[trigger] t[a]).0
                        != (#[trigger] t[b]).0 by {
                        if b == t.len() - 1 {
                            assert(t[a] == cache_entries(self.entries@)[a]);
                            assert((cache_entries(self.entries@)[a]).0 != handle@);
                        } else {
                            assert(t[a] == cache_entries(self.entries@)[a]);
                            assert(t[b] == cache_entries(self.entries@)[b]);
                        }
                    }
                }
                self.entries.push((handle, user_id));
            },
        }
    }
}

/// Phase one of resolution: what a purely local lookup returns.
pub open spec fn spec_resolve_local(cache: Map<Seq<u8>, UserId>, h: Seq<u8>) -> Option<UserId> {
    if cache.contains_key(h) {
        Some(cache[h])
    } else {
        None
    }
}

/// One whole resolution round: the cache afterwards, the outcome, and whether
/// the external authority was consulted. On a local hit the authority is
/// never contacted; a `Found` reply is written back, any other reply leaves
/// the cache unchanged.
pub open spec fn resolve_spec(cache: Map<Seq<u8>, UserId>, h: Seq<u8>, reply: LookupOutcome) -> (
    Map<Seq<u8>, UserId>,
    ResolveOutcome,
    bool,
) {
    match spec_resolve_local(cache, h) {
        Some(u) => (cache, ResolveOutcome::Resolved(u), false),
        None => match reply {
            LookupOutcome::Found(u) => (cache.insert(h, u), ResolveOutcome::Resolved(u), true),
            LookupOutcome::NotFound => (cache, ResolveOutcome::NotFound, true),
            LookupOutcome::Failure(d) => (cache, ResolveOutcome::InternalError(d), true),
        },
    }
}

/// Applies the authority's reply after a miss: `Found` is written back and
/// resolves; `NotFound` and failures are surfaced and cache nothing.
pub fn apply_lookup_outcome(
    cache: &mut PrincipalToUserIdMap,
    handle: IdentityHandle,
    reply: LookupOutcome,
) -> (r: ResolveOutcome)
    requires
        old(cache).wf(),
        spec_resolve_local(old(cache).as_map(), handle@) is None,
    ensures
        final(cache).wf(),
        final(cache).as_map() == resolve_spec(old(cache).as_map(), handle@, reply).0,
        r == resolve_spec(old(cache).as_map(), handle@, reply).1,
{
    match reply {
        LookupOutcome::Found(u) => {
            cache.add(handle, u);
            ResolveOutcome::Resolved(u)
        },
        LookupOutcome::NotFound => ResolveOutcome::NotFound,
        LookupOutcome::Failure(d) => ResolveOutcome::InternalError(d),
    }
}

/// Resolution is stable: once a round resolved handle `h` to `u`, a second
/// round for `h` returns the same identity from the cache alone — it changes
/// nothing and never contacts the authority, whatever the authority would
/// have answered.
pub proof fn lemma_second_resolution_is_local(
    cache: Map<Seq<u8>, UserId>,
    h: Seq<u8>,
    reply1: LookupOutcome,
    reply2: LookupOutcome,
    u: UserId,
)
    requires
        resolve_spec(cache, h, reply1).1 == ResolveOutcome::Resolved(u),
    ensures
        resolve_spec(resolve_spec(cache, h, reply1).0, h, reply2) == (
            resolve_spec(cache, h, reply1).0,
            ResolveOutcome::Resolved(u),
            false,
        ),
{
}


/// The cache only ever grows: resolution never removes a binding, and a
/// binding other than the one being resolved is never touched.
pub proof fn lemma_cache_monotonic(cache: Map<Seq<u8>, UserId>, h: Seq<u8>, reply: LookupOutcome)
    ensures
        forall|k: Seq<u8>| #[trigger]
            cache.contains_key(k) ==> resolve_spec(cache, h, reply).0.contains_key(k),
        forall|k: Seq<u8>| #[trigger]
            cache.contains_key(k) && k != h ==> resolve_spec(cache, h, reply).0[k] == cache[k],
{
}

} // verus!
