use vstd::prelude::*;

use crate::kv::{
    assoc_map, distinct_keys, lemma_assoc_map_contains, lemma_assoc_map_index,
    lemma_assoc_map_push, lemma_assoc_map_update,
};

verus! {

/// Whether a key seen at `seen_at` is still inside the dedup window at `now`.
pub open spec fn within_window(seen_at: u64, now: u64, window: u64) -> bool {
    now < seen_at + window
}

/// Whether a key may be forwarded: it is fresh unless it was already seen
/// inside the active window.
pub open spec fn key_is_fresh(seen: Map<u128, u64>, key: u128, now: u64, window: u64) -> bool {
    !(seen.contains_key(key) && within_window(seen[key], now, window))
}

/// Bounded structure mapping each idempotency key that was recently seen to
/// the time it was last seen. Entries older than the window are evicted by
/// periodic maintenance.
pub struct EventDeduper {
    window: u64,
    entries: Vec<(u128, u64)>,
}

impl EventDeduper {
    /// The sliding time window within which a key counts as a duplicate.
    pub closed spec fn window(&self) -> u64 {
        self.window
    }

    /// The recorded keys with the time each was last seen.
    pub closed spec fn seen(&self) -> Map<u128, u64> {
        assoc_map(self.entries@)
    }

    pub closed spec fn wf(&self) -> bool {
        distinct_keys(self.entries@)
    }

    pub fn new(window: u64) -> (d: EventDeduper)
        ensures
            d.wf(),
            d.window() == window,
            d.seen() == Map::<u128, u64>::empty(),
    {
        EventDeduper { window, entries: Vec::new() }
    }

    /// Index of the entry carrying `key`, if any.
    fn find(&self, key: u128) -> (r: Option<usize>)
        requires
            self.wf(),
        ensures
            match r {
                Some(i) => i < self.entries@.len() && (self.entries@[i as int]).0 == key
                    && self.seen().contains_key(key) && self.seen()[key] == (
                self.entries@[i as int]).1,
                None => !self.seen().contains_key(key),
            },
    {
        let n = self.entries.len();
        let mut i: usize = 0;
        while i < n
            invariant
                self.wf(),
                n == self.entries@.len(),
                i <= n,
                forall|j: int| 0 <= j < i ==> (#[trigger] self.entries@[j]).0 != key,
            decreases n - i,
        {
            if self.entries[i].0 == key {
                proof {
                    lemma_assoc_map_index(self.entries@, i as int);
                }
                return Some(i);
            }
            i += 1;
        }
        proof {
            lemma_assoc_map_contains(self.entries@, key);
        }
        None
    }

    /// Records `key` as seen at `now` and reports it fresh, unless it was
    /// already seen inside the active window, in which case nothing changes
    /// and the key is reported as a duplicate.
    pub fn try_push(&mut self, key: u128, now: u64) -> (fresh: bool)
        requires
            old(self).wf(),
        ensures
            final(self).wf(),
            final(self).window() == old(self).window(),
            fresh == key_is_fresh(old(self).seen(), key, now, old(self).window()),
            fresh ==> final(self).seen() == old(self).seen().insert(key, now),
            !fresh ==> final(self).seen() == old(self).seen(),
    {
        match self.find(key) {
            Some(i) => {
                let seen_at = self.entries[i].1;
                if (now as u128) < (seen_at as u128) + (self.window as u128) {
                    false
                } else {
                    proof {
                        lemma_assoc_map_update(self.entries@, i as int, now);
                    }
                    self.entries[i] = (key, now);
                    true
                }
            },
            None => {
                proof {
                    lemma_assoc_map_contains(self.entries@, key);
                    lemma_assoc_map_push(self.entries@, key, now);
                    let t = self.entries@.push((key, now));
                    assert forall|a: int, b: int| 0 <= a < b < t.len() implies (#[trigger] t[a]).0
                        != (#[trigger] t[b]).0 by {
                        if b == t.len() - 1 {
                            assert(t[a] == self.entries@[a]);
                            assert((self.entries@[a]).0 != key);
                        } else {
                            assert(t[a] == self.entries@[a]);
                            assert(t[b] == self.entries@[b]);
                        }
                    }
                }
                self.entries.push((key, now));
                true
            },
        }
    }

    /// Drops every entry whose key has fallen out of the window at `now`;
    /// entries still inside the window are kept unchanged.
    pub fn evict_expired(&mut self, now: u64)
        requires
            old(self).wf(),
        ensures
            final(self).wf(),
            final(self).window() == old(self).window(),
            forall|k: u128| #[trigger] final(self).seen().contains_key(k) <==> (old(
                self,
            ).seen().contains_key(k) && within_window(old(self).seen()[k], now, old(
                self,
            ).window())),
            forall|k: u128| final(self).seen().contains_key(k) ==> final(self).seen()[k] == old(
                self,
            ).seen()[k],
    {
        let ghost olds = self.entries@;
        let ghost w = self.window;
        let n = self.entries.len();
        let mut kept: Vec<(u128, u64)> = Vec::new();
        let mut i: usize = 0;
        while i < n
            invariant
                self.wf(),
                self.entries@ == olds,
                self.window == w,
                n == olds.len(),
                i <= n,
                distinct_keys(kept@),
                forall|j: int|
                    0 <= j < kept@.len() ==> sourced(olds, i as int, now, w, #[trigger] kept@[j]),
                forall|m: int|
                    0 <= m < i && within_window((#[trigger] olds[m]).1, now, w) ==> kept@.contains(
                        olds[m],
                    ),
            decreases n - i,
        {
            let (key, seen_at) = self.entries[i];
            let ghost prev = kept@;
            if (now as u128) < (seen_at as u128) + (self.window as u128) {
                proof {
                    assert forall|j: int| 0 <= j < prev.len() implies (#[trigger] prev[j]).0
                        != key by {
                        let m = sourced_witness(olds, i as int, now, w, prev[j]);
                        assert((olds[m]).0 != (olds[i as int]).0);
                    }
                }
                kept.push((key, seen_at));
                proof {
                    assert(kept@ == prev.push((key, seen_at)));
                    assert(kept@[prev.len() as int] == olds[i as int]);
                    assert(within_window((olds[i as int]).1, now, w));
                    assert forall|j: int|
                        0 <= j < kept@.len() implies sourced(
                        olds,
                        i + 1,
                        now,
                        w,
                        #[trigger] kept@[j],
                    ) by {
                        if j < prev.len() {
                            assert(kept@[j] == prev[j]);
                            lemma_sourced_widen(olds, i as int, i + 1, now, w, prev[j]);
                        } else {
                            assert(kept@[j] == olds[i as int]);
                            lemma_sourced_intro(olds, i as int, i + 1, now, w);
                        }
                    }
                    assert forall|m: int|
                        0 <= m < i + 1 && within_window(
                            (#[trigger] olds[m]).1,
                            now,
                            w,
                        ) implies kept@.contains(olds[m]) by {
                        if m < i {
                            assert(prev.contains(olds[m]));
                            let j = choose|j: int| 0 <= j < prev.len() && prev[j] == olds[m];
                            assert(kept@[j] == olds[m]);
                        } else {
                            assert(kept@[prev.len() as int] == olds[m]);
                        }
                    }
                }
            } else {
                proof {
                    assert(!within_window((olds[i as int]).1, now, w));
                    assert forall|j: int|
                        0 <= j < kept@.len() implies sourced(
                        olds,
                        i + 1,
                        now,
                        w,
                        #[trigger] kept@[j],
                    ) by {
                        lemma_sourced_widen(olds, i as int, i + 1, now, w, kept@[j]);
                    }
                }
            }
            i += 1;
        }
        proof {
            let news = kept@;
            assert forall|k: u128| #[trigger] assoc_map(news).contains_key(k) <==> (assoc_map(
                olds,
            ).contains_key(k) && within_window(assoc_map(olds)[k], now, w)) by {
                lemma_assoc_map_contains(news, k);
                lemma_assoc_map_contains(olds, k);
                if assoc_map(news).contains_key(k) {
                    let j = choose|j: int| 0 <= j < news.len() && (#[trigger] news[j]).0 == k;
                    let m = sourced_witness(olds, n as int, now, w, news[j]);
                    lemma_assoc_map_index(olds, m);
                    lemma_assoc_map_index(news, j);
                } else {
                    if assoc_map(olds).contains_key(k) {
                        let m = choose|m: int| 0 <= m < olds.len() && (#[trigger] olds[m]).0 == k;
                        lemma_assoc_map_index(olds, m);
                        if within_window((olds[m]).1, now, w) {
                            assert(news.contains(olds[m]));
                            let j = choose|j: int| 0 <= j < news.len() && news[j] == olds[m];
                            assert((news[j]).0 == k);
                        }
                    }
                }
            }
            assert forall|k: u128| assoc_map(news).contains_key(k) implies assoc_map(news)[k]
                == assoc_map(olds)[k] by {
                lemma_assoc_map_contains(news, k);
                let j = choose|j: int| 0 <= j < news.len() && (#[trigger] news[j]).0 == k;
                let m = sourced_witness(olds, n as int, now, w, news[j]);
                lemma_assoc_map_index(olds, m);
                lemma_assoc_map_index(news, j);
            }
        }
        self.entries = kept;
    }
}

/// An entry of the kept list stems from a position before `bound` in the old
/// list and is still inside the window.
spec fn sourced(olds: Seq<(u128, u64)>, bound: int, now: u64, w: u64, p: (u128, u64)) -> bool {
    exists|m: int| 0 <= m < bound && p == #[trigger] olds[m] && within_window((olds[m]).1, now, w)
}

proof fn lemma_sourced_widen(
    olds: Seq<(u128, u64)>,
    b1: int,
    b2: int,
    now: u64,
    w: u64,
    p: (u128, u64),
)
    requires
        sourced(olds, b1, now, w, p),
        b1 <= b2,
    ensures
        sourced(olds, b2, now, w, p),
{
    let m = sourced_witness(olds, b1, now, w, p);
    assert(0 <= m < b2 && p == olds[m] && within_window((olds[m]).1, now, w));
}

proof fn lemma_sourced_intro(olds: Seq<(u128, u64)>, m: int, bound: int, now: u64, w: u64)
    requires
        0 <= m < bound <= olds.len(),
        within_window((olds[m]).1, now, w),
    ensures
        sourced(olds, bound, now, w, olds[m]),
{
    assert(0 <= m < bound && olds[m] == olds[m] && within_window((olds[m]).1, now, w));
}

proof fn sourced_witness(
    olds: Seq<(u128, u64)>,
    bound: int,
    now: u64,
    w: u64,
    p: (u128, u64),
) -> (m: int)
    requires
        sourced(olds, bound, now, w, p),
    ensures
        0 <= m < bound,
        p == olds[m],
        within_window((olds[m]).1, now, w),
{
    choose|m: int| 0 <= m < bound && p == #[trigger] olds[m] && within_window((olds[m]).1, now, w)
}

} // verus!
