use vstd::prelude::*;

use crate::dedup::{key_is_fresh, within_window, EventDeduper};
use crate::obfuscate::{obfuscate_spec, obfuscate_user};
use crate::state::{Data, ProcessState};

verus! {

/// An event as submitted by a caller, carrying its idempotency key.
pub struct IdempotentEvent {
    pub idempotency_key: u128,
    pub name: String,
    pub timestamp: u64,
    pub user: Option<String>,
    pub source: Option<String>,
    pub payload: Vec<u8>,
}

/// An event as forwarded to the downstream sink.
pub struct Event {
    pub name: String,
    pub timestamp: u64,
    pub user: Option<String>,
    pub source: Option<String>,
    pub payload: Vec<u8>,
}

/// Mathematical shape of a submitted event.
pub struct IdempotentEventV {
    pub idempotency_key: u128,
    pub name: Seq<char>,
    pub timestamp: u64,
    pub user: Option<Seq<char>>,
    pub source: Option<Seq<char>>,
    pub payload: Seq<u8>,
}

/// Mathematical shape of a forwarded event.
pub struct EventV {
    pub name: Seq<char>,
    pub timestamp: u64,
    pub user: Option<Seq<char>>,
    pub source: Option<Seq<char>>,
    pub payload: Seq<u8>,
}

impl View for IdempotentEvent {
    type V = IdempotentEventV;

    open spec fn view(&self) -> IdempotentEventV {
        IdempotentEventV {
            idempotency_key: self.idempotency_key,
            name: self.name@,
            timestamp: self.timestamp,
            user: self.user.deep_view(),
            source: self.source.deep_view(),
            payload: self.payload@,
        }
    }
}

impl DeepView for IdempotentEvent {
    type V = IdempotentEventV;

    open spec fn deep_view(&self) -> IdempotentEventV {
        self.view()
    }
}

impl View for Event {
    type V = EventV;

    open spec fn view(&self) -> EventV {
        EventV {
            name: self.name@,
            timestamp: self.timestamp,
            user: self.user.deep_view(),
            source: self.source.deep_view(),
            payload: self.payload@,
        }
    }
}

impl DeepView for Event {
    type V = EventV;

    open spec fn deep_view(&self) -> EventV {
        self.view()
    }
}

/// How a kept event leaves the pipeline: its identity-shaped field is
/// replaced by the salted token, everything else is carried over.
pub open spec fn forwarded_event(e: IdempotentEventV, salt: Seq<u8>) -> EventV {
    EventV {
        name: e.name,
        timestamp: e.timestamp,
        user: match e.user {
            Some(u) => Some(obfuscate_spec(u, salt)),
            None => None,
        },
        source: e.source,
        payload: e.payload,
    }
}

/// What one ingestion pass returns: the forwarded events in input order and
/// the dedup table afterwards. Events are taken front to back; a fresh key is
/// recorded at `now` and its event kept, a duplicate within the window is
/// dropped.
pub open spec fn ingest_spec(
    events: Seq<IdempotentEventV>,
    seen: Map<u128, u64>,
    window: u64,
    now: u64,
    salt: Seq<u8>,
) -> (Seq<EventV>, Map<u128, u64>)
    decreases events.len(),
{
    if events.len() == 0 {
        (Seq::empty(), seen)
    } else {
        let e = events[0];
        if key_is_fresh(seen, e.idempotency_key, now, window) {
            let rec = ingest_spec(
                events.drop_first(),
                seen.insert(e.idempotency_key, now),
                window,
                now,
                salt,
            );
            (seq![forwarded_event(e, salt)] + rec.0, rec.1)
        } else {
            ingest_spec(events.drop_first(), seen, window, now, salt)
        }
    }
}

/// Filters a batch through the dedup table and obfuscates the identity field
/// of every kept event; the surviving events are returned in original order
/// for a single downstream call.
pub fn ingest(
    deduper: &mut EventDeduper,
    salt: [u8; 32],
    events: Vec<IdempotentEvent>,
    now: u64,
) -> (forwarded: Vec<Event>)
    requires
        old(deduper).wf(),
    ensures
        final(deduper).wf(),
        final(deduper).window() == old(deduper).window(),
        forwarded.deep_view() == ingest_spec(
            events.deep_view(),
            old(deduper).seen(),
            old(deduper).window(),
            now,
            salt@,
        ).0,
        final(deduper).seen() == ingest_spec(
            events.deep_view(),
            old(deduper).seen(),
            old(deduper).window(),
            now,
            salt@,
        ).1,
{
    let ghost events0 = events.deep_view();
    let ghost seen0 = deduper.seen();
    let ghost w = deduper.window();
    let ghost goal = ingest_spec(events0, seen0, w, now, salt@);
    let mut remaining = events;
    let mut forwarded: Vec<Event> = Vec::new();
    while remaining.len() > 0
        invariant
            deduper.wf(),
            deduper.window() == w,
            goal == ingest_spec(events0, seen0, w, now, salt@),
            goal.0 == forwarded.deep_view() + ingest_spec(
                remaining.deep_view(),
                deduper.seen(),
                w,
                now,
                salt@,
            ).0,
            goal.1 == ingest_spec(remaining.deep_view(), deduper.seen(), w, now, salt@).1,
        decreases remaining.len(),
    {
        let ghost rem0 = remaining.deep_view();
        let ghost seen_cur = deduper.seen();
        let e = remaining.remove(0);
        proof {
            assert(rem0[0] == e.deep_view());
            assert(remaining.deep_view() =~= rem0.drop_first());
        }
        let fresh = deduper.try_push(e.idempotency_key, now);
        if fresh {
            let user = match e.user {
                Some(u) => Some(obfuscate_user(u, salt)),
                None => None,
            };
            let ev = Event {
                name: e.name,
                timestamp: e.timestamp,
                user,
                source: e.source,
                payload: e.payload,
            };
            proof {
                assert(ev.deep_view() == forwarded_event(rem0[0], salt@));
            }
            let ghost fwd0 = forwarded.deep_view();
            forwarded.push(ev);
            proof {
                assert(forwarded.deep_view() =~= fwd0.push(ev.deep_view()));
                assert(ingest_spec(rem0, seen_cur, w, now, salt@).0 =~= seq![
                    forwarded_event(rem0[0], salt@),
                ] + ingest_spec(rem0.drop_first(), deduper.seen(), w, now, salt@).0);
                assert(goal.0 =~= forwarded.deep_view() + ingest_spec(
                    remaining.deep_view(),
                    deduper.seen(),
                    w,
                    now,
                    salt@,
                ).0);
            }
        }
    }
    proof {
        assert(remaining.deep_view() =~= Seq::<IdempotentEventV>::empty());
        assert(goal.0 =~= forwarded.deep_view());
    }
    forwarded
}


/// After one ingestion pass, every key of the batch is recorded in the dedup
/// table and still inside the window at the time of the pass; keys that were
/// already inside the window stay so.
proof fn lemma_ingest_marks_batch(
    events: Seq<IdempotentEventV>,
    seen: Map<u128, u64>,
    window: u64,
    now: u64,
    salt: Seq<u8>,
)
    requires
        window > 0,
    ensures
        forall|i: int|
            0 <= i < events.len() ==> ingest_spec(events, seen, window, now, salt).1.contains_key(
                (#[trigger] events[i]).idempotency_key,
            ) && within_window(
                ingest_spec(events, seen, window, now, salt).1[events[i].idempotency_key],
                now,
                window,
            ),
        forall|k: u128|
            #[trigger] seen.contains_key(k) && within_window(seen[k], now, window) ==> ingest_spec(
                events,
                seen,
                window,
                now,
                salt,
            ).1.contains_key(k) && within_window(
                ingest_spec(events, seen, window, now, salt).1[k],
                now,
                window,
            ),
    decreases events.len(),
{
    if events.len() == 0 {
    } else {
        let e = events[0];
        let key = e.idempotency_key;
        let m1 = ingest_spec(events, seen, window, now, salt).1;
        if key_is_fresh(seen, key, now, window) {
            let seen2 = seen.insert(key, now);
            lemma_ingest_marks_batch(events.drop_first(), seen2, window, now, salt);
            assert(m1 == ingest_spec(events.drop_first(), seen2, window, now, salt).1);
            assert(within_window(now, now, window));
            assert(seen2.contains_key(key) && within_window(seen2[key], now, window));
            assert forall|i: int|
                0 <= i < events.len() implies m1.contains_key(
                (#[trigger] events[i]).idempotency_key,
            ) && within_window(m1[events[i].idempotency_key], now, window) by {
                if i == 0 {
                } else {
                    assert(events.drop_first()[i - 1] == events[i]);
                }
            }
            assert forall|k: u128|
                #[trigger] seen.contains_key(k) && within_window(
                    seen[k],
                    now,
                    window,
                ) implies m1.contains_key(k) && within_window(m1[k], now, window) by {
                if k == key {
                } else {
                    assert(seen2.contains_key(k) && seen2[k] == seen[k]);
                }
            }
        } else {
            lemma_ingest_marks_batch(events.drop_first(), seen, window, now, salt);
            assert(m1 == ingest_spec(events.drop_first(), seen, window, now, salt).1);
            assert(seen.contains_key(key) && within_window(seen[key], now, window));
            assert forall|i: int|
                0 <= i < events.len() implies m1.contains_key(
                (#[trigger] events[i]).idempotency_key,
            ) && within_window(m1[events[i].idempotency_key], now, window) by {
                if i == 0 {
                } else {
                    assert(events.drop_first()[i - 1] == events[i]);
                }
            }
        }
    }
}

/// A pass over a batch whose every key is already inside the window forwards
/// nothing and leaves the dedup table unchanged.
proof fn lemma_ingest_all_duplicates(
    events: Seq<IdempotentEventV>,
    seen: Map<u128, u64>,
    window: u64,
    now: u64,
    salt: Seq<u8>,
)
    requires
        forall|i: int|
            0 <= i < events.len() ==> seen.contains_key((#[trigger] events[i]).idempotency_key)
                && within_window(seen[events[i].idempotency_key], now, window),
    ensures
        ingest_spec(events, seen, window, now, salt).0 == Seq::<EventV>::empty(),
        ingest_spec(events, seen, window, now, salt).1 == seen,
    decreases events.len(),
{
    if events.len() == 0 {
    } else {
        assert(!key_is_fresh(seen, (events[0]).idempotency_key, now, window));
        assert forall|i: int|
            0 <= i < events.drop_first().len() implies seen.contains_key(
            (#[trigger] events.drop_first()[i]).idempotency_key,
        ) && within_window(seen[events.drop_first()[i].idempotency_key], now, window) by {
            assert(events.drop_first()[i] == events[i + 1]);
        }
        lemma_ingest_all_duplicates(events.drop_first(), seen, window, now, salt);
    }
}

/// Re-ingesting an unmodified batch immediately after its first ingestion
/// forwards no events.
pub proof fn lemma_reingest_immediately_forwards_nothing(
    events: Seq<IdempotentEventV>,
    seen: Map<u128, u64>,
    window: u64,
    now: u64,
    salt: Seq<u8>,
)
    requires
        window > 0,
    ensures
        ingest_spec(
            events,
            ingest_spec(events, seen, window, now, salt).1,
            window,
            now,
            salt,
        ).0 == Seq::<EventV>::empty(),
{
    lemma_ingest_marks_batch(events, seen, window, now, salt);
    lemma_ingest_all_duplicates(
        events,
        ingest_spec(events, seen, window, now, salt).1,
        window,
        now,
        salt,
    );
}

/// Two dedup tables that agree on which keys are inside the window at `now`.
pub open spec fn window_equiv(m1: Map<u128, u64>, m2: Map<u128, u64>, now: u64, window: u64) -> bool {
    forall|k: u128|
        #![trigger m1.contains_key(k)]
        #![trigger m2.contains_key(k)]
        (m1.contains_key(k) && within_window(m1[k], now, window)) <==> (m2.contains_key(k)
            && within_window(m2[k], now, window))
}

/// Ingestion forwards the same events over any two dedup tables that agree on
/// which keys are inside the window, and keeps them in agreement.
pub proof fn lemma_window_equiv_same_forwarded(
    events: Seq<IdempotentEventV>,
    m1: Map<u128, u64>,
    m2: Map<u128, u64>,
    window: u64,
    now: u64,
    salt: Seq<u8>,
)
    requires
        window_equiv(m1, m2, now, window),
    ensures
        ingest_spec(events, m1, window, now, salt).0 == ingest_spec(
            events,
            m2,
            window,
            now,
            salt,
        ).0,
        window_equiv(
            ingest_spec(events, m1, window, now, salt).1,
            ingest_spec(events, m2, window, now, salt).1,
            now,
            window,
        ),
    decreases events.len(),
{
    if events.len() == 0 {
    } else {
        let key = (events[0]).idempotency_key;
        assert(m1.contains_key(key) && within_window(m1[key], now, window) <==> m2.contains_key(
            key,
        ) && within_window(m2[key], now, window));
        if key_is_fresh(m1, key, now, window) {
            let m1b = m1.insert(key, now);
            let m2b = m2.insert(key, now);
            assert forall|k: u128|
                #![trigger m1b.contains_key(k)]
                #![trigger m2b.contains_key(k)]
                (m1b.contains_key(k) && within_window(m1b[k], now, window)) <==> (
            m2b.contains_key(k) && within_window(m2b[k], now, window)) by {
                if k == key {
                } else {
                    assert(m1.contains_key(k) <==> m1b.contains_key(k));
                    assert(m2.contains_key(k) <==> m2b.contains_key(k));
                }
            }
            lemma_window_equiv_same_forwarded(events.drop_first(), m1b, m2b, window, now, salt);
        } else {
            lemma_window_equiv_same_forwarded(events.drop_first(), m1, m2, window, now, salt);
        }
    }
}

/// Once every recorded key has fallen out of the window, ingesting a batch
/// forwards exactly what ingesting it over an empty dedup table would: all
/// its events are forwarded again, deduplicated only within the batch.
pub proof fn lemma_reingest_after_window_forwards_all(
    events: Seq<IdempotentEventV>,
    seen: Map<u128, u64>,
    window: u64,
    now: u64,
    salt: Seq<u8>,
)
    requires
        forall|k: u128| #[trigger] seen.contains_key(k) ==> !within_window(seen[k], now, window),
    ensures
        ingest_spec(events, seen, window, now, salt).0 == ingest_spec(
            events,
            Map::<u128, u64>::empty(),
            window,
            now,
            salt,
        ).0,
{
    let empty = Map::<u128, u64>::empty();
    assert forall|k: u128|
        #![trigger seen.contains_key(k)]
        #![trigger empty.contains_key(k)]
        (seen.contains_key(k) && within_window(seen[k], now, window)) <==> (empty.contains_key(k)
            && within_window(empty[k], now, window)) by {
        assert(!empty.contains_key(k));
    }
    lemma_window_equiv_same_forwarded(events, seen, empty, window, now, salt);
}


/// A batch of events submitted for forwarding.
pub struct Args {
    pub events: Vec<IdempotentEvent>,
}

/// Deduplicates and obfuscates the batch against the process state at the
/// environment's current time, with the process salt; returns what is to be
/// forwarded downstream in one call.
pub fn push_events_impl(args: Args, state: &mut ProcessState) -> (forwarded: Vec<Event>)
    requires
        old(state).wf(),
    ensures
        final(state).wf(),
        final(state).env == old(state).env,
        forwarded.deep_view() == ingest_spec(
            args.events.deep_view(),
            old(state).data.event_deduper.seen(),
            old(state).data.event_deduper.window(),
            old(state).env.now,
            old(state).data.salt@,
        ).0,
        final(state).data.event_deduper.seen() == ingest_spec(
            args.events.deep_view(),
            old(state).data.event_deduper.seen(),
            old(state).data.event_deduper.window(),
            old(state).env.now,
            old(state).data.salt@,
        ).1,
        final(state).data.event_deduper.window() == old(state).data.event_deduper.window(),
        final(state).data == (Data {
            event_deduper: final(state).data.event_deduper,
            ..old(state).data
        }),
{
    let now = state.env.now;
    let salt = state.data.salt;
    ingest(&mut state.data.event_deduper, salt, args.events, now)
}

/// The handler as dispatched.
pub fn push_events(args: Args, state: &mut ProcessState) -> (forwarded: Vec<Event>)
    requires
        old(state).wf(),
    ensures
        final(state).wf(),
        final(state).env == old(state).env,
        forwarded.deep_view() == ingest_spec(
            args.events.deep_view(),
            old(state).data.event_deduper.seen(),
            old(state).data.event_deduper.window(),
            old(state).env.now,
            old(state).data.salt@,
        ).0,
        final(state).data.event_deduper.seen() == ingest_spec(
            args.events.deep_view(),
            old(state).data.event_deduper.seen(),
            old(state).data.event_deduper.window(),
            old(state).env.now,
            old(state).data.salt@,
        ).1,
        final(state).data.event_deduper.window() == old(state).data.event_deduper.window(),
        final(state).data == (Data {
            event_deduper: final(state).data.event_deduper,
            ..old(state).data
        }),
{
    push_events_impl(args, state)
}

} // verus!
