use vstd::prelude::*;

use crate::dedup::within_window;
use crate::ids::{ChannelId, MessageIndex};
use crate::state::{run_regular_jobs, Data, ProcessState};
use crate::kv::{
    assoc_map, distinct_keys, lemma_assoc_map_contains, lemma_assoc_map_index,
    lemma_assoc_map_push, lemma_assoc_map_update,
};

verus! {

/// Request to end the video call carried by one message of one channel.
#[derive(Clone, Copy, PartialEq, Eq, Structural, Debug)]
pub struct Args {
    pub channel_id: ChannelId,
    pub message_index: MessageIndex,
}

/// Outcome of ending a video call: the call may be absent (no such channel,
/// message, or call) or already ended — a conflict distinct from absence.
#[derive(Clone, Copy, PartialEq, Eq, Structural, Debug)]
pub enum Response {
    Success,
    MessageNotFound,
    AlreadyEnded,
}

/// The video calls of all channels, keyed by channel and message index; the
/// value is the time the call ended, or nothing while it is live.
pub struct VideoCalls {
    entries: Vec<((u32, u32), Option<u64>)>,
}

impl VideoCalls {
    pub closed spec fn as_map(&self) -> Map<(u32, u32), Option<u64>> {
        assoc_map(self.entries@)
    }

    pub closed spec fn wf(&self) -> bool {
        distinct_keys(self.entries@)
    }

    pub fn new() -> (m: VideoCalls)
        ensures
            m.wf(),
            m.as_map() == Map::<(u32, u32), Option<u64>>::empty(),
    {
        VideoCalls { entries: Vec::new() }
    }

    fn find(&self, key: (u32, u32)) -> (r: Option<usize>)
        requires
            self.wf(),
        ensures
            match r {
                Some(i) => i < self.entries@.len() && (self.entries@[i as int]).0 == key
                    && self.as_map().contains_key(key) && self.as_map()[key] == (
                self.entries@[i as int]).1,
                None => !self.as_map().contains_key(key),
            },
    {
        let n = self.entries.len();
        let mut i: usize = 0;
        while i < n
            invariant
                self.wf(),
                n == self.entries@.len(),
                i <= n,
                forall|j: int| 0 <= j < i ==> (#[trigger] self.entries@[j]).0 != key,
            decreases n - i,
        {
            if self.entries[i].0.0 == key.0 && self.entries[i].0.1 == key.1 {
                proof {
                    assert((self.entries@[i as int]).0 == key);
                }
                proof {
                    lemma_assoc_map_index(self.entries@, i as int);
                }
                return Some(i);
            }
            i += 1;
        }
        proof {
            lemma_assoc_map_contains(self.entries@, key);
        }
        None
    }

    /// Records a live call for the message, unless one is already recorded.
    pub fn register_call(&mut self, channel_id: ChannelId, message_index: MessageIndex) -> (r:
        bool)
        requires
            old(self).wf(),
        ensures
            final(self).wf(),
            r == !old(self).as_map().contains_key((channel_id.raw, message_index.raw)),
            r ==> final(self).as_map() == old(self).as_map().insert(
                (channel_id.raw, message_index.raw),
                None::<u64>,
            ),
            !r ==> final(self).as_map() == old(self).as_map(),
    {
        let key = (channel_id.raw, message_index.raw);
        match self.find(key) {
            Some(_) => false,
            None => {
                proof {
                    lemma_assoc_map_contains(self.entries@, key);
                    lemma_assoc_map_push(self.entries@, key, None::<u64>);
                    let t = self.entries@.push((key, None::<u64>));
                    assert forall|a: int, b: int| 0 <= a < b < t.len() implies (#[trigger] t[a]).0
                        != (#[trigger] t[b]).0 by {
                        if b == t.len() - 1 {
                            assert(t[a] == self.entries@[a]);
                            assert((self.entries@[a]).0 != key);
                        } else {
                            assert(t[a] == self.entries@[a]);
                            assert(t[b] == self.entries@[b]);
                        }
                    }
                }
                self.entries.push((key, None));
                true
            },
        }
    }

    /// Ends the call carried by the message at `now`. Absence of channel,
    /// message, or call is reported as `MessageNotFound`; a call that has
    /// already ended as `AlreadyEnded`; nothing changes in either case.
    pub fn end(&mut self, channel_id: ChannelId, message_index: MessageIndex, now: u64) -> (r:
        Response)
        requires
            old(self).wf(),
        ensures
            final(self).wf(),
            !old(self).as_map().contains_key((channel_id.raw, message_index.raw)) ==> r
                == Response::MessageNotFound && final(self).as_map() == old(self).as_map(),
            old(self).as_map().contains_key((channel_id.raw, message_index.raw)) && old(
                self,
            ).as_map()[(channel_id.raw, message_index.raw)] is Some ==> r == Response::AlreadyEnded
                && final(self).as_map() == old(self).as_map(),
            old(self).as_map().contains_key((channel_id.raw, message_index.raw)) && old(
                self,
            ).as_map()[(channel_id.raw, message_index.raw)] is None ==> r == Response::Success
                && final(self).as_map() == old(self).as_map().insert(
                (channel_id.raw, message_index.raw),
                Some(now),
            ),
    {
        let key = (channel_id.raw, message_index.raw);
        match self.find(key) {
            None => Response::MessageNotFound,
            Some(i) => {
                match self.entries[i].1 {
                    Some(_) => Response::AlreadyEnded,
                    None => {
                        proof {
                            lemma_assoc_map_update(self.entries@, i as int, Some(now));
                        }
                        self.entries[i] = (key, Some(now));
                        Response::Success
                    },
                }
            },
        }
    }

    /// The recorded state of the call carried by the message: absent, live,
    /// or the time it ended.
    pub fn call_status(&self, channel_id: ChannelId, message_index: MessageIndex) -> (r: Option<
        Option<u64>,
    >)
        requires
            self.wf(),
        ensures
            r == (if self.as_map().contains_key((channel_id.raw, message_index.raw)) {
                Some(self.as_map()[(channel_id.raw, message_index.raw)])
            } else {
                None::<Option<u64>>
            }),
    {
        match self.find((channel_id.raw, message_index.raw)) {
            Some(i) => Some(self.entries[i].1),
            None => None,
        }
    }
}


/// What ending the call returns, given the recorded calls.
pub open spec fn end_result(
    m: Map<(u32, u32), Option<u64>>,
    channel_id: ChannelId,
    message_index: MessageIndex,
) -> Response {
    if !m.contains_key((channel_id.raw, message_index.raw)) {
        Response::MessageNotFound
    } else if m[(channel_id.raw, message_index.raw)] is Some {
        Response::AlreadyEnded
    } else {
        Response::Success
    }
}

/// The recorded calls after ending: only a live call changes, to ended at
/// `now`.
pub open spec fn end_map(
    m: Map<(u32, u32), Option<u64>>,
    channel_id: ChannelId,
    message_index: MessageIndex,
    now: u64,
) -> Map<(u32, u32), Option<u64>> {
    if m.contains_key((channel_id.raw, message_index.raw)) && m[(
        channel_id.raw,
        message_index.raw,
    )] is None {
        m.insert((channel_id.raw, message_index.raw), Some(now))
    } else {
        m
    }
}

/// Flags activity for downstream notification; part of the handler, never a
/// suspension.
pub fn handle_activity_notification(state: &mut ProcessState)
    requires
        old(state).wf(),
    ensures
        final(state).wf(),
        final(state).env == old(state).env,
        final(state).data.last_activity_notification == old(state).env.now,
        final(state).data == (Data {
            last_activity_notification: final(state).data.last_activity_notification,
            ..old(state).data
        }),
{
    state.data.last_activity_notification = state.env.now;
}

/// Ends the video call named by the request at the environment's current
/// time, flagging activity on success.
pub fn end_video_call_impl(args: Args, state: &mut ProcessState) -> (r: Response)
    requires
        old(state).wf(),
    ensures
        final(state).wf(),
        final(state).env == old(state).env,
        r == end_result(old(state).data.video_calls.as_map(), args.channel_id, args.message_index),
        final(state).data.video_calls.as_map() == end_map(
            old(state).data.video_calls.as_map(),
            args.channel_id,
            args.message_index,
            old(state).env.now,
        ),
        r == Response::Success ==> final(state).data.last_activity_notification == old(
            state,
        ).env.now,
        r != Response::Success ==> final(state).data.last_activity_notification == old(
            state,
        ).data.last_activity_notification,
        final(state).data == (Data {
            video_calls: final(state).data.video_calls,
            last_activity_notification: final(state).data.last_activity_notification,
            ..old(state).data
        }),
{
    let now = state.env.now;
    let r = state.data.video_calls.end(args.channel_id, args.message_index, now);
    if let Response::Success = r {
        handle_activity_notification(state);
    }
    r
}

/// The handler as dispatched: periodic maintenance first, then the mutation,
/// all without suspending.
pub fn end_video_call(args: Args, state: &mut ProcessState) -> (r: Response)
    requires
        old(state).wf(),
    ensures
        final(state).wf(),
        final(state).env == old(state).env,
        r == end_result(old(state).data.video_calls.as_map(), args.channel_id, args.message_index),
        final(state).data.video_calls.as_map() == end_map(
            old(state).data.video_calls.as_map(),
            args.channel_id,
            args.message_index,
            old(state).env.now,
        ),
        r == Response::Success ==> final(state).data.last_activity_notification == old(
            state,
        ).env.now,
        r != Response::Success ==> final(state).data.last_activity_notification == old(
            state,
        ).data.last_activity_notification,
        final(state).data == (Data {
            video_calls: final(state).data.video_calls,
            last_activity_notification: final(state).data.last_activity_notification,
            event_deduper: final(state).data.event_deduper,
            ..old(state).data
        }),
        final(state).data.event_deduper.window() == old(state).data.event_deduper.window(),
        forall|k: u128|
            #[trigger] final(state).data.event_deduper.seen().contains_key(k) <==> (
            old(state).data.event_deduper.seen().contains_key(k) && within_window(
                old(state).data.event_deduper.seen()[k],
                old(state).env.now,
                old(state).data.event_deduper.window(),
            )),
        forall|k: u128|
            final(state).data.event_deduper.seen().contains_key(k)
                ==> final(state).data.event_deduper.seen()[k]
                == old(state).data.event_deduper.seen()[k],
{
    run_regular_jobs(state);
    end_video_call_impl(args, state)
}

} // verus!
