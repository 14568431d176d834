use vstd::prelude::*;

use crate::dedup::within_window;
use crate::ids::UserId;
use crate::state::{run_regular_jobs, user_listed, Data, ProcessState};
use crate::kv::{
    assoc_map, distinct_keys, lemma_assoc_map_contains, lemma_assoc_map_index,
    lemma_assoc_map_update,
};

verus! {

/// Request to undelete a set of messages in the caller's direct chat.
pub struct Args {
    pub message_ids: Vec<u128>,
}

/// Outcome of undeleting: the caller may be blocked, or have no direct chat
/// here.
#[derive(Clone, Copy, PartialEq, Eq, Structural, Debug)]
pub enum Response {
    Success,
    UserBlocked,
    ChatNotFound,
}

/// A direct chat: the messages currently deleted in it, each with the
/// identity that deleted it.
pub struct DirectChat {
    pub deleted: Vec<(u128, UserId)>,
}

/// The deleted-message list after undeleting: entries whose message id is
/// requested and which the caller deleted are removed; everything else stays.
pub open spec fn undelete_filter(
    deleted: Seq<(u128, UserId)>,
    caller: UserId,
    ids: Seq<u128>,
) -> Seq<(u128, UserId)> {
    deleted.filter(|p: (u128, UserId)| !(ids.contains(p.0) && p.1 == caller))
}

/// The direct chats of this process, keyed by the peer identity.
pub struct DirectChats {
    entries: Vec<(UserId, DirectChat)>,
}

/// The chats as bindings from peer identity to the chat's deleted messages.
pub open spec fn chat_entries(s: Seq<(UserId, DirectChat)>) -> Seq<(UserId, Seq<(u128, UserId)>)> {
    s.map_values(|p: (UserId, DirectChat)| (p.0, p.1.deleted@))
}

impl DirectChats {
    pub closed spec fn as_map(&self) -> Map<UserId, Seq<(u128, UserId)>> {
        assoc_map(chat_entries(self.entries@))
    }

    pub closed spec fn wf(&self) -> bool {
        distinct_keys(chat_entries(self.entries@))
    }

    pub fn new() -> (m: DirectChats)
        ensures
            m.wf(),
            m.as_map() == Map::<UserId, Seq<(u128, UserId)>>::empty(),
    {
        DirectChats { entries: Vec::new() }
    }

    fn find(&self, key: UserId) -> (r: Option<usize>)
        requires
            self.wf(),
        ensures
            match r {
                Some(i) => i < self.entries@.len() && (self.entries@[i as int]).0 == key
                    && self.as_map().contains_key(key) && self.as_map()[key] == (
                self.entries@[i as int]).1.deleted@,
                None => !self.as_map().contains_key(key),
            },
    {
        let n = self.entries.len();
        let mut i: usize = 0;
        while i < n
            invariant
                self.wf(),
                n == self.entries@.len(),
                i <= n,
                forall|j: int| 0 <= j < i ==> (#[trigger] self.entries@[j]).0 != key,
            decreases n - i,
        {
            if self.entries[i].0 == key {
                proof {
                    assert(chat_entries(self.entries@)[i as int] == (
                        (self.entries@[i as int]).0,
                        (self.entries@[i as int]).1.deleted@,
                    ));
                    lemma_assoc_map_index(chat_entries(self.entries@), i as int);
                }
                return Some(i);
            }
            i += 1;
        }
        proof {
            lemma_assoc_map_contains(chat_entries(self.entries@), key);
        }
        None
    }

    /// Replaces the whole chat stored under `key`; used when a chat is set up.
    pub fn put(&mut self, key: UserId, chat: DirectChat)
        requires
            old(self).wf(),
        ensures
            final(self).wf(),
            final(self).as_map() == old(self).as_map().insert(key, chat.deleted@),
    {
        match self.find(key) {
            Some(i) => {
                proof {
                    lemma_assoc_map_update(chat_entries(self.entries@), i as int, chat.deleted@);
                    assert(chat_entries(self.entries@.update(i as int, (key, chat)))
                        =~= chat_entries(self.entries@).update(i as int, (key, chat.deleted@)));
                }
                self.entries[i] = (key, chat);
            },
            None => {
                proof {
                    lemma_assoc_map_contains(chat_entries(self.entries@), key);
                    crate::kv::lemma_assoc_map_push(chat_entries(self.entries@), key, chat.deleted@);
                    assert(chat_entries(self.entries@.push((key, chat))) =~= chat_entries(
                        self.entries@,
                    ).push((key, chat.deleted@)));
                    let t = chat_entries(self.entries@).push((key, chat.deleted@));
                    assert forall|a: int, b: int| 0 <= a < b < t.len() implies (#[trigger] t[a]).0
                        != (#[trigger] t[b]).0 by {
                        if b == t.len() - 1 {
                            assert(t[a] == chat_entries(self.entries@)[a]);
                            assert((chat_entries(self.entries@)[a]).0 != key);
                        } else {
                            assert(t[a] == chat_entries(self.entries@)[a]);
                            assert(t[b] == chat_entries(self.entries@)[b]);
                        }
                    }
                }
                self.entries.push((key, chat));
            },
        }
    }

    /// The deleted messages of the chat stored under `key`, if it exists.
    pub fn deleted_messages(&self, key: UserId) -> (r: Option<Vec<(u128, UserId)>>)
        requires
            self.wf(),
        ensures
            match r {
                Some(v) => self.as_map().contains_key(key) && v@ == self.as_map()[key],
                None => !self.as_map().contains_key(key),
            },
    {
        let i = match self.find(key) {
            None => {
                return None;
            },
            Some(i) => i,
        };
        let n = self.entries[i].1.deleted.len();
        let mut out: Vec<(u128, UserId)> = Vec::new();
        let mut j: usize = 0;
        while j < n
            invariant
                i < self.entries@.len(),
                n == (self.entries@[i as int]).1.deleted@.len(),
                j <= n,
                out@ == (self.entries@[i as int]).1.deleted@.subrange(0, j as int),
            decreases n - j,
        {
            proof {
                let d = (self.entries@[i as int]).1.deleted@;
                assert(d.subrange(0, j + 1) =~= d.subrange(0, j as int).push(d[j as int]));
            }
            out.push(self.entries[i].1.deleted[j]);
            j += 1;
        }
        proof {
            let d = (self.entries@[i as int]).1.deleted@;
            assert(d.subrange(0, n as int) =~= d);
        }
        Some(out)
    }

    /// Undeletes, in the chat stored under `chat_key`, every requested
    /// message that `caller` deleted; reports whether the chat exists.
    pub fn undelete(&mut self, chat_key: UserId, caller: UserId, ids: &Vec<u128>) -> (found: bool)
        requires
            old(self).wf(),
        ensures
            final(self).wf(),
            found == old(self).as_map().contains_key(chat_key),
            found ==> final(self).as_map() == old(self).as_map().insert(
                chat_key,
                undelete_filter(old(self).as_map()[chat_key], caller, ids@),
            ),
            !found ==> final(self).as_map() == old(self).as_map(),
    {
        let i = match self.find(chat_key) {
            None => {
                return false;
            },
            Some(i) => i,
        };
        let ghost deleted0 = (self.entries@[i as int]).1.deleted@;
        let n = self.entries[i].1.deleted.len();
        let mut kept: Vec<(u128, UserId)> = Vec::new();
        proof {
            reveal(Seq::filter);
            assert(deleted0.subrange(0, 0).len() == 0);
        }
        let mut j: usize = 0;
        while j < n
            invariant
                self.wf(),
                i < self.entries@.len(),
                deleted0 == (self.entries@[i as int]).1.deleted@,
                n == deleted0.len(),
                j <= n,
                kept@ == undelete_filter(deleted0.subrange(0, j as int), caller, ids@),
            decreases n - j,
        {
            let (id, by) = self.entries[i].1.deleted[j];
            proof {
                reveal(Seq::filter);
                let pre = deleted0.subrange(0, j as int);
                let nxt = deleted0.subrange(0, j + 1);
                let e = deleted0[j as int];
                assert(nxt.drop_last() =~= pre);
                assert(nxt.last() == e);
                assert(undelete_filter(nxt, caller, ids@) == (if !(ids@.contains(e.0) && e.1
                    == caller) {
                    undelete_filter(pre, caller, ids@).push(e)
                } else {
                    undelete_filter(pre, caller, ids@)
                }));
            }
            if !(contains_id(ids, id) && by == caller) {
                kept.push((id, by));
            }
            j += 1;
        }
        proof {
            assert(deleted0.subrange(0, n as int) =~= deleted0);
            lemma_assoc_map_update(chat_entries(self.entries@), i as int, kept@);
            assert(chat_entries(self.entries@)[i as int] == (chat_key, deleted0));
            assert(chat_entries(self.entries@.update(i as int, (chat_key, DirectChat { deleted: kept })))
                =~= chat_entries(self.entries@).update(i as int, (chat_key, kept@)));
        }
        self.entries[i] = (chat_key, DirectChat { deleted: kept });
        true
    }
}

/// Whether a requested message id occurs in the list.
fn contains_id(ids: &Vec<u128>, x: u128) -> (r: bool)
    ensures
        r == ids@.contains(x),
{
    let n = ids.len();
    let mut i: usize = 0;
    while i < n
        invariant
            n == ids@.len(),
            i <= n,
            forall|j: int| 0 <= j < i ==> ids@[j] != x,
        decreases n - i,
    {
        if ids[i] == x {
            return true;
        }
        i += 1;
    }
    false
}


/// What undeleting returns, given the caller's standing and the chats.
pub open spec fn undelete_result(
    blocked: Seq<UserId>,
    chats: Map<UserId, Seq<(u128, UserId)>>,
    caller: UserId,
) -> Response {
    if blocked.contains(caller) {
        Response::UserBlocked
    } else if !chats.contains_key(caller) {
        Response::ChatNotFound
    } else {
        Response::Success
    }
}

/// Undeletes the requested messages that the caller deleted in the caller's
/// direct chat; a blocked caller changes nothing.
pub fn c2c_undelete_messages_impl(
    args: &Args,
    caller_user_id: UserId,
    state: &mut ProcessState,
) -> (r: Response)
    requires
        old(state).wf(),
    ensures
        final(state).wf(),
        final(state).env == old(state).env,
        r == undelete_result(
            old(state).data.blocked_users@,
            old(state).data.direct_chats.as_map(),
            caller_user_id,
        ),
        r == Response::Success ==> final(state).data.direct_chats.as_map() == old(
            state,
        ).data.direct_chats.as_map().insert(
            caller_user_id,
            undelete_filter(
                old(state).data.direct_chats.as_map()[caller_user_id],
                caller_user_id,
                args.message_ids@,
            ),
        ),
        r != Response::Success ==> final(state).data.direct_chats.as_map() == old(
            state,
        ).data.direct_chats.as_map(),
        final(state).data == (Data {
            direct_chats: final(state).data.direct_chats,
            ..old(state).data
        }),
{
    if user_listed(&state.data.blocked_users, caller_user_id) {
        return Response::UserBlocked;
    }
    let found = state.data.direct_chats.undelete(caller_user_id, caller_user_id, &args.message_ids);
    if found {
        Response::Success
    } else {
        Response::ChatNotFound
    }
}

/// The handler as dispatched: periodic maintenance first, then the mutation,
/// all without suspending.
pub fn c2c_undelete_messages(args: &Args, caller_user_id: UserId, state: &mut ProcessState) -> (r:
    Response)
    requires
        old(state).wf(),
    ensures
        final(state).wf(),
        final(state).env == old(state).env,
        r == undelete_result(
            old(state).data.blocked_users@,
            old(state).data.direct_chats.as_map(),
            caller_user_id,
        ),
        r == Response::Success ==> final(state).data.direct_chats.as_map() == old(
            state,
        ).data.direct_chats.as_map().insert(
            caller_user_id,
            undelete_filter(
                old(state).data.direct_chats.as_map()[caller_user_id],
                caller_user_id,
                args.message_ids@,
            ),
        ),
        r != Response::Success ==> final(state).data.direct_chats.as_map() == old(
            state,
        ).data.direct_chats.as_map(),
        final(state).data == (Data {
            direct_chats: final(state).data.direct_chats,
            event_deduper: final(state).data.event_deduper,
            ..old(state).data
        }),
        final(state).data.event_deduper.window() == old(state).data.event_deduper.window(),
        forall|k: u128|
            #[trigger] final(state).data.event_deduper.seen().contains_key(k) <==> (
            old(state).data.event_deduper.seen().contains_key(k) && within_window(
                old(state).data.event_deduper.seen()[k],
                old(state).env.now,
                old(state).data.event_deduper.window(),
            )),
        forall|k: u128|
            final(state).data.event_deduper.seen().contains_key(k)
                ==> final(state).data.event_deduper.seen()[k]
                == old(state).data.event_deduper.seen()[k],
{
    run_regular_jobs(state);
    c2c_undelete_messages_impl(args, caller_user_id, state)
}

} // verus!
