use vstd::prelude::*;

use crate::admission::{admission_spec, evaluate, MessageKind, Verdict};
use crate::c2c_undelete_messages::DirectChats;
use crate::dedup::{within_window, EventDeduper};
use crate::end_video_call::VideoCalls;
use crate::ids::{CanisterId, IdentityHandle, UserId};
use crate::presence::LastOnlineDates;
use crate::resolve::PrincipalToUserIdMap;

verus! {

/// The environment capability: current time, the process's own identity, and
/// the caller handle extracted from the current request context. Injected at
/// construction and replaceable wholesale.
pub struct Env {
    pub now: u64,
    pub canister_id: CanisterId,
    pub caller: IdentityHandle,
}

/// The data payload: all subsystem state of the process.
pub struct Data {
    /// The process freeze flag consulted at admission.
    pub frozen: bool,
    /// Community members, by caller handle.
    pub members: PrincipalToUserIdMap,
    /// Callers holding a pending invitation.
    pub invited: PrincipalToUserIdMap,
    /// Holders of the video-call operator role.
    pub video_call_operators: Vec<IdentityHandle>,
    /// The process-wide secret used to derive obfuscated identity tokens;
    /// rotated only by a full reseed.
    pub salt: [u8; 32],
    /// The event dedup table.
    pub event_deduper: EventDeduper,
    /// The identity resolution cache.
    pub principal_to_user_id_map: PrincipalToUserIdMap,
    /// The external identity authority to consult on a cache miss.
    pub user_index_canister_id: CanisterId,
    /// Last-seen timestamps per identity.
    pub last_online_dates: LastOnlineDates,
    /// How many presence observations this process recorded.
    pub mark_as_online_count: u64,
    /// The video calls of all channels.
    pub video_calls: VideoCalls,
    /// The direct chats of this process.
    pub direct_chats: DirectChats,
    /// Callers whose requests against direct chats are refused.
    pub blocked_users: Vec<UserId>,
    /// When activity was last flagged for downstream notification.
    pub last_activity_notification: u64,
}

/// The single root value owned by the state cell.
pub struct ProcessState {
    pub env: Env,
    pub data: Data,
}

impl ProcessState {
    /// Well-formedness of every table held in the payload.
    pub open spec fn wf(&self) -> bool {
        &&& self.data.members.wf()
        &&& self.data.invited.wf()
        &&& self.data.event_deduper.wf()
        &&& self.data.principal_to_user_id_map.wf()
        &&& self.data.last_online_dates.wf()
        &&& self.data.video_calls.wf()
        &&& self.data.direct_chats.wf()
    }
}

/// Whether some handle in the list carries exactly these bytes.
pub open spec fn handle_listed(s: Seq<IdentityHandle>, h: Seq<u8>) -> bool {
    exists|i: int| 0 <= i < s.len() && (#[trigger] s[i])@ == h
}

/// Whether the caller of the current request holds the video-call operator
/// role.
pub fn is_caller_video_call_operator(state: &ProcessState) -> (r: bool)
    ensures
        r == handle_listed(state.data.video_call_operators@, state.env.caller@),
{
    let ops = &state.data.video_call_operators;
    let n = ops.len();
    let mut i: usize = 0;
    while i < n
        invariant
            ops@ == state.data.video_call_operators@,
            n == ops@.len(),
            i <= n,
            forall|j: int| 0 <= j < i ==> (#[trigger] ops@[j])@ != state.env.caller@,
        decreases n - i,
    {
        if ops[i].same_as(&state.env.caller) {
            proof {
                assert(0 <= i < ops@.len() && (ops@[i as int])@ == state.env.caller@);
                assert(handle_listed(ops@, state.env.caller@));
            }
            return true;
        }
        i += 1;
    }
    false
}

/// Whether a user appears in the list.
pub fn user_listed(list: &Vec<UserId>, u: UserId) -> (r: bool)
    ensures
        r == list@.contains(u),
{
    let n = list.len();
    let mut i: usize = 0;
    while i < n
        invariant
            n == list@.len(),
            i <= n,
            forall|j: int| 0 <= j < i ==> list@[j] != u,
        decreases n - i,
    {
        if list[i] == u {
            return true;
        }
        i += 1;
    }
    false
}

/// The admission verdict for the current request, from the caller's standing in
/// local state: members, invited callers declining, and the operator
/// exception for sending a message; everything else is rejected by omission.
pub fn accept_if_valid(state: &ProcessState, kind: MessageKind) -> (v: Verdict)
    requires
        state.wf(),
    ensures
        v == admission_spec(
            kind,
            state.data.frozen,
            state.data.members.as_map().contains_key(state.env.caller@),
            state.data.invited.as_map().contains_key(state.env.caller@),
            handle_listed(state.data.video_call_operators@, state.env.caller@),
        ),
{
    let is_member = state.data.members.get(&state.env.caller).is_some();
    let is_invited = state.data.invited.get(&state.env.caller).is_some();
    let is_operator = is_caller_video_call_operator(state);
    evaluate(kind, state.data.frozen, is_member, is_invited, is_operator)
}

/// All payload state except the dedup table, unchanged.
pub open spec fn same_but_deduper(a: Data, b: Data) -> bool {
    &&& a.frozen == b.frozen
    &&& a.members == b.members
    &&& a.invited == b.invited
    &&& a.video_call_operators == b.video_call_operators
    &&& a.salt == b.salt
    &&& a.principal_to_user_id_map == b.principal_to_user_id_map
    &&& a.user_index_canister_id == b.user_index_canister_id
    &&& a.last_online_dates == b.last_online_dates
    &&& a.mark_as_online_count == b.mark_as_online_count
    &&& a.video_calls == b.video_calls
    &&& a.direct_chats == b.direct_chats
    &&& a.blocked_users == b.blocked_users
    &&& a.last_activity_notification == b.last_activity_notification
}

/// The bounded periodic maintenance run before a handler body: evicts dedup
/// entries that fell out of the window. It never suspends and never fails the
/// request.
pub fn run_regular_jobs(state: &mut ProcessState)
    requires
        old(state).wf(),
    ensures
        final(state).wf(),
        final(state).env == old(state).env,
        same_but_deduper(old(state).data, final(state).data),
        final(state).data.event_deduper.window() == old(state).data.event_deduper.window(),
        forall|k: u128|
            #[trigger] final(state).data.event_deduper.seen().contains_key(k) <==> (
            old(state).data.event_deduper.seen().contains_key(k) && within_window(
                old(state).data.event_deduper.seen()[k],
                old(state).env.now,
                old(state).data.event_deduper.window(),
            )),
        forall|k: u128|
            final(state).data.event_deduper.seen().contains_key(k)
                ==> final(state).data.event_deduper.seen()[k]
                == old(state).data.event_deduper.seen()[k],
{
    let now = state.env.now;
    state.data.event_deduper.evict_expired(now);
}

/// Installs the context of a new inbound request: its arrival time and the
/// caller handle the transport extracted.
pub fn begin_request(state: &mut ProcessState, now: u64, caller: IdentityHandle)
    requires
        old(state).wf(),
    ensures
        final(state).wf(),
        final(state).env.now == now,
        final(state).env.caller@ == caller@,
        final(state).env.canister_id == old(state).env.canister_id,
        final(state).data == old(state).data,
{
    state.env.now = now;
    state.env.caller = caller;
}

/// Replaces the environment wholesale and rotates the process salt: the one
/// way either ever changes after construction.
pub fn reseed(state: &mut ProcessState, env: Env, salt: [u8; 32])
    requires
        old(state).wf(),
    ensures
        final(state).wf(),
        final(state).env == env,
        final(state).data.salt == salt,
        same_but_salt(old(state).data, final(state).data),
{
    state.env = env;
    state.data.salt = salt;
}

/// All payload state except the salt, unchanged.
pub open spec fn same_but_salt(a: Data, b: Data) -> bool {
    &&& a.frozen == b.frozen
    &&& a.members == b.members
    &&& a.invited == b.invited
    &&& a.video_call_operators == b.video_call_operators
    &&& a.event_deduper == b.event_deduper
    &&& a.principal_to_user_id_map == b.principal_to_user_id_map
    &&& a.user_index_canister_id == b.user_index_canister_id
    &&& a.last_online_dates == b.last_online_dates
    &&& a.mark_as_online_count == b.mark_as_online_count
    &&& a.video_calls == b.video_calls
    &&& a.direct_chats == b.direct_chats
    &&& a.blocked_users == b.blocked_users
    &&& a.last_activity_notification == b.last_activity_notification
}

/// Owns the single mutable state value of the process; all access goes
/// through the two scoped accessors. A closure handed to either one is a
/// plain synchronous function: it runs to completion while the reference is
/// live, so no state access can be held across a suspension point — the
/// reentrancy hazard is ruled out by construction, not by a runtime check.
pub struct StateCell {
    state: ProcessState,
}

impl View for StateCell {
    type V = ProcessState;

    closed spec fn view(&self) -> ProcessState {
        self.state
    }
}

impl StateCell {
    pub fn new(state: ProcessState) -> (c: StateCell)
        ensures
            c@ == state,
    {
        StateCell { state }
    }

    /// Runs a read-only closure over a borrowed reference to the state,
    /// synchronously to completion, and returns its result.
    pub fn with_read_access<R, F: FnOnce(&ProcessState) -> R>(&self, f: F) -> (r: R)
        requires
            call_requires(f, (&self@,)),
        ensures
            call_ensures(f, (&self@,), r),
    {
        f(&self.state)
    }

    /// Runs a mutating closure to completion: the closure takes the state by
    /// value and hands back the state to install next to its result, so no
    /// reference into the cell can outlive the call.
    pub fn with_mutate_access<R, F: FnOnce(ProcessState) -> (ProcessState, R)>(self, f: F) -> (r: (
        StateCell,
        R,
    ))
        requires
            call_requires(f, (self@,)),
        ensures
            call_ensures(f, (self@,), ((r.0)@, r.1)),
    {
        let StateCell { state } = self;
        let (state, out) = f(state);
        (StateCell { state }, out)
    }

    /// Takes the state out of the cell, for a process that shuts down or
    /// snapshots.
    pub fn into_inner(self) -> (s: ProcessState)
        ensures
            s == self@,
    {
        self.state
    }
}


/// The pre-dispatch inspection of an inbound request: decides admission over
/// a scoped read access; the verdict is computed per request and never
/// cached.
pub fn inspect_message(cell: &StateCell, kind: MessageKind) -> (v: Verdict)
    requires
        cell@.wf(),
    ensures
        v == admission_spec(
            kind,
            cell@.data.frozen,
            cell@.data.members.as_map().contains_key(cell@.env.caller@),
            cell@.data.invited.as_map().contains_key(cell@.env.caller@),
            handle_listed(cell@.data.video_call_operators@, cell@.env.caller@),
        ),
{
    let f = |s: &ProcessState| -> (v: Verdict)
        requires
            s.wf(),
        ensures
            v == admission_spec(
                kind,
                s.data.frozen,
                s.data.members.as_map().contains_key(s.env.caller@),
                s.data.invited.as_map().contains_key(s.env.caller@),
                handle_listed(s.data.video_call_operators@, s.env.caller@),
            ),
        { accept_if_valid(s, kind) };
    cell.with_read_access(f)
}

} // verus!
