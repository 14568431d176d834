use vstd::prelude::*;

use crate::ids::{CanisterId, IdentityHandle, UserId};
use crate::presence::marked;
use crate::resolve::{
    apply_lookup_outcome, resolve_spec, spec_resolve_local, LookupOutcome, ResolveOutcome,
};
use crate::state::{Data, ProcessState};

verus! {

/// Reply to a presence mark: the caller's handle may be unknown to the
/// authority, or the lookup may have failed outright.
#[derive(Debug)]
pub enum Response {
    Success,
    UserNotFound,
    InternalError(String),
}

/// The presence event emitted downstream after a successful mark; emission is
/// best-effort and never rolls the mark back.
#[derive(Clone, Copy, PartialEq, Eq, Structural, Debug)]
pub struct PresenceEvent {
    pub timestamp: u64,
    pub user: UserId,
    pub source: CanisterId,
}

/// Phase one of resolution, inside a read accessor: the caller's identity
/// from the local cache, or the handle and authority to consult on a miss. No
/// suspension happens while the state is borrowed.
pub fn try_get_user_id_locally(state: &ProcessState) -> (r: Result<
    UserId,
    (IdentityHandle, CanisterId),
>)
    requires
        state.wf(),
    ensures
        match r {
            Ok(u) => spec_resolve_local(
                state.data.principal_to_user_id_map.as_map(),
                state.env.caller@,
            ) == Some(u),
            Err(miss) => spec_resolve_local(
                state.data.principal_to_user_id_map.as_map(),
                state.env.caller@,
            ) is None && miss.0@ == state.env.caller@ && miss.1
                == state.data.user_index_canister_id,
        },
{
    match state.data.principal_to_user_id_map.get(&state.env.caller) {
        Some(u) => Ok(u),
        None => Err((state.env.caller.duplicate(), state.data.user_index_canister_id)),
    }
}

/// Records the identity as online at the environment's current time,
/// increments the observation counter, and hands back the presence event to
/// emit downstream.
pub fn mark_as_online_impl(user_id: UserId, state: &mut ProcessState) -> (r: (
    Response,
    PresenceEvent,
))
    requires
        old(state).wf(),
        old(state).data.mark_as_online_count < u64::MAX,
    ensures
        final(state).wf(),
        final(state).env == old(state).env,
        r.0 is Success,
        final(state).data.last_online_dates.as_map() == marked(
            old(state).data.last_online_dates.as_map(),
            user_id,
            old(state).env.now,
        ),
        final(state).data.mark_as_online_count == old(state).data.mark_as_online_count + 1,
        r.1 == (PresenceEvent {
            timestamp: old(state).env.now,
            user: user_id,
            source: old(state).env.canister_id,
        }),
        final(state).data == (Data {
            last_online_dates: final(state).data.last_online_dates,
            mark_as_online_count: final(state).data.mark_as_online_count,
            ..old(state).data
        }),
{
    let now = state.env.now;
    state.data.last_online_dates.mark_online(user_id, now);
    state.data.mark_as_online_count = state.data.mark_as_online_count + 1;
    let event = PresenceEvent { timestamp: now, user: user_id, source: state.env.canister_id };
    (Response::Success, event)
}

/// Phase two after a cache miss, once the authority has replied: a `Found`
/// identity is written back (last write wins) and marked online; `NotFound`
/// and failures are surfaced and change nothing.
pub fn complete_mark_as_online(
    handle: IdentityHandle,
    reply: LookupOutcome,
    state: &mut ProcessState,
) -> (r: (Response, Option<PresenceEvent>))
    requires
        old(state).wf(),
        spec_resolve_local(old(state).data.principal_to_user_id_map.as_map(), handle@) is None,
        old(state).data.mark_as_online_count < u64::MAX,
    ensures
        final(state).wf(),
        final(state).env == old(state).env,
        final(state).data.principal_to_user_id_map.as_map() == resolve_spec(
            old(state).data.principal_to_user_id_map.as_map(),
            handle@,
            reply,
        ).0,
        match resolve_spec(old(state).data.principal_to_user_id_map.as_map(), handle@, reply).1 {
            ResolveOutcome::Resolved(u) => r.0 is Success && r.1 == Some(
                PresenceEvent {
                    timestamp: old(state).env.now,
                    user: u,
                    source: old(state).env.canister_id,
                },
            ) && final(state).data.last_online_dates.as_map() == marked(
                old(state).data.last_online_dates.as_map(),
                u,
                old(state).env.now,
            ) && final(state).data.mark_as_online_count == old(state).data.mark_as_online_count
                + 1,
            ResolveOutcome::NotFound => r.0 is UserNotFound && r.1 is None && final(state).data
                == (Data {
                principal_to_user_id_map: final(state).data.principal_to_user_id_map,
                ..old(state).data
            }),
            ResolveOutcome::InternalError(_) => r.0 is InternalError && r.1 is None
                && final(state).data == (Data {
                principal_to_user_id_map: final(state).data.principal_to_user_id_map,
                ..old(state).data
            }),
        },
{
    match apply_lookup_outcome(&mut state.data.principal_to_user_id_map, handle, reply) {
        ResolveOutcome::Resolved(u) => {
            let (resp, event) = mark_as_online_impl(u, state);
            (resp, Some(event))
        },
        ResolveOutcome::NotFound => (Response::UserNotFound, None),
        ResolveOutcome::InternalError(detail) => (Response::InternalError(detail), None),
    }
}

} // verus!
