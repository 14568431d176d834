use canister_core::c2c_undelete_messages::{self, DirectChat};
use canister_core::end_video_call::{self, Response as EndVideoCallResponse};
use canister_core::ids::{CanisterId, ChannelId, IdentityHandle, MessageIndex, UserId};
use canister_core::mark_as_online::{
    complete_mark_as_online, mark_as_online_impl, try_get_user_id_locally, Response,
};
use canister_core::presence::LastOnlineDates;
use canister_core::push_events;
use canister_core::resolve::{LookupOutcome, PrincipalToUserIdMap, ResolveOutcome};
use canister_core::state::{
    begin_request, reseed, run_regular_jobs, Data, Env, ProcessState, StateCell,
};

fn fresh_state() -> ProcessState {
    ProcessState {
        env: Env {
            now: 1000,
            canister_id: CanisterId { raw: 77 },
            caller: IdentityHandle::new(vec![1, 2, 3]),
        },
        data: Data {
            frozen: false,
            members: PrincipalToUserIdMap::new(),
            invited: PrincipalToUserIdMap::new(),
            video_call_operators: Vec::new(),
            salt: [7u8; 32],
            event_deduper: canister_core::dedup::EventDeduper::new(60),
            principal_to_user_id_map: PrincipalToUserIdMap::new(),
            user_index_canister_id: CanisterId { raw: 9 },
            last_online_dates: LastOnlineDates::new(),
            mark_as_online_count: 0,
            video_calls: canister_core::end_video_call::VideoCalls::new(),
            direct_chats: canister_core::c2c_undelete_messages::DirectChats::new(),
            blocked_users: Vec::new(),
            last_activity_notification: 0,
        },
    }
}

#[test]
fn presence_timestamps_are_monotonic() {
    let mut dates = LastOnlineDates::new();
    let id = UserId { raw: 4 };
    dates.mark_online(id, 100);
    dates.mark_online(id, 50);
    assert_eq!(dates.last_seen(id), Some(100));
    dates.mark_online(id, 150);
    assert_eq!(dates.last_seen(id), Some(150));
    assert_eq!(dates.last_seen(UserId { raw: 5 }), None);
}

#[test]
fn mark_as_online_records_and_emits() {
    let mut state = fresh_state();
    let user = UserId { raw: 42 };
    let (resp, event) = mark_as_online_impl(user, &mut state);
    assert!(matches!(resp, Response::Success));
    assert_eq!(event.timestamp, 1000);
    assert_eq!(event.user, user);
    assert_eq!(event.source, CanisterId { raw: 77 });
    assert_eq!(state.data.mark_as_online_count, 1);
    assert_eq!(state.data.last_online_dates.last_seen(user), Some(1000));
}

#[test]
fn unknown_handle_resolves_through_authority_then_locally() {
    let mut state = fresh_state();
    let (handle, authority) = match try_get_user_id_locally(&state) {
        Err(miss) => miss,
        Ok(_) => panic!("handle must be unknown at first"),
    };
    assert_eq!(authority, CanisterId { raw: 9 });

    // the authority replies outside any state access
    let reply = LookupOutcome::Found(UserId { raw: 42 });
    let (resp, event) = complete_mark_as_online(handle, reply, &mut state);
    assert!(matches!(resp, Response::Success));
    assert_eq!(event.unwrap().user, UserId { raw: 42 });

    // the second resolution is purely local
    assert!(matches!(
        try_get_user_id_locally(&state),
        Ok(UserId { raw: 42 })
    ));
}

#[test]
fn authority_not_found_and_failure_cache_nothing() {
    let mut state = fresh_state();
    let (handle, _) = try_get_user_id_locally(&state).unwrap_err();
    let (resp, event) = complete_mark_as_online(handle, LookupOutcome::NotFound, &mut state);
    assert!(matches!(resp, Response::UserNotFound));
    assert!(event.is_none());
    assert!(try_get_user_id_locally(&state).is_err());

    let (handle, _) = try_get_user_id_locally(&state).unwrap_err();
    let (resp, event) = complete_mark_as_online(
        handle,
        LookupOutcome::Failure("transport failed".to_string()),
        &mut state,
    );
    match resp {
        Response::InternalError(detail) => assert_eq!(detail, "transport failed"),
        _ => panic!("a failed lookup must surface as an internal error"),
    }
    assert!(event.is_none());
    assert!(try_get_user_id_locally(&state).is_err());
}

#[test]
fn found_reply_writes_back_through_apply_lookup_outcome() {
    let mut cache = PrincipalToUserIdMap::new();
    let handle = IdentityHandle::new(vec![9, 9]);
    let probe = IdentityHandle::new(vec![9, 9]);
    assert!(cache.get(&probe).is_none());
    let out = canister_core::resolve::apply_lookup_outcome(
        &mut cache,
        handle,
        LookupOutcome::Found(UserId { raw: 8 }),
    );
    assert!(matches!(out, ResolveOutcome::Resolved(UserId { raw: 8 })));
    assert_eq!(cache.get(&probe), Some(UserId { raw: 8 }));
}

#[test]
fn end_video_call_distinguishes_absence_from_conflict() {
    let mut state = fresh_state();
    let channel = ChannelId { raw: 3 };
    let index = MessageIndex { raw: 12 };
    let args = end_video_call::Args {
        channel_id: channel,
        message_index: index,
    };

    assert_eq!(
        end_video_call::end_video_call(args, &mut state),
        EndVideoCallResponse::MessageNotFound
    );
    assert_eq!(state.data.last_activity_notification, 0);

    assert!(state.data.video_calls.register_call(channel, index));
    assert_eq!(
        end_video_call::end_video_call(args, &mut state),
        EndVideoCallResponse::Success
    );
    assert_eq!(state.data.last_activity_notification, 1000);
    assert_eq!(
        state.data.video_calls.call_status(channel, index),
        Some(Some(1000))
    );

    assert_eq!(
        end_video_call::end_video_call(args, &mut state),
        EndVideoCallResponse::AlreadyEnded
    );
}

#[test]
fn undelete_removes_only_callers_requested_deletions() {
    let mut state = fresh_state();
    let caller = UserId { raw: 5 };
    let other = UserId { raw: 6 };
    state.data.direct_chats.put(
        caller,
        DirectChat {
            deleted: vec![(1, caller), (2, other), (3, caller), (4, caller)],
        },
    );
    let args = c2c_undelete_messages::Args {
        message_ids: vec![1, 2, 3],
    };
    let r = c2c_undelete_messages::c2c_undelete_messages(&args, caller, &mut state);
    assert!(matches!(r, c2c_undelete_messages::Response::Success));
    // message 2 was deleted by someone else and message 4 was not requested
    assert_eq!(
        state.data.direct_chats.deleted_messages(caller),
        Some(vec![(2, other), (4, caller)])
    );
    let again = c2c_undelete_messages::Args {
        message_ids: vec![2, 4],
    };
    let r = c2c_undelete_messages::c2c_undelete_messages(&again, other, &mut state);
    assert!(matches!(r, c2c_undelete_messages::Response::ChatNotFound));
}

#[test]
fn undelete_refuses_blocked_callers_and_unknown_chats() {
    let mut state = fresh_state();
    let caller = UserId { raw: 5 };
    let args = c2c_undelete_messages::Args {
        message_ids: vec![1],
    };
    assert!(matches!(
        c2c_undelete_messages::c2c_undelete_messages(&args, caller, &mut state),
        c2c_undelete_messages::Response::ChatNotFound
    ));
    state.data.blocked_users.push(caller);
    assert!(matches!(
        c2c_undelete_messages::c2c_undelete_messages(&args, caller, &mut state),
        c2c_undelete_messages::Response::UserBlocked
    ));
}

#[test]
fn regular_jobs_evict_expired_dedup_entries() {
    let mut state = fresh_state();
    assert!(state.data.event_deduper.try_push(1, 900));
    assert!(state.data.event_deduper.try_push(2, 990));
    // env.now is 1000: key 1 (900 + 60 <= 1000) has expired
    run_regular_jobs(&mut state);
    assert!(state.data.event_deduper.try_push(1, 1000));
    assert!(!state.data.event_deduper.try_push(2, 1000));
}

#[test]
fn begin_request_and_reseed_update_context() {
    let mut state = fresh_state();
    begin_request(&mut state, 2000, IdentityHandle::new(vec![4, 4]));
    assert_eq!(state.env.now, 2000);
    reseed(
        &mut state,
        Env {
            now: 3000,
            canister_id: CanisterId { raw: 77 },
            caller: IdentityHandle::new(vec![5]),
        },
        [9u8; 32],
    );
    assert_eq!(state.env.now, 3000);
    assert_eq!(state.data.salt, [9u8; 32]);
}

#[test]
fn push_events_handler_uses_state_salt_and_clock() {
    let mut state = fresh_state();
    let args = push_events::Args {
        events: vec![make_event(1, "a"), make_event(1, "a")],
    };
    let forwarded = push_events::push_events(args, &mut state);
    assert_eq!(forwarded.len(), 1);
    assert_eq!(forwarded[0].name, "a");
}

fn make_event(key: u128, name: &str) -> push_events::IdempotentEvent {
    push_events::IdempotentEvent {
        idempotency_key: key,
        name: name.to_string(),
        timestamp: 0,
        user: None,
        source: None,
        payload: Vec::new(),
    }
}

#[test]
fn handlers_suspend_only_between_scoped_accesses() {
    // The mutate accessor takes a synchronous closure that consumes the state
    // and returns it: no reference into the cell can be held across the
    // external call, which happens strictly between the two accesses below.
    let cell = StateCell::new(fresh_state());

    let miss = cell.with_read_access(|s: &ProcessState| try_get_user_id_locally(s).err());
    let (handle, _authority) = miss.expect("handle unknown at first");

    // external authority call happens here, with no state access held
    let reply = LookupOutcome::Found(UserId { raw: 12 });

    let (cell, resp) = cell.with_mutate_access(move |mut s: ProcessState| {
        let (resp, _event) = complete_mark_as_online(handle, reply, &mut s);
        (s, resp)
    });
    assert!(matches!(resp, Response::Success));

    let resolved = cell.with_read_access(|s: &ProcessState| try_get_user_id_locally(s).ok());
    assert_eq!(resolved, Some(UserId { raw: 12 }));
}
