use canister_core::access_token;
use canister_core::admission::{MessageKind, Verdict};
use canister_core::c2c_undelete_messages::DirectChats;
use canister_core::dedup::EventDeduper;
use canister_core::end_video_call::VideoCalls;
use canister_core::ids::{CanisterId, ChannelId, IdentityHandle, UserId};
use canister_core::presence::LastOnlineDates;
use canister_core::resolve::PrincipalToUserIdMap;
use canister_core::state::{accept_if_valid, inspect_message, Data, Env, ProcessState, StateCell};

fn state_with_caller(caller: IdentityHandle) -> ProcessState {
    ProcessState {
        env: Env {
            now: 0,
            canister_id: CanisterId { raw: 1 },
            caller,
        },
        data: Data {
            frozen: false,
            members: PrincipalToUserIdMap::new(),
            invited: PrincipalToUserIdMap::new(),
            video_call_operators: Vec::new(),
            salt: [0u8; 32],
            event_deduper: EventDeduper::new(60),
            principal_to_user_id_map: PrincipalToUserIdMap::new(),
            user_index_canister_id: CanisterId { raw: 2 },
            last_online_dates: LastOnlineDates::new(),
            mark_as_online_count: 0,
            video_calls: VideoCalls::new(),
            direct_chats: DirectChats::new(),
            blocked_users: Vec::new(),
            last_activity_notification: 0,
        },
    }
}

#[test]
fn member_is_admitted_and_stranger_is_not() {
    let mut state = state_with_caller(IdentityHandle::new(vec![1]));
    assert_eq!(
        accept_if_valid(&state, MessageKind::SendMessage),
        Verdict::Reject
    );
    state
        .data
        .members
        .add(IdentityHandle::new(vec![1]), UserId { raw: 10 });
    assert_eq!(
        accept_if_valid(&state, MessageKind::SendMessage),
        Verdict::Accept
    );
}

#[test]
fn invited_caller_admitted_only_to_decline() {
    let mut state = state_with_caller(IdentityHandle::new(vec![2]));
    state
        .data
        .invited
        .add(IdentityHandle::new(vec![2]), UserId { raw: 11 });
    assert_eq!(
        accept_if_valid(&state, MessageKind::DeclineInvitation),
        Verdict::Accept
    );
    assert_eq!(
        accept_if_valid(&state, MessageKind::SendMessage),
        Verdict::Reject
    );
}

#[test]
fn operator_admitted_only_to_send_message() {
    let mut state = state_with_caller(IdentityHandle::new(vec![3]));
    state
        .data
        .video_call_operators
        .push(IdentityHandle::new(vec![3]));
    assert_eq!(
        accept_if_valid(&state, MessageKind::SendMessage),
        Verdict::Accept
    );
    assert_eq!(accept_if_valid(&state, MessageKind::Other), Verdict::Reject);
}

#[test]
fn inspection_runs_over_a_scoped_read_access() {
    let mut state = state_with_caller(IdentityHandle::new(vec![4]));
    state.data.frozen = true;
    let cell = StateCell::new(state);
    // internal peer kinds stay admitted under a freeze; ordinary ones do not
    assert_eq!(
        inspect_message(&cell, MessageKind::InternalPeer),
        Verdict::Accept
    );
    assert_eq!(
        inspect_message(&cell, MessageKind::SendMessage),
        Verdict::Reject
    );
}

#[test]
fn access_token_replies_carry_their_reason() {
    let args = access_token::Args {
        channel_id: ChannelId { raw: 5 },
    };
    assert_eq!(args.channel_id, ChannelId { raw: 5 });
    let ok = access_token::Response::Success("token".to_string());
    assert!(matches!(ok, access_token::Response::Success(t) if t == "token"));
    assert!(matches!(
        access_token::Response::ChannelNotFound,
        access_token::Response::ChannelNotFound
    ));
}
