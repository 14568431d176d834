use canister_core::admission::{evaluate, MessageKind, Verdict};

#[test]
fn internal_kinds_accepted_without_caller_inspection() {
    for frozen in [false, true] {
        assert_eq!(
            evaluate(MessageKind::InternalPeer, frozen, false, false, false),
            Verdict::Accept
        );
        assert_eq!(
            evaluate(MessageKind::WalletReceive, frozen, false, false, false),
            Verdict::Accept
        );
    }
}

#[test]
fn freeze_rejects_ordinary_kinds_even_for_members() {
    assert_eq!(
        evaluate(MessageKind::SendMessage, true, true, true, true),
        Verdict::Reject
    );
    assert_eq!(
        evaluate(MessageKind::Other, true, true, true, true),
        Verdict::Reject
    );
}

#[test]
fn member_accepted_for_ordinary_kinds() {
    assert_eq!(
        evaluate(MessageKind::SendMessage, false, true, false, false),
        Verdict::Accept
    );
    assert_eq!(
        evaluate(MessageKind::Other, false, true, false, false),
        Verdict::Accept
    );
}

#[test]
fn invited_caller_may_only_decline_invitation() {
    assert_eq!(
        evaluate(MessageKind::DeclineInvitation, false, false, true, false),
        Verdict::Accept
    );
    assert_eq!(
        evaluate(MessageKind::SendMessage, false, false, true, false),
        Verdict::Reject
    );
}

#[test]
fn operator_exception_is_narrow() {
    assert_eq!(
        evaluate(MessageKind::SendMessage, false, false, false, true),
        Verdict::Accept
    );
    assert_eq!(
        evaluate(MessageKind::DeclineInvitation, false, false, false, true),
        Verdict::Reject
    );
}

#[test]
fn unrecognized_kind_fails_closed() {
    for frozen in [false, true] {
        for invited in [false, true] {
            for operator in [false, true] {
                assert_eq!(
                    evaluate(MessageKind::Other, frozen, false, invited, operator),
                    Verdict::Reject
                );
            }
        }
    }
}
