use vstd::prelude::*;

verus! {

/// The closed set of inbound message kinds that admission rules on. Kinds with no
/// accept rule of their own fall under `Other` and are rejected unless a
/// general rule matches.
#[derive(Clone, Copy, PartialEq, Eq, Structural, Debug)]
pub enum MessageKind {
    /// An internal peer-to-peer kind.
    InternalPeer,
    /// The designated always-allowed operational kind.
    WalletReceive,
    /// Declining an invitation; allowed to invited callers.
    DeclineInvitation,
    /// Sending a message; carries a narrow operator exception.
    SendMessage,
    /// Any other, unrecognized kind.
    Other,
}

/// The verdict on an inbound request. It is computed per request and
/// defaults to `Reject`: admission only ever explicitly accepts.
#[derive(Clone, Copy, PartialEq, Eq, Structural, Debug)]
pub enum Verdict {
    Accept,
    Reject,
}

/// The admission rule: internal and always-allowed kinds are accepted without
/// inspecting the caller; under a freeze everything else is rejected;
/// otherwise members are accepted, invited callers may decline their
/// invitation, and the video-call operator may send a message. No other rule
/// exists, so anything else is rejected by omission.
pub open spec fn admission_spec(
    kind: MessageKind,
    frozen: bool,
    is_member: bool,
    is_invited: bool,
    is_video_call_operator: bool,
) -> Verdict {
    if kind == MessageKind::InternalPeer || kind == MessageKind::WalletReceive {
        Verdict::Accept
    } else if frozen {
        Verdict::Reject
    } else if is_member {
        Verdict::Accept
    } else if is_invited && kind == MessageKind::DeclineInvitation {
        Verdict::Accept
    } else if is_video_call_operator && kind == MessageKind::SendMessage {
        Verdict::Accept
    } else {
        Verdict::Reject
    }
}

/// Decides whether an inbound request may proceed, before any handler body
/// runs, from the message kind, the freeze flag and the caller's standing.
pub fn evaluate(
    kind: MessageKind,
    frozen: bool,
    is_member: bool,
    is_invited: bool,
    is_video_call_operator: bool,
) -> (v: Verdict)
    ensures
        v == admission_spec(kind, frozen, is_member, is_invited, is_video_call_operator),
{
    match kind {
        MessageKind::InternalPeer => Verdict::Accept,
        MessageKind::WalletReceive => Verdict::Accept,
        _ => {
            if frozen {
                Verdict::Reject
            } else if is_member {
                Verdict::Accept
            } else if is_invited && kind == MessageKind::DeclineInvitation {
                Verdict::Accept
            } else if is_video_call_operator && kind == MessageKind::SendMessage {
                Verdict::Accept
            } else {
                Verdict::Reject
            }
        },
    }
}

/// Admission fails closed: an unrecognized kind has no accept rule of its own,
/// so a caller who is not a member is rejected, whatever the freeze flag and
/// whatever invitations or operator roles the caller holds.
pub proof fn lemma_fails_closed(
    frozen: bool,
    is_member: bool,
    is_invited: bool,
    is_video_call_operator: bool,
)
    requires
        !is_member,
    ensures
        admission_spec(MessageKind::Other, frozen, is_member, is_invited, is_video_call_operator)
            == Verdict::Reject,
{
}

} // verus!
