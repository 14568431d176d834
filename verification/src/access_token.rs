use vstd::prelude::*;

use crate::ids::ChannelId;

verus! {

/// Request for an access token scoped to one channel.
#[derive(Clone, Copy, PartialEq, Eq, Structural, Debug)]
pub struct Args {
    pub channel_id: ChannelId,
}

/// Reply to an access-token request: the token, or why the caller may not
/// have one.
#[derive(Debug)]
pub enum Response {
    Success(String),
    CommunityFrozen,
    UserNotInCommunity,
    UserSuspended,
    ChannelNotFound,
    UserNotInChannel,
}

} // verus!
