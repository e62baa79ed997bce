//! The Helix API side: the broadcaster's profile, the ids that moderation
//! commands need, and what the requests carry.

use vstd::prelude::*;
use crate::text::{copy_str, push_str};

verus! {

/// The broadcaster whose channel is read.
#[derive(Clone, Debug)]
pub struct BroadcasterProfile {
    pub id: String,
    pub login: String,
}

/// The ids that moderation commands run under.
#[derive(Clone, Debug)]
pub struct CommandConfig {
    pub broadcaster_login: String,
    pub broadcaster_id: String,
    pub moderator_id: String,
}

/// Why Twitch dropped a chat message.
#[derive(Clone, Debug)]
pub struct DropReason {
    pub code: String,
    pub message: String,
}

/// Twitch's answer to a chat message sent through Helix.
#[derive(Clone, Debug)]
pub struct SendChatMessageResult {
    pub is_sent: bool,
    pub drop_reason: Option<DropReason>,
}

/// The Helix endpoint that clears a channel's chat.
pub open spec fn clear_chat_endpoint(broadcaster_id: Seq<char>, moderator_id: Seq<char>) -> Seq<char> {
    "https://api.twitch.tv/helix/moderation/chat?broadcaster_id="@ + broadcaster_id
        + "&moderator_id="@ + moderator_id
}

/// The URL of the request that clears the broadcaster's chat.
pub fn clear_chat_url(broadcaster_id: &str, moderator_id: &str) -> (r: String)
    ensures
        r@ == clear_chat_endpoint(broadcaster_id@, moderator_id@),
{
    let mut url = copy_str("https://api.twitch.tv/helix/moderation/chat?broadcaster_id=");
    push_str(&mut url, broadcaster_id);
    push_str(&mut url, "&moderator_id=");
    push_str(&mut url, moderator_id);
    url
}

/// The `Authorization` header value for a user access token.
pub fn bearer_header(access_token: &str) -> (r: String)
    ensures
        r@ == "Bearer "@ + access_token@,
{
    let mut h = copy_str("Bearer ");
    push_str(&mut h, access_token);
    h
}

/// The answer for the message sent: the first entry of the response's
/// data, or `None` when the data is empty (an "Empty response").
pub fn first_send_result(data: Vec<SendChatMessageResult>) -> (r: Option<SendChatMessageResult>)
    ensures
        data@.len() == 0 ==> r is None,
        data@.len() > 0 ==> r == Some(data@[0]),
{
    let mut data = data;
    if data.len() == 0 {
        None
    } else {
        Some(data.remove(0))
    }
}

} // verus!
