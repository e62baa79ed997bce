//! The settings and messages of the WebSocket server that feeds chat to
//! the on-screen overlay.

use vstd::prelude::*;
use crate::chat::{ChatPayload, ChatView, notice_view, SYSTEM_COLOR};
use crate::text::{copy_str, push_str};

verus! {

/// The address the overlay server listens on when none is set.
pub const DEFAULT_NICO_ADDRESS: &'static str = "127.0.0.1:2578";

/// The overlay server's address from the value of `NICO_ADDRESS`.
pub fn nico_address(var: Option<String>) -> (r: String)
    ensures
        r@ == match var {
            Some(a) => a@,
            None => DEFAULT_NICO_ADDRESS@,
        },
{
    match var {
        Some(a) => a,
        None => copy_str(DEFAULT_NICO_ADDRESS),
    }
}

/// The script that tells the overlay page where to connect.
pub open spec fn js_config_text(address: Seq<char>) -> Seq<char> {
    "const NICO_ADDR = '"@ + address + "';"@
}

/// The script that tells the overlay page where to connect.
pub fn nico_js_config(address: &str) -> (r: String)
    ensures
        r@ == js_config_text(address@),
{
    let mut s = copy_str("const NICO_ADDR = '");
    push_str(&mut s, address);
    push_str(&mut s, "';");
    s
}

/// The notice that names the address the server listens on.
pub fn listening_notice(address: &str) -> (r: ChatPayload)
    ensures
        r@ == notice_view("Listening on: "@ + address@, SYSTEM_COLOR@),
{
    let mut text = copy_str("Listening on: ");
    push_str(&mut text, address);
    crate::chat::system_notice(text.as_str(), SYSTEM_COLOR)
}

/// The message posted when the server cannot listen: from `[ERROR]`, in
/// red, with the reason.
pub open spec fn bind_error_view(reason: Seq<char>) -> ChatView {
    ChatView {
        username: "[ERROR]"@,
        user_id: Seq::empty(),
        message_id: None,
        sent_ts: None,
        msg: "Failed to start WebSocket: "@ + reason,
        color: "#FF0000"@,
        is_mod: false,
        is_broadcaster: false,
    }
}

/// The message posted when the server cannot listen.
pub fn bind_error_notice(reason: &str) -> (r: ChatPayload)
    ensures
        r@ == bind_error_view(reason@),
{
    let mut text = copy_str("Failed to start WebSocket: ");
    push_str(&mut text, reason);
    ChatPayload {
        username: copy_str("[ERROR]"),
        user_id: String::new(),
        message_id: None,
        sent_ts: None,
        msg: text,
        color: copy_str("#FF0000"),
        is_mod: false,
        is_broadcaster: false,
    }
}

} // verus!
