//! Chat messages: what the IRC listener receives, what it hands to the
//! rest of the program, and what the program sends back to the channel.

use vstd::prelude::*;
use crate::text::{
    copy_str, decimal, i64_to_string, push_str, signed_decimal, str_equal, trim, trimmed,
};

verus! {

/// A chat message as the readers of the broadcast channel see it.
#[derive(Clone, Debug)]
pub struct ChatPayload {
    pub username: String,
    pub user_id: String,
    pub message_id: Option<String>,
    pub sent_ts: Option<i64>,
    pub msg: String,
    pub color: String,
    pub is_mod: bool,
    pub is_broadcaster: bool,
}

/// The contents of a chat message, as values.
pub struct ChatView {
    pub username: Seq<char>,
    pub user_id: Seq<char>,
    pub message_id: Option<Seq<char>>,
    pub sent_ts: Option<i64>,
    pub msg: Seq<char>,
    pub color: Seq<char>,
    pub is_mod: bool,
    pub is_broadcaster: bool,
}

impl View for ChatPayload {
    type V = ChatView;

    open spec fn view(&self) -> ChatView {
        ChatView {
            username: self.username@,
            user_id: self.user_id@,
            message_id: self.message_id.deep_view(),
            sent_ts: self.sent_ts,
            msg: self.msg@,
            color: self.color@,
            is_mod: self.is_mod,
            is_broadcaster: self.is_broadcaster,
        }
    }
}

/// A chat message with every text empty, no id, no time and no flag.
pub open spec fn empty_chat() -> ChatView {
    ChatView {
        username: Seq::empty(),
        user_id: Seq::empty(),
        message_id: None,
        sent_ts: None,
        msg: Seq::empty(),
        color: Seq::empty(),
        is_mod: false,
        is_broadcaster: false,
    }
}

impl Default for ChatPayload {
    fn default() -> (r: Self)
        ensures
            r@ == empty_chat(),
    {
        ChatPayload {
            username: String::new(),
            user_id: String::new(),
            message_id: None,
            sent_ts: None,
            msg: String::new(),
            color: String::new(),
            is_mod: false,
            is_broadcaster: false,
        }
    }
}

impl ChatPayload {
    /// A copy of this message.
    pub fn duplicate(&self) -> (r: Self)
        ensures
            r@ == self@,
    {
        ChatPayload {
            username: copy_str(self.username.as_str()),
            user_id: copy_str(self.user_id.as_str()),
            message_id: match &self.message_id {
                Some(id) => Some(copy_str(id.as_str())),
                None => None,
            },
            sent_ts: self.sent_ts,
            msg: copy_str(self.msg.as_str()),
            color: copy_str(self.color.as_str()),
            is_mod: self.is_mod,
            is_broadcaster: self.is_broadcaster,
        }
    }
}

/// A message from the IRC listener to the rest of the program.
#[derive(Clone, Debug)]
pub enum Message {
    DM {
        username: String,
        user_id: String,
        message_id: Option<String>,
        sent_ts: Option<i64>,
        msg: String,
        color: String,
        is_mod: bool,
        is_broadcaster: bool,
    },
}

impl View for Message {
    type V = ChatView;

    open spec fn view(&self) -> ChatView {
        match self {
            Message::DM {
                username,
                user_id,
                message_id,
                sent_ts,
                msg,
                color,
                is_mod,
                is_broadcaster,
            } => ChatView {
                username: username@,
                user_id: user_id@,
                message_id: message_id.deep_view(),
                sent_ts: *sent_ts,
                msg: msg@,
                color: color@,
                is_mod: *is_mod,
                is_broadcaster: *is_broadcaster,
            },
        }
    }
}

/// What the program asks the IRC side to do.
#[derive(Clone, Debug)]
pub enum Outgoing {
    /// Say a message in the channel.
    Chat(String),
    /// Clear the channel's chat.
    Clear,
}

/// A request to the IRC side, as values.
pub enum OutgoingView {
    Chat(Seq<char>),
    Clear,
}

impl View for Outgoing {
    type V = OutgoingView;

    open spec fn view(&self) -> OutgoingView {
        match self {
            Outgoing::Chat(s) => OutgoingView::Chat(s@),
            Outgoing::Clear => OutgoingView::Clear,
        }
    }
}

/// An optional request, as values.
pub open spec fn outgoing_view(o: Option<Outgoing>) -> Option<OutgoingView> {
    match o {
        Some(x) => Some(x@),
        None => None,
    }
}

/// The color of system messages.
pub const SYSTEM_COLOR: &'static str = "#FFFF66";

/// The color of users who have not chosen one.
pub const DEFAULT_USER_COLOR: &'static str = "#FFFFFF";

/// The name under which the program's own notices appear.
pub const SYSTEM_NAME: &'static str = "[SYSTEM]";

/// A notice from the program itself: sender "[SYSTEM]", user id "0", no
/// message id or time, the given text and color, and no badge.
pub open spec fn notice_view(msg: Seq<char>, color: Seq<char>) -> ChatView {
    ChatView {
        username: SYSTEM_NAME@,
        user_id: "0"@,
        message_id: None,
        sent_ts: None,
        msg: msg,
        color: color,
        is_mod: false,
        is_broadcaster: false,
    }
}

/// A notice from the program itself, in the given color.
pub fn system_notice(msg: &str, color: &str) -> (r: ChatPayload)
    ensures
        r@ == notice_view(msg@, color@),
{
    ChatPayload {
        username: copy_str(SYSTEM_NAME),
        user_id: copy_str("0"),
        message_id: None,
        sent_ts: None,
        msg: copy_str(msg),
        color: copy_str(color),
        is_mod: false,
        is_broadcaster: false,
    }
}

fn system_dm(msg: String) -> (r: Message)
    ensures
        r@ == notice_view(msg@, SYSTEM_COLOR@),
{
    Message::DM {
        username: copy_str(SYSTEM_NAME),
        user_id: copy_str("0"),
        message_id: None,
        sent_ts: None,
        msg,
        color: copy_str(SYSTEM_COLOR),
        is_mod: false,
        is_broadcaster: false,
    }
}

/// What the IRC server sent, as far as the listener looks at it.
#[derive(Clone, Debug)]
pub enum ServerEvent {
    /// The client joined a channel.
    Join { channel_login: String },
    /// A notice from Twitch.
    Notice { message_text: String },
    /// A chat message.
    Privmsg {
        sender_name: String,
        sender_login: String,
        sender_id: String,
        message_id: String,
        server_timestamp_millis: i64,
        message_text: String,
        name_color: Option<String>,
        badges: Vec<String>,
    },
    /// Anything else.
    Other,
}

/// The names of a message's badges.
pub open spec fn badge_names(badges: Seq<String>) -> Seq<Seq<char>> {
    badges.map_values(|b: String| b@)
}

fn has_badge(badges: &Vec<String>, name: &str) -> (r: bool)
    ensures
        r == badge_names(badges@).contains(name@),
{
    let mut i: usize = 0;
    while i < badges.len()
        invariant
            i <= badges@.len(),
            forall|j: int| 0 <= j < i ==> badges@[j]@ != name@,
        decreases badges.len() - i,
    {
        if str_equal(badges[i].as_str(), name) {
            assert(badge_names(badges@)[i as int] == name@);
            return true;
        }
        i = i + 1;
    }
    assert forall|j: int| 0 <= j < badge_names(badges@).len() implies badge_names(badges@)[j]
        != name@ by {
        assert(badge_names(badges@)[j] == badges@[j]@);
    }
    false
}

/// What `handle_server_message` makes of a server event: a join and a
/// notice become system messages, a chat message keeps its sender (its
/// display name, or its login when the display name is empty), ids, time,
/// text, color (white when unset) and whether it carries the moderator
/// and broadcaster badges; anything else gives nothing.
pub open spec fn server_message_view(ev: ServerEvent) -> Option<ChatView> {
    match ev {
        ServerEvent::Join { channel_login } => Some(
            notice_view("Successfully joined: "@ + channel_login@, SYSTEM_COLOR@),
        ),
        ServerEvent::Notice { message_text } => Some(
            notice_view("Notice from Twitch: "@ + message_text@, SYSTEM_COLOR@),
        ),
        ServerEvent::Privmsg {
            sender_name,
            sender_login,
            sender_id,
            message_id,
            server_timestamp_millis,
            message_text,
            name_color,
            badges,
        } => Some(
            ChatView {
                username: if sender_name@.len() == 0 {
                    sender_login@
                } else {
                    sender_name@
                },
                user_id: sender_id@,
                message_id: Some(message_id@),
                sent_ts: Some(server_timestamp_millis),
                msg: message_text@,
                color: match name_color {
                    Some(c) => c@,
                    None => DEFAULT_USER_COLOR@,
                },
                is_mod: badge_names(badges@).contains("moderator"@),
                is_broadcaster: badge_names(badges@).contains("broadcaster"@),
            },
        ),
        ServerEvent::Other => None,
    }
}

/// Turns what the IRC server sent into a message for the program, or
/// nothing for events the program does not show.
pub fn handle_server_message(message: ServerEvent) -> (r: Option<Message>)
    ensures
        match r {
            Some(m) => server_message_view(message) == Some(m@),
            None => server_message_view(message) is None,
        },
{
    match message {
        ServerEvent::Join { channel_login } => {
            let mut text = copy_str("Successfully joined: ");
            push_str(&mut text, channel_login.as_str());
            Some(system_dm(text))
        },
        ServerEvent::Notice { message_text } => {
            let mut text = copy_str("Notice from Twitch: ");
            push_str(&mut text, message_text.as_str());
            Some(system_dm(text))
        },
        ServerEvent::Privmsg {
            sender_name,
            sender_login,
            sender_id,
            message_id,
            server_timestamp_millis,
            message_text,
            name_color,
            badges,
        } => {
            let is_mod = has_badge(&badges, "moderator");
            let is_broadcaster = has_badge(&badges, "broadcaster");
            let username = if sender_name.as_str().is_empty() {
                sender_login
            } else {
                sender_name
            };
            let color = match name_color {
                Some(c) => c,
                None => copy_str(DEFAULT_USER_COLOR),
            };
            Some(
                Message::DM {
                    username,
                    user_id: sender_id,
                    message_id: Some(message_id),
                    sent_ts: Some(server_timestamp_millis),
                    msg: message_text,
                    color,
                    is_mod,
                    is_broadcaster,
                },
            )
        },
        ServerEvent::Other => None,
    }
}

/// The chat message that the listener broadcasts for a message it
/// received: the same contents.
pub fn payload_from_message(message: Message) -> (r: ChatPayload)
    ensures
        r@ == message@,
{
    match message {
        Message::DM {
            username,
            user_id,
            message_id,
            sent_ts,
            msg,
            color,
            is_mod,
            is_broadcaster,
        } => ChatPayload {
            username,
            user_id,
            message_id,
            sent_ts,
            msg,
            color,
            is_mod,
            is_broadcaster,
        },
    }
}

/// The text of a boolean as Rust prints it.
pub open spec fn bool_text(b: bool) -> Seq<char> {
    if b {
        "true"@
    } else {
        "false"@
    }
}

fn push_bool(s: &mut String, b: bool)
    ensures
        final(s)@ == old(s)@ + bool_text(b),
{
    if b {
        push_str(s, "true");
    } else {
        push_str(s, "false");
    }
}

/// The one-line description of a message, as the listener logs it:
/// `username: U user_id: I msg: M message_id: T sent_ts: S color: C
/// is_mod: B is_broadcaster: B`, where the value after `msg:` is the
/// message id (or `-`), the one after `message_id:` the time (or `-`), and
/// the one after `sent_ts:` the text, in the order in which they are
/// printed.
pub open spec fn message_description(m: ChatView) -> Seq<char> {
    "username: "@ + m.username + " user_id: "@ + m.user_id + " msg: "@ + match m.message_id {
        Some(id) => id,
        None => "-"@,
    } + " message_id: "@ + match m.sent_ts {
        Some(ts) => signed_decimal(ts as int),
        None => "-"@,
    } + " sent_ts: "@ + m.msg + " color: "@ + m.color + " is_mod: "@ + bool_text(m.is_mod)
        + " is_broadcaster: "@ + bool_text(m.is_broadcaster)
}

impl Message {
    /// The one-line description of the message (its `Display` text).
    pub fn describe(&self) -> (r: String)
        ensures
            r@ == message_description(self@),
    {
        match self {
            Message::DM {
                username,
                user_id,
                message_id,
                sent_ts,
                msg,
                color,
                is_mod,
                is_broadcaster,
            } => {
                let mut s = copy_str("username: ");
                push_str(&mut s, username.as_str());
                push_str(&mut s, " user_id: ");
                push_str(&mut s, user_id.as_str());
                push_str(&mut s, " msg: ");
                match message_id {
                    Some(id) => push_str(&mut s, id.as_str()),
                    None => push_str(&mut s, "-"),
                }
                push_str(&mut s, " message_id: ");
                match sent_ts {
                    Some(ts) => {
                        let t = i64_to_string(*ts);
                        push_str(&mut s, t.as_str());
                    },
                    None => push_str(&mut s, "-"),
                }
                push_str(&mut s, " sent_ts: ");
                push_str(&mut s, msg.as_str());
                push_str(&mut s, " color: ");
                push_str(&mut s, color.as_str());
                push_str(&mut s, " is_mod: ");
                push_bool(&mut s, *is_mod);
                push_str(&mut s, " is_broadcaster: ");
                push_bool(&mut s, *is_broadcaster);
                assert(s@ =~= message_description(self@));
                s
            },
        }
    }
}

/// What the IRC side does for one request of the program.
#[derive(Clone, Debug)]
pub enum OutgoingAction {
    /// Clear the channel's chat through the Helix API.
    ClearChat,
    /// Say this text in the channel.
    Say(String),
    /// Do nothing.
    Skip,
}

/// Decides what to do with a request: a clear request clears the chat; a
/// chat message is trimmed and said, unless nothing is left of it.
pub fn plan_outgoing(outgoing: Outgoing) -> (r: OutgoingAction)
    ensures
        match outgoing {
            Outgoing::Clear => r is ClearChat,
            Outgoing::Chat(msg) => if trimmed(msg@).len() == 0 {
                r is Skip
            } else {
                r matches OutgoingAction::Say(t) && t@ == trimmed(msg@)
            },
        },
{
    match outgoing {
        Outgoing::Clear => OutgoingAction::ClearChat,
        Outgoing::Chat(msg) => {
            let t = trim(msg.as_str());
            if t.as_str().is_empty() {
                OutgoingAction::Skip
            } else {
                OutgoingAction::Say(t)
            }
        },
    }
}

} // verus!
