//! The decisions of the voice reader: its settings, what happens when the
//! speech queue is full, and how a chat message becomes speech.

use vstd::prelude::*;
use crate::chat::{ChatPayload, ChatView, notice_view, SYSTEM_COLOR, SYSTEM_NAME};
use crate::dictionary::Dictionary;
use crate::text::{
    all_white, copy_str, decimal, is_blank, parse_usize, parsed_usize, push_str, str_equal,
};
use crate::trie::trie_words;
use crate::word_process::{cleaned, clean_text, limit_length, limited, TextError};
use vstd::utf8::encode_utf8;
use trie_rs::Trie;

verus! {

/// A setting flag: on exactly when the variable is set to `true`.
pub open spec fn flag_value(var: Option<Seq<char>>) -> bool {
    var == Some("true"@)
}

/// A count setting: the variable's number when it holds one, else 100.
pub open spec fn count_value(var: Option<Seq<char>>) -> nat {
    match var {
        Some(s) => match parsed_usize(s) {
            Some(n) => n,
            None => 100,
        },
        None => 100,
    }
}

/// Whether an optional environment value is exactly `true`.
pub fn flag_setting(var: &Option<String>) -> (b: bool)
    ensures
        b == flag_value(var.deep_view()),
{
    match var {
        Some(s) => str_equal(s.as_str(), "true"),
        None => false,
    }
}

fn count_setting(var: &Option<String>) -> (n: usize)
    ensures
        n == count_value(var.deep_view()),
{
    match var {
        Some(s) => match parse_usize(s.as_str()) {
            Some(n) => n,
            None => 100,
        },
        None => 100,
    }
}

/// The reader's settings from the values of `VERBOSE_LOG`,
/// `MAX_CHAR_COUNT`, `MAX_QUEUE_COUNT` and `QUEUE_DROP_POLICY` (`None`
/// for an unset variable): whether to post notices (only for `true`), the
/// most bytes a message may take, how many messages may wait for the
/// synthesizer (both 100 unless the variable holds a number), and the
/// queue policy (`drop_new` when unset).
pub fn get_env_variables(
    verbose_var: Option<String>,
    max_chars_var: Option<String>,
    max_queue_var: Option<String>,
    policy_var: Option<String>,
) -> (r: (bool, usize, usize, String))
    ensures
        r.0 == flag_value(verbose_var.deep_view()),
        r.1 == count_value(max_chars_var.deep_view()),
        r.2 == count_value(max_queue_var.deep_view()),
        r.3@ == match policy_var {
            Some(p) => p@,
            None => "drop_new"@,
        },
{
    let verbose = flag_setting(&verbose_var);
    let max_chars = count_setting(&max_chars_var);
    let max_queue = count_setting(&max_queue_var);
    let queue_policy = match policy_var {
        Some(p) => p,
        None => copy_str("drop_new"),
    };
    (verbose, max_chars, max_queue, queue_policy)
}

/// The notice that states the reader's settings.
pub open spec fn settings_text(max_queue: nat, max_chars: nat, policy: Seq<char>) -> Seq<char> {
    "[VOICE SETTINGS] max_queue: "@ + decimal(max_queue) + ", max_chars: "@ + decimal(max_chars)
        + ", query_policy: "@ + policy
}

/// The notice that the reader posts about its settings when verbose.
pub fn settings_notice(max_queue: usize, max_chars: usize, queue_policy: &str) -> (r: ChatPayload)
    ensures
        r@ == notice_view(
            settings_text(max_queue as nat, max_chars as nat, queue_policy@),
            "#FFBB66"@,
        ),
{
    let mut text = copy_str("[VOICE SETTINGS] max_queue: ");
    let q = crate::text::u64_to_string(max_queue as u64);
    push_str(&mut text, q.as_str());
    push_str(&mut text, ", max_chars: ");
    let c = crate::text::u64_to_string(max_chars as u64);
    push_str(&mut text, c.as_str());
    push_str(&mut text, ", query_policy: ");
    push_str(&mut text, queue_policy);
    assert(text@ =~= settings_text(max_queue as nat, max_chars as nat, queue_policy@));
    ChatPayload {
        username: copy_str(SYSTEM_NAME),
        user_id: copy_str("0"),
        message_id: None,
        sent_ts: None,
        msg: text,
        color: copy_str("#FFBB66"),
        is_mod: false,
        is_broadcaster: false,
    }
}

/// Messages from the program itself, which the reader never reads.
pub open spec fn internal_sender(username: Seq<char>) -> bool {
    username == SYSTEM_NAME@ || username == "[SKIP]"@
}

/// Whether a sender name marks a message from the program itself.
pub fn is_internal_sender(username: &str) -> (b: bool)
    ensures
        b == internal_sender(username@),
{
    str_equal(username, SYSTEM_NAME) || str_equal(username, "[SKIP]")
}

/// The notice that a user's message was skipped because the queue is full.
pub open spec fn skip_notice_view(username: Seq<char>) -> ChatView {
    notice_view("Queue is full. Skipped "@ + username + "'s message."@, SYSTEM_COLOR@)
}

fn skip_notice(username: &str) -> (r: ChatPayload)
    ensures
        r@ == skip_notice_view(username@),
{
    let mut text = copy_str("Queue is full. Skipped ");
    push_str(&mut text, username);
    push_str(&mut text, "'s message.");
    ChatPayload {
        username: copy_str(SYSTEM_NAME),
        user_id: copy_str("0"),
        message_id: None,
        sent_ts: None,
        msg: text,
        color: copy_str(SYSTEM_COLOR),
        is_mod: false,
        is_broadcaster: false,
    }
}

/// The first decision of `should_process_msg`: under any policy but
/// `drop_old` the message is skipped, with a notice naming its sender
/// when verbose; under `drop_old` the reader goes on to wait for room in
/// the queue (`true`, no notice).
pub fn check_queue_policy(policy: &str, verbose: bool, payload: &ChatPayload) -> (r: (
    bool,
    Option<ChatPayload>,
))
    ensures
        r.0 == (policy@ == "drop_old"@),
        r.0 ==> r.1 is None,
        !r.0 && verbose ==> (r.1 matches Some(n) && n@ == skip_notice_view(payload.username@)),
        !r.0 && !verbose ==> r.1 is None,
{
    if !str_equal(policy, "drop_old") {
        if verbose {
            return (false, Some(skip_notice(payload.username.as_str())));
        }
        return (false, None);
    }
    (true, None)
}

/// One step of draining the broadcast while the queue is full: a message
/// from the program itself is passed over; any other replaces the message
/// waiting to be read, with a notice naming the new message's sender
/// when verbose.
pub fn drain_step(verbose: bool, current: ChatPayload, next: ChatPayload) -> (r: (
    ChatPayload,
    Option<ChatPayload>,
))
    ensures
        internal_sender(next.username@) ==> r.0@ == current@ && r.1 is None,
        !internal_sender(next.username@) ==> r.0@ == next@,
        !internal_sender(next.username@) && verbose ==> (r.1 matches Some(n) && n@
            == skip_notice_view(next.username@)),
        !internal_sender(next.username@) && !verbose ==> r.1 is None,
{
    if is_internal_sender(next.username.as_str()) {
        return (current, None);
    }
    let notice = if verbose {
        Some(skip_notice(next.username.as_str()))
    } else {
        None
    };
    (next, notice)
}

/// The reader's memory between messages: whose message it read last.
pub struct ReaderState {
    pub last_user_id: Option<String>,
}

/// The text read for a message: the bare message when the same user spoke
/// last, else `name: message`.
pub open spec fn display_text(last_user_id: Option<Seq<char>>, p: ChatView) -> Seq<char> {
    if last_user_id == Some(p.user_id) {
        p.msg
    } else {
        p.username + ": "@ + p.msg
    }
}

/// What `ReaderState::speech_for` gives: the cleaned, capped display text
/// with the unknown words, or no speech when only white space is left;
/// `None` when a pattern does not compile.
pub open spec fn speech_of(
    last_user_id: Option<Seq<char>>,
    p: ChatView,
    dict: Map<Seq<char>, Seq<char>>,
    words: Set<Seq<u8>>,
    max_chars: nat,
) -> Option<(Option<Seq<char>>, Seq<Seq<char>>)> {
    match cleaned(display_text(last_user_id, p), dict, words) {
        Some((text, unknown)) => {
            let capped = limited(text, max_chars);
            Some((if all_white(capped) { None } else { Some(capped) }, unknown))
        },
        None => None,
    }
}

impl ReaderState {
    /// A reader that has read nothing yet.
    pub fn new() -> (r: Self)
        ensures
            r.last_user_id is None,
    {
        ReaderState { last_user_id: None }
    }

    /// The text read for `payload`, remembering its sender.
    pub fn display_msg(&mut self, payload: &ChatPayload) -> (r: String)
        ensures
            r@ == display_text(old(self).last_user_id.deep_view(), payload@),
            final(self).last_user_id.deep_view() == Some(payload.user_id@),
    {
        let same = match &self.last_user_id {
            Some(id) => str_equal(id.as_str(), payload.user_id.as_str()),
            None => false,
        };
        if same {
            copy_str(payload.msg.as_str())
        } else {
            self.last_user_id = Some(copy_str(payload.user_id.as_str()));
            let mut text = copy_str(payload.username.as_str());
            push_str(&mut text, ": ");
            push_str(&mut text, payload.msg.as_str());
            text
        }
    }

    /// Turns a chat message into speech: its display text, cleaned for
    /// reading and capped at `max_chars` bytes; `None` in place of the
    /// speech when nothing but white space is left. The second result is
    /// the list of unknown words to record. The reader remembers the
    /// message's sender in every case.
    pub fn speech_for(
        &mut self,
        payload: &ChatPayload,
        dict_map: &Dictionary,
        dict_trie: &Trie<u8>,
        max_chars: usize,
    ) -> (r: Result<(Option<String>, Vec<String>), TextError>)
        ensures
            final(self).last_user_id.deep_view() == Some(payload.user_id@),
            match r {
                Ok((speech, unknown)) => speech_of(
                    old(self).last_user_id.deep_view(),
                    payload@,
                    dict_map.view(),
                    trie_words(*dict_trie),
                    max_chars as nat,
                ) == Some((speech.deep_view(), unknown@.map_values(|w: String| w@))),
                Err(e) => speech_of(
                    old(self).last_user_id.deep_view(),
                    payload@,
                    dict_map.view(),
                    trie_words(*dict_trie),
                    max_chars as nat,
                ) is None && e == TextError::InvalidPattern,
            },
    {
        let display = self.display_msg(payload);
        let (text, unknown) = clean_text(display, dict_map, dict_trie)?;
        let capped = limit_length(text, max_chars);
        if is_blank(capped.as_str()) {
            Ok((None, unknown))
        } else {
            Ok((Some(capped), unknown))
        }
    }
}

/// A message whose cleaned text fits in `max_chars` bytes is read whole:
/// the speech is exactly the cleaned display text, nothing cut and no
/// omission note; a cleaned text that is only white space gives no speech.
pub proof fn law_fitting_speech_is_whole(
    last_user_id: Option<Seq<char>>,
    p: ChatView,
    dict: Map<Seq<char>, Seq<char>>,
    words: Set<Seq<u8>>,
    max_chars: nat,
    c: Seq<char>,
    unknown: Seq<Seq<char>>,
)
    requires
        cleaned(display_text(last_user_id, p), dict, words) == Some((c, unknown)),
        encode_utf8(c).len() <= max_chars,
    ensures
        !all_white(c) ==> speech_of(last_user_id, p, dict, words, max_chars) == Some(
            (Some(c), unknown),
        ),
        all_white(c) ==> speech_of(last_user_id, p, dict, words, max_chars) == Some(
            (None::<Seq<char>>, unknown),
        ),
{
}

} // verus!
