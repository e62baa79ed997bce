//! The state of the terminal interface and how key presses change it.
//!
//! Each handler is specified by a step function on `AppView`, the state
//! as values; a handler that wants something sent to the channel returns
//! the request, and the caller sends it.

use vstd::prelude::*;
use crate::chat::{ChatPayload, ChatView, Outgoing, OutgoingView, outgoing_view, DEFAULT_USER_COLOR};
use crate::helix::BroadcasterProfile;
use crate::text::{copy_str, push_char, str_equal};

verus! {

/// The input mode, as in a modal editor.
#[derive(Clone, Copy, PartialEq, Eq, Debug, Structural)]
pub enum InputMode {
    Normal,
    Insert,
    Command,
}

/// The key presses that the interface tells apart.
#[derive(Clone, Copy, PartialEq, Eq, Debug, Structural)]
pub enum Key {
    Char(char),
    Up,
    Down,
    Esc,
    Backspace,
    Enter,
    Other,
}

/// The state of the interface.
pub struct AppState {
    pub input_text: String,
    pub mode: InputMode,
    pub logs: Vec<ChatPayload>,
    pub show_help: bool,
    pub show_details: bool,
    pub selected_index: usize,
    pub scroll_offset: u16,
    pub my_profile: BroadcasterProfile,
}

/// The state of the interface, as values.
pub struct AppView {
    pub input: Seq<char>,
    pub mode: InputMode,
    pub logs: Seq<ChatView>,
    pub show_help: bool,
    pub show_details: bool,
    pub selected_index: usize,
    pub scroll_offset: u16,
    pub profile_id: Seq<char>,
    pub profile_login: Seq<char>,
}

/// A list of chat messages, as values.
pub open spec fn logs_view(logs: Seq<ChatPayload>) -> Seq<ChatView> {
    logs.map_values(|p: ChatPayload| p@)
}

impl View for AppState {
    type V = AppView;

    open spec fn view(&self) -> AppView {
        AppView {
            input: self.input_text@,
            mode: self.mode,
            logs: logs_view(self.logs@),
            show_help: self.show_help,
            show_details: self.show_details,
            selected_index: self.selected_index,
            scroll_offset: self.scroll_offset,
            profile_id: self.my_profile.id@,
            profile_login: self.my_profile.login@,
        }
    }
}

/// The most messages that `push_log` keeps.
pub const LOG_CAPACITY: usize = 250;

/// The most messages kept after the user's own message is logged.
pub const SELF_LOG_CAPACITY: usize = 100;

/// The state that `AppState::new` gives: empty input in normal mode, no
/// messages, no popup, nothing selected or scrolled, and the placeholder
/// profile `0` / `you`.
pub open spec fn initial_view() -> AppView {
    AppView {
        input: Seq::empty(),
        mode: InputMode::Normal,
        logs: Seq::empty(),
        show_help: false,
        show_details: false,
        selected_index: 0,
        scroll_offset: 0,
        profile_id: "0"@,
        profile_login: "you"@,
    }
}

/// The last `n` entries of `s` (all of `s` when it is shorter).
pub open spec fn keep_last<T>(s: Seq<T>, n: nat) -> Seq<T> {
    if s.len() <= n {
        s
    } else {
        s.skip(s.len() - n)
    }
}

/// What `push_log` does: appends the message, keeps the newest 250, and
/// moves the selection onto the last message when it points past it.
pub open spec fn push_log_step(s: AppView, p: ChatView) -> AppView {
    let logs = keep_last(s.logs.push(p), LOG_CAPACITY as nat);
    AppView {
        logs: logs,
        selected_index: if logs.len() > 0 && s.selected_index >= logs.len() {
            (logs.len() - 1) as usize
        } else {
            s.selected_index
        },
        ..s
    }
}

/// `scroll_offset.saturating_add(1)`.
pub open spec fn scroll_up(x: u16) -> u16 {
    if x < u16::MAX {
        (x + 1) as u16
    } else {
        x
    }
}

/// `scroll_offset.saturating_sub(1)`.
pub open spec fn scroll_down(x: u16) -> u16 {
    if x > 0 {
        (x - 1) as u16
    } else {
        x
    }
}

/// What a key does in normal mode: `i` starts inserting, `:` starts a
/// command with an empty input, `k`/Up and `j`/Down scroll back and
/// forth, `G` jumps to the newest message, `h` opens the help popup.
pub open spec fn normal_step(s: AppView, key: Key) -> AppView {
    match key {
        Key::Char(c) => if c == 'i' {
            AppView { mode: InputMode::Insert, ..s }
        } else if c == ':' {
            AppView { mode: InputMode::Command, input: Seq::empty(), ..s }
        } else if c == 'k' {
            AppView { scroll_offset: scroll_up(s.scroll_offset), ..s }
        } else if c == 'j' {
            AppView { scroll_offset: scroll_down(s.scroll_offset), ..s }
        } else if c == 'G' {
            AppView { scroll_offset: 0, ..s }
        } else if c == 'h' {
            AppView { show_help: true, ..s }
        } else {
            s
        },
        Key::Up => AppView { scroll_offset: scroll_up(s.scroll_offset), ..s },
        Key::Down => AppView { scroll_offset: scroll_down(s.scroll_offset), ..s },
        _ => s,
    }
}

/// The log entry for a message the user sent: from the user's own
/// profile, in the default color, marked as the broadcaster.
pub open spec fn own_message(s: AppView) -> ChatView {
    ChatView {
        username: s.profile_login,
        user_id: s.profile_id,
        message_id: None,
        sent_ts: None,
        msg: s.input,
        color: DEFAULT_USER_COLOR@,
        is_mod: false,
        is_broadcaster: true,
    }
}

/// The input without its last character (unchanged when empty).
pub open spec fn backspaced(input: Seq<char>) -> Seq<char> {
    if input.len() > 0 {
        input.drop_last()
    } else {
        input
    }
}

/// The logs after the user's own message: appended, the oldest dropped
/// when more than 100, and all cleared when the message was `/clear`.
pub open spec fn logs_after_own(s: AppView) -> Seq<ChatView> {
    let pushed = s.logs.push(own_message(s));
    let capped = if pushed.len() > SELF_LOG_CAPACITY {
        pushed.drop_first()
    } else {
        pushed
    };
    if s.input == "/clear"@ {
        Seq::empty()
    } else {
        capped
    }
}

/// What a key does in insert mode, and what it sends: Esc returns to
/// normal mode, a character is typed, Backspace deletes, and Enter sends
/// a non-empty input as a chat message, logs it, clears the input and
/// returns to normal mode.
pub open spec fn insert_step(s: AppView, key: Key) -> (AppView, Option<OutgoingView>) {
    match key {
        Key::Esc => (AppView { mode: InputMode::Normal, ..s }, None),
        Key::Char(c) => (AppView { input: s.input.push(c), ..s }, None),
        Key::Backspace => (AppView { input: backspaced(s.input), ..s }, None),
        Key::Enter => if s.input.len() > 0 {
            (
                AppView {
                    input: Seq::empty(),
                    logs: logs_after_own(s),
                    mode: InputMode::Normal,
                    ..s
                },
                Some(OutgoingView::Chat(s.input)),
            )
        } else {
            (AppView { mode: InputMode::Normal, ..s }, None)
        },
        _ => (s, None),
    }
}

/// What a key does in command mode: whether the interface goes on, the
/// new state, and what it sends. Enter on `q` or `quit` ends the
/// interface and changes nothing; Enter on `clear` clears the chat and the
/// logs; Enter always empties the input and returns to normal mode
/// otherwise.
pub open spec fn command_step(s: AppView, key: Key) -> (bool, AppView, Option<OutgoingView>) {
    match key {
        Key::Esc => (true, AppView { mode: InputMode::Normal, ..s }, None),
        Key::Char(c) => (true, AppView { input: s.input.push(c), ..s }, None),
        Key::Backspace => (true, AppView { input: backspaced(s.input), ..s }, None),
        Key::Enter => if s.input == "q"@ || s.input == "quit"@ {
            (false, s, None)
        } else if s.input == "clear"@ {
            (
                true,
                AppView {
                    logs: Seq::empty(),
                    input: Seq::empty(),
                    mode: InputMode::Normal,
                    ..s
                },
                Some(OutgoingView::Clear),
            )
        } else {
            (true, AppView { input: Seq::empty(), mode: InputMode::Normal, ..s }, None)
        },
        _ => (true, s, None),
    }
}

/// Keys that close the help popup.
pub open spec fn closes_help(key: Key) -> bool {
    key == Key::Char('q') || key == Key::Char('h') || key == Key::Esc
}

/// What a key does in any state: while the help popup is open, only
/// closing it does anything; otherwise the key goes to the handler of the
/// current mode. Only command mode can end the interface.
pub open spec fn key_step(s: AppView, key: Key) -> (bool, AppView, Option<OutgoingView>) {
    if s.show_help {
        if closes_help(key) {
            (true, AppView { show_help: false, ..s }, None)
        } else {
            (true, s, None)
        }
    } else {
        match s.mode {
            InputMode::Normal => (true, normal_step(s, key), None),
            InputMode::Insert => {
                let (t, o) = insert_step(s, key);
                (true, t, o)
            },
            InputMode::Command => command_step(s, key),
        }
    }
}

/// std `String::pop`: removes the last character, if any.
#[verifier::external_body]
fn pop_char(s: &mut String) -> (r: Option<char>)
    ensures
        old(s)@.len() == 0 ==> r is None && final(s)@ == old(s)@,
        old(s)@.len() > 0 ==> r == Some(old(s)@.last()) && final(s)@ == old(s)@.drop_last(),
{
    s.pop()
}

impl AppState {
    /// The interface's state at start.
    pub fn new() -> (r: Self)
        ensures
            r@ == initial_view(),
    {
        let r = AppState {
            input_text: String::new(),
            mode: InputMode::Normal,
            logs: Vec::new(),
            scroll_offset: 0,
            show_help: false,
            show_details: false,
            selected_index: 0,
            my_profile: BroadcasterProfile { id: copy_str("0"), login: copy_str("you") },
        };
        assert(r@.logs =~= Seq::<ChatView>::empty());
        r
    }

    /// Logs a chat message, keeping the newest 250, and keeps the
    /// selection on a logged message.
    pub fn push_log(&mut self, log: ChatPayload)
        ensures
            final(self)@ == push_log_step(old(self)@, log@),
    {
        let ghost all = old(self)@.logs.push(log@);
        self.logs.push(log);
        proof {
            assert(logs_view(self.logs@) =~= all);
        }
        while self.logs.len() > LOG_CAPACITY
            invariant
                all.len() >= logs_view(self.logs@).len(),
                logs_view(self.logs@) == all.skip(all.len() - logs_view(self.logs@).len()),
                all.len() <= LOG_CAPACITY ==> logs_view(self.logs@).len() == all.len(),
                all.len() > LOG_CAPACITY ==> logs_view(self.logs@).len() >= LOG_CAPACITY,
                self.input_text@ == old(self)@.input,
                self.mode == old(self)@.mode,
                self.show_help == old(self)@.show_help,
                self.show_details == old(self)@.show_details,
                self.selected_index == old(self)@.selected_index,
                self.scroll_offset == old(self)@.scroll_offset,
                self.my_profile.id@ == old(self)@.profile_id,
                self.my_profile.login@ == old(self)@.profile_login,
            decreases self.logs.len(),
        {
            let ghost before = self.logs@;
            self.logs.remove(0);
            proof {
                assert(logs_view(self.logs@) =~= logs_view(before).drop_first());
                assert(all.skip(all.len() - logs_view(before).len()).drop_first() =~= all.skip(
                    all.len() - logs_view(self.logs@).len(),
                ));
            }
        }
        proof {
            if all.len() <= LOG_CAPACITY {
                assert(all.skip(0) =~= all);
            }
            assert(logs_view(self.logs@) == keep_last(all, LOG_CAPACITY as nat));
        }
        if !self.logs.is_empty() && self.selected_index >= self.logs.len() {
            self.selected_index = self.logs.len() - 1;
        }
    }

    fn log_own_message(&mut self)
        ensures
            logs_view(final(self).logs@) == logs_after_own(old(self)@),
            final(self).input_text == old(self).input_text,
            final(self).mode == old(self).mode,
            final(self).show_help == old(self).show_help,
            final(self).show_details == old(self).show_details,
            final(self).selected_index == old(self).selected_index,
            final(self).scroll_offset == old(self).scroll_offset,
            final(self).my_profile == old(self).my_profile,
    {
        let entry = ChatPayload {
            username: copy_str(self.my_profile.login.as_str()),
            user_id: copy_str(self.my_profile.id.as_str()),
            message_id: None,
            sent_ts: None,
            msg: copy_str(self.input_text.as_str()),
            color: copy_str(DEFAULT_USER_COLOR),
            is_mod: false,
            is_broadcaster: true,
        };
        self.logs.push(entry);
        assert(logs_view(self.logs@) =~= old(self)@.logs.push(own_message(old(self)@)));
        if self.logs.len() > SELF_LOG_CAPACITY {
            self.logs.remove(0);
            assert(logs_view(self.logs@) =~= old(self)@.logs.push(
                own_message(old(self)@),
            ).drop_first());
        }
        if str_equal(self.input_text.as_str(), "/clear") {
            self.logs.clear();
            assert(logs_view(self.logs@) =~= Seq::<ChatView>::empty());
        }
    }
}

/// Handles a key in normal mode.
pub fn handle_normal(key: Key, app_state: &mut AppState)
    ensures
        final(app_state)@ == normal_step(old(app_state)@, key),
{
    match key {
        Key::Char('i') => {
            app_state.mode = InputMode::Insert;
        },
        Key::Char(':') => {
            app_state.mode = InputMode::Command;
            app_state.input_text = String::new();
        },
        Key::Char('k') | Key::Up => {
            app_state.scroll_offset = app_state.scroll_offset.saturating_add(1);
        },
        Key::Char('j') | Key::Down => {
            app_state.scroll_offset = app_state.scroll_offset.saturating_sub(1);
        },
        Key::Char('G') => {
            app_state.scroll_offset = 0;
        },
        Key::Char('h') => {
            if !app_state.show_help {
                app_state.show_help = true;
            }
        },
        _ => {},
    }
}

/// Handles a key in insert mode; gives the chat message to send, if any.
pub fn handle_insert(key: Key, app_state: &mut AppState) -> (r: Option<Outgoing>)
    ensures
        (final(app_state)@, outgoing_view(r)) == insert_step(old(app_state)@, key),
{
    match key {
        Key::Esc => {
            app_state.mode = InputMode::Normal;
            None
        },
        Key::Char(c) => {
            push_char(&mut app_state.input_text, c);
            None
        },
        Key::Backspace => {
            pop_char(&mut app_state.input_text);
            None
        },
        Key::Enter => {
            let mut out = None;
            if !app_state.input_text.as_str().is_empty() {
                out = Some(Outgoing::Chat(copy_str(app_state.input_text.as_str())));
                app_state.log_own_message();
                app_state.input_text = String::new();
            }
            app_state.mode = InputMode::Normal;
            out
        },
        _ => None,
    }
}

/// Handles a key in command mode; gives whether the interface goes on and
/// what to send, if anything.
pub fn handle_command(key: Key, app_state: &mut AppState) -> (r: (bool, Option<Outgoing>))
    ensures
        (r.0, final(app_state)@, outgoing_view(r.1)) == command_step(old(app_state)@, key),
{
    match key {
        Key::Esc => {
            app_state.mode = InputMode::Normal;
            (true, None)
        },
        Key::Char(c) => {
            push_char(&mut app_state.input_text, c);
            (true, None)
        },
        Key::Backspace => {
            pop_char(&mut app_state.input_text);
            (true, None)
        },
        Key::Enter => {
            let input = app_state.input_text.as_str();
            if str_equal(input, "q") || str_equal(input, "quit") {
                return (false, None);
            }
            let mut out = None;
            if str_equal(input, "clear") {
                out = Some(Outgoing::Clear);
                app_state.logs.clear();
                assert(logs_view(app_state.logs@) =~= Seq::<ChatView>::empty());
            }
            app_state.input_text = String::new();
            app_state.mode = InputMode::Normal;
            (true, out)
        },
        _ => (true, None),
    }
}

/// Handles a key; gives whether the interface goes on and what to send,
/// if anything.
pub fn handle_key(key: Key, app_state: &mut AppState) -> (r: (bool, Option<Outgoing>))
    ensures
        (r.0, final(app_state)@, outgoing_view(r.1)) == key_step(old(app_state)@, key),
{
    if app_state.show_help {
        match key {
            Key::Char('q') | Key::Char('h') | Key::Esc => {
                app_state.show_help = false;
                return (true, None);
            },
            _ => {},
        }
        return (true, None);
    }
    match app_state.mode {
        InputMode::Normal => {
            handle_normal(key, app_state);
            (true, None)
        },
        InputMode::Insert => {
            let out = handle_insert(key, app_state);
            (true, out)
        },
        InputMode::Command => handle_command(key, app_state),
    }
}

/// Logging a message keeps at most 250 messages, the newest last, and
/// leaves the selection on a logged message.
pub proof fn law_push_log_bounded(s: AppView, p: ChatView)
    ensures
        push_log_step(s, p).logs.len() <= LOG_CAPACITY,
        push_log_step(s, p).logs.last() == p,
        push_log_step(s, p).selected_index < push_log_step(s, p).logs.len(),
{
}

/// No key press takes the log past 250 messages.
pub proof fn law_key_keeps_log_bounded(s: AppView, key: Key)
    requires
        s.logs.len() <= LOG_CAPACITY,
    ensures
        key_step(s, key).1.logs.len() <= LOG_CAPACITY,
{
}

/// While the help popup is open a key sends nothing and changes nothing
/// but, for `q`, `h` and Esc, closing the popup.
pub proof fn law_help_popup_is_modal(s: AppView, key: Key)
    requires
        s.show_help,
    ensures
        key_step(s, key).0,
        key_step(s, key).2 is None,
        key_step(s, key).1 == (AppView { show_help: !closes_help(key), ..s }),
{
}

/// The interface ends only on Enter in command mode with the input `q`
/// or `quit`, and then leaves the state as it was.
pub proof fn law_only_quit_command_ends(s: AppView, key: Key)
    ensures
        !key_step(s, key).0 <==> (!s.show_help && s.mode == InputMode::Command && key
            == Key::Enter && (s.input == "q"@ || s.input == "quit"@)),
        !key_step(s, key).0 ==> key_step(s, key).1 == s,
{
}

/// Only Enter sends anything: a non-empty chat line from insert mode, or
/// the clear request from the `clear` command.
pub proof fn law_only_enter_sends(s: AppView, key: Key)
    ensures
        key_step(s, key).2 is Some ==> key == Key::Enter,
        key_step(s, key).2 == Some(OutgoingView::Clear) ==> s.mode == InputMode::Command
            && s.input == "clear"@,
        (key_step(s, key).2 matches Some(OutgoingView::Chat(m)) ==> s.mode == InputMode::Insert
            && m == s.input && m.len() > 0),
{
}

/// While typing (insert or command mode, no popup), Backspace keeps the
/// interface going, sends nothing, and only deletes the last character of
/// the input (nothing when the input is empty).
pub proof fn law_backspace_deletes_last_char(s: AppView)
    requires
        !s.show_help,
        s.mode == InputMode::Insert || s.mode == InputMode::Command,
    ensures
        key_step(s, Key::Backspace) == (
            true,
            AppView {
                input: if s.input.len() > 0 {
                    s.input.take(s.input.len() - 1)
                } else {
                    s.input
                },
                ..s
            },
            None::<OutgoingView>,
        ),
{
    if s.input.len() > 0 {
        assert(s.input.drop_last() =~= s.input.take(s.input.len() - 1));
    }
}

/// While typing (insert or command mode, no popup), a character key keeps
/// the interface going, sends nothing, and only appends the character to
/// the input.
pub proof fn law_typing_appends_char(s: AppView, c: char)
    requires
        !s.show_help,
        s.mode == InputMode::Insert || s.mode == InputMode::Command,
    ensures
        key_step(s, Key::Char(c)) == (true, AppView { input: s.input + seq![c], ..s }, None::<
            OutgoingView,
        >),
{
    assert(s.input.push(c) =~= s.input + seq![c]);
}

/// While typing, Backspace undoes the character just typed: the state
/// comes back to what it was.
pub proof fn law_backspace_undoes_typing(s: AppView, c: char)
    requires
        !s.show_help,
        s.mode == InputMode::Insert || s.mode == InputMode::Command,
    ensures
        key_step(key_step(s, Key::Char(c)).1, Key::Backspace).1 == s,
{
    assert(s.input.push(c).drop_last() =~= s.input);
}

} // verus!
