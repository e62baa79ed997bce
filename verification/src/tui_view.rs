//! What the terminal interface shows: the log line format, colors, the
//! visible window of the chat log, the details pane and the input area.
//! Drawing itself is left to the terminal side.

use vstd::prelude::*;
use vstd::utf8::{encode_utf8, is_char_boundary};
use std::fmt::Write;
use crate::chat::{ChatPayload, ChatView, bool_text};
use crate::text::{chars_of, copy_str, push_char, push_str, str_equal, string_of_range};
use crate::tui_state::{AppState, AppView, InputMode, logs_view};

verus! {

/// A color that the interface can draw: a 24-bit color or plain white.
#[derive(Clone, Copy, PartialEq, Eq, Debug, Structural)]
pub enum HexColor {
    Rgb(u8, u8, u8),
    White,
}

/// The value of an ASCII hexadecimal digit.
pub open spec fn hex_digit_value(b: u8) -> Option<nat> {
    if 48 <= b <= 57 {
        Some((b - 48) as nat)
    } else if 65 <= b <= 70 {
        Some((b - 55) as nat)
    } else if 97 <= b <= 102 {
        Some((b - 87) as nat)
    } else {
        None
    }
}

/// `u8::from_str_radix` in base 16 on a two-byte text: an optional `+`
/// and one digit, or two digits.
pub open spec fn hex_pair(b0: u8, b1: u8) -> Option<u8> {
    if b0 == 43 {
        match hex_digit_value(b1) {
            Some(v) => Some(v as u8),
            None => None,
        }
    } else {
        match (hex_digit_value(b0), hex_digit_value(b1)) {
            (Some(x), Some(y)) => Some((16 * x + y) as u8),
            _ => None,
        }
    }
}

/// The color that `parse_hex_color` reads from UTF-8 bytes `b`: `#RRGGBB`
/// (seven bytes starting with `#`) with three readable pairs gives that
/// color; anything else is white.
pub open spec fn hex_color_of(b: Seq<u8>) -> HexColor {
    if b.len() == 7 && b[0] == 35 {
        match (hex_pair(b[1], b[2]), hex_pair(b[3], b[4]), hex_pair(b[5], b[6])) {
            (Some(r), Some(g), Some(bl)) => HexColor::Rgb(r, g, bl),
            _ => HexColor::White,
        }
    } else {
        HexColor::White
    }
}

/// The texts on which `parse_hex_color` can slice its pairs: a seven-byte
/// text that starts with `#` must have character boundaries at bytes 3
/// and 5 (elsewhere the pairs are not sliced).
pub open spec fn hex_color_sliceable(b: Seq<u8>) -> bool {
    b.len() == 7 && b[0] == 35 ==> is_char_boundary(b, 3) && is_char_boundary(b, 5)
}

fn hex_digit(b: u8) -> (r: Option<u8>)
    ensures
        match r {
            Some(v) => hex_digit_value(b) == Some(v as nat),
            None => hex_digit_value(b) is None,
        },
{
    if 48 <= b && b <= 57 {
        Some(b - 48)
    } else if 65 <= b && b <= 70 {
        Some(b - 55)
    } else if 97 <= b && b <= 102 {
        Some(b - 87)
    } else {
        None
    }
}

fn hex_pair_value(b0: u8, b1: u8) -> (r: Option<u8>)
    ensures
        r == hex_pair(b0, b1),
{
    if b0 == 43 {
        match hex_digit(b1) {
            Some(v) => Some(v),
            None => None,
        }
    } else {
        match (hex_digit(b0), hex_digit(b1)) {
            (Some(x), Some(y)) => Some(16 * x + y),
            _ => None,
        }
    }
}

/// Reads a `#RRGGBB` color; white when the text is not one.
pub fn parse_hex_color(hex: &str) -> (r: HexColor)
    requires
        hex_color_sliceable(encode_utf8(hex@)),
    ensures
        r == hex_color_of(encode_utf8(hex@)),
{
    let b = hex.as_bytes();
    if b.len() == 7 && b[0] == 35 {
        match (hex_pair_value(b[1], b[2]), hex_pair_value(b[3], b[4]), hex_pair_value(b[5], b[6])) {
            (Some(r), Some(g), Some(bl)) => HexColor::Rgb(r, g, bl),
            _ => HexColor::White,
        }
    } else {
        HexColor::White
    }
}

/// The log line of a chat message: `color|is_mod|is_broadcaster|name: text`.
pub open spec fn log_entry_text(p: ChatView) -> Seq<char> {
    p.color + "|"@ + bool_text(p.is_mod) + "|"@ + bool_text(p.is_broadcaster) + "|"@ + p.username
        + ": "@ + p.msg
}

/// Writes the log line of a chat message.
pub fn format_log_entry(payload: &ChatPayload) -> (r: String)
    ensures
        r@ == log_entry_text(payload@),
{
    let mut s = copy_str(payload.color.as_str());
    push_str(&mut s, "|");
    if payload.is_mod {
        push_str(&mut s, "true");
    } else {
        push_str(&mut s, "false");
    }
    push_str(&mut s, "|");
    if payload.is_broadcaster {
        push_str(&mut s, "true");
    } else {
        push_str(&mut s, "false");
    }
    push_str(&mut s, "|");
    push_str(&mut s, payload.username.as_str());
    push_str(&mut s, ": ");
    push_str(&mut s, payload.msg.as_str());
    assert(s@ =~= log_entry_text(payload@));
    s
}

/// The parts of `s` before and after the first `c`, or `None` without one.
pub open spec fn split_first(s: Seq<char>, c: char) -> Option<(Seq<char>, Seq<char>)>
    decreases s.len(),
{
    if s.len() == 0 {
        None
    } else if s[0] == c {
        Some((Seq::empty(), s.drop_first()))
    } else {
        match split_first(s.drop_first(), c) {
            Some((a, b)) => Some((seq![s[0]] + a, b)),
            None => None,
        }
    }
}

/// The parts of `s` before and after the first `": "`, or `None` without one.
pub open spec fn split_name(s: Seq<char>) -> Option<(Seq<char>, Seq<char>)>
    decreases s.len(),
{
    if s.len() < 2 {
        None
    } else if s[0] == ':' && s[1] == ' ' {
        Some((Seq::empty(), s.skip(2)))
    } else {
        match split_name(s.drop_first()) {
            Some((a, b)) => Some((seq![s[0]] + a, b)),
            None => None,
        }
    }
}

/// A log line as the chat log shows it.
#[derive(Clone, Debug)]
pub enum LogLine {
    /// A line in the log format, shown with badges and a colored name.
    Styled { color_hex: String, is_mod: bool, is_broadcaster: bool, name: String, msg: String },
    /// Any other line, shown as it is.
    Raw(String),
}

/// A log line as the chat log shows it, as values.
pub enum LogLineView {
    Styled {
        color_hex: Seq<char>,
        is_mod: bool,
        is_broadcaster: bool,
        name: Seq<char>,
        msg: Seq<char>,
    },
    Raw(Seq<char>),
}

impl View for LogLine {
    type V = LogLineView;

    open spec fn view(&self) -> LogLineView {
        match self {
            LogLine::Styled { color_hex, is_mod, is_broadcaster, name, msg } => LogLineView::Styled {
                color_hex: color_hex@,
                is_mod: *is_mod,
                is_broadcaster: *is_broadcaster,
                name: name@,
                msg: msg@,
            },
            LogLine::Raw(s) => LogLineView::Raw(s@),
        }
    }
}

/// How `get_items` reads a log line: split at the first three `|` into
/// color, moderator flag, broadcaster flag and the rest (each flag is on
/// only when it reads `true`), and the rest at its first `": "` into name
/// and text; a line that does not split so is shown raw.
pub open spec fn log_line_of(s: Seq<char>) -> LogLineView {
    match split_first(s, '|') {
        Some((p0, r0)) => match split_first(r0, '|') {
            Some((p1, r1)) => match split_first(r1, '|') {
                Some((p2, p3)) => match split_name(p3) {
                    Some((name, msg)) => LogLineView::Styled {
                        color_hex: p0,
                        is_mod: p1 == "true"@,
                        is_broadcaster: p2 == "true"@,
                        name: name,
                        msg: msg,
                    },
                    None => LogLineView::Raw(s),
                },
                None => LogLineView::Raw(s),
            },
            None => LogLineView::Raw(s),
        },
        None => LogLineView::Raw(s),
    }
}

proof fn lemma_split_first_at(s: Seq<char>, c: char, i: int)
    requires
        0 <= i < s.len(),
        s[i] == c,
        forall|j: int| 0 <= j < i ==> s[j] != c,
    ensures
        split_first(s, c) == Some((s.take(i), s.skip(i + 1))),
    decreases i,
{
    if i == 0 {
        assert(s.take(0) =~= Seq::<char>::empty());
        assert(s.skip(1) =~= s.drop_first());
    } else {
        lemma_split_first_at(s.drop_first(), c, i - 1);
        assert(seq![s[0]] + s.drop_first().take(i - 1) =~= s.take(i));
        assert(s.drop_first().skip(i) =~= s.skip(i + 1));
    }
}

proof fn lemma_split_first_none(s: Seq<char>, c: char)
    requires
        !s.contains(c),
    ensures
        split_first(s, c) is None,
    decreases s.len(),
{
    if s.len() > 0 {
        assert(s[0] != c);
        assert forall|j: int| 0 <= j < s.drop_first().len() implies s.drop_first()[j] != c by {
            assert(s.drop_first()[j] == s[j + 1]);
        }
        lemma_split_first_none(s.drop_first(), c);
    }
}

/// `s` holds `": "` at position `i`.
pub open spec fn name_sep_at(s: Seq<char>, i: int) -> bool {
    0 <= i && i + 1 < s.len() && s[i] == ':' && s[i + 1] == ' '
}

proof fn lemma_split_name_at(s: Seq<char>, i: int)
    requires
        name_sep_at(s, i),
        forall|j: int| 0 <= j < i ==> !#[trigger] name_sep_at(s, j),
    ensures
        split_name(s) == Some((s.take(i), s.skip(i + 2))),
    decreases i,
{
    if i == 0 {
        assert(s.take(0) =~= Seq::<char>::empty());
    } else {
        assert(!name_sep_at(s, 0));
        assert forall|j: int| 0 <= j < i - 1 implies !#[trigger] name_sep_at(s.drop_first(), j) by {
            assert(!name_sep_at(s, j + 1));
        }
        lemma_split_name_at(s.drop_first(), i - 1);
        assert(seq![s[0]] + s.drop_first().take(i - 1) =~= s.take(i));
        assert(s.drop_first().skip(i + 1) =~= s.skip(i + 2));
    }
}

proof fn lemma_split_name_none(s: Seq<char>)
    requires
        forall|j: int| !#[trigger] name_sep_at(s, j),
    ensures
        split_name(s) is None,
    decreases s.len(),
{
    if s.len() >= 2 {
        assert(!name_sep_at(s, 0));
        assert forall|j: int| !#[trigger] name_sep_at(s.drop_first(), j) by {
            assert(!name_sep_at(s, j + 1));
        }
        lemma_split_name_none(s.drop_first());
    }
}

fn find_char(v: &Vec<char>, from: usize, c: char) -> (r: Option<usize>)
    requires
        from <= v.len(),
    ensures
        match r {
            Some(i) => from <= i < v.len() && v@[i as int] == c && forall|j: int|
                from <= j < i ==> v@[j] != c,
            None => forall|j: int| from <= j < v.len() ==> v@[j] != c,
        },
{
    let mut i = from;
    while i < v.len()
        invariant
            from <= i <= v.len(),
            forall|j: int| from <= j < i ==> v@[j] != c,
        decreases v.len() - i,
    {
        if v[i] == c {
            return Some(i);
        }
        i = i + 1;
    }
    None
}

fn find_name_sep(v: &Vec<char>, from: usize) -> (r: Option<usize>)
    requires
        from <= v.len(),
    ensures
        match r {
            Some(i) => from <= i && name_sep_at(v@, i as int) && forall|j: int|
                from <= j < i ==> !#[trigger] name_sep_at(v@, j),
            None => forall|j: int| from <= j ==> !#[trigger] name_sep_at(v@, j),
        },
{
    let mut i = from;
    while i < v.len() && v.len() - i >= 2
        invariant
            from <= i,
            i <= v.len(),
            forall|j: int| from <= j < i ==> !#[trigger] name_sep_at(v@, j),
        decreases v.len() - i,
    {
        if v[i] == ':' && v[i + 1] == ' ' {
            return Some(i);
        }
        i = i + 1;
    }
    None
}

/// Reads a log line for display (the line parsing of `get_items`).
pub fn parse_log_entry(log: &str) -> (r: LogLine)
    ensures
        r@ == log_line_of(log@),
{
    let v = chars_of(log);
    let ghost s = v@;
    let n = v.len();
    let i0 = match find_char(&v, 0, '|') {
        Some(i) => i,
        None => {
            proof {
                lemma_split_first_none(s, '|');
            }
            return LogLine::Raw(copy_str(log));
        },
    };
    proof {
        lemma_split_first_at(s, '|', i0 as int);
    }
    let ghost r0 = s.skip(i0 + 1);
    let i1 = match find_char(&v, i0 + 1, '|') {
        Some(i) => i,
        None => {
            proof {
                assert forall|j: int| 0 <= j < r0.len() implies r0[j] != '|' by {
                    assert(r0[j] == s[i0 + 1 + j]);
                }
                lemma_split_first_none(r0, '|');
            }
            return LogLine::Raw(copy_str(log));
        },
    };
    proof {
        assert forall|j: int| 0 <= j < i1 - (i0 + 1) implies r0[j] != '|' by {
            assert(r0[j] == s[i0 + 1 + j]);
        }
        lemma_split_first_at(r0, '|', i1 - (i0 + 1));
        assert(r0.take(i1 - (i0 + 1)) =~= s.subrange(i0 + 1, i1 as int));
        assert(r0.skip(i1 - (i0 + 1) + 1) =~= s.skip(i1 + 1));
    }
    let ghost r1 = s.skip(i1 + 1);
    let i2 = match find_char(&v, i1 + 1, '|') {
        Some(i) => i,
        None => {
            proof {
                assert forall|j: int| 0 <= j < r1.len() implies r1[j] != '|' by {
                    assert(r1[j] == s[i1 + 1 + j]);
                }
                lemma_split_first_none(r1, '|');
            }
            return LogLine::Raw(copy_str(log));
        },
    };
    proof {
        assert forall|j: int| 0 <= j < i2 - (i1 + 1) implies r1[j] != '|' by {
            assert(r1[j] == s[i1 + 1 + j]);
        }
        lemma_split_first_at(r1, '|', i2 - (i1 + 1));
        assert(r1.take(i2 - (i1 + 1)) =~= s.subrange(i1 + 1, i2 as int));
        assert(r1.skip(i2 - (i1 + 1) + 1) =~= s.skip(i2 + 1));
    }
    let ghost p3 = s.skip(i2 + 1);
    let i3 = match find_name_sep(&v, i2 + 1) {
        Some(i) => i,
        None => {
            proof {
                assert forall|j: int| !#[trigger] name_sep_at(p3, j) by {
                    if name_sep_at(p3, j) {
                        assert(name_sep_at(s, i2 + 1 + j));
                    }
                }
                lemma_split_name_none(p3);
            }
            return LogLine::Raw(copy_str(log));
        },
    };
    proof {
        assert(name_sep_at(p3, i3 - (i2 + 1)));
        assert forall|j: int| 0 <= j < i3 - (i2 + 1) implies !#[trigger] name_sep_at(p3, j) by {
            if name_sep_at(p3, j) {
                assert(name_sep_at(s, i2 + 1 + j));
            }
        }
        lemma_split_name_at(p3, i3 - (i2 + 1));
        assert(p3.take(i3 - (i2 + 1)) =~= s.subrange(i2 + 1, i3 as int));
        assert(p3.skip(i3 - (i2 + 1) + 2) =~= s.skip(i3 + 2));
    }
    let color_hex = string_of_range(&v, 0, i0);
    let mod_text = string_of_range(&v, i0 + 1, i1);
    let broadcaster_text = string_of_range(&v, i1 + 1, i2);
    let name = string_of_range(&v, i2 + 1, i3);
    let msg = string_of_range(&v, i3 + 2, n);
    proof {
        assert(s.take(i0 as int) =~= s.subrange(0, i0 as int));
        assert(s.skip(i3 + 2) =~= s.subrange(i3 + 2, n as int));
    }
    LogLine::Styled {
        color_hex,
        is_mod: str_equal(mod_text.as_str(), "true"),
        is_broadcaster: str_equal(broadcaster_text.as_str(), "true"),
        name,
        msg,
    }
}

proof fn lemma_split_first_concat(a: Seq<char>, c: char, b: Seq<char>)
    requires
        !a.contains(c),
    ensures
        split_first(a + seq![c] + b, c) == Some((a, b)),
{
    let s = a + seq![c] + b;
    assert(s[a.len() as int] == c);
    assert forall|j: int| 0 <= j < a.len() implies s[j] != c by {
        assert(s[j] == a[j]);
    }
    lemma_split_first_at(s, c, a.len() as int);
    assert(s.take(a.len() as int) =~= a);
    assert(s.skip(a.len() as int + 1) =~= b);
}

/// A text that holds no `": "`.
pub open spec fn has_no_name_sep(s: Seq<char>) -> bool {
    forall|j: int| !#[trigger] name_sep_at(s, j)
}

/// A chat message whose color holds no `|` and whose sender name holds no
/// `": "` comes back intact from its log line: the log format can be read
/// back.
pub proof fn law_log_entry_round_trip(p: ChatView)
    requires
        !p.color.contains('|'),
        has_no_name_sep(p.username),
    ensures
        log_line_of(log_entry_text(p)) == (LogLineView::Styled {
            color_hex: p.color,
            is_mod: p.is_mod,
            is_broadcaster: p.is_broadcaster,
            name: p.username,
            msg: p.msg,
        }),
{
    reveal_strlit("true");
    reveal_strlit("false");
    reveal_strlit("|");
    reveal_strlit(": ");
    let m = bool_text(p.is_mod);
    let bc = bool_text(p.is_broadcaster);
    let rest = p.username + ": "@ + p.msg;
    assert(!m.contains('|')) by {
        if m.contains('|') {
            let j = choose|j: int| 0 <= j < m.len() && m[j] == '|';
        }
    }
    assert(!bc.contains('|')) by {
        if bc.contains('|') {
            let j = choose|j: int| 0 <= j < bc.len() && bc[j] == '|';
        }
    }
    let r1 = bc + seq!['|'] + rest;
    let r0 = m + seq!['|'] + r1;
    let s = p.color + seq!['|'] + r0;
    assert(log_entry_text(p) =~= s);
    lemma_split_first_concat(p.color, '|', r0);
    lemma_split_first_concat(m, '|', r1);
    lemma_split_first_concat(bc, '|', rest);
    let u = p.username;
    let k = u.len() as int;
    assert(name_sep_at(rest, k));
    assert forall|j: int| 0 <= j < k implies !#[trigger] name_sep_at(rest, j) by {
        if name_sep_at(rest, j) {
            if j + 1 < k {
                assert(name_sep_at(u, j));
            } else {
                assert(rest[j + 1] == ':');
            }
        }
    }
    lemma_split_name_at(rest, k);
    assert(rest.take(k) =~= u);
    assert(rest.skip(k + 2) =~= p.msg);
}

/// The part of the chat log in view: with `total` messages, a pane
/// `height` rows tall (two of them borders) and the view scrolled back by
/// `scroll_offset` (no further than the oldest message allows), the
/// messages from `start` up to `end`.
pub open spec fn chat_window_of(total: nat, height: nat, scroll_offset: nat) -> (nat, nat) {
    let rows: nat = if height >= 2 {
        (height - 2) as nat
    } else {
        0
    };
    let max_scroll: nat = if total >= rows {
        (total - rows) as nat
    } else {
        0
    };
    let offset: nat = if scroll_offset <= max_scroll {
        scroll_offset
    } else {
        max_scroll
    };
    let end: nat = (total - offset) as nat;
    let start: nat = if end >= rows {
        (end - rows) as nat
    } else {
        0
    };
    (start, end)
}

/// The messages in view of the chat log (the arithmetic of
/// `render_chat_log`).
pub fn chat_window(total: usize, height: u16, scroll_offset: u16) -> (r: (usize, usize))
    ensures
        (r.0 as nat, r.1 as nat) == chat_window_of(total as nat, height as nat, scroll_offset as nat),
        r.0 <= r.1 <= total,
{
    let rows = height.saturating_sub(2) as usize;
    let max_scroll = total.saturating_sub(rows);
    let offset = if (scroll_offset as usize) < max_scroll {
        scroll_offset as usize
    } else {
        max_scroll
    };
    let end = total.saturating_sub(offset);
    let start = end.saturating_sub(rows);
    (start, end)
}

/// The window of the chat log always shows as many messages as fit: the
/// newest ones when not scrolled, and never more than the pane holds.
pub proof fn law_chat_window_full(total: nat, height: nat, scroll_offset: nat)
    ensures
        ({
            let (start, end) = chat_window_of(total, height, scroll_offset);
            let rows: nat = if height >= 2 {
                (height - 2) as nat
            } else {
                0
            };
            &&& start <= end <= total
            &&& end - start == if total <= rows {
                total
            } else {
                rows
            }
            &&& scroll_offset == 0 ==> end == total
        }),
{
}

/// chrono: the UTC time `millis` milliseconds after the Unix epoch,
/// rendered with the format string `fmt`; `None` when the time is out of
/// range or the format does not render.
pub uninterp spec fn utc_time_text(millis: i64, fmt: Seq<char>) -> Option<Seq<char>>;

/// `chrono::DateTime::<Utc>::from_timestamp_millis(millis)` rendered with
/// `DateTime::format(fmt)`; the result is named by `utc_time_text`.
/// `None` stands for an out-of-range time or a format that fails to
/// render.
#[verifier::external_body]
fn utc_time(millis: i64, fmt: &str) -> (r: Option<String>)
    ensures
        r.deep_view() == utc_time_text(millis, fmt@),
{
    match chrono::DateTime::<chrono::Utc>::from_timestamp_millis(millis) {
        Some(dt) => {
            let mut s = String::new();
            match write!(s, "{}", dt.format(fmt)) {
                Ok(()) => Some(s),
                Err(_) => None,
            }
        },
        None => None,
    }
}

/// The format of the sending time in the details pane.
pub const SENT_TIME_FORMAT: &'static str = "%Y-%m-%d %H:%M:%S%.3f UTC";

/// The sending time as the details pane shows it, `-` when unknown.
pub open spec fn sent_time_text(sent_ts: Option<i64>) -> Seq<char> {
    match sent_ts {
        Some(ms) => match utc_time_text(ms, SENT_TIME_FORMAT@) {
            Some(t) => t,
            None => "-"@,
        },
        None => "-"@,
    }
}

/// The details of one message, with its sending time already rendered.
pub open spec fn message_details_text(m: ChatView, sent_time: Seq<char>) -> Seq<char> {
    "user_id: "@ + m.user_id + "\nmessage_id: "@ + match m.message_id {
        Some(id) => id,
        None => "-"@,
    } + "\nsent_ts: "@ + sent_time
}

/// The text of the details pane: the selected message's user id, message
/// id and sending time, or a note that nothing is selected.
pub open spec fn details_of(s: AppView) -> Seq<char> {
    if s.selected_index < s.logs.len() {
        let m = s.logs[s.selected_index as int];
        message_details_text(m, sent_time_text(m.sent_ts))
    } else {
        "No message selected."@
    }
}

/// The details of one message, given its sending time as rendered (`None`
/// when there is none to show, which reads `-`).
pub fn message_details(m: &ChatPayload, sent_time: Option<String>) -> (r: String)
    ensures
        r@ == message_details_text(
            m@,
            match sent_time {
                Some(t) => t@,
                None => "-"@,
            },
        ),
{
    let mut s = copy_str("user_id: ");
    push_str(&mut s, m.user_id.as_str());
    push_str(&mut s, "\nmessage_id: ");
    match &m.message_id {
        Some(id) => push_str(&mut s, id.as_str()),
        None => push_str(&mut s, "-"),
    }
    push_str(&mut s, "\nsent_ts: ");
    match sent_time {
        Some(t) => push_str(&mut s, t.as_str()),
        None => push_str(&mut s, "-"),
    }
    s
}

/// The text of the details pane (`render_details`).
pub fn details_text(app_state: &AppState) -> (r: String)
    ensures
        r@ == details_of(app_state@),
{
    if app_state.selected_index < app_state.logs.len() {
        let m = &app_state.logs[app_state.selected_index];
        let sent_time = match m.sent_ts {
            Some(ms) => utc_time(ms, SENT_TIME_FORMAT),
            None => None,
        };
        assert(app_state@.logs[app_state.selected_index as int] == m@);
        message_details(m, sent_time)
    } else {
        copy_str("No message selected.")
    }
}

/// The border color of the input area.
#[derive(Clone, Copy, PartialEq, Eq, Debug, Structural)]
pub enum ModeColor {
    Blue,
    Green,
    Magenta,
}

/// What the input area shows in each mode: its title, its color and its
/// text (a command is shown after a `:`).
pub open spec fn input_area_of(mode: InputMode, input: Seq<char>) -> (Seq<char>, ModeColor, Seq<char>) {
    match mode {
        InputMode::Normal => ("NORMAL"@, ModeColor::Blue, input),
        InputMode::Insert => ("INSERT"@, ModeColor::Green, input),
        InputMode::Command => ("COMMAND"@, ModeColor::Magenta, seq![':'] + input),
    }
}

/// The title, color and text of the input area (`render_input_area`).
pub fn input_area_view(mode: InputMode, input_text: &str) -> (r: (String, ModeColor, String))
    ensures
        (r.0@, r.1, r.2@) == input_area_of(mode, input_text@),
{
    match mode {
        InputMode::Normal => (copy_str("NORMAL"), ModeColor::Blue, copy_str(input_text)),
        InputMode::Insert => (copy_str("INSERT"), ModeColor::Green, copy_str(input_text)),
        InputMode::Command => {
            let mut t = String::new();
            push_char(&mut t, ':');
            push_str(&mut t, input_text);
            assert(t@ =~= seq![':'] + input_text@);
            (copy_str("COMMAND"), ModeColor::Magenta, t)
        },
    }
}

/// Where the cursor stands in the input area, counted from its left edge
/// before the typed text: one column in insert mode, two (after the `:`)
/// in command mode, and no cursor in normal mode.
pub fn cursor_column_offset(mode: InputMode) -> (r: Option<u16>)
    ensures
        mode == InputMode::Insert ==> r == Some(1u16),
        mode == InputMode::Command ==> r == Some(2u16),
        mode == InputMode::Normal ==> r is None,
{
    match mode {
        InputMode::Insert => Some(1),
        InputMode::Command => Some(2),
        InputMode::Normal => None,
    }
}

/// The percentages of a centered popup along one axis: the margin before,
/// the popup, and the margin after (`centered_rect`).
pub fn centered_percentages(percent: u16) -> (r: (u16, u16, u16))
    requires
        percent <= 100,
    ensures
        r == ((100 - percent) as u16 / 2, percent, (100 - percent) as u16 / 2),
{
    ((100 - percent) / 2, percent, (100 - percent) / 2)
}

/// The key column of a help line: two spaces, the key padded with spaces
/// to seven characters.
pub open spec fn help_key_text(key: Seq<char>) -> Seq<char> {
    key + Seq::new(
        if key.len() < 7 {
            (7 - key.len()) as nat
        } else {
            0
        },
        |i: int| ' ',
    )
}

/// The three pieces of a help line: an indent of two spaces, the key
/// padded to seven characters (`{:<7}`), and `": "` before the description.
pub fn create_help_line(key: &str, desc: &str) -> (r: (String, String, String))
    ensures
        r.0@ == "  "@,
        r.1@ == help_key_text(key@),
        r.2@ == ": "@ + desc@,
{
    let mut s = copy_str(key);
    let v = chars_of(key);
    let mut k = v.len();
    while k < 7
        invariant
            v@ == key@,
            v@.len() <= k <= 7 || (k == v@.len() && k >= 7),
            s@ == key@ + Seq::new((k - v@.len()) as nat, |i: int| ' '),
        decreases 7 - k,
    {
        push_char(&mut s, ' ');
        k = k + 1;
        assert(s@ =~= key@ + Seq::new((k - v@.len()) as nat, |i: int| ' '));
    }
    assert(s@ =~= help_key_text(key@));
    let mut d = copy_str(": ");
    push_str(&mut d, desc);
    (copy_str("  "), s, d)
}

/// The two pieces of a section header in the help popup: a one-space
/// indent and the title.
pub fn create_header(title: &str) -> (r: (String, String))
    ensures
        r.0@ == " "@,
        r.1@ == title@,
{
    (copy_str(" "), copy_str(title))
}

/// Reads each visible log line for display.
pub fn get_items(visible_logs: &[String]) -> (r: Vec<LogLine>)
    ensures
        r@.len() == visible_logs@.len(),
        forall|i: int| 0 <= i < r@.len() ==> (#[trigger] r@[i])@ == log_line_of(visible_logs@[i]@),
{
    let mut r: Vec<LogLine> = Vec::new();
    let mut i: usize = 0;
    while i < visible_logs.len()
        invariant
            i <= visible_logs@.len(),
            r@.len() == i,
            forall|j: int| 0 <= j < i ==> (#[trigger] r@[j])@ == log_line_of(visible_logs@[j]@),
        decreases visible_logs.len() - i,
    {
        r.push(parse_log_entry(visible_logs[i].as_str()));
        i = i + 1;
    }
    r
}

} // verus!
