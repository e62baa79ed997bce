use twitch_reader::chat::{ChatPayload, Outgoing};
use twitch_reader::tui_state::{
    handle_command, handle_insert, handle_key, handle_normal, AppState, InputMode, Key,
    LOG_CAPACITY, SELF_LOG_CAPACITY,
};
use twitch_reader::tui_view::{
    centered_percentages, chat_window, create_header, create_help_line, cursor_column_offset,
    details_text, format_log_entry, get_items, input_area_view, message_details, parse_hex_color,
    parse_log_entry, HexColor, LogLine, ModeColor,
};

fn chat(name: &str, msg: &str) -> ChatPayload {
    ChatPayload {
        username: name.to_string(),
        user_id: "42".to_string(),
        message_id: Some("m-1".to_string()),
        sent_ts: Some(0),
        msg: msg.to_string(),
        color: "#00FF00".to_string(),
        is_mod: false,
        is_broadcaster: false,
    }
}

fn outgoing_text(o: &Option<Outgoing>) -> Option<String> {
    match o {
        Some(Outgoing::Chat(s)) => Some(s.clone()),
        _ => None,
    }
}

fn is_clear(o: &Option<Outgoing>) -> bool {
    matches!(o, Some(Outgoing::Clear))
}

fn type_text(app: &mut AppState, text: &str) {
    for c in text.chars() {
        let (go_on, out) = handle_key(Key::Char(c), app);
        assert!(go_on);
        assert!(out.is_none());
    }
}

#[test]
fn new_state_is_empty_normal_mode() {
    let app = AppState::new();
    assert_eq!(app.input_text, "");
    assert_eq!(app.mode, InputMode::Normal);
    assert!(app.logs.is_empty());
    assert!(!app.show_help);
    assert!(!app.show_details);
    assert_eq!(app.selected_index, 0);
    assert_eq!(app.scroll_offset, 0);
    assert_eq!(app.my_profile.id, "0");
    assert_eq!(app.my_profile.login, "you");
}

#[test]
fn push_log_keeps_newest_250() {
    let mut app = AppState::new();
    for i in 0..260 {
        app.push_log(chat("u", &i.to_string()));
    }
    assert_eq!(LOG_CAPACITY, 250);
    assert_eq!(app.logs.len(), 250);
    assert_eq!(app.logs[0].msg, "10");
    assert_eq!(app.logs[249].msg, "259");
}

#[test]
fn push_log_pulls_selection_onto_last_message() {
    let mut app = AppState::new();
    app.selected_index = 7;
    app.push_log(chat("u", "a"));
    assert_eq!(app.selected_index, 0);
    app.push_log(chat("u", "b"));
    assert_eq!(app.selected_index, 0);
    app.selected_index = 1;
    app.push_log(chat("u", "c"));
    assert_eq!(app.selected_index, 1);
}

#[test]
fn normal_mode_keys() {
    let mut app = AppState::new();
    handle_normal(Key::Char('k'), &mut app);
    assert_eq!(app.scroll_offset, 1);
    handle_normal(Key::Up, &mut app);
    assert_eq!(app.scroll_offset, 2);
    handle_normal(Key::Char('j'), &mut app);
    assert_eq!(app.scroll_offset, 1);
    handle_normal(Key::Down, &mut app);
    handle_normal(Key::Down, &mut app);
    assert_eq!(app.scroll_offset, 0);
    app.scroll_offset = u16::MAX;
    handle_normal(Key::Char('k'), &mut app);
    assert_eq!(app.scroll_offset, u16::MAX);
    handle_normal(Key::Char('G'), &mut app);
    assert_eq!(app.scroll_offset, 0);
    handle_normal(Key::Char('h'), &mut app);
    assert!(app.show_help);
    app.show_help = false;
    app.input_text = "old".to_string();
    handle_normal(Key::Char(':'), &mut app);
    assert_eq!(app.mode, InputMode::Command);
    assert_eq!(app.input_text, "");
    app.mode = InputMode::Normal;
    handle_normal(Key::Char('i'), &mut app);
    assert_eq!(app.mode, InputMode::Insert);
}

#[test]
fn insert_mode_sends_and_logs_own_message() {
    let mut app = AppState::new();
    handle_key(Key::Char('i'), &mut app);
    type_text(&mut app, "hix");
    handle_key(Key::Backspace, &mut app);
    assert_eq!(app.input_text, "hi");
    let (go_on, out) = handle_key(Key::Enter, &mut app);
    assert!(go_on);
    assert_eq!(outgoing_text(&out), Some("hi".to_string()));
    assert_eq!(app.input_text, "");
    assert_eq!(app.mode, InputMode::Normal);
    assert_eq!(app.logs.len(), 1);
    let own = &app.logs[0];
    assert_eq!(own.username, "you");
    assert_eq!(own.user_id, "0");
    assert_eq!(own.msg, "hi");
    assert_eq!(own.color, "#FFFFFF");
    assert!(own.is_broadcaster);
    assert!(!own.is_mod);
    assert!(own.message_id.is_none());
    assert!(own.sent_ts.is_none());
}

#[test]
fn insert_mode_enter_on_empty_input_sends_nothing() {
    let mut app = AppState::new();
    app.mode = InputMode::Insert;
    let out = handle_insert(Key::Enter, &mut app);
    assert!(out.is_none());
    assert_eq!(app.mode, InputMode::Normal);
    assert!(app.logs.is_empty());
}

#[test]
fn insert_mode_backspace_on_empty_input() {
    let mut app = AppState::new();
    app.mode = InputMode::Insert;
    assert!(handle_insert(Key::Backspace, &mut app).is_none());
    assert_eq!(app.input_text, "");
    assert!(handle_insert(Key::Esc, &mut app).is_none());
    assert_eq!(app.mode, InputMode::Normal);
}

#[test]
fn own_message_keeps_at_most_100() {
    let mut app = AppState::new();
    for i in 0..100 {
        app.push_log(chat("u", &i.to_string()));
    }
    app.mode = InputMode::Insert;
    app.input_text = "mine".to_string();
    handle_insert(Key::Enter, &mut app);
    assert_eq!(SELF_LOG_CAPACITY, 100);
    assert_eq!(app.logs.len(), 100);
    assert_eq!(app.logs[0].msg, "1");
    assert_eq!(app.logs[99].msg, "mine");
}

#[test]
fn slash_clear_message_clears_the_log() {
    let mut app = AppState::new();
    app.push_log(chat("u", "a"));
    app.mode = InputMode::Insert;
    app.input_text = "/clear".to_string();
    let out = handle_insert(Key::Enter, &mut app);
    assert_eq!(outgoing_text(&out), Some("/clear".to_string()));
    assert!(app.logs.is_empty());
}

#[test]
fn quit_command_ends_the_interface() {
    for cmd in ["q", "quit"] {
        let mut app = AppState::new();
        handle_key(Key::Char(':'), &mut app);
        type_text(&mut app, cmd);
        let (go_on, out) = handle_key(Key::Enter, &mut app);
        assert!(!go_on);
        assert!(out.is_none());
        assert_eq!(app.mode, InputMode::Command);
        assert_eq!(app.input_text, cmd);
    }
}

#[test]
fn clear_command_clears_chat_and_log() {
    let mut app = AppState::new();
    app.push_log(chat("u", "a"));
    app.mode = InputMode::Command;
    app.input_text = "clear".to_string();
    let (go_on, out) = handle_command(Key::Enter, &mut app);
    assert!(go_on);
    assert!(is_clear(&out));
    assert!(app.logs.is_empty());
    assert_eq!(app.input_text, "");
    assert_eq!(app.mode, InputMode::Normal);
}

#[test]
fn other_command_is_dropped() {
    let mut app = AppState::new();
    app.mode = InputMode::Command;
    app.input_text = "qq".to_string();
    let (go_on, out) = handle_command(Key::Enter, &mut app);
    assert!(go_on);
    assert!(out.is_none());
    assert_eq!(app.input_text, "");
    assert_eq!(app.mode, InputMode::Normal);
    app.mode = InputMode::Command;
    let (go_on, _) = handle_command(Key::Esc, &mut app);
    assert!(go_on);
    assert_eq!(app.mode, InputMode::Normal);
}

#[test]
fn help_popup_swallows_keys() {
    let mut app = AppState::new();
    handle_key(Key::Char('h'), &mut app);
    assert!(app.show_help);
    let (go_on, out) = handle_key(Key::Char('i'), &mut app);
    assert!(go_on && out.is_none());
    assert_eq!(app.mode, InputMode::Normal);
    assert!(app.show_help);
    let (go_on, out) = handle_key(Key::Enter, &mut app);
    assert!(go_on && out.is_none());
    handle_key(Key::Esc, &mut app);
    assert!(!app.show_help);
    handle_key(Key::Char('h'), &mut app);
    handle_key(Key::Char('q'), &mut app);
    assert!(!app.show_help);
    handle_key(Key::Char('h'), &mut app);
    handle_key(Key::Char('h'), &mut app);
    assert!(!app.show_help);
}

#[test]
fn key_never_grows_log_past_capacity() {
    let mut app = AppState::new();
    for i in 0..250 {
        app.push_log(chat("u", &i.to_string()));
    }
    app.mode = InputMode::Insert;
    app.input_text = "x".to_string();
    handle_key(Key::Enter, &mut app);
    assert!(app.logs.len() <= LOG_CAPACITY);
}

#[test]
fn chat_window_arithmetic() {
    assert_eq!(chat_window(10, 7, 0), (5, 10));
    assert_eq!(chat_window(10, 7, 3), (2, 7));
    assert_eq!(chat_window(10, 7, 99), (0, 5));
    assert_eq!(chat_window(3, 7, 2), (0, 3));
    assert_eq!(chat_window(4, 1, 0), (4, 4));
    assert_eq!(chat_window(0, 20, 5), (0, 0));
}

#[test]
fn hex_colors() {
    assert_eq!(parse_hex_color("#FF0000"), HexColor::Rgb(255, 0, 0));
    assert_eq!(parse_hex_color("#ff8800"), HexColor::Rgb(255, 136, 0));
    assert_eq!(parse_hex_color("#+F0a0B"), HexColor::Rgb(15, 10, 11));
    assert_eq!(parse_hex_color("FF0000"), HexColor::White);
    assert_eq!(parse_hex_color("#GG0000"), HexColor::White);
    assert_eq!(parse_hex_color("#FFF"), HexColor::White);
    assert_eq!(parse_hex_color(""), HexColor::White);
}

#[test]
fn log_entry_round_trip() {
    let mut p = chat("bob", "a|b: c");
    p.color = "#123456".to_string();
    p.is_mod = true;
    let line = format_log_entry(&p);
    assert_eq!(line, "#123456|true|false|bob: a|b: c");
    match parse_log_entry(&line) {
        LogLine::Styled { color_hex, is_mod, is_broadcaster, name, msg } => {
            assert_eq!(color_hex, "#123456");
            assert!(is_mod);
            assert!(!is_broadcaster);
            assert_eq!(name, "bob");
            assert_eq!(msg, "a|b: c");
        }
        other => panic!("unexpected {:?}", other),
    }
}

#[test]
fn unstructured_log_lines_are_raw() {
    for s in ["hello", "a|b|c", "a|b|c|no separator", ""] {
        match parse_log_entry(s) {
            LogLine::Raw(t) => assert_eq!(t, s),
            other => panic!("unexpected {:?}", other),
        }
    }
}

#[test]
fn get_items_reads_each_line() {
    let logs = vec!["#FFFFFF|false|true|me: hi".to_string(), "plain".to_string()];
    let items = get_items(&logs);
    assert_eq!(items.len(), 2);
    match &items[0] {
        LogLine::Styled { is_broadcaster, name, msg, .. } => {
            assert!(*is_broadcaster);
            assert_eq!(name, "me");
            assert_eq!(msg, "hi");
        }
        other => panic!("unexpected {:?}", other),
    }
    assert!(matches!(&items[1], LogLine::Raw(s) if s == "plain"));
}

#[test]
fn details_pane_text() {
    let mut app = AppState::new();
    assert_eq!(details_text(&app), "No message selected.");
    app.push_log(chat("u", "a"));
    assert_eq!(
        details_text(&app),
        "user_id: 42\nmessage_id: m-1\nsent_ts: 1970-01-01 00:00:00.000 UTC"
    );
    let mut p = chat("u", "b");
    p.message_id = None;
    p.sent_ts = Some(1_700_000_000_123);
    app.push_log(p);
    app.selected_index = 1;
    assert_eq!(
        details_text(&app),
        "user_id: 42\nmessage_id: -\nsent_ts: 2023-11-14 22:13:20.123 UTC"
    );
}

#[test]
fn message_details_with_given_time() {
    let mut p = chat("u", "a");
    assert_eq!(message_details(&p, Some("T".to_string())), "user_id: 42\nmessage_id: m-1\nsent_ts: T");
    p.message_id = None;
    assert_eq!(message_details(&p, None), "user_id: 42\nmessage_id: -\nsent_ts: -");
}

#[test]
fn input_area_in_each_mode() {
    assert_eq!(
        input_area_view(InputMode::Normal, "x"),
        ("NORMAL".to_string(), ModeColor::Blue, "x".to_string())
    );
    assert_eq!(
        input_area_view(InputMode::Insert, "hi"),
        ("INSERT".to_string(), ModeColor::Green, "hi".to_string())
    );
    assert_eq!(
        input_area_view(InputMode::Command, "q"),
        ("COMMAND".to_string(), ModeColor::Magenta, ":q".to_string())
    );
    assert_eq!(cursor_column_offset(InputMode::Insert), Some(1));
    assert_eq!(cursor_column_offset(InputMode::Command), Some(2));
    assert_eq!(cursor_column_offset(InputMode::Normal), None);
}

#[test]
fn popup_percentages() {
    assert_eq!(centered_percentages(70), (15, 70, 15));
    assert_eq!(centered_percentages(60), (20, 60, 20));
    assert_eq!(centered_percentages(100), (0, 100, 0));
    assert_eq!(centered_percentages(33), (33, 33, 33));
}

#[test]
fn help_lines_and_headers() {
    assert_eq!(
        create_help_line("i", "Enter Insert mode (chat)"),
        ("  ".to_string(), "i      ".to_string(), ": Enter Insert mode (chat)".to_string())
    );
    assert_eq!(create_help_line("Enter", "Send message").1, "Enter  ");
    assert_eq!(create_help_line("longerkey", "x").1, "longerkey");
    assert_eq!(
        create_header("[ Normal Mode ]"),
        (" ".to_string(), "[ Normal Mode ]".to_string())
    );
}
