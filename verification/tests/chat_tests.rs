use twitch_reader::chat::{
    handle_server_message, payload_from_message, plan_outgoing, system_notice, ChatPayload,
    Message, Outgoing, OutgoingAction, ServerEvent, DEFAULT_USER_COLOR, SYSTEM_COLOR, SYSTEM_NAME,
};

fn fields(m: &Message) -> (String, String, Option<String>, Option<i64>, String, String, bool, bool) {
    match m {
        Message::DM { username, user_id, message_id, sent_ts, msg, color, is_mod, is_broadcaster } => (
            username.clone(),
            user_id.clone(),
            message_id.clone(),
            *sent_ts,
            msg.clone(),
            color.clone(),
            *is_mod,
            *is_broadcaster,
        ),
    }
}

fn privmsg(name: &str, color: Option<&str>, badges: &[&str]) -> ServerEvent {
    ServerEvent::Privmsg {
        sender_name: name.to_string(),
        sender_login: "login_name".to_string(),
        sender_id: "123".to_string(),
        message_id: "abc-def".to_string(),
        server_timestamp_millis: 1_700_000_000_000,
        message_text: "hello chat".to_string(),
        name_color: color.map(|c| c.to_string()),
        badges: badges.iter().map(|b| b.to_string()).collect(),
    }
}

#[test]
fn join_becomes_system_message() {
    let m = handle_server_message(ServerEvent::Join { channel_login: "alpha".to_string() }).unwrap();
    assert_eq!(
        fields(&m),
        (
            "[SYSTEM]".to_string(),
            "0".to_string(),
            None,
            None,
            "Successfully joined: alpha".to_string(),
            "#FFFF66".to_string(),
            false,
            false
        )
    );
}

#[test]
fn notice_becomes_system_message() {
    let m = handle_server_message(ServerEvent::Notice { message_text: "slow mode".to_string() }).unwrap();
    let f = fields(&m);
    assert_eq!(f.0, SYSTEM_NAME);
    assert_eq!(f.4, "Notice from Twitch: slow mode");
    assert_eq!(f.5, SYSTEM_COLOR);
}

#[test]
fn privmsg_keeps_sender_and_badges() {
    let m = handle_server_message(privmsg("Display", Some("#1E90FF"), &["moderator", "subscriber"])).unwrap();
    assert_eq!(
        fields(&m),
        (
            "Display".to_string(),
            "123".to_string(),
            Some("abc-def".to_string()),
            Some(1_700_000_000_000),
            "hello chat".to_string(),
            "#1E90FF".to_string(),
            true,
            false
        )
    );
}

#[test]
fn privmsg_without_name_or_color() {
    let m = handle_server_message(privmsg("", None, &["broadcaster"])).unwrap();
    let f = fields(&m);
    assert_eq!(f.0, "login_name");
    assert_eq!(f.5, DEFAULT_USER_COLOR);
    assert!(!f.6);
    assert!(f.7);
}

#[test]
fn other_events_give_nothing() {
    assert!(handle_server_message(ServerEvent::Other).is_none());
}

#[test]
fn payload_keeps_message_contents() {
    let m = handle_server_message(privmsg("n", Some("#000000"), &[])).unwrap();
    let p = payload_from_message(m.clone());
    let f = fields(&m);
    assert_eq!(p.username, f.0);
    assert_eq!(p.user_id, f.1);
    assert_eq!(p.message_id, f.2);
    assert_eq!(p.sent_ts, f.3);
    assert_eq!(p.msg, f.4);
    assert_eq!(p.color, f.5);
    assert_eq!(p.is_mod, f.6);
    assert_eq!(p.is_broadcaster, f.7);
}

#[test]
fn describe_prints_fields_in_display_order() {
    let m = Message::DM {
        username: "u".to_string(),
        user_id: "1".to_string(),
        message_id: Some("m".to_string()),
        sent_ts: Some(-5),
        msg: "hi".to_string(),
        color: "#FFF".to_string(),
        is_mod: false,
        is_broadcaster: true,
    };
    assert_eq!(
        m.describe(),
        "username: u user_id: 1 msg: m message_id: -5 sent_ts: hi color: #FFF is_mod: false is_broadcaster: true"
    );
    let n = Message::DM {
        username: "u".to_string(),
        user_id: "1".to_string(),
        message_id: None,
        sent_ts: None,
        msg: "x".to_string(),
        color: "c".to_string(),
        is_mod: true,
        is_broadcaster: false,
    };
    assert_eq!(
        n.describe(),
        "username: u user_id: 1 msg: - message_id: - sent_ts: x color: c is_mod: true is_broadcaster: false"
    );
}

#[test]
fn outgoing_plans() {
    assert!(matches!(plan_outgoing(Outgoing::Clear), OutgoingAction::ClearChat));
    assert!(matches!(plan_outgoing(Outgoing::Chat("  hi there \n".to_string())), OutgoingAction::Say(s) if s == "hi there"));
    assert!(matches!(plan_outgoing(Outgoing::Chat(" \t ".to_string())), OutgoingAction::Skip));
    assert!(matches!(plan_outgoing(Outgoing::Chat("/me waves".to_string())), OutgoingAction::Say(s) if s == "/me waves"));
}

#[test]
fn notices_and_defaults() {
    let n = system_notice("Yomi (Voice) is active.", SYSTEM_COLOR);
    assert_eq!(n.username, "[SYSTEM]");
    assert_eq!(n.user_id, "0");
    assert_eq!(n.msg, "Yomi (Voice) is active.");
    assert_eq!(n.color, "#FFFF66");
    assert!(n.message_id.is_none() && n.sent_ts.is_none() && !n.is_mod && !n.is_broadcaster);
    let d = ChatPayload::default();
    assert_eq!(d.username, "");
    assert_eq!(d.msg, "");
    assert!(d.message_id.is_none());
    let e = n.duplicate();
    assert_eq!(e.msg, n.msg);
    assert_eq!(e.username, n.username);
}
