use twitch_reader::helix::{bearer_header, clear_chat_url, first_send_result, DropReason, SendChatMessageResult};
use twitch_reader::nico::{
    bind_error_notice, listening_notice, nico_address, nico_js_config, DEFAULT_NICO_ADDRESS,
};

#[test]
fn clear_chat_request_parts() {
    assert_eq!(
        clear_chat_url("111", "222"),
        "https://api.twitch.tv/helix/moderation/chat?broadcaster_id=111&moderator_id=222"
    );
    assert_eq!(bearer_header("abc"), "Bearer abc");
}

#[test]
fn first_send_result_takes_first_entry() {
    assert!(first_send_result(Vec::new()).is_none());
    let data = vec![
        SendChatMessageResult {
            is_sent: false,
            drop_reason: Some(DropReason { code: "msg_rejected".to_string(), message: "no".to_string() }),
        },
        SendChatMessageResult { is_sent: true, drop_reason: None },
    ];
    let r = first_send_result(data).unwrap();
    assert!(!r.is_sent);
    assert_eq!(r.drop_reason.unwrap().code, "msg_rejected");
}

#[test]
fn nico_address_default_and_override() {
    assert_eq!(nico_address(None), "127.0.0.1:2578");
    assert_eq!(DEFAULT_NICO_ADDRESS, "127.0.0.1:2578");
    assert_eq!(nico_address(Some("0.0.0.0:9000".to_string())), "0.0.0.0:9000");
}

#[test]
fn nico_messages() {
    assert_eq!(nico_js_config("127.0.0.1:2578"), "const NICO_ADDR = '127.0.0.1:2578';");
    let n = listening_notice("127.0.0.1:2578");
    assert_eq!(n.username, "[SYSTEM]");
    assert_eq!(n.msg, "Listening on: 127.0.0.1:2578");
    assert_eq!(n.color, "#FFFF66");
    let e = bind_error_notice("address in use");
    assert_eq!(e.username, "[ERROR]");
    assert_eq!(e.user_id, "");
    assert_eq!(e.msg, "Failed to start WebSocket: address in use");
    assert_eq!(e.color, "#FF0000");
}
