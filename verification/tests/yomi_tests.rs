use twitch_reader::chat::ChatPayload;
use twitch_reader::word_process::build_dictionary;
use twitch_reader::yomi::{
    check_queue_policy, drain_step, flag_setting, get_env_variables, is_internal_sender,
    settings_notice, ReaderState,
};

fn payload(name: &str, id: &str, msg: &str) -> ChatPayload {
    ChatPayload {
        username: name.to_string(),
        user_id: id.to_string(),
        message_id: None,
        sent_ts: None,
        msg: msg.to_string(),
        color: "#FFFFFF".to_string(),
        is_mod: false,
        is_broadcaster: false,
    }
}

fn some(s: &str) -> Option<String> {
    Some(s.to_string())
}

#[test]
fn settings_default_when_unset() {
    let (verbose, max_chars, max_queue, policy) = get_env_variables(None, None, None, None);
    assert!(!verbose);
    assert_eq!(max_chars, 100);
    assert_eq!(max_queue, 100);
    assert_eq!(policy, "drop_new");
}

#[test]
fn settings_from_values() {
    let (verbose, max_chars, max_queue, policy) =
        get_env_variables(some("true"), some("40"), some("5"), some("drop_old"));
    assert!(verbose);
    assert_eq!(max_chars, 40);
    assert_eq!(max_queue, 5);
    assert_eq!(policy, "drop_old");
}

#[test]
fn settings_fall_back_on_bad_values() {
    let (verbose, max_chars, max_queue, _) =
        get_env_variables(some("TRUE"), some("many"), some("-3"), None);
    assert!(!verbose);
    assert_eq!(max_chars, 100);
    assert_eq!(max_queue, 100);
    assert!(flag_setting(&some("true")));
    assert!(!flag_setting(&some("yes")));
    assert!(!flag_setting(&None));
}

#[test]
fn settings_notice_text() {
    let n = settings_notice(5, 40, "drop_old");
    assert_eq!(n.username, "[SYSTEM]");
    assert_eq!(n.user_id, "0");
    assert_eq!(n.msg, "[VOICE SETTINGS] max_queue: 5, max_chars: 40, query_policy: drop_old");
    assert_eq!(n.color, "#FFBB66");
}

#[test]
fn internal_senders() {
    assert!(is_internal_sender("[SYSTEM]"));
    assert!(is_internal_sender("[SKIP]"));
    assert!(!is_internal_sender("[ERROR]"));
    assert!(!is_internal_sender("alice"));
}

#[test]
fn queue_policy_other_than_drop_old_skips() {
    let p = payload("alice", "1", "hi");
    let (go_on, notice) = check_queue_policy("drop_new", true, &p);
    assert!(!go_on);
    let n = notice.unwrap();
    assert_eq!(n.msg, "Queue is full. Skipped alice's message.");
    assert_eq!(n.color, "#FFFF66");
    assert_eq!(n.username, "[SYSTEM]");
    let (go_on, notice) = check_queue_policy("anything", false, &p);
    assert!(!go_on);
    assert!(notice.is_none());
}

#[test]
fn queue_policy_drop_old_goes_on() {
    let p = payload("alice", "1", "hi");
    let (go_on, notice) = check_queue_policy("drop_old", true, &p);
    assert!(go_on);
    assert!(notice.is_none());
}

#[test]
fn draining_replaces_with_newer_message() {
    let cur = payload("alice", "1", "old");
    let (kept, notice) = drain_step(true, cur, payload("bob", "2", "new"));
    assert_eq!(kept.msg, "new");
    assert_eq!(notice.unwrap().msg, "Queue is full. Skipped bob's message.");
    let (kept, notice) = drain_step(false, kept, payload("carol", "3", "newer"));
    assert_eq!(kept.username, "carol");
    assert!(notice.is_none());
}

#[test]
fn draining_passes_over_internal_messages() {
    let cur = payload("alice", "1", "old");
    let (kept, notice) = drain_step(true, cur, payload("[SYSTEM]", "0", "notice"));
    assert_eq!(kept.msg, "old");
    assert!(notice.is_none());
    let (kept, _) = drain_step(true, kept, payload("[SKIP]", "0", "x"));
    assert_eq!(kept.username, "alice");
}

#[test]
fn display_names_the_sender_once() {
    let mut reader = ReaderState::new();
    assert!(reader.last_user_id.is_none());
    assert_eq!(reader.display_msg(&payload("alice", "1", "hi")), "alice: hi");
    assert_eq!(reader.last_user_id.as_deref(), Some("1"));
    assert_eq!(reader.display_msg(&payload("alice", "1", "again")), "again");
    assert_eq!(reader.display_msg(&payload("bob", "2", "yo")), "bob: yo");
    assert_eq!(reader.display_msg(&payload("alice", "1", "back")), "alice: back");
}

#[test]
fn speech_for_messages() {
    let (dict, trie) = build_dictionary(&vec!["hi,ハイ".to_string()]);
    let mut reader = ReaderState::new();
    let (speech, unknown) = reader.speech_for(&payload("alice", "1", "hi"), &dict, &trie, 100).unwrap();
    assert_eq!(speech, Some("alice:ハイ".to_string()));
    assert_eq!(unknown, vec!["alice".to_string()]);
    let (speech, unknown) = reader.speech_for(&payload("alice", "1", "hi hi"), &dict, &trie, 100).unwrap();
    assert_eq!(speech, Some("ハイハイ".to_string()));
    assert!(unknown.is_empty());
    let (speech, _) = reader.speech_for(&payload("alice", "1", "  【】 "), &dict, &trie, 100).unwrap();
    assert_eq!(speech, None);
    let (speech, _) = reader.speech_for(&payload("alice", "1", "abcdefgh"), &dict, &trie, 4).unwrap();
    assert_eq!(speech, Some("abcd、以下略。".to_string()));
}
