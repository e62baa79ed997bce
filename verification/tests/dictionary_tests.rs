use twitch_reader::dictionary::Dictionary;

#[test]
fn new_dictionary_is_empty() {
    let d = Dictionary::new();
    assert_eq!(d.len(), 0);
    assert_eq!(d.get("x"), None);
}

#[test]
fn read_after_write() {
    let mut d = Dictionary::new();
    d.insert("a".to_string(), "1".to_string());
    d.insert("b".to_string(), "2".to_string());
    assert_eq!(d.get("a"), Some(&"1".to_string()));
    assert_eq!(d.get("b"), Some(&"2".to_string()));
    assert_eq!(d.len(), 2);
}

#[test]
fn later_write_overrides() {
    let mut d = Dictionary::new();
    d.insert("a".to_string(), "1".to_string());
    d.insert("a".to_string(), "one".to_string());
    assert_eq!(d.get("a"), Some(&"one".to_string()));
    assert_eq!(d.len(), 1);
}
