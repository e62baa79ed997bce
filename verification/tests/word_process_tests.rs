use twitch_reader::dictionary::Dictionary;
use twitch_reader::word_process::{
    build_dictionary, clean_text, hear_aid, is_valid_dict_line, limit_length, remove_garbage,
    replace_with_trie, replace_words, replace_words_in_spans, to_hankaku_alphabets,
    to_zenkaku_punctuation, url_shouryaku, TextError,
};

fn lines(v: &[&str]) -> Vec<String> {
    v.iter().map(|s| s.to_string()).collect()
}

#[test]
fn zenkaku_converts_ascii_punctuation() {
    assert_eq!(
        to_zenkaku_punctuation("Hello, world! (1+1=2)? a.b:c;d-e".to_string()),
        "Hello、 world！ （1＋1＝2）？ a。b：c；d－e"
    );
}

#[test]
fn zenkaku_keeps_other_characters() {
    assert_eq!(to_zenkaku_punctuation("あいう abc 123".to_string()), "あいう abc 123");
    assert_eq!(to_zenkaku_punctuation(String::new()), "");
}

#[test]
fn zenkaku_twice_is_once() {
    let once = to_zenkaku_punctuation("Wow!! (yes), no.".to_string());
    let twice = to_zenkaku_punctuation(once.clone());
    assert_eq!(once, twice);
}

#[test]
fn hankaku_converts_full_width_ascii() {
    assert_eq!(to_hankaku_alphabets("ＡＢＣ１２３！ｚ～".to_string()), "ABC123!z~");
}

#[test]
fn hankaku_keeps_other_characters() {
    assert_eq!(to_hankaku_alphabets("かな 漢字 abc 、。".to_string()), "かな 漢字 abc 、。");
}

#[test]
fn hankaku_range_edges() {
    // U+FF00 and U+FF5F lie just outside the converted range.
    assert_eq!(to_hankaku_alphabets("\u{FF00}\u{FF01}\u{FF5E}\u{FF5F}".to_string()), "\u{FF00}!~\u{FF5F}");
}

#[test]
fn hankaku_twice_is_once() {
    let once = to_hankaku_alphabets("ＴＷＩＴＣＨ　ｒｅａｄｅｒ".to_string());
    assert_eq!(to_hankaku_alphabets(once.clone()), once);
}

#[test]
fn hear_aid_replaces_marks() {
    assert_eq!(hear_aid("a~b～c-d|e…f".to_string()), "aーbーcーd e、f");
}

#[test]
fn hear_aid_twice_is_once() {
    let once = hear_aid("ラーメン~~|…-".to_string());
    assert_eq!(hear_aid(once.clone()), once);
}

#[test]
fn limit_length_keeps_short_message() {
    assert_eq!(limit_length("abc".to_string(), 3), "abc");
    assert_eq!(limit_length(String::new(), 0), "");
}

#[test]
fn limit_length_cuts_long_message() {
    assert_eq!(limit_length("abcdef".to_string(), 3), "abc、以下略。");
}

#[test]
fn limit_length_counts_bytes_but_keeps_characters() {
    // nine bytes, three characters: over five bytes, and all three
    // characters fit in the first five characters
    assert_eq!(limit_length("あいう".to_string(), 5), "あいう、以下略。");
    assert_eq!(limit_length("あいう".to_string(), 2), "あい、以下略。");
    assert_eq!(limit_length("あいう".to_string(), 9), "あいう");
}

#[test]
fn url_shouryaku_abbreviates_mail_and_links() {
    let r = url_shouryaku("mail foo@example.com or see https://example.com/x?y=1 now".to_string());
    assert_eq!(r, Ok("mail メール省略 or see URL省略 now".to_string()));
}

#[test]
fn url_shouryaku_keeps_plain_text() {
    assert_eq!(url_shouryaku("no links here".to_string()), Ok("no links here".to_string()));
}

#[test]
fn remove_garbage_drops_marks() {
    assert_eq!(remove_garbage("【お知らせ】a|b_c[d]｜＿".to_string()), Ok("お知らせabcd".to_string()));
}

#[test]
fn replace_words_reads_known_and_reports_unknown() {
    let (dict, _trie) = build_dictionary(&lines(&["hello,ハロー"]));
    let (text, unknown) = replace_words("Hello World ok".to_string(), &dict).unwrap();
    assert_eq!(text, "ハローworldok");
    assert_eq!(unknown, vec!["world".to_string()]);
}

#[test]
fn replace_words_short_words_are_not_reported() {
    let dict = Dictionary::new();
    let (text, unknown) = replace_words("ok go\tno".to_string(), &dict).unwrap();
    assert_eq!(text, "okgono");
    assert!(unknown.is_empty());
}

#[test]
fn replace_words_in_spans_uses_the_given_spans() {
    let (dict, _trie) = build_dictionary(&lines(&["abc,エービーシー"]));
    // only the first word is marked as a span
    let spans: Vec<(usize, usize)> = vec![(0, 3)];
    let (text, unknown) = replace_words_in_spans("ABC DEF", &spans, &dict);
    assert_eq!(text, "エービーシーDEF");
    assert!(unknown.is_empty());
    let spans2: Vec<(usize, usize)> = vec![(4, 7)];
    let (text2, unknown2) = replace_words_in_spans("ABC DEF", &spans2, &dict);
    assert_eq!(text2, "ABCdef");
    assert_eq!(unknown2, vec!["def".to_string()]);
}

#[test]
fn replace_with_trie_takes_longest_match() {
    let (dict, trie) = build_dictionary(&lines(&["東京,とうきょう", "東京都,とうきょうと"]));
    assert_eq!(replace_with_trie("東京都に行く", &dict, &trie), "とうきょうとに行く");
    assert_eq!(replace_with_trie("東京へ", &dict, &trie), "とうきょうへ");
}

#[test]
fn replace_with_trie_keeps_unmatched_text() {
    let (dict, trie) = build_dictionary(&lines(&["東京,とうきょう"]));
    assert_eq!(replace_with_trie("大阪です", &dict, &trie), "大阪です");
}

#[test]
fn replace_with_trie_keeps_blank_text() {
    let (dict, trie) = build_dictionary(&lines(&["東京,とうきょう"]));
    assert_eq!(replace_with_trie("  \t ", &dict, &trie), "  \t ");
}

#[test]
fn replace_with_empty_trie_keeps_text() {
    let (dict, trie) = build_dictionary(&Vec::new());
    assert_eq!(replace_with_trie("何も変わらない text", &dict, &trie), "何も変わらない text");
}

#[test]
fn build_dictionary_trims_and_later_lines_win() {
    let (dict, trie) = build_dictionary(&lines(&["東京, とうきょう", " 大阪 ,おおさか ", "東京,トウキョウ"]));
    assert_eq!(dict.len(), 2);
    assert_eq!(dict.get("東京"), Some(&"トウキョウ".to_string()));
    assert_eq!(dict.get("大阪"), Some(&"おおさか".to_string()));
    assert_eq!(dict.get("京都"), None);
    assert_eq!(replace_with_trie("大阪", &dict, &trie), "おおさか");
}

#[test]
fn build_dictionary_reading_may_hold_commas() {
    let (dict, _trie) = build_dictionary(&lines(&["a,b,c"]));
    assert_eq!(dict.get("a"), Some(&"b,c".to_string()));
}

#[test]
fn dict_lines_are_checked() {
    assert!(is_valid_dict_line("word,reading"));
    assert!(is_valid_dict_line("word,"));
    assert!(!is_valid_dict_line("no comma"));
    assert!(!is_valid_dict_line("  ,reading"));
    assert!(!is_valid_dict_line(""));
}

#[test]
fn clean_text_runs_the_whole_pipeline() {
    let (dict, trie) = build_dictionary(&lines(&["hello,ハロー", "東京,とうきょう"]));
    let (text, unknown) = clean_text("  Hello! https://x.com 東京【】 ".to_string(), &dict, &trie).unwrap();
    assert_eq!(text, "ハロー!url省略とうきょう");
    assert_eq!(unknown, vec!["url".to_string()]);
}

#[test]
fn clean_text_of_blank_is_empty() {
    let (dict, trie) = build_dictionary(&Vec::new());
    let (text, unknown) = clean_text("   ".to_string(), &dict, &trie).unwrap();
    assert_eq!(text, "");
    assert!(unknown.is_empty());
}

#[test]
fn text_error_is_comparable() {
    assert_eq!(TextError::InvalidPattern, TextError::InvalidPattern);
}
