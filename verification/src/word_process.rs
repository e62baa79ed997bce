//! Turning a chat message into text for the speech synthesizer:
//! abbreviating links, normalizing punctuation and letters, replacing
//! words by their dictionary readings, and capping the length.

use vstd::prelude::*;
use vstd::utf8::{
    decode_utf8, encode_utf8, encode_utf8_decode_utf8, is_char_boundary, is_scalar, valid_utf8,
};
use crate::text::{
    all_white, chars_of, copy_str, is_blank, push_char, push_str, remove_white, string_of_range,
    split_comma, split_once_comma, strip_white, trim, trimmed, law_trim_idempotent, is_white,
    is_trim_of, lemma_split_comma_parts, lemma_trimmed_is_trim,
};
use crate::regex_ops::{
    lowercase, regex_find_spans, regex_match_spans, regex_replace_all, regex_replacement,
    spans_well_placed, to_lowercase,
};

use crate::dictionary::Dictionary;
use crate::utf8_facts::{
    lemma_encode_concat, lemma_encode_push, lemma_encode_split, lemma_encode_take_grows,
    lemma_boundary_in_suffix, lemma_encode_take_prefix, lemma_valid_prefix_is_encoded_prefix,
    utf8_len_at_most, utf8_width,
};
use crate::trie::{
    build_trie, builder_words, common_prefixes, new_trie_builder, push_trie_word, trie_words,
};
use trie_rs::Trie;

verus! {

/// Why a text step could not run: one of its regular expressions did not
/// compile.
#[derive(Debug, Clone, Copy, PartialEq, Eq, Structural)]
pub enum TextError {
    InvalidPattern,
}

/// The full-width form that `to_zenkaku_punctuation` gives an ASCII
/// punctuation character; any other character stays as it is.
pub open spec fn zenkaku(c: char) -> char {
    if c == '!' {
        '\u{FF01}'
    } else if c == '?' {
        '\u{FF1F}'
    } else if c == ',' {
        '\u{3001}'
    } else if c == '.' {
        '\u{3002}'
    } else if c == ':' {
        '\u{FF1A}'
    } else if c == ';' {
        '\u{FF1B}'
    } else if c == '(' {
        '\u{FF08}'
    } else if c == ')' {
        '\u{FF09}'
    } else if c == '+' {
        '\u{FF0B}'
    } else if c == '-' {
        '\u{FF0D}'
    } else if c == '=' {
        '\u{FF1D}'
    } else {
        c
    }
}

fn zenkaku_of(c: char) -> (r: char)
    ensures
        r == zenkaku(c),
{
    match c {
        '!' => '\u{FF01}',
        '?' => '\u{FF1F}',
        ',' => '\u{3001}',
        '.' => '\u{3002}',
        ':' => '\u{FF1A}',
        ';' => '\u{FF1B}',
        '(' => '\u{FF08}',
        ')' => '\u{FF09}',
        '+' => '\u{FF0B}',
        '-' => '\u{FF0D}',
        '=' => '\u{FF1D}',
        _ => c,
    }
}

/// Replaces ASCII punctuation (`! ? , . : ; ( ) + - =`) by its full-width
/// Japanese counterpart, character by character.
pub fn to_zenkaku_punctuation(input: String) -> (r: String)
    ensures
        r@ == input@.map_values(|c: char| zenkaku(c)),
{
    let v = chars_of(input.as_str());
    let mut r = String::new();
    let mut i: usize = 0;
    while i < v.len()
        invariant
            i <= v@.len(),
            v@ == input@,
            r@ == v@.take(i as int).map_values(|c: char| zenkaku(c)),
        decreases v.len() - i,
    {
        push_char(&mut r, zenkaku_of(v[i]));
        i = i + 1;
        assert(r@ =~= v@.take(i as int).map_values(|c: char| zenkaku(c)));
    }
    assert(v@.take(v@.len() as int) =~= v@);
    r
}

/// The half-width form that `to_hankaku_alphabets` gives a character: the
/// full-width ASCII variants U+FF01..=U+FF5E move down by 0xFEE0 to
/// U+0021..=U+007E; any other character stays as it is.
pub open spec fn hankaku(c: char) -> char {
    let u = c as u32;
    if 0xFF01 <= u <= 0xFF5E {
        (u - 0xFEE0) as char
    } else {
        c
    }
}

/// std `char::from_u32`: the character with code `i`, if `i` is a Unicode
/// scalar value.
#[verifier::external_body]
fn char_from_u32(i: u32) -> (r: Option<char>)
    ensures
        r == (if is_scalar(i) {
            Some(i as char)
        } else {
            None
        }),
{
    char::from_u32(i)
}

fn hankaku_of(c: char) -> (r: char)
    ensures
        r == hankaku(c),
{
    let code = c as u32;
    if 0xFF01 <= code && code <= 0xFF5E {
        match char_from_u32(code - 0xFEE0) {
            Some(h) => h,
            None => c,
        }
    } else {
        c
    }
}

/// Replaces full-width ASCII variants (letters, digits, punctuation,
/// U+FF01..=U+FF5E) by their ASCII forms, character by character.
pub fn to_hankaku_alphabets(input: String) -> (r: String)
    ensures
        r@ == input@.map_values(|c: char| hankaku(c)),
{
    let v = chars_of(input.as_str());
    let mut r = String::new();
    let mut i: usize = 0;
    while i < v.len()
        invariant
            i <= v@.len(),
            v@ == input@,
            r@ == v@.take(i as int).map_values(|c: char| hankaku(c)),
        decreases v.len() - i,
    {
        push_char(&mut r, hankaku_of(v[i]));
        i = i + 1;
        assert(r@ =~= v@.take(i as int).map_values(|c: char| hankaku(c)));
    }
    assert(v@.take(v@.len() as int) =~= v@);
    r
}

/// What `hear_aid` writes for one character: wave dashes and hyphens become
/// the long-vowel mark, a bar becomes a space, an ellipsis a comma.
pub open spec fn hear_aid_piece(c: char) -> Seq<char> {
    if c == '~' || c == '\u{FF5E}' || c == '-' {
        seq!['\u{30FC}']
    } else if c == '|' {
        seq![' ']
    } else if c == '\u{2026}' {
        seq!['\u{3001}']
    } else {
        seq![c]
    }
}

/// `hear_aid` applied to a whole text.
pub open spec fn heard(s: Seq<char>) -> Seq<char>
    decreases s.len(),
{
    if s.len() == 0 {
        s
    } else {
        heard(s.drop_last()) + hear_aid_piece(s.last())
    }
}

/// Makes marks that the synthesizer reads badly readable: `~`, `～` and `-`
/// become `ー`, `|` a space, `…` a `、`.
pub fn hear_aid(text: String) -> (r: String)
    ensures
        r@ == heard(text@),
{
    let v = chars_of(text.as_str());
    let mut r = String::new();
    let mut i: usize = 0;
    while i < v.len()
        invariant
            i <= v@.len(),
            v@ == text@,
            r@ == heard(v@.take(i as int)),
        decreases v.len() - i,
    {
        let c = v[i];
        assert(v@.take(i + 1).drop_last() =~= v@.take(i as int));
        if c == '~' || c == '\u{FF5E}' || c == '-' {
            push_char(&mut r, '\u{30FC}');
        } else if c == '|' {
            push_char(&mut r, ' ');
        } else if c == '\u{2026}' {
            push_char(&mut r, '\u{3001}');
        } else {
            push_char(&mut r, c);
        }
        i = i + 1;
        assert(r@ =~= heard(v@.take(i as int)));
    }
    assert(v@.take(v@.len() as int) =~= v@);
    r
}

/// The note that `limit_length` appends to a shortened message
/// ("、以下略。", "... and the rest omitted").
pub open spec fn omission_note() -> Seq<char> {
    seq!['\u{3001}', '\u{4EE5}', '\u{4E0B}', '\u{7565}', '\u{3002}']
}

/// What `limit_length` gives: the message itself when its UTF-8 length in
/// bytes is at most `max_length`, else its first `max_length` characters
/// followed by the omission note.
pub open spec fn limited(s: Seq<char>, max_length: nat) -> Seq<char> {
    if encode_utf8(s).len() <= max_length {
        s
    } else if s.len() <= max_length {
        s + omission_note()
    } else {
        s.take(max_length as int) + omission_note()
    }
}

/// Caps a message: the message when it takes at most `max_length` bytes,
/// else its first `max_length` characters and "、以下略。".
pub fn limit_length(raw_msg: String, max_length: usize) -> (r: String)
    ensures
        r@ == limited(raw_msg@, max_length as nat),
{
    let v = chars_of(raw_msg.as_str());
    if utf8_len_at_most(&v, max_length) {
        return raw_msg;
    }
    let n = if v.len() < max_length {
        v.len()
    } else {
        max_length
    };
    let mut r = string_of_range(&v, 0, n);
    push_char(&mut r, '\u{3001}');
    push_char(&mut r, '\u{4EE5}');
    push_char(&mut r, '\u{4E0B}');
    push_char(&mut r, '\u{7565}');
    push_char(&mut r, '\u{3002}');
    proof {
        if v@.len() <= max_length {
            assert(v@.subrange(0, n as int) =~= v@);
        } else {
            assert(v@.subrange(0, n as int) =~= v@.take(max_length as int));
        }
    }
    assert(r@ =~= limited(raw_msg@, max_length as nat));
    r
}

/// The reading of a written word: its dictionary entry when there is one,
/// else the word itself.
pub open spec fn reading_of(dict: Map<Seq<char>, Seq<char>>, w: Seq<char>) -> Seq<char> {
    if dict.contains_key(w) {
        dict[w]
    } else {
        w
    }
}

/// The first `j` characters of `cs`, in UTF-8, are one of `words`.
pub open spec fn word_at(cs: Seq<char>, words: Set<Seq<u8>>, j: int) -> bool {
    words.contains(encode_utf8(cs.take(j)))
}

/// The largest `j` in `1..=n` such that the first `j` characters of `cs`
/// form a word, or 0 when there is none.
pub open spec fn longest_word(cs: Seq<char>, words: Set<Seq<u8>>, n: int) -> int
    decreases n,
{
    if n <= 0 {
        0
    } else if word_at(cs, words, n) {
        n
    } else {
        longest_word(cs, words, n - 1)
    }
}

/// Greedy longest-match rewriting: at each position the longest word of
/// the trie that starts there is replaced by its reading; where no word
/// starts, one character is kept as it is.
pub open spec fn trie_rewrite(
    cs: Seq<char>,
    words: Set<Seq<u8>>,
    dict: Map<Seq<char>, Seq<char>>,
) -> Seq<char>
    decreases cs.len(),
{
    if cs.len() == 0 {
        cs
    } else {
        let j = longest_word(cs, words, cs.len() as int);
        if 0 < j <= cs.len() {
            reading_of(dict, cs.take(j)) + trie_rewrite(cs.skip(j), words, dict)
        } else {
            seq![cs[0]] + trie_rewrite(cs.drop_first(), words, dict)
        }
    }
}

/// What `replace_with_trie` gives: a text that is only white space stays
/// as it is; any other is rewritten by `trie_rewrite`.
pub open spec fn trie_replaced(
    cs: Seq<char>,
    words: Set<Seq<u8>>,
    dict: Map<Seq<char>, Seq<char>>,
) -> Seq<char> {
    if all_white(cs) {
        cs
    } else {
        trie_rewrite(cs, words, dict)
    }
}

proof fn lemma_longest_word_is(cs: Seq<char>, words: Set<Seq<u8>>, n: int, j: int)
    requires
        1 <= j <= n,
        word_at(cs, words, j),
        forall|x: int| j < x <= n ==> !#[trigger] word_at(cs, words, x),
    ensures
        longest_word(cs, words, n) == j,
    decreases n,
{
    if n > j {
        lemma_longest_word_is(cs, words, n - 1, j);
    }
}

proof fn lemma_longest_word_none(cs: Seq<char>, words: Set<Seq<u8>>, n: int)
    requires
        forall|x: int| 1 <= x <= n ==> !#[trigger] word_at(cs, words, x),
    ensures
        longest_word(cs, words, n) == 0,
    decreases n,
{
    if n > 0 {
        lemma_longest_word_none(cs, words, n - 1);
    }
}

/// std `String::from_utf8`, with the error turned into `None`.
#[verifier::external_body]
fn string_from_utf8(bytes: &Vec<u8>) -> (r: Option<String>)
    ensures
        r is Some <==> valid_utf8(bytes@),
        r matches Some(s) ==> s@ == decode_utf8(bytes@),
{
    String::from_utf8(bytes.to_vec()).ok()
}

fn push_reading(result: &mut String, map: &Dictionary, w: &String)
    ensures
        final(result)@ == old(result)@ + reading_of(map.view(), w@),
{
    match map.get(w.as_str()) {
        Some(kana) => push_str(result, kana.as_str()),
        None => push_str(result, w.as_str()),
    }
}

/// Rewrites `word` by greedy longest match against the words of `trie`:
/// each longest match is replaced by its reading in `map` (or kept when
/// `map` has none), and characters where no word starts are kept. A text
/// that is only white space comes back unchanged.
pub fn replace_with_trie(word: &str, map: &Dictionary, trie: &Trie<u8>) -> (r: String)
    ensures
        r@ == trie_replaced(word@, trie_words(*trie), map.view()),
{
    if is_blank(word) {
        return copy_str(word);
    }
    let ghost words = trie_words(*trie);
    let ghost dict = map.view();
    let cs = chars_of(word);
    let bytes = word.as_bytes();
    let nbytes = bytes.len();
    let mut result = String::new();
    let mut k: usize = 0;
    let mut cursor: usize = 0;
    proof {
        assert(cs@.skip(0) =~= cs@);
        assert(cs@.take(0) =~= Seq::<char>::empty());
        assert(result@ + trie_rewrite(cs@, words, dict) =~= trie_rewrite(cs@, words, dict));
    }
    while k < cs.len()
        invariant
            k <= cs@.len(),
            cs@ == word@,
            bytes@ == encode_utf8(cs@),
            nbytes == bytes@.len(),
            words == trie_words(*trie),
            dict == map.view(),
            cursor == encode_utf8(cs@.take(k as int)).len(),
            trie_rewrite(cs@, words, dict) == result@ + trie_rewrite(
                cs@.skip(k as int),
                words,
                dict,
            ),
        decreases cs.len() - k,
    {
        let ghost t = cs@.skip(k as int);
        proof {
            lemma_encode_split(cs@, k as int);
            assert(bytes@.skip(cursor as int) =~= encode_utf8(t));
        }
        let prefixes = common_prefixes(trie, bytes, cursor);
        let mut best: Option<String> = None;
        let mut best_len: usize = 0;
        let ghost mut best_idx: int = -1;
        let mut i: usize = 0;
        while i < prefixes.len()
            invariant
                i <= prefixes@.len(),
                -1 <= best_idx < i,
                best is None <==> best_idx < 0,
                best_idx >= 0 ==> {
                    &&& valid_utf8(prefixes@[best_idx]@)
                    &&& best->0@ == decode_utf8(prefixes@[best_idx]@)
                    &&& best_len == prefixes@[best_idx]@.len()
                },
                forall|x: int| best_idx < x < i ==> !valid_utf8(#[trigger] prefixes@[x]@),
            decreases prefixes.len() - i,
        {
            let n = prefixes[i].len();
            match string_from_utf8(&prefixes[i]) {
                Some(s) => {
                    best = Some(s);
                    best_len = n;
                    proof {
                        best_idx = i as int;
                    }
                },
                None => {},
            }
            i = i + 1;
        }
        match best {
            Some(m) => {
                let ghost w = prefixes@[best_idx]@;
                proof {
                    lemma_valid_prefix_is_encoded_prefix(t, w);
                }
                let ghost j = choose|j: int| 0 <= j <= t.len() && #[trigger] encode_utf8(t.take(j)) == w;
                proof {
                    encode_utf8_decode_utf8(t.take(j));
                    assert(m@ == t.take(j));
                    assert(j >= 1) by {
                        if j == 0 {
                            assert(t.take(0) =~= Seq::<char>::empty());
                        }
                    }
                    assert forall|x: int| j < x <= t.len() implies !#[trigger] word_at(t, words, x) by {
                        if word_at(t, words, x) {
                            let wx = encode_utf8(t.take(x));
                            lemma_encode_take_prefix(t, x);
                            lemma_encode_take_grows(t, j, x);
                            lemma_encode_take_grows(t, 0, x);
                            assert(t.take(0) =~= Seq::<char>::empty());
                            assert(wx.len() > 0);
                            let ix = choose|ix: int| 0 <= ix < prefixes@.len() && #[trigger] prefixes@[ix]@ == wx;
                            vstd::utf8::encode_utf8_valid_utf8(t.take(x));
                            if ix > best_idx {
                                assert(!valid_utf8(prefixes@[ix]@));
                            } else if ix == best_idx {
                                assert(wx.len() == w.len());
                            } else {
                                assert(prefixes@[ix]@.len() < prefixes@[best_idx]@.len());
                            }
                        }
                    }
                    lemma_longest_word_is(t, words, t.len() as int, j);
                    lemma_encode_split(t, j);
                    lemma_encode_concat(cs@.take(k as int), t.take(j));
                    assert(cs@.take(k as int) + t.take(j) =~= cs@.take(k + j));
                    assert(t.skip(j) =~= cs@.skip(k + j));
                    lemma_encode_take_prefix(cs@, k + j);
                }
                let mv = chars_of(m.as_str());
                push_reading(&mut result, map, &m);
                k = k + mv.len();
                cursor = cursor + best_len;
            },
            None => {
                proof {
                    assert forall|x: int| 1 <= x <= t.len() implies !#[trigger] word_at(t, words, x) by {
                        if word_at(t, words, x) {
                            let wx = encode_utf8(t.take(x));
                            lemma_encode_take_prefix(t, x);
                            lemma_encode_take_grows(t, 0, x);
                            assert(t.take(0) =~= Seq::<char>::empty());
                            let ix = choose|ix: int| 0 <= ix < prefixes@.len() && #[trigger] prefixes@[ix]@ == wx;
                            vstd::utf8::encode_utf8_valid_utf8(t.take(x));
                            assert(!valid_utf8(prefixes@[ix]@));
                        }
                    }
                    lemma_longest_word_none(t, words, t.len() as int);
                }
                let c = cs[k];
                push_char(&mut result, c);
                proof {
                    lemma_encode_push(cs@.take(k as int), c);
                    assert(cs@.take(k as int).push(c) =~= cs@.take(k + 1));
                    assert(t.drop_first() =~= cs@.skip(k + 1));
                    lemma_encode_take_prefix(cs@, k + 1);
                }
                cursor = cursor + utf8_width(c);
                k = k + 1;
            },
        }
    }
    proof {
        assert(cs@.skip(k as int) =~= Seq::<char>::empty());
        assert(result@ + trie_rewrite(cs@.skip(k as int), words, dict) =~= result@);
    }
    result
}

/// E-mail addresses, which `url_shouryaku` abbreviates.
pub const EMAIL_PATTERN: &'static str = r"\b[A-Za-z0-9._%+-]+@[A-Za-z0-9.-]+\.[A-Z|a-z]{2,}\b";

/// Web links, which `url_shouryaku` abbreviates.
pub const URL_PATTERN: &'static str = r"https?:[//\w/:%#\$&\?\(\)~\.=\+\-]+";

/// What stands for an e-mail address ("メール省略", "mail omitted").
pub const MAIL_NOTE: &'static str = "メール省略";

/// What stands for a link ("URL省略", "URL omitted").
pub const URL_NOTE: &'static str = "URL省略";

/// Runs of ASCII letters, which `replace_words` looks up.
pub const WORD_PATTERN: &'static str = r"[A-Za-z]+";

/// Marks that are not read out at all.
pub const GARBAGE_PATTERN: &'static str = r"[|｜_＿\[\]【】]";

/// What `url_shouryaku` gives: e-mail addresses, then links, replaced by
/// their notes; `None` when a pattern does not compile.
pub open spec fn links_abbreviated(text: Seq<char>) -> Option<Seq<char>> {
    match regex_replacement(EMAIL_PATTERN@, text, MAIL_NOTE@) {
        Some(t) => regex_replacement(URL_PATTERN@, t, URL_NOTE@),
        None => None,
    }
}

/// Replaces e-mail addresses by "メール省略" and then links by "URL省略".
pub fn url_shouryaku(text: String) -> (r: Result<String, TextError>)
    ensures
        match r {
            Ok(s) => links_abbreviated(text@) == Some(s@),
            Err(e) => links_abbreviated(text@) is None && e == TextError::InvalidPattern,
        },
{
    let without_mail = match regex_replace_all(EMAIL_PATTERN, text.as_str(), MAIL_NOTE) {
        Some(t) => t,
        None => return Err(TextError::InvalidPattern),
    };
    match regex_replace_all(URL_PATTERN, without_mail.as_str(), URL_NOTE) {
        Some(t) => Ok(t),
        None => Err(TextError::InvalidPattern),
    }
}

/// What `remove_garbage` gives: the text without bars, underscores and
/// brackets; `None` when the pattern does not compile.
pub open spec fn garbage_removed(text: Seq<char>) -> Option<Seq<char>> {
    regex_replacement(GARBAGE_PATTERN@, text, ""@)
}

/// Deletes marks that are not read out: `|`, `｜`, `_`, `＿`, `[`, `]`,
/// `【` and `】`.
pub fn remove_garbage(text: String) -> (r: Result<String, TextError>)
    ensures
        match r {
            Ok(s) => garbage_removed(text@) == Some(s@),
            Err(e) => garbage_removed(text@) is None && e == TextError::InvalidPattern,
        },
{
    match regex_replace_all(GARBAGE_PATTERN, text.as_str(), "") {
        Some(t) => Ok(t),
        None => Err(TextError::InvalidPattern),
    }
}

/// The text between byte offsets `from` and `to` of a UTF-8 text.
pub open spec fn piece(b: Seq<u8>, from: int, to: int) -> Seq<char> {
    decode_utf8(b.subrange(from, to))
}

/// The text of UTF-8 bytes `b` from byte `from` on, with each span of
/// `spans` replaced by the reading of its lowercase form.
pub open spec fn spliced(
    b: Seq<u8>,
    spans: Seq<(usize, usize)>,
    dict: Map<Seq<char>, Seq<char>>,
    from: int,
) -> Seq<char>
    decreases spans.len(),
{
    if spans.len() == 0 {
        piece(b, from, b.len() as int)
    } else {
        piece(b, from, spans[0].0 as int) + reading_of(
            dict,
            lowercase(piece(b, spans[0].0 as int, spans[0].1 as int)),
        ) + spliced(b, spans.drop_first(), dict, spans[0].1 as int)
    }
}

/// The lowercase forms of the spans that have no reading and take at
/// least three bytes, in order: the words worth recording as unknown.
pub open spec fn unknown_in(
    b: Seq<u8>,
    spans: Seq<(usize, usize)>,
    dict: Map<Seq<char>, Seq<char>>,
) -> Seq<Seq<char>>
    decreases spans.len(),
{
    if spans.len() == 0 {
        seq![]
    } else {
        let l = lowercase(piece(b, spans[0].0 as int, spans[0].1 as int));
        (if !dict.contains_key(l) && encode_utf8(l).len() >= 3 {
            seq![l]
        } else {
            seq![]
        }) + unknown_in(b, spans.drop_first(), dict)
    }
}

/// Replaces the words at `spans` (byte spans of `input`, as the word
/// pattern finds them) by the readings of their lowercase forms, keeps
/// a word without reading in lowercase, and removes all white space.
/// Also gives the words without reading that take at least three bytes,
/// in order, for recording.
pub fn replace_words_in_spans(input: &str, spans: &Vec<(usize, usize)>, map: &Dictionary) -> (r: (
    String,
    Vec<String>,
))
    requires
        spans_well_placed(encode_utf8(input@), spans@),
    ensures
        r.0@ == strip_white(spliced(encode_utf8(input@), spans@, map.view(), 0)),
        r.1@.map_values(|w: String| w@) == unknown_in(encode_utf8(input@), spans@, map.view()),
{
    let ghost b = encode_utf8(input@);
    let ghost dict = map.view();
    proof {
        vstd::utf8::encode_utf8_valid_utf8(input@);
        vstd::utf8::is_char_boundary_start_end_of_seq(b);
        assert(b.subrange(0, b.len() as int) =~= b);
    }
    let mut out = String::new();
    let mut unknown: Vec<String> = Vec::new();
    let mut rest: &str = input;
    let mut c: usize = 0;
    let mut i: usize = 0;
    proof {
        assert(spans@.skip(0) =~= spans@);
        assert(out@ + spliced(b, spans@, dict, 0) =~= spliced(b, spans@, dict, 0));
        assert(unknown@.map_values(|w: String| w@) + unknown_in(b, spans@, dict) =~= unknown_in(
            b,
            spans@,
            dict,
        ));
    }
    while i < spans.len()
        invariant
            i <= spans@.len(),
            b == encode_utf8(input@),
            dict == map.view(),
            spans_well_placed(b, spans@),
            valid_utf8(b),
            c <= b.len(),
            is_char_boundary(b, c as int),
            encode_utf8(rest@) == b.subrange(c as int, b.len() as int),
            i < spans@.len() ==> c <= spans@[i as int].0,
            spliced(b, spans@, dict, 0) == out@ + spliced(b, spans@.skip(i as int), dict, c as int),
            unknown_in(b, spans@, dict) == unknown@.map_values(|w: String| w@) + unknown_in(
                b,
                spans@.skip(i as int),
                dict,
            ),
        decreases spans.len() - i,
    {
        let (s, e) = spans[i];
        let ghost rb = encode_utf8(rest@);
        proof {
            lemma_boundary_in_suffix(b, c as int, s as int);
            assert(rb == b.subrange(c as int, b.len() as int));
        }
        let (gap, tail) = rest.split_at(s - c);
        proof {
            assert(encode_utf8(gap@) =~= b.subrange(c as int, s as int));
            assert(encode_utf8(tail@) =~= b.subrange(s as int, b.len() as int));
            encode_utf8_decode_utf8(gap@);
            lemma_boundary_in_suffix(b, s as int, e as int);
        }
        let (word, after) = tail.split_at(e - s);
        proof {
            assert(encode_utf8(word@) =~= b.subrange(s as int, e as int));
            assert(encode_utf8(after@) =~= b.subrange(e as int, b.len() as int));
            encode_utf8_decode_utf8(word@);
        }
        push_str(&mut out, gap);
        let lw = to_lowercase(word);
        let ghost t = spans@.skip(i as int);
        proof {
            assert(t[0] == spans@[i as int]);
            assert(t.drop_first() =~= spans@.skip(i + 1));
        }
        match map.get(lw.as_str()) {
            Some(kana) => {
                push_str(&mut out, kana.as_str());
            },
            None => {
                let lv = chars_of(lw.as_str());
                if !utf8_len_at_most(&lv, 2) {
                    let copy = copy_str(lw.as_str());
                    unknown.push(copy);
                }
                push_str(&mut out, lw.as_str());
            },
        }
        proof {
            assert(unknown_in(b, spans@, dict) =~= unknown@.map_values(|w: String| w@) + unknown_in(
                b,
                spans@.skip(i + 1),
                dict,
            ));
            assert(spliced(b, spans@, dict, 0) =~= out@ + spliced(b, spans@.skip(i + 1), dict, e as int));
            vstd::utf8::encode_utf8_valid_utf8(input@);
        }
        rest = after;
        c = e;
        i = i + 1;
    }
    proof {
        encode_utf8_decode_utf8(rest@);
        assert(spans@.skip(i as int) =~= Seq::<(usize, usize)>::empty());
    }
    push_str(&mut out, rest);
    proof {
        assert(unknown_in(b, spans@, dict) =~= unknown@.map_values(|w: String| w@));
    }
    (remove_white(out.as_str()), unknown)
}

/// What `replace_words` gives: the spliced text without white space, and
/// the unknown words; `None` when the word pattern does not compile.
pub open spec fn words_replaced(text: Seq<char>, dict: Map<Seq<char>, Seq<char>>) -> Option<
    (Seq<char>, Seq<Seq<char>>),
> {
    match regex_find_spans(WORD_PATTERN@, text) {
        Some(spans) => Some(
            (
                strip_white(spliced(encode_utf8(text), spans, dict, 0)),
                unknown_in(encode_utf8(text), spans, dict),
            ),
        ),
        None => None,
    }
}

/// Replaces each run of ASCII letters by the reading of its lowercase
/// form (keeping the lowercase word when the dictionary has none) and
/// removes all white space. The second result lists, in order, the
/// lowercase words without a reading that take at least three bytes;
/// the caller records them as unknown words.
pub fn replace_words(input: String, map: &Dictionary) -> (r: Result<(String, Vec<String>), TextError>)
    ensures
        match r {
            Ok((s, unknown)) => words_replaced(input@, map.view()) == Some(
                (s@, unknown@.map_values(|w: String| w@)),
            ),
            Err(e) => words_replaced(input@, map.view()) is None && e == TextError::InvalidPattern,
        },
{
    match regex_match_spans(WORD_PATTERN, input.as_str()) {
        Some(spans) => Ok(replace_words_in_spans(input.as_str(), &spans, map)),
        None => Err(TextError::InvalidPattern),
    }
}

/// What `clean_text` gives: the steps of the reading pipeline in order,
/// with the unknown words that `replace_words` reported; `None` when one
/// of the patterns does not compile.
pub open spec fn cleaned(
    text: Seq<char>,
    dict: Map<Seq<char>, Seq<char>>,
    words: Set<Seq<u8>>,
) -> Option<(Seq<char>, Seq<Seq<char>>)> {
    match links_abbreviated(text) {
        None => None,
        Some(t1) => {
            let t4 = heard(t1).map_values(|c: char| zenkaku(c)).map_values(|c: char| hankaku(c));
            match words_replaced(t4, dict) {
                None => None,
                Some((t5, unknown)) => match garbage_removed(trie_replaced(t5, words, dict)) {
                    None => None,
                    Some(t7) => Some((trimmed(t7), unknown)),
                },
            }
        },
    }
}

/// Prepares a chat message for reading aloud: abbreviates mail addresses
/// and links, makes marks readable, normalizes punctuation and full-width
/// letters, replaces words by their readings, drops unreadable marks and
/// trims. The second result lists the unknown words that `replace_words`
/// reported. The text that comes out has no white space at either end.
pub fn clean_text(recv_msg: String, dict_map: &Dictionary, dict_trie: &Trie<u8>) -> (r: Result<
    (String, Vec<String>),
    TextError,
>)
    ensures
        match r {
            Ok((s, unknown)) => {
                &&& cleaned(recv_msg@, dict_map.view(), trie_words(*dict_trie)) == Some(
                    (s@, unknown@.map_values(|w: String| w@)),
                )
                &&& trimmed(s@) == s@
            },
            Err(e) => cleaned(recv_msg@, dict_map.view(), trie_words(*dict_trie)) is None && e
                == TextError::InvalidPattern,
        },
{
    let msg = url_shouryaku(recv_msg)?;
    let msg = hear_aid(msg);
    let msg = to_zenkaku_punctuation(msg);
    let msg = to_hankaku_alphabets(msg);
    let (msg, unknown) = replace_words(msg, dict_map)?;
    let msg = replace_with_trie(msg.as_str(), dict_map, dict_trie);
    let msg = remove_garbage(msg)?;
    let out = trim(msg.as_str());
    proof {
        law_trim_idempotent(msg@);
    }
    Ok((out, unknown))
}

/// The word of a dictionary line: the part before its first comma, trimmed.
pub open spec fn line_word(line: Seq<char>) -> Seq<char> {
    trimmed(split_comma(line).0)
}

/// The reading of a dictionary line: the part after its first comma, trimmed.
pub open spec fn line_reading(line: Seq<char>) -> Seq<char> {
    trimmed(split_comma(line).1)
}

/// A dictionary line that `load_files` accepts: it has a comma, and the
/// word before it is not blank.
pub open spec fn valid_dict_line(line: Seq<char>) -> bool {
    line.contains(',') && line_word(line).len() > 0
}

/// Whether `build_dictionary` accepts a line: it has a comma, and the word
/// before it is not blank.
pub fn is_valid_dict_line(line: &str) -> (b: bool)
    ensures
        b == valid_dict_line(line@),
{
    match split_once_comma(line) {
        Some((left, _right)) => {
            let word = trim(left.as_str());
            !word.as_str().is_empty()
        },
        None => false,
    }
}

/// The readings that a list of dictionary lines gives, a later line
/// overriding an earlier one for the same word.
pub open spec fn dict_of_lines(lines: Seq<Seq<char>>) -> Map<Seq<char>, Seq<char>>
    decreases lines.len(),
{
    if lines.len() == 0 {
        Map::empty()
    } else {
        dict_of_lines(lines.drop_last()).insert(
            line_word(lines.last()),
            line_reading(lines.last()),
        )
    }
}

/// The UTF-8 words that a list of dictionary lines puts into the trie.
pub open spec fn words_of_lines(lines: Seq<Seq<char>>) -> Set<Seq<u8>>
    decreases lines.len(),
{
    if lines.len() == 0 {
        Set::empty()
    } else {
        words_of_lines(lines.drop_last()).insert(encode_utf8(line_word(lines.last())))
    }
}

/// Builds the reading dictionary and its word trie from `word,reading`
/// lines, in order: each word is trimmed, as is its reading, and a later
/// line overrides an earlier one for the same word. The lines must each
/// hold a comma and a non-blank word (where the file-reading side fails).
pub fn build_dictionary(lines: &Vec<String>) -> (r: (Dictionary, Trie<u8>))
    requires
        forall|i: int| 0 <= i < lines@.len() ==> valid_dict_line(#[trigger] lines@[i]@),
    ensures
        r.0.view() == dict_of_lines(lines@.map_values(|l: String| l@)),
        trie_words(r.1) == words_of_lines(lines@.map_values(|l: String| l@)),
{
    let ghost ls = lines@.map_values(|l: String| l@);
    let mut dict = Dictionary::new();
    let mut builder = new_trie_builder();
    let mut i: usize = 0;
    while i < lines.len()
        invariant
            i <= lines@.len(),
            ls == lines@.map_values(|l: String| l@),
            forall|j: int| 0 <= j < lines@.len() ==> valid_dict_line(#[trigger] lines@[j]@),
            dict.view() == dict_of_lines(ls.take(i as int)),
            builder_words(builder) == words_of_lines(ls.take(i as int)),
        decreases lines.len() - i,
    {
        let line = &lines[i];
        assert(valid_dict_line(lines@[i as int]@));
        match split_once_comma(line.as_str()) {
            Some((left, right)) => {
                let word = trim(left.as_str());
                let reading = trim(right.as_str());
                push_trie_word(&mut builder, word.as_str());
                dict.insert(word, reading);
                proof {
                    assert(ls.take(i + 1).drop_last() =~= ls.take(i as int));
                    assert(ls.take(i + 1).last() == line@);
                }
            },
            None => {
                assert(false);
            },
        }
        i = i + 1;
    }
    assert(ls.take(lines@.len() as int) =~= ls);
    (dict, build_trie(builder))
}

/// Normalizing full-width letters twice is normalizing once.
pub proof fn law_hankaku_idempotent(s: Seq<char>)
    ensures
        s.map_values(|c: char| hankaku(c)).map_values(|c: char| hankaku(c)) == s.map_values(
            |c: char| hankaku(c),
        ),
{
    assert forall|i: int| 0 <= i < s.len() implies hankaku(hankaku(s[i])) == hankaku(s[i]) by {
        let u = s[i] as u32;
        if 0xFF01 <= u <= 0xFF5E {
            vstd::utf8::char_u32_cast((u - 0xFEE0) as char, (u - 0xFEE0) as u32);
            assert(((u - 0xFEE0) as char) as u32 == u - 0xFEE0) by {
                vstd::utf8::char_is_scalar((u - 0xFEE0) as char);
            }
        }
    }
    assert(s.map_values(|c: char| hankaku(c)).map_values(|c: char| hankaku(c)) =~= s.map_values(
        |c: char| hankaku(c),
    ));
}

/// Converting punctuation to full width twice is converting once.
pub proof fn law_zenkaku_idempotent(s: Seq<char>)
    ensures
        s.map_values(|c: char| zenkaku(c)).map_values(|c: char| zenkaku(c)) == s.map_values(
            |c: char| zenkaku(c),
        ),
{
    assert(s.map_values(|c: char| zenkaku(c)).map_values(|c: char| zenkaku(c)) =~= s.map_values(
        |c: char| zenkaku(c),
    ));
}

proof fn lemma_heard_concat(a: Seq<char>, b: Seq<char>)
    ensures
        heard(a + b) == heard(a) + heard(b),
    decreases b.len(),
{
    if b.len() == 0 {
        assert(a + b =~= a);
        assert(heard(a) + heard(b) =~= heard(a));
    } else {
        lemma_heard_concat(a, b.drop_last());
        assert((a + b).drop_last() =~= a + b.drop_last());
        assert((a + b).last() == b.last());
        assert(heard(a + b) =~= heard(a) + heard(b));
    }
}

/// `hear_aid` changes nothing in its own output: applying it twice is
/// applying it once.
pub proof fn law_hear_aid_idempotent(s: Seq<char>)
    ensures
        heard(heard(s)) == heard(s),
    decreases s.len(),
{
    if s.len() > 0 {
        law_hear_aid_idempotent(s.drop_last());
        let p = hear_aid_piece(s.last());
        lemma_heard_concat(heard(s.drop_last()), p);
        let x = p[0];
        assert(p =~= seq![x]);
        assert(hear_aid_piece(x) =~= seq![x]);
        assert(p.drop_last() =~= Seq::<char>::empty());
        assert(heard(p.drop_last()) =~= Seq::<char>::empty());
        assert(heard(p) =~= p);
    }
}

/// With a trie that holds no word, rewriting keeps the text as it is.
pub proof fn law_empty_trie_keeps_text(cs: Seq<char>, dict: Map<Seq<char>, Seq<char>>)
    ensures
        trie_replaced(cs, Set::<Seq<u8>>::empty(), dict) == cs,
{
    lemma_empty_trie_rewrite(cs, dict);
}

proof fn lemma_empty_trie_rewrite(cs: Seq<char>, dict: Map<Seq<char>, Seq<char>>)
    ensures
        trie_rewrite(cs, Set::<Seq<u8>>::empty(), dict) == cs,
    decreases cs.len(),
{
    if cs.len() > 0 {
        lemma_longest_word_none(cs, Set::<Seq<u8>>::empty(), cs.len() as int);
        lemma_empty_trie_rewrite(cs.drop_first(), dict);
        assert(seq![cs[0]] + cs.drop_first() =~= cs);
    }
}

/// A message that fits in `max_length` bytes is kept whole; a longer one
/// keeps at most `max_length` of its characters, in order, and ends with
/// the omission note.
pub proof fn law_limit_length_shape(s: Seq<char>, max_length: nat)
    ensures
        encode_utf8(s).len() <= max_length ==> limited(s, max_length) == s,
        encode_utf8(s).len() > max_length ==> {
            let r = limited(s, max_length);
            let k = r.len() - omission_note().len();
            &&& k <= max_length
            &&& r.take(k) == s.take(k)
            &&& r.skip(k) == omission_note()
        },
{
    if encode_utf8(s).len() > max_length {
        let r = limited(s, max_length);
        let k = r.len() - omission_note().len();
        if s.len() <= max_length {
            assert(r.take(k) =~= s.take(k));
            assert(r.skip(k) =~= omission_note());
        } else {
            assert(r.take(k) =~= s.take(k));
            assert(r.skip(k) =~= omission_note());
        }
    }
}

/// `clean_text` already makes the marks readable as `hear_aid` does:
/// passing a message through `hear_aid` first changes nothing (for a
/// message in which neither form has a mail address or link to abbreviate).
pub proof fn law_clean_text_absorbs_hear_aid(
    s: Seq<char>,
    dict: Map<Seq<char>, Seq<char>>,
    words: Set<Seq<u8>>,
)
    requires
        links_abbreviated(s) == Some(s),
        links_abbreviated(heard(s)) == Some(heard(s)),
    ensures
        cleaned(heard(s), dict, words) == cleaned(s, dict, words),
{
    law_hear_aid_idempotent(s);
}

/// A text that is exactly one word of the trie is replaced by that word's
/// reading (or kept when the dictionary has none), whatever the word's
/// length.
pub proof fn law_whole_word_replaced(w: Seq<char>, words: Set<Seq<u8>>, dict: Map<Seq<char>, Seq<char>>)
    requires
        words.contains(encode_utf8(w)),
        !all_white(w),
    ensures
        trie_replaced(w, words, dict) == (if dict.contains_key(w) {
            dict[w]
        } else {
            w
        }),
{
    let n = w.len() as int;
    assert(n > 0);
    assert(w.take(n) =~= w);
    assert(word_at(w, words, n));
    assert(longest_word(w, words, n) == n);
    assert(w.skip(n) =~= Seq::<char>::empty());
    assert(trie_rewrite(w.skip(n), words, dict) =~= Seq::<char>::empty());
    assert(reading_of(dict, w.take(n)) + trie_rewrite(w.skip(n), words, dict) =~= reading_of(dict, w));
}

proof fn lemma_lines_hold_word(ls: Seq<Seq<char>>, i: int)
    requires
        0 <= i < ls.len(),
    ensures
        dict_of_lines(ls).contains_key(line_word(ls[i])),
        words_of_lines(ls).contains(encode_utf8(line_word(ls[i]))),
    decreases ls.len(),
{
    if i < ls.len() - 1 {
        lemma_lines_hold_word(ls.drop_last(), i);
        assert(ls.drop_last()[i] == ls[i]);
    }
}

/// Every word of a dictionary file is read from the dictionary: the text
/// that is exactly the word of a line becomes the reading that the
/// dictionary holds for it.
pub proof fn law_dictionary_word_read(ls: Seq<Seq<char>>, i: int)
    requires
        forall|j: int| 0 <= j < ls.len() ==> valid_dict_line(#[trigger] ls[j]),
        0 <= i < ls.len(),
    ensures
        trie_replaced(line_word(ls[i]), words_of_lines(ls), dict_of_lines(ls)) == dict_of_lines(
            ls,
        )[line_word(ls[i])],
{
    let w = line_word(ls[i]);
    assert(valid_dict_line(ls[i]));
    lemma_lines_hold_word(ls, i);
    law_trim_idempotent(split_comma(ls[i]).0);
    assert(!is_white(w[0]));
    law_whole_word_replaced(w, words_of_lines(ls), dict_of_lines(ls));
}

/// A line of a dictionary file split at its first comma into a word and a
/// reading, each with the white space at its ends removed.
pub open spec fn line_splits_into(l: Seq<char>, w: Seq<char>, r: Seq<char>) -> bool {
    let (a, b) = split_comma(l);
    &&& l == a + seq![','] + b
    &&& !a.contains(',')
    &&& is_trim_of(a, w)
    &&& is_trim_of(b, r)
}

/// The readings of a dictionary built from a file carry no white space at
/// either end: each word's reading is the part after the first comma of a
/// line for that word, with its end white space removed, and that line is
/// the last one for the word.
pub proof fn law_dictionary_readings_trimmed(ls: Seq<Seq<char>>, w: Seq<char>)
    requires
        forall|j: int| 0 <= j < ls.len() ==> valid_dict_line(#[trigger] ls[j]),
        dict_of_lines(ls).contains_key(w),
    ensures
        exists|i: int|
            0 <= i < ls.len() && #[trigger] line_splits_into(ls[i], w, dict_of_lines(ls)[w]) && (
            forall|j: int| i < j < ls.len() ==> line_word(#[trigger] ls[j]) != w),
    decreases ls.len(),
{
    let n = ls.len() as int;
    let l = ls[n - 1];
    assert(ls.last() == l);
    if line_word(l) == w {
        assert(valid_dict_line(ls[n - 1]));
        lemma_split_comma_parts(l);
        lemma_trimmed_is_trim(split_comma(l).0);
        lemma_trimmed_is_trim(split_comma(l).1);
        assert(line_splits_into(ls[n - 1], w, dict_of_lines(ls)[w]));
    } else {
        let rest = ls.drop_last();
        assert forall|j: int| 0 <= j < rest.len() implies valid_dict_line(#[trigger] rest[j]) by {
            assert(rest[j] == ls[j]);
            assert(valid_dict_line(ls[j]));
        }
        assert(dict_of_lines(rest).contains_key(w));
        law_dictionary_readings_trimmed(rest, w);
        let i = choose|i: int|
            0 <= i < rest.len() && #[trigger] line_splits_into(rest[i], w, dict_of_lines(rest)[w])
                && (forall|j: int| i < j < rest.len() ==> line_word(#[trigger] rest[j]) != w);
        assert(rest[i] == ls[i]);
        assert forall|j: int| i < j < ls.len() implies line_word(#[trigger] ls[j]) != w by {
            if j < n - 1 {
                assert(rest[j] == ls[j]);
            }
        }
        assert(line_splits_into(ls[i], w, dict_of_lines(ls)[w]));
    }
}

} // verus!
