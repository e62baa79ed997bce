//! The byte trie of dictionary words, from the `trie_rs` crate.
//!
//! The trie is opaque to the verifier: `trie_words` and `builder_words`
//! name the set of words that a trie or a builder holds, and the wrappers
//! below state, over those names, what each `trie_rs` call does.

use vstd::prelude::*;
use trie_rs::{Trie, TrieBuilder};
use vstd::utf8::encode_utf8;

verus! {

#[verifier::external_type_specification]
#[verifier::external_body]
#[verifier::reject_recursive_types(Label)]
pub struct ExTrie<Label>(Trie<Label>);

#[verifier::external_type_specification]
#[verifier::external_body]
#[verifier::reject_recursive_types(Label)]
pub struct ExTrieBuilder<Label>(TrieBuilder<Label>);

/// The words that a trie holds.
pub uninterp spec fn trie_words(t: Trie<u8>) -> Set<Seq<u8>>;

/// The words that have been pushed into a trie builder.
pub uninterp spec fn builder_words(b: TrieBuilder<u8>) -> Set<Seq<u8>>;

/// `trie_rs::TrieBuilder::new`: a builder that holds no word.
#[verifier::external_body]
pub(crate) fn new_trie_builder() -> (b: TrieBuilder<u8>)
    ensures
        builder_words(b) == Set::<Seq<u8>>::empty(),
{
    TrieBuilder::new()
}

/// `trie_rs::TrieBuilder::push`: adds the UTF-8 bytes of `word` to the
/// words of the builder. The crate panics on an empty word, which the
/// `requires` leaves out.
#[verifier::external_body]
pub(crate) fn push_trie_word(b: &mut TrieBuilder<u8>, word: &str)
    requires
        word@.len() > 0,
    ensures
        builder_words(*final(b)) == builder_words(*old(b)).insert(encode_utf8(word@)),
{
    b.push(word);
}

/// `trie_rs::TrieBuilder::build`: a trie holding the builder's words.
#[verifier::external_body]
pub(crate) fn build_trie(b: TrieBuilder<u8>) -> (t: Trie<u8>)
    ensures
        trie_words(t) == builder_words(b),
{
    b.build()
}

/// `u` is a prefix of `s`.
pub open spec fn is_prefix_of(u: Seq<u8>, s: Seq<u8>) -> bool {
    u.len() <= s.len() && s.take(u.len() as int) == u
}

/// `trie_rs::Trie::common_prefix_search` on `query[start..]`, collected:
/// the non-empty words of the trie that are prefixes of the query, each
/// once, shortest first.
#[verifier::external_body]
pub(crate) fn common_prefixes(t: &Trie<u8>, query: &[u8], start: usize) -> (r: Vec<Vec<u8>>)
    requires
        start <= query@.len(),
    ensures
        forall|i: int|
            0 <= i < r@.len() ==> {
                &&& r@[i]@.len() > 0
                &&& trie_words(*t).contains(#[trigger] r@[i]@)
                &&& is_prefix_of(r@[i]@, query@.skip(start as int))
            },
        forall|i: int, j: int| 0 <= i < j < r@.len() ==> r@[i]@.len() < r@[j]@.len(),
        forall|w: Seq<u8>|
            #![trigger trie_words(*t).contains(w)]
            trie_words(*t).contains(w) && w.len() > 0 && is_prefix_of(
                w,
                query@.skip(start as int),
            ) ==> exists|i: int| 0 <= i < r@.len() && #[trigger] r@[i]@ == w,
{
    t.common_prefix_search(&query[start..]).collect()
}

} // verus!
