//! Facts about the UTF-8 encoding of character sequences, on top of
//! vstd's `encode_utf8` / `decode_utf8`.

use vstd::prelude::*;
use vstd::utf8::*;

verus! {

/// Encoding distributes over concatenation.
pub proof fn lemma_encode_concat(a: Seq<char>, b: Seq<char>)
    ensures
        encode_utf8(a + b) == encode_utf8(a) + encode_utf8(b),
    decreases a.len(),
{
    if a.len() == 0 {
        assert(a + b =~= b);
        assert(encode_utf8(a) =~= Seq::<u8>::empty());
        assert(encode_utf8(a) + encode_utf8(b) =~= encode_utf8(b));
    } else {
        lemma_encode_concat(a.drop_first(), b);
        assert((a + b).drop_first() =~= a.drop_first() + b);
        assert((a + b)[0] == a[0]);
        assert(encode_utf8(a + b) =~= encode_scalar(a[0] as u32) + encode_utf8(a.drop_first() + b));
    }
}

/// The encoding of a sequence is no shorter than the sequence.
pub proof fn lemma_encode_len(a: Seq<char>)
    ensures
        encode_utf8(a).len() >= a.len(),
    decreases a.len(),
{
    if a.len() > 0 {
        lemma_encode_len(a.drop_first());
    }
}

/// Splitting a sequence at `k` splits its encoding.
pub proof fn lemma_encode_split(cs: Seq<char>, k: int)
    requires
        0 <= k <= cs.len(),
    ensures
        encode_utf8(cs) == encode_utf8(cs.take(k)) + encode_utf8(cs.skip(k)),
{
    assert(cs =~= cs.take(k) + cs.skip(k));
    lemma_encode_concat(cs.take(k), cs.skip(k));
}

/// Longer prefixes have strictly longer encodings.
pub proof fn lemma_encode_take_grows(cs: Seq<char>, i: int, j: int)
    requires
        0 <= i < j <= cs.len(),
    ensures
        encode_utf8(cs.take(i)).len() < encode_utf8(cs.take(j)).len(),
{
    let t = cs.take(j);
    lemma_encode_split(t, i);
    assert(t.take(i) =~= cs.take(i));
    lemma_encode_len(t.skip(i));
}

/// The encoding of a prefix is a prefix of the encoding.
pub proof fn lemma_encode_take_prefix(cs: Seq<char>, j: int)
    requires
        0 <= j <= cs.len(),
    ensures
        encode_utf8(cs.take(j)).len() <= encode_utf8(cs).len(),
        encode_utf8(cs).take(encode_utf8(cs.take(j)).len() as int) == encode_utf8(cs.take(j)),
{
    lemma_encode_split(cs, j);
    assert(encode_utf8(cs).take(encode_utf8(cs.take(j)).len() as int) =~= encode_utf8(
        cs.take(j),
    ));
}

/// A valid UTF-8 byte sequence that is a prefix of the encoding of `cs`
/// is the encoding of a prefix of `cs`.
pub proof fn lemma_valid_prefix_is_encoded_prefix(cs: Seq<char>, w: Seq<u8>)
    requires
        valid_utf8(w),
        w.len() <= encode_utf8(cs).len(),
        encode_utf8(cs).take(w.len() as int) == w,
    ensures
        exists|j: int| 0 <= j <= cs.len() && #[trigger] encode_utf8(cs.take(j)) == w,
    decreases cs.len(),
{
    if w.len() == 0 {
        assert(encode_utf8(cs.take(0)) =~= w);
    } else {
        if cs.len() == 0 {
            assert(false);
        }
        let b = encode_utf8(cs);
        let c0 = cs[0];
        let rest = cs.drop_first();
        encode_utf8_first_scalar(cs);
        let l = encode_scalar(c0 as u32).len() as int;
        assert(w[0] == b[0]);
        assert(length_of_first_scalar(w) == length_of_first_scalar(b));
        assert(b =~= encode_scalar(c0 as u32) + encode_utf8(rest));
        assert(w.take(l) =~= b.take(l));
        assert(b.take(l) =~= encode_scalar(c0 as u32));
        let w2 = pop_first_scalar(w);
        assert(w2 =~= w.skip(l));
        assert(encode_utf8(rest).take(w2.len() as int) =~= w2);
        lemma_valid_prefix_is_encoded_prefix(rest, w2);
        let j2 = choose|j: int| 0 <= j <= rest.len() && #[trigger] encode_utf8(rest.take(j)) == w2;
        let t = cs.take(j2 + 1);
        assert(t[0] == c0);
        assert(t.drop_first() =~= rest.take(j2));
        assert(encode_utf8(t) =~= encode_scalar(c0 as u32) + encode_utf8(rest.take(j2)));
        assert(w =~= w.take(l) + w.skip(l));
        assert(encode_utf8(cs.take(j2 + 1)) == w);
    }
}

/// The number of bytes that `c` takes in UTF-8 (std `char::len_utf8`).
pub fn utf8_width(c: char) -> (n: usize)
    ensures
        n == encode_scalar(c as u32).len(),
        1 <= n <= 4,
{
    proof {
        char_is_scalar(c);
    }
    let u = c as u32;
    if u < 0x80 {
        1
    } else if u < 0x800 {
        2
    } else if u < 0x10000 {
        3
    } else {
        4
    }
}

/// Appending one character appends its encoding.
pub proof fn lemma_encode_push(a: Seq<char>, c: char)
    ensures
        encode_utf8(a.push(c)) == encode_utf8(a) + encode_scalar(c as u32),
{
    lemma_encode_concat(a, seq![c]);
    assert(a + seq![c] =~= a.push(c));
    assert(seq![c].drop_first() =~= Seq::<char>::empty());
    assert(encode_utf8(seq![c]) =~= encode_scalar(c as u32) + encode_utf8(Seq::<char>::empty()));
    assert(encode_utf8(seq![c]) =~= encode_scalar(c as u32));
}

/// Whether the UTF-8 encoding of `v` takes at most `max` bytes.
pub fn utf8_len_at_most(v: &Vec<char>, max: usize) -> (b: bool)
    ensures
        b == (encode_utf8(v@).len() <= max),
{
    let mut total: usize = 0;
    let mut i: usize = 0;
    while i < v.len()
        invariant
            i <= v@.len(),
            total <= max,
            total == encode_utf8(v@.take(i as int)).len(),
        decreases v.len() - i,
    {
        let w = utf8_width(v[i]);
        proof {
            lemma_encode_push(v@.take(i as int), v@[i as int]);
            assert(v@.take(i as int).push(v@[i as int]) =~= v@.take(i + 1));
        }
        if w > max - total {
            proof {
                lemma_encode_take_prefix(v@, i + 1);
            }
            return false;
        }
        total = total + w;
        i = i + 1;
    }
    assert(v@.take(v@.len() as int) =~= v@);
    true
}

/// A boundary of a valid byte sequence at or after a boundary `c` is a
/// boundary of the suffix that starts at `c`, and that suffix is valid.
pub proof fn lemma_boundary_in_suffix(b: Seq<u8>, c: int, x: int)
    requires
        valid_utf8(b),
        is_char_boundary(b, c),
        is_char_boundary(b, x),
        0 <= c <= x <= b.len(),
    ensures
        valid_utf8(b.subrange(c, b.len() as int)),
        is_char_boundary(b.subrange(c, b.len() as int), x - c),
{
    valid_utf8_split(b, c);
    let t = b.subrange(c, b.len() as int);
    if x == b.len() {
        is_char_boundary_start_end_of_seq(t);
        assert(t.len() == x - c);
    } else {
        is_char_boundary_iff_not_is_continuation_byte(b, x);
        is_char_boundary_iff_not_is_continuation_byte(t, x - c);
        assert(t[x - c] == b[x]);
    }
}

} // verus!
