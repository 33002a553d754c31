//! Cutting a string at byte positions: the positions next to ASCII bytes
//! are character boundaries, and the text between two boundaries is the
//! decoding of the bytes between them.

use vstd::prelude::*;
use vstd::utf8::*;
use vstd::string::StringSliceAdditionalSpecFns;
use crate::util::text::to_owned_string;

verus! {

broadcast use vstd::utf8::is_char_boundary_iff_not_is_continuation_byte, vstd::utf8::is_char_boundary_start_end_of_seq;

/// The characters that the bytes `b[a..e)` encode.
pub open spec fn text_between(b: Seq<u8>, a: int, e: int) -> Seq<char> {
    decode_utf8(b.subrange(a, e))
}

/// In valid UTF-8 the positions before and after an ASCII byte are
/// character boundaries.
pub proof fn lemma_ascii_boundaries(b: Seq<u8>, i: int)
    requires
        valid_utf8(b),
        0 <= i < b.len(),
        b[i] < 0x80,
    ensures
        is_char_boundary(b, i),
        is_char_boundary(b, i + 1),
{
    assert(!is_continuation_byte(b[i]));
    assert(is_char_boundary(b, i));
    valid_utf8_split(b, i);
    let suffix = b.subrange(i, b.len() as int);
    assert(suffix[0] == b[i]);
    if i + 1 < b.len() {
        assert(length_of_first_scalar(suffix) == 1);
        assert(is_char_boundary(pop_first_scalar(suffix), 0));
        assert(is_char_boundary(suffix, 1));
        assert(!is_continuation_byte(suffix[1]));
        assert(suffix[1] == b[i + 1]);
    }
}

/// The text of `s` between the character boundaries `a` and `e`.
pub fn slice_text(s: &str, a: usize, e: usize) -> (r: String)
    requires
        a <= e <= s.spec_bytes().len(),
        is_char_boundary(s.spec_bytes(), a as int),
        is_char_boundary(s.spec_bytes(), e as int),
    ensures
        r@ == text_between(s.spec_bytes(), a as int, e as int),
{
    let ghost b = s.spec_bytes();
    proof {
        encode_utf8_valid_utf8(s@);
        valid_utf8_split(b, a as int);
    }
    let (_, rest) = s.split_at(a);
    proof {
        let rb = b.subrange(a as int, b.len() as int);
        assert(rest.spec_bytes() =~= rb);
        if e < b.len() {
            assert(rb[e - a] == b[e as int]);
            is_char_boundary_iff_not_is_continuation_byte(rb, e - a);
        } else {
            is_char_boundary_start_end_of_seq(rb);
        }
        assert(is_char_boundary(rb, e - a));
    }
    let (mid, _) = rest.split_at(e - a);
    proof {
        assert(mid.spec_bytes() =~= b.subrange(a as int, e as int));
        encode_utf8_decode_utf8(mid@);
    }
    to_owned_string(mid)
}

/// The number of bytes that the first `i` characters of `cs` take in UTF-8.
pub open spec fn byte_offset(cs: Seq<char>, i: int) -> int {
    encode_utf8(cs.subrange(0, i)).len() as int
}

/// Encoding a concatenation encodes each part in turn.
pub proof fn lemma_encode_append(a: Seq<char>, b: Seq<char>)
    ensures
        encode_utf8(a + b) == encode_utf8(a) + encode_utf8(b),
    decreases a.len(),
{
    if a.len() == 0 {
        assert(a + b =~= b);
        assert(encode_utf8(a) =~= Seq::<u8>::empty());
        assert(encode_utf8(a) + encode_utf8(b) =~= encode_utf8(b));
    } else {
        assert((a + b)[0] == a[0]);
        assert((a + b).drop_first() =~= a.drop_first() + b);
        lemma_encode_append(a.drop_first(), b);
        assert(encode_utf8(a + b) =~= encode_scalar(a[0] as u32) + (encode_utf8(a.drop_first()) + encode_utf8(b)));
        assert(encode_utf8(a) + encode_utf8(b) =~= encode_scalar(a[0] as u32) + encode_utf8(a.drop_first()) + encode_utf8(b));
    }
}

/// The bytes between two character positions are the encoding of the
/// characters between them, so offsets grow with the position.
pub proof fn lemma_offset_split(cs: Seq<char>, i: int, j: int)
    requires
        0 <= i <= j <= cs.len(),
    ensures
        byte_offset(cs, j) == byte_offset(cs, i) + encode_utf8(cs.subrange(i, j)).len(),
        byte_offset(cs, i) <= byte_offset(cs, j) <= encode_utf8(cs).len(),
{
    assert(cs.subrange(0, j) =~= cs.subrange(0, i) + cs.subrange(i, j));
    lemma_encode_append(cs.subrange(0, i), cs.subrange(i, j));
    assert(cs =~= cs.subrange(0, j) + cs.subrange(j, cs.len() as int));
    lemma_encode_append(cs.subrange(0, j), cs.subrange(j, cs.len() as int));
}

/// One more character adds the length of its encoding.
pub proof fn lemma_offset_step(cs: Seq<char>, i: int)
    requires
        0 <= i < cs.len(),
    ensures
        byte_offset(cs, i + 1) == byte_offset(cs, i) + encode_scalar(cs[i] as u32).len(),
{
    lemma_offset_split(cs, i, i + 1);
    let one = cs.subrange(i, i + 1);
    assert(one.drop_first() =~= Seq::<char>::empty());
    assert(encode_utf8(one.drop_first()) =~= Seq::<u8>::empty());
    assert(encode_utf8(one) =~= encode_scalar(cs[i] as u32) + Seq::<u8>::empty());
}

/// The number of bytes of the UTF-8 encoding of `c`.
pub fn utf8_width(c: char) -> (w: usize)
    ensures
        w == encode_scalar(c as u32).len(),
        1 <= w <= 4,
{
    let v = c as u32;
    proof {
        char_is_scalar(c);
    }
    if v < 0x80 {
        1
    } else if v < 0x800 {
        2
    } else if v < 0x10000 {
        3
    } else {
        4
    }
}

} // verus!
