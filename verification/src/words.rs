//! Big-endian byte encodings of words and half-words, and sign extension.
use vstd::prelude::*;

verus! {

/// The four bytes of `w`, most significant first.
pub open spec fn be_bytes_u32(w: u32) -> Seq<u8> {
    seq![(w >> 24) as u8, (w >> 16) as u8, (w >> 8) as u8, w as u8]
}

/// The two bytes of `h`, most significant first.
pub open spec fn be_bytes_u16(h: u16) -> Seq<u8> {
    seq![(h >> 8) as u8, h as u8]
}

/// The word whose big-endian bytes are `b0 b1 b2 b3`.
pub open spec fn word_from_be(b0: u8, b1: u8, b2: u8, b3: u8) -> u32 {
    ((b0 as u32) << 24) | ((b1 as u32) << 16) | ((b2 as u32) << 8) | (b3 as u32)
}

/// The half-word whose big-endian bytes are `b0 b1`.
pub open spec fn half_from_be(b0: u8, b1: u8) -> u16 {
    (((b0 as u16) << 8) | (b1 as u16)) as u16
}

/// The word read from four consecutive bytes of `s` starting at `i`.
pub open spec fn word_at(s: Seq<u8>, i: int) -> u32 {
    word_from_be(s[i], s[i + 1], s[i + 2], s[i + 3])
}

/// The low 16 bits of `x`, sign-extended to 32 bits.
pub open spec fn sext16(x: u32) -> i32 {
    (x as u16) as i16 as i32
}

/// Decoding the big-endian bytes of a word gives the word back.
pub proof fn lemma_word_roundtrip(w: u32)
    ensures
        word_from_be(be_bytes_u32(w)[0], be_bytes_u32(w)[1], be_bytes_u32(w)[2], be_bytes_u32(w)[3]) == w,
{
    let b0 = (w >> 24) as u8;
    let b1 = (w >> 16) as u8;
    let b2 = (w >> 8) as u8;
    let b3 = w as u8;
    assert(((b0 as u32) << 24) | ((b1 as u32) << 16) | ((b2 as u32) << 8) | (b3 as u32) == w)
        by (bit_vector)
        requires
            b0 == (w >> 24) as u8,
            b1 == (w >> 16) as u8,
            b2 == (w >> 8) as u8,
            b3 == w as u8,
    ;
}

/// Encoding the word made of four bytes gives those bytes back.
pub proof fn lemma_bytes_roundtrip(b0: u8, b1: u8, b2: u8, b3: u8)
    ensures
        be_bytes_u32(word_from_be(b0, b1, b2, b3)) == seq![b0, b1, b2, b3],
{
    let w = word_from_be(b0, b1, b2, b3);
    assert((w >> 24) as u8 == b0 && (w >> 16) as u8 == b1 && (w >> 8) as u8 == b2 && w as u8 == b3)
        by (bit_vector)
        requires
            w == ((b0 as u32) << 24) | ((b1 as u32) << 16) | ((b2 as u32) << 8) | (b3 as u32),
    ;
    assert(be_bytes_u32(w) =~= seq![b0, b1, b2, b3]);
}

/// Decoding the big-endian bytes of a half-word gives it back.
pub proof fn lemma_half_roundtrip(h: u16)
    ensures
        half_from_be(be_bytes_u16(h)[0], be_bytes_u16(h)[1]) == h,
{
    let b0 = (h >> 8) as u8;
    let b1 = h as u8;
    assert((((b0 as u16) << 8) | (b1 as u16)) as u16 == h) by (bit_vector)
        requires
            b0 == (h >> 8) as u8,
            b1 == h as u8,
    ;
}

/// Appends the big-endian bytes of `w`.
pub fn push_u32_be(out: &mut Vec<u8>, w: u32)
    ensures
        final(out)@ == old(out)@ + be_bytes_u32(w),
{
    out.push((w >> 24) as u8);
    out.push((w >> 16) as u8);
    out.push((w >> 8) as u8);
    out.push(w as u8);
    assert(final(out)@ =~= old(out)@ + be_bytes_u32(w));
}

/// Appends the big-endian bytes of `h`.
pub fn push_u16_be(out: &mut Vec<u8>, h: u16)
    ensures
        final(out)@ == old(out)@ + be_bytes_u16(h),
{
    out.push((h >> 8) as u8);
    out.push(h as u8);
    assert(final(out)@ =~= old(out)@ + be_bytes_u16(h));
}

/// The word made of four big-endian bytes.
pub fn word_from_bytes(b0: u8, b1: u8, b2: u8, b3: u8) -> (w: u32)
    ensures
        w == word_from_be(b0, b1, b2, b3),
{
    ((b0 as u32) << 24) | ((b1 as u32) << 16) | ((b2 as u32) << 8) | (b3 as u32)
}

/// The half-word made of two big-endian bytes.
pub fn half_from_bytes(b0: u8, b1: u8) -> (h: u16)
    ensures
        h == half_from_be(b0, b1),
{
    (((b0 as u16) << 8) | (b1 as u16)) as u16
}

/// The word stored big-endian at `bytes[i..i + 4]`.
pub fn read_word_be(bytes: &Vec<u8>, i: usize) -> (w: u32)
    requires
        i + 4 <= bytes.len(),
    ensures
        w == word_at(bytes@, i as int),
{
    word_from_bytes(bytes[i], bytes[i + 1], bytes[i + 2], bytes[i + 3])
}

/// The low 16 bits of `x`, sign-extended.
pub fn sign_extend16(x: u32) -> (r: i32)
    ensures
        r == sext16(x),
        -32768 <= r < 32768,
{
    x as u16 as i16 as i32
}

} // verus!
