//! Integers in byte streams.
//!
//! Headers and recorded samples are little-endian wherever they are read byte by byte. A
//! tensor that is viewed in place is read in the byte order of the machine.
use vstd::prelude::*;

verus! {

/// The unsigned value of the four bytes at `off`, least significant byte first.
pub open spec fn le_u32(s: Seq<u8>, off: int) -> int {
    s[off] + 0x100 * s[off + 1] + 0x1_0000 * s[off + 2] + 0x100_0000 * s[off + 3]
}

/// The unsigned value of the four bytes at `off`, most significant byte first.
pub open spec fn be_u32(s: Seq<u8>, off: int) -> int {
    s[off + 3] + 0x100 * s[off + 2] + 0x1_0000 * s[off + 1] + 0x100_0000 * s[off]
}

/// The four bytes at `off` as the running machine reads a `u32` from memory.
pub open spec fn native_u32(s: Seq<u8>, off: int) -> int {
    match vstd::endian::endianness() {
        vstd::endian::Endian::Little => le_u32(s, off),
        vstd::endian::Endian::Big => be_u32(s, off),
    }
}

/// The two's-complement reading of a 32-bit word.
pub open spec fn signed32(w: int) -> int {
    if w >= 0x8000_0000 {
        w - 0x1_0000_0000
    } else {
        w
    }
}

/// The little-endian `i32` at `off`.
pub open spec fn le_i32(s: Seq<u8>, off: int) -> int {
    signed32(le_u32(s, off))
}

/// The little-endian `i16` at `off`.
pub open spec fn le_i16(s: Seq<u8>, off: int) -> int {
    let w = s[off] + 0x100 * s[off + 1];
    if w >= 0x8000 {
        w - 0x1_0000
    } else {
        w
    }
}

/// The four little-endian bytes of an `i32`.
pub open spec fn i32_le_bytes(v: i32) -> Seq<u8> {
    let w: int = if v < 0 {
        v + 0x1_0000_0000
    } else {
        v as int
    };
    seq![
        (w % 0x100) as u8,
        (w / 0x100 % 0x100) as u8,
        (w / 0x1_0000 % 0x100) as u8,
        (w / 0x100_0000) as u8,
    ]
}

/// The four little-endian bytes of a `u32`.
pub open spec fn u32_le_bytes(w: u32) -> Seq<u8> {
    seq![
        (w % 0x100) as u8,
        (w / 0x100 % 0x100) as u8,
        (w / 0x1_0000 % 0x100) as u8,
        (w / 0x100_0000) as u8,
    ]
}

/// The little-endian bytes of some words, end to end.
pub open spec fn words_le_bytes(words: Seq<u32>) -> Seq<u8> {
    Seq::new(4 * words.len(), |i: int| u32_le_bytes(words[i / 4])[i % 4])
}

/// The little-endian bytes of some signed words, end to end.
pub open spec fn ints_le_bytes(ints: Seq<i32>) -> Seq<u8> {
    Seq::new(4 * ints.len(), |i: int| i32_le_bytes(ints[i / 4])[i % 4])
}

/// The two's-complement bytes of some `i8` values.
pub open spec fn i8_bytes(values: Seq<i8>) -> Seq<u8> {
    Seq::new(
        values.len(),
        |i: int|
            (if values[i] < 0 {
                values[i] + 0x100
            } else {
                values[i] as int
            }) as u8,
    )
}

/// Read a little-endian `i32` at byte offset `off`.
pub fn rd_i32(b: &[u8], off: usize) -> (v: i32)
    requires
        off + 4 <= b@.len(),
    ensures
        v == le_i32(b@, off as int),
{
    let w: u32 = b[off] as u32 + 0x100 * (b[off + 1] as u32) + 0x1_0000 * (b[off + 2] as u32)
        + 0x100_0000 * (b[off + 3] as u32);
    if w >= 0x8000_0000 {
        (w as i64 - 0x1_0000_0000) as i32
    } else {
        w as i32
    }
}

/// Read a little-endian `i16` from its two bytes.
pub fn rd_i16(lo: u8, hi: u8) -> (v: i16)
    ensures
        v == le_i16(seq![lo, hi], 0),
{
    let w: u16 = lo as u16 + 0x100 * (hi as u16);
    if w >= 0x8000 {
        (w as i32 - 0x1_0000) as i16
    } else {
        w as i16
    }
}

/// The three little-endian readings at `off`: x, y, z.
pub open spec fn le_sample(s: Seq<u8>, off: int) -> Seq<i16> {
    Seq::new(3, |axis: int| le_i16(s, off + 2 * axis) as i16)
}

/// The two little-endian bytes of an `i16`.
pub open spec fn i16_le_bytes(v: i16) -> Seq<u8> {
    let w: int = if v < 0 {
        v + 0x1_0000
    } else {
        v as int
    };
    seq![(w % 0x100) as u8, (w / 0x100) as u8]
}

/// Read the three little-endian readings of a sample at byte offset `off`.
pub fn rd_sample(b: &[u8], off: usize) -> (s: [i16; 3])
    requires
        off + 6 <= b@.len(),
    ensures
        s@ == le_sample(b@, off as int),
{
    [
        rd_i16(b[off], b[off + 1]),
        rd_i16(b[off + 2], b[off + 3]),
        rd_i16(b[off + 4], b[off + 5]),
    ]
}

/// Reading back the bytes of an `i16` gives that `i16`, wherever they stand in a stream.
pub proof fn law_i16_bytes_read_back(s: Seq<u8>, off: int, v: i16)
    requires
        0 <= off,
        off + 2 <= s.len(),
        s.subrange(off, off + 2) == i16_le_bytes(v),
    ensures
        le_i16(s, off) == v,
{
    let b = s.subrange(off, off + 2);
    assert(b[0] == s[off] && b[1] == s[off + 1]);
}

/// Reading back the bytes of an `i32` gives that `i32`, wherever they stand in a stream.
pub proof fn law_i32_bytes_read_back(s: Seq<u8>, off: int, v: i32)
    requires
        0 <= off,
        off + 4 <= s.len(),
        s.subrange(off, off + 4) == i32_le_bytes(v),
    ensures
        le_i32(s, off) == v,
{
    let b = s.subrange(off, off + 4);
    assert(b[0] == s[off] && b[1] == s[off + 1] && b[2] == s[off + 2] && b[3] == s[off + 3]);
}

/// A word that four bytes spell re-encodes to those bytes.
pub proof fn lemma_word_encodes_back(a: u8, b: u8, c: u8, d: u8)
    ensures
        ({
            let w = a + 0x100 * b + 0x1_0000 * c + 0x100_0000 * d;
            &&& 0 <= w < 0x1_0000_0000
            &&& w % 0x100 == a
            &&& w / 0x100 % 0x100 == b
            &&& w / 0x1_0000 % 0x100 == c
            &&& w / 0x100_0000 == d
        }),
{
}

/// A stream that is cut at three places joins again.
pub proof fn lemma_cut(s: Seq<u8>, a: int, b: int, c: int)
    requires
        0 <= a <= b <= c <= s.len(),
    ensures
        s.subrange(a, b) + s.subrange(b, c) + s.skip(c) == s.skip(a),
{
    assert(s.subrange(a, b) + s.subrange(b, c) + s.skip(c) =~= s.skip(a));
}

/// A stream that was joined of four parts is cut into them again.
pub proof fn lemma_joined(h: Seq<u8>, f: Seq<u8>, n: Seq<u8>, b: Seq<u8>)
    ensures
        ({
            let s = h + f + n + b;
            let f_end = (h.len() + f.len()) as int;
            let n_end = (h.len() + f.len() + n.len()) as int;
            &&& s.subrange(h.len() as int, f_end) == f
            &&& s.subrange(f_end, n_end) == n
            &&& s.skip(n_end) == b
        }),
{
    let s = h + f + n + b;
    let f_end = (h.len() + f.len()) as int;
    let n_end = (h.len() + f.len() + n.len()) as int;
    assert(s.subrange(h.len() as int, f_end) =~= f);
    assert(s.subrange(f_end, n_end) =~= n);
    assert(s.skip(n_end) =~= b);
}

/// What a little-endian `i32` is: the number of that size which differs from the sum of its
/// bytes, each times its power of 256, by a multiple of 2^32.
pub proof fn law_i32_is_the_weighted_sum_of_its_bytes(b: &[u8], off: usize, v: i32)
    requires
        off + 4 <= b@.len(),
        call_ensures(rd_i32, (b, off), v),
    ensures
        ({
            let sum = b@[off as int] + 256 * b@[off + 1] + 65536 * b@[off + 2] + 16777216 * b@[off
                + 3];
            v == sum || v == sum - 4294967296
        }),
        v == le_i32(b@, off as int),
{
}

/// The words in a stream are weighted sums of their bytes, least significant first, and a
/// signed word is the number of its size that agrees with it modulo 2^32.
pub proof fn law_words_are_weighted_sums(s: Seq<u8>, off: int)
    ensures
        le_u32(s, off) == s[off] + 256 * s[off + 1] + 65536 * s[off + 2] + 16777216 * s[off + 3],
        be_u32(s, off) == 16777216 * s[off] + 65536 * s[off + 1] + 256 * s[off + 2] + s[off + 3],
        le_i32(s, off) == le_u32(s, off) || le_i32(s, off) == le_u32(s, off) - 4294967296,
        -2147483648 <= le_i32(s, off) <= 2147483647,
        vstd::endian::endianness() == vstd::endian::Endian::Little ==> native_u32(s, off) == le_u32(
            s,
            off,
        ),
        vstd::endian::endianness() == vstd::endian::Endian::Big ==> native_u32(s, off) == be_u32(
            s,
            off,
        ),
{
}

/// What a little-endian `i16` is: the number of that size which differs from its low byte plus
/// 256 times its high byte by a multiple of 2^16.
pub proof fn law_i16_is_the_weighted_sum_of_its_bytes(lo: u8, hi: u8, v: i16)
    requires
        call_ensures(rd_i16, (lo, hi), v),
    ensures
        v == lo + 256 * hi || v == lo + 256 * hi - 65536,
{
}

/// What a sample is: x, y and z, each of the two bytes that follow the ones before.
pub proof fn law_sample_is_three_pairs(b: &[u8], off: usize, s: [i16; 3], axis: int)
    requires
        off + 6 <= b@.len(),
        call_ensures(rd_sample, (b, off), s),
        0 <= axis < 3,
    ensures
        ({
            let sum = b@[off + 2 * axis] + 256 * b@[off + 2 * axis + 1];
            s@[axis] == sum || s@[axis] == sum - 65536
        }),
{
    assert(s@[axis] == le_sample(b@, off as int)[axis]);
}

} // verus!
