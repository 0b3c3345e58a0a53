//! Byte-level helpers shared by the wire formats: little-endian length fields,
//! appending to buffers and comparing byte strings.

use vstd::prelude::*;
use vstd::arithmetic::div_mod::lemma_fundamental_div_mod_converse;

verus! {

/// The value of a four-byte little-endian unsigned field.
pub open spec fn le_u32_value(b: Seq<u8>) -> int {
    b[0] as int + 256 * (b[1] as int) + 65536 * (b[2] as int) + 16777216 * (b[3] as int)
}

/// The four-byte little-endian encoding of `x`.
pub open spec fn le_u32_bytes(x: int) -> Seq<u8> {
    seq![
        (x % 256) as u8,
        ((x / 256) % 256) as u8,
        ((x / 65536) % 256) as u8,
        ((x / 16777216) % 256) as u8,
    ]
}

/// Decoding an encoded value gives it back.
pub proof fn lemma_le_u32_decode_encode(x: int)
    requires
        0 <= x < 0x1_0000_0000,
    ensures
        le_u32_bytes(x).len() == 4,
        le_u32_value(le_u32_bytes(x)) == x,
{
    let b = le_u32_bytes(x);
    assert(b[0] as int == x % 256);
    assert(b[1] as int == (x / 256) % 256);
    assert(b[2] as int == (x / 65536) % 256);
    assert(b[3] as int == (x / 16777216) % 256);
}

/// Encoding a decoded field gives back its bytes.
pub proof fn lemma_le_u32_encode_decode(b: Seq<u8>)
    requires
        b.len() == 4,
    ensures
        0 <= le_u32_value(b) < 0x1_0000_0000,
        le_u32_bytes(le_u32_value(b)) == b,
{
    let x = le_u32_value(b);
    let (b0, b1, b2, b3) = (b[0] as int, b[1] as int, b[2] as int, b[3] as int);
    lemma_fundamental_div_mod_converse(x, 256, b1 + 256 * b2 + 65536 * b3, b0);
    lemma_fundamental_div_mod_converse(x, 65536, b2 + 256 * b3, b0 + 256 * b1);
    lemma_fundamental_div_mod_converse(x, 16777216, b3, b0 + 256 * b1 + 65536 * b2);
    lemma_fundamental_div_mod_converse(b1 + 256 * b2 + 65536 * b3, 256, b2 + 256 * b3, b1);
    lemma_fundamental_div_mod_converse(b2 + 256 * b3, 256, b3, b2);
    lemma_fundamental_div_mod_converse(b3, 256, 0, b3);
    let e = le_u32_bytes(x);
    assert(e[0] == b[0]);
    assert(e[1] == b[1]);
    assert(e[2] == b[2]);
    assert(e[3] == b[3]);
    assert(e =~= b);
}

/// `s` with the bytes from `at` on overwritten by `b`, its length unchanged.
pub open spec fn splice(s: Seq<u8>, at: int, b: Seq<u8>) -> Seq<u8> {
    s.subrange(0, at) + b + s.subrange(at + b.len(), s.len() as int)
}

/// Reads the little-endian field whose bytes are `b0`, `b1`, `b2`, `b3`, in that order.
pub fn read_le_u32(b0: u8, b1: u8, b2: u8, b3: u8) -> (v: u32)
    ensures
        v == le_u32_value(seq![b0, b1, b2, b3]),
        v == b0 + 256 * b1 + 65536 * b2 + 16777216 * b3,
{
    (b0 as u32) + (b1 as u32) * 256 + (b2 as u32) * 65536 + (b3 as u32) * 16777216
}

/// Appends the little-endian encoding of `x` to `buf`.
pub fn push_le_u32(buf: &mut Vec<u8>, x: u32)
    ensures
        final(buf)@ == old(buf)@ + le_u32_bytes(x as int),
        final(buf)@ == old(buf)@ + seq![
            (x % 256) as u8,
            ((x / 256) % 256) as u8,
            ((x / 65536) % 256) as u8,
            ((x / 16777216) % 256) as u8,
        ],
{
    buf.push((x % 256) as u8);
    buf.push(((x / 256) % 256) as u8);
    buf.push(((x / 65536) % 256) as u8);
    buf.push(((x / 16777216) % 256) as u8);
    assert(buf@ =~= old(buf)@ + le_u32_bytes(x as int));
}

/// Appends every byte of `src` to `buf`.
pub fn append_bytes(buf: &mut Vec<u8>, src: &[u8])
    ensures
        final(buf)@ == old(buf)@ + src@,
{
    let n = src.len();
    let mut i: usize = 0;
    while i < n
        invariant
            n == src@.len(),
            0 <= i <= n,
            buf@ == old(buf)@ + src@.subrange(0, i as int),
        decreases n - i,
    {
        buf.push(src[i]);
        i = i + 1;
        assert(buf@ =~= old(buf)@ + src@.subrange(0, i as int));
    }
    assert(src@.subrange(0, n as int) =~= src@);
}

/// Whether the two byte strings are equal.
pub fn bytes_equal(a: &[u8], b: &[u8]) -> (r: bool)
    ensures
        r == (a@ == b@),
{
    if a.len() != b.len() {
        return false;
    }
    let n = a.len();
    let mut i: usize = 0;
    while i < n
        invariant
            n == a@.len(),
            n == b@.len(),
            0 <= i <= n,
            forall|j: int| 0 <= j < i ==> a@[j] == b@[j],
        decreases n - i,
    {
        if a[i] != b[i] {
            return false;
        }
        i = i + 1;
    }
    assert(a@ =~= b@);
    true
}

} // verus!
