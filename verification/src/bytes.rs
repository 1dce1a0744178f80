//! Byte-level export of a `u32` array: each element becomes four
//! little-endian bytes, and the export round-trips exactly.

use vstd::prelude::*;

verus! {

/// The four little-endian bytes of one `u32`.
pub open spec fn le_bytes_of_u32(x: u32) -> Seq<u8> {
    seq![
        (x & 0xff) as u8,
        ((x >> 8) & 0xff) as u8,
        ((x >> 16) & 0xff) as u8,
        ((x >> 24) & 0xff) as u8,
    ]
}

/// The little-endian byte image of a `u32` sequence: `4 * len` bytes,
/// element `i` occupying bytes `4i .. 4i + 4`.
pub open spec fn le_bytes_of(s: Seq<u32>) -> Seq<u8> {
    Seq::new(4 * s.len(), |i: int| le_bytes_of_u32(s[i / 4])[i % 4])
}

/// The `u32` read back from four little-endian bytes.
pub open spec fn u32_of_le_bytes(b0: u8, b1: u8, b2: u8, b3: u8) -> u32 {
    (b0 as u32) | ((b1 as u32) << 8) | ((b2 as u32) << 16) | ((b3 as u32) << 24)
}

/// The `u32` sequence read back from a byte sequence, four bytes per element.
pub open spec fn u32s_of_le_bytes(b: Seq<u8>) -> Seq<u32> {
    Seq::new(b.len() / 4, |i: int| u32_of_le_bytes(b[4 * i], b[4 * i + 1], b[4 * i + 2], b[4 * i + 3]))
}

proof fn lemma_u32_le_bytes_reassemble(x: u32)
    ensures
        u32_of_le_bytes(
            (x & 0xff) as u8,
            ((x >> 8) & 0xff) as u8,
            ((x >> 16) & 0xff) as u8,
            ((x >> 24) & 0xff) as u8,
        ) == x,
{
    assert(((x & 0xff) as u8 as u32) | ((((x >> 8) & 0xff) as u8 as u32) << 8)
        | ((((x >> 16) & 0xff) as u8 as u32) << 16) | ((((x >> 24) & 0xff) as u8 as u32) << 24)
        == x) by (bit_vector);
}

/// Law: the byte export is lossless. For any `u32` sequence, its
/// little-endian byte image has length `4 * len`, and reading the bytes back
/// in four-byte groups reconstructs the sequence exactly — for every length,
/// including the empty one.
pub proof fn lemma_le_bytes_round_trip(s: Seq<u32>)
    ensures
        le_bytes_of(s).len() == 4 * s.len(),
        u32s_of_le_bytes(le_bytes_of(s)) == s,
{
    let b = le_bytes_of(s);
    assert forall|i: int| 0 <= i < s.len() implies u32s_of_le_bytes(b)[i] == s[i] by {
        assert(b[4 * i] == le_bytes_of_u32(s[i])[0]);
        assert(b[4 * i + 1] == le_bytes_of_u32(s[i])[1]);
        assert(b[4 * i + 2] == le_bytes_of_u32(s[i])[2]);
        assert(b[4 * i + 3] == le_bytes_of_u32(s[i])[3]);
        lemma_u32_le_bytes_reassemble(s[i]);
    }
    assert(u32s_of_le_bytes(b) =~= s);
}

/// Exports a `u32` array as its little-endian byte image.
pub fn u32s_to_le_bytes(v: &Vec<u32>) -> (r: Vec<u8>)
    ensures
        r@ == le_bytes_of(v@),
        r@.len() == 4 * v@.len(),
{
    let mut r: Vec<u8> = Vec::new();
    let mut i: usize = 0;
    while i < v.len()
        invariant
            i <= v@.len(),
            r@.len() == 4 * i,
            forall|j: int| 0 <= j < r@.len() ==> r@[j] == le_bytes_of(v@)[j],
        decreases v@.len() - i,
    {
        let x = v[i];
        proof {
            assert((x & 0xff) < 0x100 && ((x >> 8) & 0xff) < 0x100 && ((x >> 16) & 0xff) < 0x100
                && ((x >> 24) & 0xff) < 0x100) by (bit_vector);
        }
        r.push((x & 0xff) as u8);
        r.push(((x >> 8) & 0xff) as u8);
        r.push(((x >> 16) & 0xff) as u8);
        r.push(((x >> 24) & 0xff) as u8);
        i = i + 1;
    }
    proof {
        assert(r@ =~= le_bytes_of(v@));
    }
    r
}

/// Reads a little-endian byte image back into the `u32` array it came from.
pub fn le_bytes_to_u32s(b: &Vec<u8>) -> (r: Vec<u32>)
    requires
        b@.len() % 4 == 0,
    ensures
        r@ == u32s_of_le_bytes(b@),
{
    let mut r: Vec<u32> = Vec::new();
    let n = b.len() / 4;
    proof {
        vstd::arithmetic::div_mod::lemma_fundamental_div_mod(b@.len() as int, 4);
    }
    let mut i: usize = 0;
    while i < n
        invariant
            i <= n,
            n == b@.len() / 4,
            4 * n == b@.len(),
            b@.len() <= usize::MAX,
            r@.len() == i,
            forall|j: int| 0 <= j < i ==> r@[j] == u32s_of_le_bytes(b@)[j],
        decreases n - i,
    {
        let b0 = b[4 * i];
        let b1 = b[4 * i + 1];
        let b2 = b[4 * i + 2];
        let b3 = b[4 * i + 3];
        let x = (b0 as u32) | ((b1 as u32) << 8) | ((b2 as u32) << 16) | ((b3 as u32) << 24);
        r.push(x);
        i = i + 1;
    }
    proof {
        assert(r@ =~= u32s_of_le_bytes(b@));
    }
    r
}

} // verus!
