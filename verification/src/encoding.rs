//! Big-endian integer encodings used by the descriptor wire format.

use vstd::prelude::*;

verus! {

/// The eight bytes of `x` in big-endian order.
pub open spec fn spec_u64_to_be_bytes(x: u64) -> Seq<u8> {
    seq![
        ((x >> 56) & 0xff) as u8,
        ((x >> 48) & 0xff) as u8,
        ((x >> 40) & 0xff) as u8,
        ((x >> 32) & 0xff) as u8,
        ((x >> 24) & 0xff) as u8,
        ((x >> 16) & 0xff) as u8,
        ((x >> 8) & 0xff) as u8,
        (x & 0xff) as u8,
    ]
}

/// The value read from eight big-endian bytes.
pub open spec fn spec_u64_from_be_bytes(s: Seq<u8>) -> u64
    recommends
        s.len() == 8,
{
    (s[0] as u64) << 56 | (s[1] as u64) << 48 | (s[2] as u64) << 40 | (s[3] as u64) << 32 | (
    s[4] as u64) << 24 | (s[5] as u64) << 16 | (s[6] as u64) << 8 | (s[7] as u64)
}

/// Decoding the big-endian encoding of a value gives the value back.
pub proof fn lemma_u64_be_bytes_round_trip(x: u64)
    ensures
        spec_u64_to_be_bytes(x).len() == 8,
        spec_u64_from_be_bytes(spec_u64_to_be_bytes(x)) == x,
{
    assert({
        &&& (x >> 56) & 0xff < 256
        &&& (x >> 48) & 0xff < 256
        &&& (x >> 40) & 0xff < 256
        &&& (x >> 32) & 0xff < 256
        &&& (x >> 24) & 0xff < 256
        &&& (x >> 16) & 0xff < 256
        &&& (x >> 8) & 0xff < 256
        &&& x & 0xff < 256
    }) by (bit_vector);
    assert(x == ((x >> 56) & 0xff) << 56 | ((x >> 48) & 0xff) << 48 | ((x >> 40) & 0xff) << 40 | ((
    x >> 32) & 0xff) << 32 | ((x >> 24) & 0xff) << 24 | ((x >> 16) & 0xff) << 16 | ((x >> 8)
        & 0xff) << 8 | (x & 0xff)) by (bit_vector);
}

/// Appends the big-endian encoding of `x` to `out`.
pub fn push_u64_be(out: &mut Vec<u8>, x: u64)
    ensures
        final(out)@ == old(out)@ + spec_u64_to_be_bytes(x),
{
    proof {
        assert({
            &&& (x >> 56) & 0xff < 256
            &&& (x >> 48) & 0xff < 256
            &&& (x >> 40) & 0xff < 256
            &&& (x >> 32) & 0xff < 256
            &&& (x >> 24) & 0xff < 256
            &&& (x >> 16) & 0xff < 256
            &&& (x >> 8) & 0xff < 256
            &&& x & 0xff < 256
        }) by (bit_vector);
    }
    out.push(((x >> 56) & 0xff) as u8);
    out.push(((x >> 48) & 0xff) as u8);
    out.push(((x >> 40) & 0xff) as u8);
    out.push(((x >> 32) & 0xff) as u8);
    out.push(((x >> 24) & 0xff) as u8);
    out.push(((x >> 16) & 0xff) as u8);
    out.push(((x >> 8) & 0xff) as u8);
    out.push((x & 0xff) as u8);
    proof {
        assert(out@ =~= old(out)@ + spec_u64_to_be_bytes(x));
    }

}

/// Reads the eight big-endian bytes at `offset` in `bytes`.
pub fn read_u64_be(bytes: &[u8], offset: usize) -> (x: u64)
    requires
        offset + 8 <= bytes@.len(),
    ensures
        x == spec_u64_from_be_bytes(bytes@.subrange(offset as int, offset as int + 8)),
{
    let x = (bytes[offset] as u64) << 56 | (bytes[offset + 1] as u64) << 48 | (bytes[offset
        + 2] as u64) << 40 | (bytes[offset + 3] as u64) << 32 | (bytes[offset + 4] as u64) << 24 | (
    bytes[offset + 5] as u64) << 16 | (bytes[offset + 6] as u64) << 8 | (bytes[offset + 7] as u64);
    proof {
        let s = bytes@.subrange(offset as int, offset as int + 8);
        assert(bytes@[offset as int] == s[0]);
        assert(bytes@[offset as int + 1] == s[1]);
        assert(bytes@[offset as int + 2] == s[2]);
        assert(bytes@[offset as int + 3] == s[3]);
        assert(bytes@[offset as int + 4] == s[4]);
        assert(bytes@[offset as int + 5] == s[5]);
        assert(bytes@[offset as int + 6] == s[6]);
        assert(bytes@[offset as int + 7] == s[7]);
    }
    x
}

} // verus!
