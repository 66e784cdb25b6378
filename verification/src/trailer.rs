//! The metadata trailer of a packaged image: a CRC-32/ISO-HDLC checksum,
//! the JSON payload, and its length as eight ASCII decimal digits.

use vstd::arithmetic::div_mod::{
    lemma_div_denominator, lemma_fundamental_div_mod, lemma_mod_bound, lemma_small_mod,
};
use vstd::bytes::{
    lemma_auto_spec_u32_to_from_le_bytes, spec_u32_from_le_bytes, spec_u32_to_le_bytes,
    u32_from_le_bytes, u32_to_le_bytes,
};
use vstd::prelude::*;

use crate::errors::ImgError;
use crate::hashes::{crc32_iso_hdlc, crc32_of};

verus! {

/// Largest payload length the eight-digit size field can carry, plus one.
pub const TRAILER_SIZE_LIMIT: u64 = 100_000_000;

/// Whether a byte is an ASCII decimal digit.
pub open spec fn is_dec_digit(b: u8) -> bool {
    48 <= b <= 57
}

/// `m` as eight ASCII decimal digits, zero padded.
pub open spec fn dec8(m: int) -> Seq<u8>
    recommends
        0 <= m < TRAILER_SIZE_LIMIT,
{
    seq![
        (48 + m / 10_000_000 % 10) as u8,
        (48 + m / 1_000_000 % 10) as u8,
        (48 + m / 100_000 % 10) as u8,
        (48 + m / 10_000 % 10) as u8,
        (48 + m / 1_000 % 10) as u8,
        (48 + m / 100 % 10) as u8,
        (48 + m / 10 % 10) as u8,
        (48 + m % 10) as u8,
    ]
}

/// The value of eight ASCII decimal digits.
pub open spec fn dec8_value(s: Seq<u8>) -> int
    recommends
        s.len() == 8,
{
    (((((((s[0] - 48) * 10 + (s[1] - 48)) * 10 + (s[2] - 48)) * 10 + (s[3] - 48)) * 10 + (s[4]
        - 48)) * 10 + (s[5] - 48)) * 10 + (s[6] - 48)) * 10 + (s[7] - 48)
}

/// Reading back eight formatted digits gives the formatted value.
pub proof fn lemma_dec8_round_trip(m: int)
    requires
        0 <= m < TRAILER_SIZE_LIMIT,
    ensures
        dec8(m).len() == 8,
        forall|i: int| 0 <= i < 8 ==> is_dec_digit(#[trigger] dec8(m)[i]),
        dec8_value(dec8(m)) == m,
{
    lemma_div_denominator(m, 10, 10);
    lemma_div_denominator(m, 100, 10);
    lemma_div_denominator(m, 1_000, 10);
    lemma_div_denominator(m, 10_000, 10);
    lemma_div_denominator(m, 100_000, 10);
    lemma_div_denominator(m, 1_000_000, 10);
    lemma_fundamental_div_mod(m, 10);
    lemma_fundamental_div_mod(m / 10, 10);
    lemma_fundamental_div_mod(m / 100, 10);
    lemma_fundamental_div_mod(m / 1_000, 10);
    lemma_fundamental_div_mod(m / 10_000, 10);
    lemma_fundamental_div_mod(m / 100_000, 10);
    lemma_fundamental_div_mod(m / 1_000_000, 10);
    lemma_fundamental_div_mod(m, 10_000_000);
    lemma_mod_bound(m, 10);
    lemma_mod_bound(m / 10, 10);
    lemma_mod_bound(m / 100, 10);
    lemma_mod_bound(m / 1_000, 10);
    lemma_mod_bound(m / 10_000, 10);
    lemma_mod_bound(m / 100_000, 10);
    lemma_mod_bound(m / 1_000_000, 10);
    lemma_mod_bound(m / 10_000_000, 10);
    assert(m / 10_000_000 < 10) by {
        if m / 10_000_000 >= 10 {
            vstd::arithmetic::mul::lemma_mul_inequality(10, m / 10_000_000, 10_000_000);
        }
    }
    lemma_small_mod((m / 10_000_000) as nat, 10);
}

/// The bytes appended after a payload: its checksum, the payload, its
/// length.
pub open spec fn spec_trailer(json: Seq<u8>) -> Seq<u8> {
    spec_u32_to_le_bytes(crc32_of(json)) + json + dec8(json.len() as int)
}

/// Reads the trailer back from the end of a file: the length field first,
/// then the checksum over the payload it delimits.
pub open spec fn spec_parse_trailer(file: Seq<u8>) -> Result<Seq<u8>, ImgError> {
    if file.len() < 12 {
        Err(ImgError::TrailerTooSmall)
    } else {
        let szfield = file.subrange(file.len() - 8, file.len() as int);
        if !(forall|i: int| 0 <= i < 8 ==> is_dec_digit(#[trigger] szfield[i])) {
            Err(ImgError::TrailerLengthParse)
        } else {
            let msize = dec8_value(szfield);
            if msize + 12 > file.len() {
                Err(ImgError::TrailerTooSmall)
            } else {
                let json = file.subrange(file.len() - 8 - msize, file.len() - 8);
                let crcb = file.subrange(file.len() - 12 - msize, file.len() - 8 - msize);
                if spec_u32_from_le_bytes(crcb) != crc32_of(json) {
                    Err(ImgError::TrailerCrcMismatch)
                } else {
                    Ok(json)
                }
            }
        }
    }
}

/// Builds the trailer for a JSON payload.
pub fn write_trailer(json: &[u8]) -> (r: Vec<u8>)
    requires
        json@.len() < TRAILER_SIZE_LIMIT,
    ensures
        r@ == spec_trailer(json@),
{
    let crc = crc32_iso_hdlc(json);
    let crc_bytes = u32_to_le_bytes(crc);
    let mut out: Vec<u8> = Vec::new();
    out.extend_from_slice(crc_bytes.as_slice());
    out.extend_from_slice(json);
    let m = json.len() as u64;
    proof {
        lemma_dec8_round_trip(m as int);
        lemma_mod_bound(m as int, 10);
        lemma_mod_bound(m as int / 10, 10);
        lemma_mod_bound(m as int / 100, 10);
        lemma_mod_bound(m as int / 1_000, 10);
        lemma_mod_bound(m as int / 10_000, 10);
        lemma_mod_bound(m as int / 100_000, 10);
        lemma_mod_bound(m as int / 1_000_000, 10);
        lemma_mod_bound(m as int / 10_000_000, 10);
    }
    out.push(48 + (m / 10_000_000 % 10) as u8);
    out.push(48 + (m / 1_000_000 % 10) as u8);
    out.push(48 + (m / 100_000 % 10) as u8);
    out.push(48 + (m / 10_000 % 10) as u8);
    out.push(48 + (m / 1_000 % 10) as u8);
    out.push(48 + (m / 100 % 10) as u8);
    out.push(48 + (m / 10 % 10) as u8);
    out.push(48 + (m % 10) as u8);
    proof {
        assert(out@ =~= spec_trailer(json@));
    }
    out
}

/// Parses the trailer at the end of `file`, returning the JSON payload.
pub fn parse_trailer(file: &[u8]) -> (r: Result<Vec<u8>, ImgError>)
    ensures
        match r {
            Ok(v) => spec_parse_trailer(file@) == Ok::<Seq<u8>, ImgError>(v@),
            Err(e) => spec_parse_trailer(file@) == Err::<Seq<u8>, ImgError>(e),
        },
{
    let flen = file.len();
    if flen < 12 {
        return Err(ImgError::TrailerTooSmall);
    }
    let ghost szfield = file@.subrange(flen - 8, flen as int);
    let mut value: u64 = 0;
    let mut k: usize = 0;
    while k < 8
        invariant
            0 <= k <= 8,
            12 <= flen == file@.len(),
            szfield == file@.subrange(flen - 8, flen as int),
            forall|i: int| 0 <= i < k ==> is_dec_digit(#[trigger] szfield[i]),
            value < pow10(k as int),
            k > 0 ==> value == dec8_value_prefix(szfield, k as int),
            k == 0 ==> value == 0,
        decreases 8 - k,
    {
        let b = *vstd::slice::slice_index_get(file, flen - 8 + k);
        proof {
            assert(szfield[k as int] == file@[flen - 8 + k]);
        }
        if b < 48 || b > 57 {
            return Err(ImgError::TrailerLengthParse);
        }
        value = value * 10 + (b - 48) as u64;
        k += 1;
    }
    proof {
        assert(value == dec8_value(szfield)) by {
            lemma_dec8_value_prefix_full(szfield);
        }
    }
    if value + 12 > flen as u64 {
        return Err(ImgError::TrailerTooSmall);
    }
    let msize = value as usize;
    let json = vstd::slice::slice_to_vec(
        vstd::slice::slice_subrange(file, flen - 8 - msize, flen - 8),
    );
    let crc_slice = vstd::slice::slice_subrange(file, flen - 12 - msize, flen - 8 - msize);
    let crc_read = u32_from_le_bytes(crc_slice);
    let crc_computed = crc32_iso_hdlc(json.as_slice());
    if crc_read != crc_computed {
        return Err(ImgError::TrailerCrcMismatch);
    }
    Ok(json)
}

/// Ten to the `k`th power, for the eight digit positions.
pub open spec fn pow10(k: int) -> int {
    if k <= 0 {
        1
    } else if k == 1 {
        10
    } else if k == 2 {
        100
    } else if k == 3 {
        1_000
    } else if k == 4 {
        10_000
    } else if k == 5 {
        100_000
    } else if k == 6 {
        1_000_000
    } else if k == 7 {
        10_000_000
    } else {
        100_000_000
    }
}

/// The value of the first `k` digits of an eight-digit field.
pub open spec fn dec8_value_prefix(s: Seq<u8>, k: int) -> int
    recommends
        s.len() == 8,
        0 < k <= 8,
    decreases k,
{
    if k <= 1 {
        s[0] - 48
    } else {
        dec8_value_prefix(s, k - 1) * 10 + (s[k - 1] - 48)
    }
}

proof fn lemma_dec8_value_prefix_full(s: Seq<u8>)
    requires
        s.len() == 8,
    ensures
        dec8_value_prefix(s, 8) == dec8_value(s),
{
    reveal_with_fuel(dec8_value_prefix, 9);
}

/// A trailer written after any file content parses back to its own
/// payload.
pub proof fn lemma_trailer_round_trip(prefix: Seq<u8>, json: Seq<u8>)
    requires
        json.len() < TRAILER_SIZE_LIMIT,
    ensures
        spec_parse_trailer(prefix + spec_trailer(json)) == Ok::<Seq<u8>, ImgError>(json),
{
    let file = prefix + spec_trailer(json);
    let m = json.len() as int;
    lemma_dec8_round_trip(m);
    lemma_auto_spec_u32_to_from_le_bytes();
    assert(spec_u32_to_le_bytes(crc32_of(json)).len() == 4);
    assert(file.len() == prefix.len() + 12 + m);
    let szfield = file.subrange(file.len() - 8, file.len() as int);
    assert(szfield =~= dec8(m));
    assert(dec8_value(szfield) == m);
    let jsonr = file.subrange(file.len() - 8 - m, file.len() - 8);
    assert(jsonr =~= json);
    let crcb = file.subrange(file.len() - 12 - m, file.len() - 8 - m);
    assert(crcb =~= spec_u32_to_le_bytes(crc32_of(json)));
    assert(spec_u32_from_le_bytes(crcb) == crc32_of(json));
}

} // verus!
