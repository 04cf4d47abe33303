//! Security attributes of card files: expansion of the compact form (tag `0x8C`
//! of a file control parameter block) into eight security condition bytes.
use vstd::prelude::*;
use crate::errors::SC_ERROR_KEYPAD_MSG_TOO_LONG;

verus! {

/// Bit `b` (0 = least significant) of `x` is set.
pub open spec fn bit_set(x: u8, b: int) -> bool {
    (x >> (b as u8)) & 1u8 == 1u8
}

/// The number of bits of `x` that are set at positions `b` and above.
pub open spec fn ones_from(x: u8, b: int) -> nat
    decreases 8 - b,
{
    if b >= 8 || b < 0 {
        0
    } else {
        (if bit_set(x, b) { 1nat } else { 0nat }) + ones_from(x, b + 1)
    }
}

/// The number of bits of `x` that are set.
pub open spec fn popcount(x: u8) -> nat {
    ones_from(x, 0)
}

/// The eight security condition bytes that the compact form `bytes` stands for:
/// the first byte (AM) says by its set bits which conditions follow, from bit 7 down
/// to bit 0; condition `b` is the byte that belongs to bit `b`, 0 (always allowed)
/// where bit `b` is clear, and byte 7, which the card does not use, is `0xFF`
/// (never allowed) where bit 7 is clear. The number of bytes after AM must equal
/// the number of bits set in AM.
pub open spec fn spec_convert_sac(bytes: Seq<u8>) -> Result<Seq<u8>, i32> {
    if bytes.len() == 0 {
        Ok(seq![0u8, 0u8, 0u8, 0u8, 0u8, 0u8, 0u8, 0xFFu8])
    } else if popcount(bytes[0]) != bytes.len() - 1 {
        Err(SC_ERROR_KEYPAD_MSG_TOO_LONG)
    } else {
        Ok(Seq::new(8, |b: int|
            if bit_set(bytes[0], b) {
                bytes[1 + ones_from(bytes[0], b + 1) as int]
            } else if b == 7 {
                0xFFu8
            } else {
                0u8
            }))
    }
}

proof fn lemma_ones_from_monotonic(x: u8, a: int, b: int)
    requires
        0 <= a <= b,
    ensures
        ones_from(x, b) <= ones_from(x, a),
    decreases b - a,
{
    if a < b {
        lemma_ones_from_monotonic(x, a + 1, b);
    }
}

/// Counts the bits of `x` that are set.
fn count_ones_u8(x: u8) -> (n: u8)
    ensures
        n == popcount(x),
{
    let mut n: u8 = 0;
    let mut b: u8 = 8;
    while b > 0
        invariant
            b <= 8,
            n == ones_from(x, b as int),
            n <= 8 - b,
        decreases b,
    {
        b -= 1;
        if (x >> b) & 1 == 1 {
            n += 1;
        }
    }
    n
}

/// Expands the value bytes of tag `0x8C` (compact security attributes, at most 8
/// bytes, AM byte first) to the 8 security condition bytes, from index 0
/// (READ for an EF, DELETE CHILD for a DF) up to index 6 (DELETE SELF) and the unused 7.
/// Gives `SC_ERROR_KEYPAD_MSG_TOO_LONG` where the number of bytes after AM differs
/// from the number of bits set in AM.
pub fn convert_bytes_tag_fcp_sac_to_scb_array(bytes_tag_fcp_sac: &[u8]) -> (r: Result<[u8; 8], i32>)
    requires
        bytes_tag_fcp_sac@.len() <= 8,
    ensures
        match r {
            Ok(scb8) => spec_convert_sac(bytes_tag_fcp_sac@) == Ok::<Seq<u8>, i32>(scb8@),
            Err(e) => spec_convert_sac(bytes_tag_fcp_sac@) == Err::<Seq<u8>, i32>(e),
        },
{
    let mut scb8: [u8; 8] = [0u8; 8];
    scb8[7] = 0xFF; // never: the card does not use it

    if bytes_tag_fcp_sac.len() == 0 {
        assert(scb8@ =~= seq![0u8, 0u8, 0u8, 0u8, 0u8, 0u8, 0u8, 0xFFu8]);
        return Ok(scb8);
    }

    let ghost s = bytes_tag_fcp_sac@;
    let mut idx: usize = 0;
    let amb = bytes_tag_fcp_sac[idx];
    idx += 1;
    if count_ones_u8(amb) as usize != bytes_tag_fcp_sac.len() - 1 {
        return Err(SC_ERROR_KEYPAD_MSG_TOO_LONG);
    }

    let ghost expected = spec_convert_sac(s)->Ok_0;
    let mut pos: u8 = 0;
    while pos < 8
        invariant
            s == bytes_tag_fcp_sac@,
            1 <= s.len() <= 8,
            amb == s[0],
            popcount(amb) == s.len() - 1,
            pos <= 8,
            expected == spec_convert_sac(s)->Ok_0,
            idx == 1 + ones_from(amb, 8 - pos),
            forall|b: int| 8 - pos <= b < 8 ==> #[trigger] scb8@[b] == expected[b],
            forall|b: int| 0 <= b < 8 - pos ==> #[trigger] scb8@[b] == (if b == 7 { 0xFFu8 } else { 0u8 }),
        decreases 8 - pos,
    {
        let ghost bitpos: int = 7 - pos;
        let ghost sh: u8 = (7 - pos) as u8;
        assert((amb & (0b1000_0000u8 >> pos)) != 0u8 <==> ((amb >> sh) & 1u8) == 1u8) by (bit_vector)
            requires
                pos < 8u8,
                sh + pos == 7,
        ;
        if (amb & (0b1000_0000u8 >> pos)) != 0 {
            proof {
                lemma_ones_from_monotonic(amb, 0, bitpos);
                assert(ones_from(amb, bitpos) == 1 + ones_from(amb, bitpos + 1));
            }
            scb8[7 - pos as usize] = bytes_tag_fcp_sac[idx];
            idx += 1;
        }
        pos += 1;
    }
    assert(scb8@ =~= expected);
    Ok(scb8)
}

} // verus!
