//! Small predicates used throughout the driver.
use vstd::prelude::*;

verus! {

/// Exclusive or of two predicates.
pub fn logical_xor(pred1: bool, pred2: bool) -> (r: bool)
    ensures
        r == (pred1 != pred2),
{
    (pred1 || pred2) && !(pred1 && pred2)
}

/// The lengths of the EMSA-PKCS1-v1_5 DigestInfo encodings that the driver knows.
pub open spec fn is_known_digest_info_len(len: int) -> bool {
    len == 34 || len == 35 || len == 47 || len == 51 || len == 67 || len == 83
}

/// Guesses by its length whether a block of data is a DigestInfo (prefix and hash)
/// and not some other raw data.
pub fn is_any_of_di_by_len(len: usize) -> (r: bool)
    ensures
        r == is_known_digest_info_len(len as int),
{
    let known_len: [u8; 6] = [34u8, 35, 47, 51, 67, 83];
    let mut i: usize = 0;
    while i < 6
        invariant
            0 <= i <= 6,
            known_len@ == seq![34u8, 35, 47, 51, 67, 83],
            forall|j: int| 0 <= j < i ==> known_len@[j] as int != len as int,
        decreases 6 - i,
    {
        if known_len[i] as usize == len {
            return true;
        }
        i += 1;
    }
    false
}

} // verus!
