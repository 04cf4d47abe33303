//! Trailing padding of the last block for the symmetric block ciphers of the card
//! (AES with 16 byte blocks, 3DES with 8 byte blocks).
use vstd::prelude::*;
use crate::errors::SC_ERROR_KEYPAD_MSG_TOO_LONG;

verus! {

/// Padding with zero bytes; nothing is added to input that fills its last block.
pub const BLOCKCIPHER_PAD_TYPE_ZEROES: u8 = 0;
/// ISO/IEC 9797-1 method 2: a `0x80` byte followed by zero bytes, always added.
pub const BLOCKCIPHER_PAD_TYPE_ONEANDZEROES: u8 = 1;
/// As `BLOCKCIPHER_PAD_TYPE_ONEANDZEROES`, but nothing is added to input that fills
/// its last block (this is what the card does itself).
pub const BLOCKCIPHER_PAD_TYPE_ONEANDZEROES_ACOS5: u8 = 2;
/// PKCS#5/PKCS#7: `n` bytes of value `n`.
pub const BLOCKCIPHER_PAD_TYPE_PKCS5: u8 = 3;
/// ANSI X9.23: zero bytes followed by a byte that holds the padding length.
pub const BLOCKCIPHER_PAD_TYPE_ANSIX9_23: u8 = 4;

/// `k` zero bytes.
pub open spec fn zero_bytes(k: int) -> Seq<u8> {
    Seq::new(k as nat, |i: int| 0u8)
}

/// A padding type that `trailing_blockcipher_padding_calculate` knows.
pub open spec fn is_known_pad_type(padding_type: u8) -> bool {
    padding_type <= BLOCKCIPHER_PAD_TYPE_ANSIX9_23
}

/// The bytes that pad input whose last block holds `rem` bytes to a multiple of
/// `block_size`, for each padding type.
pub open spec fn spec_padding_calculate(block_size: u8, padding_type: u8, rem: u8) -> Seq<u8> {
    let n: int = block_size - rem;
    if padding_type == BLOCKCIPHER_PAD_TYPE_ZEROES {
        if rem == 0 { Seq::empty() } else { zero_bytes(n) }
    } else if padding_type == BLOCKCIPHER_PAD_TYPE_ONEANDZEROES {
        seq![0x80u8] + zero_bytes(n - 1)
    } else if padding_type == BLOCKCIPHER_PAD_TYPE_ONEANDZEROES_ACOS5 {
        if rem == 0 { Seq::empty() } else { seq![0x80u8] + zero_bytes(n - 1) }
    } else if padding_type == BLOCKCIPHER_PAD_TYPE_PKCS5 {
        Seq::new(n as nat, |i: int| n as u8)
    } else if padding_type == BLOCKCIPHER_PAD_TYPE_ANSIX9_23 {
        zero_bytes(n - 1) + seq![n as u8]
    } else {
        Seq::empty()
    }
}

/// Calculates the trailing padding for input of which `rem` bytes fall into the
/// last block (`rem` is the input length modulo `block_size`).
pub fn trailing_blockcipher_padding_calculate(block_size: u8, padding_type: u8, rem: u8) -> (r: Vec<u8>)
    requires
        rem < block_size,
        block_size == 16 || block_size == 8,
        is_known_pad_type(padding_type),
    ensures
        r@ == spec_padding_calculate(block_size, padding_type, rem),
{
    let mut vec: Vec<u8> = Vec::with_capacity(block_size as usize);
    let n: u8 = block_size - rem;
    if padding_type == BLOCKCIPHER_PAD_TYPE_ZEROES {
        let cnt: u8 = block_size - if rem == 0 { block_size } else { rem };
        let mut i: u8 = 0;
        while i < cnt
            invariant
                i <= cnt,
                vec@ == zero_bytes(i as int),
            decreases cnt - i,
        {
            vec.push(0x00);
            i += 1;
            assert(vec@ =~= zero_bytes(i as int));
        }
        assert(vec@ =~= spec_padding_calculate(block_size, padding_type, rem));
    } else if padding_type == BLOCKCIPHER_PAD_TYPE_ONEANDZEROES
        || (padding_type == BLOCKCIPHER_PAD_TYPE_ONEANDZEROES_ACOS5 && rem != 0) {
        vec.push(0x80);
        let mut i: u8 = 0;
        while i < n - 1
            invariant
                n == block_size - rem,
                1 <= n,
                i <= n - 1,
                vec@ == seq![0x80u8] + zero_bytes(i as int),
            decreases n - 1 - i,
        {
            vec.push(0x00);
            i += 1;
            assert(vec@ =~= seq![0x80u8] + zero_bytes(i as int));
        }
    } else if padding_type == BLOCKCIPHER_PAD_TYPE_PKCS5 {
        let mut i: u8 = 0;
        while i < n
            invariant
                i <= n,
                vec@ == Seq::new(i as nat, |j: int| n),
            decreases n - i,
        {
            vec.push(n);
            i += 1;
            assert(vec@ =~= Seq::new(i as nat, |j: int| n));
        }
        assert(vec@ =~= spec_padding_calculate(block_size, padding_type, rem));
    } else if padding_type == BLOCKCIPHER_PAD_TYPE_ANSIX9_23 {
        let mut i: u8 = 0;
        while i < n - 1
            invariant
                n == block_size - rem,
                1 <= n,
                i <= n - 1,
                vec@ == zero_bytes(i as int),
            decreases n - 1 - i,
        {
            vec.push(0x00);
            i += 1;
            assert(vec@ =~= zero_bytes(i as int));
        }
        vec.push(n);
    } else {
        assert(vec@ =~= spec_padding_calculate(block_size, padding_type, rem));
    }
    vec
}

/// The number of zero bytes at the end of `s`.
pub open spec fn trailing_zero_count(s: Seq<u8>) -> nat
    decreases s.len(),
{
    if s.len() == 0 {
        0
    } else if s.last() == 0 {
        1 + trailing_zero_count(s.drop_last())
    } else {
        0
    }
}

/// The last `pad` bytes of `s` are a padding of length `pad`: `pad` lies in
/// `1..=s.len()` and the bytes before the last one, within the padding, all equal `fill`.
pub open spec fn is_counted_padding(s: Seq<u8>, pad: int, fill: u8) -> bool {
    &&& 1 <= pad <= s.len()
    &&& forall|j: int| s.len() - pad <= j < s.len() - 1 ==> #[trigger] s[j] == fill
}

/// The length of the trailing padding of the decrypted last block `s`, for each
/// padding type, or `SC_ERROR_KEYPAD_MSG_TOO_LONG` where `s` carries no valid padding.
/// For `BLOCKCIPHER_PAD_TYPE_ONEANDZEROES_ACOS5`, a block that does not end in a valid
/// padding is taken as unpadded (length 0), as is a block that is padding only.
pub open spec fn spec_padding_get_length(block_size: u8, padding_type: u8, s: Seq<u8>) -> Result<u8, i32> {
    let z = trailing_zero_count(s);
    if padding_type == BLOCKCIPHER_PAD_TYPE_ZEROES {
        if z == block_size { Err(SC_ERROR_KEYPAD_MSG_TOO_LONG) } else { Ok(z as u8) }
    } else if padding_type == BLOCKCIPHER_PAD_TYPE_ONEANDZEROES {
        if z == block_size || s[block_size - 1 - z] != 0x80 {
            Err(SC_ERROR_KEYPAD_MSG_TOO_LONG)
        } else {
            Ok((z + 1) as u8)
        }
    } else if padding_type == BLOCKCIPHER_PAD_TYPE_ONEANDZEROES_ACOS5 {
        if s[block_size - 1] != 0 && s[block_size - 1] != 0x80 {
            Ok(0)
        } else if z == block_size || s[block_size - 1 - z] != 0x80 || z + 1 == block_size {
            Ok(0)
        } else {
            Ok((z + 1) as u8)
        }
    } else if padding_type == BLOCKCIPHER_PAD_TYPE_PKCS5 {
        let pad = s[block_size - 1];
        if is_counted_padding(s, pad as int, pad) { Ok(pad) } else { Err(SC_ERROR_KEYPAD_MSG_TOO_LONG) }
    } else if padding_type == BLOCKCIPHER_PAD_TYPE_ANSIX9_23 {
        let pad = s[block_size - 1];
        if is_counted_padding(s, pad as int, 0) { Ok(pad) } else { Err(SC_ERROR_KEYPAD_MSG_TOO_LONG) }
    } else {
        Err(SC_ERROR_KEYPAD_MSG_TOO_LONG)
    }
}

/// Splitting off an all-zero tail: the trailing zeros of `s` are those of the tail
/// from `i` on plus those of the part before it.
proof fn lemma_trailing_zero_count_split(s: Seq<u8>, i: int)
    requires
        0 <= i <= s.len(),
        forall|j: int| i <= j < s.len() ==> #[trigger] s[j] == 0,
    ensures
        trailing_zero_count(s) == (s.len() - i) + trailing_zero_count(s.subrange(0, i)),
    decreases s.len() - i,
{
    if i == s.len() {
        assert(s.subrange(0, i) =~= s);
    } else {
        let t = s.drop_last();
        lemma_trailing_zero_count_split(t, i);
        assert(t.subrange(0, i) =~= s.subrange(0, i));
    }
}

/// Counts the zero bytes at the end of `s`.
fn count_trailing_zeros(s: &[u8]) -> (z: usize)
    ensures
        z == trailing_zero_count(s@),
        z <= s@.len(),
{
    let len = s.len();
    let mut i: usize = len;
    while i > 0
        invariant
            len == s@.len(),
            i <= len,
            forall|j: int| i <= j < len ==> #[trigger] s@[j] == 0,
        ensures
            i <= len,
            forall|j: int| i <= j < len ==> #[trigger] s@[j] == 0,
            i == 0 || s@[i - 1] != 0,
        decreases i,
    {
        if s[i - 1] == 0 {
            i -= 1;
        } else {
            break;
        }
    }
    proof {
        lemma_trailing_zero_count_split(s@, i as int);
        assert(s@.subrange(0, i as int).len() == 0 || s@.subrange(0, i as int).last() != 0);
    }
    len - i
}

/// Counts the padding bytes at the end of `s` whose length is stated by its last byte:
/// up to that length, the bytes before the last one are counted while they equal `fill`.
/// The count equals the last byte exactly when `s` ends in such a padding.
fn counted_padding_length(s: &[u8], fill: u8) -> (cnt: u8)
    requires
        1 <= s@.len() <= 255,
    ensures
        (cnt == s@[s@.len() - 1]) == is_counted_padding(s@, s@[s@.len() - 1] as int, fill),
{
    let len = s.len();
    let pad_byte = s[len - 1];
    let mut cnt: u8 = 1;
    let mut i: usize = 0;
    while i < len - 1
        invariant
            len == s@.len(),
            1 <= len <= 255,
            pad_byte == s@[len - 1],
            i <= len - 1,
            cnt == i + 1,
            pad_byte == 0 ==> i == 0,
            pad_byte >= 1 ==> i + 1 <= pad_byte,
            forall|k: int| 0 <= k < i ==> #[trigger] s@[len - 2 - k] == fill,
        ensures
            i <= len - 1,
            cnt == i + 1,
            pad_byte == 0 ==> i == 0,
            pad_byte >= 1 ==> i + 1 <= pad_byte,
            forall|k: int| 0 <= k < i ==> #[trigger] s@[len - 2 - k] == fill,
            i == len - 1 || s@[len - 2 - i] != fill || i + 1 >= pad_byte,
        decreases len - 1 - i,
    {
        if s[len - 2 - i] == fill && i + 1 < pad_byte as usize {
            cnt += 1;
            i += 1;
        } else {
            break;
        }
    }
    proof {
        let pad = pad_byte as int;
        if is_counted_padding(s@, pad, fill) {
            if i + 1 < pad {
                if i < len - 1 {
                    assert(s@[len - 2 - i] == fill);
                }
            }
        }
        if cnt == pad_byte {
            assert forall|j: int| len - pad <= j < len - 1 implies #[trigger] s@[j] == fill by {
                let k = len - 2 - j;
                assert(s@[len - 2 - k] == fill);
            }
        }
    }
    cnt
}

/// Determines the length of the trailing padding from the decrypted last block.
pub fn trailing_blockcipher_padding_get_length(block_size: u8, padding_type: u8, last_block_values: &[u8])
    -> (r: Result<u8, i32>)
    requires
        last_block_values@.len() == block_size,
        block_size > 0 || padding_type == BLOCKCIPHER_PAD_TYPE_ZEROES || !is_known_pad_type(padding_type),
    ensures
        r == spec_padding_get_length(block_size, padding_type, last_block_values@),
{
    let s = last_block_values;
    if padding_type == BLOCKCIPHER_PAD_TYPE_ZEROES {
        let cnt = count_trailing_zeros(s);
        if cnt == block_size as usize {
            return Err(SC_ERROR_KEYPAD_MSG_TOO_LONG);
        }
        Ok(cnt as u8)
    } else if padding_type == BLOCKCIPHER_PAD_TYPE_ONEANDZEROES {
        let z = count_trailing_zeros(s);
        if z == block_size as usize {
            /* only zero bytes */
            return Err(SC_ERROR_KEYPAD_MSG_TOO_LONG);
        }
        if s[block_size as usize - 1 - z] != 0x80 {
            return Err(SC_ERROR_KEYPAD_MSG_TOO_LONG);
        }
        Ok((z + 1) as u8)
    } else if padding_type == BLOCKCIPHER_PAD_TYPE_ONEANDZEROES_ACOS5 {
        /* last byte 0x80 will be interpreted as padding, thus plaintext data can't end with 0x80 */
        let last = s[block_size as usize - 1];
        if last != 0 && last != 0x80 {
            return Ok(0);
        }
        let z = count_trailing_zeros(s);
        if z == block_size as usize || s[block_size as usize - 1 - z] != 0x80 || z + 1 == block_size as usize {
            return Ok(0);
        }
        Ok((z + 1) as u8)
    } else if padding_type == BLOCKCIPHER_PAD_TYPE_PKCS5 {
        let pad_byte = s[block_size as usize - 1];
        let cnt = counted_padding_length(s, pad_byte);
        if cnt != pad_byte {
            return Err(SC_ERROR_KEYPAD_MSG_TOO_LONG);
        }
        Ok(cnt)
    } else if padding_type == BLOCKCIPHER_PAD_TYPE_ANSIX9_23 {
        let cnt = counted_padding_length(s, 0);
        if cnt != s[block_size as usize - 1] {
            return Err(SC_ERROR_KEYPAD_MSG_TOO_LONG);
        }
        Ok(cnt)
    } else {
        Err(SC_ERROR_KEYPAD_MSG_TOO_LONG)
    }
}

/// The last block of a padded input carries a padding that the padding type can
/// recognize: the data of the last block followed by its calculated padding.
pub open spec fn roundtrip_applies(block_size: u8, padding_type: u8, data: Seq<u8>) -> bool {
    ||| padding_type == BLOCKCIPHER_PAD_TYPE_ONEANDZEROES
    ||| padding_type == BLOCKCIPHER_PAD_TYPE_PKCS5
    ||| padding_type == BLOCKCIPHER_PAD_TYPE_ANSIX9_23
    ||| (padding_type == BLOCKCIPHER_PAD_TYPE_ONEANDZEROES_ACOS5 && data.len() > 0)
    ||| (padding_type == BLOCKCIPHER_PAD_TYPE_ZEROES && data.len() > 0 && data.last() != 0)
}

/// Law: the padding that `trailing_blockcipher_padding_calculate` appends to the data
/// of a last block fills that block exactly, and
/// `trailing_blockcipher_padding_get_length` finds exactly that padding again, so that
/// decryption strips what encryption added. With zero padding this holds only where
/// the data does not end in a zero byte, and for both types that add nothing to a
/// full block only where the last block is not full.
pub proof fn lemma_padding_roundtrip(block_size: u8, padding_type: u8, data: Seq<u8>)
    requires
        block_size == 8 || block_size == 16,
        data.len() < block_size,
        roundtrip_applies(block_size, padding_type, data),
    ensures
        (data + spec_padding_calculate(block_size, padding_type, data.len() as u8)).len() == block_size,
        spec_padding_get_length(
            block_size,
            padding_type,
            data + spec_padding_calculate(block_size, padding_type, data.len() as u8),
        ) == Ok::<u8, i32>(spec_padding_calculate(block_size, padding_type, data.len() as u8).len() as u8),
{
    let rem = data.len() as u8;
    let pad = spec_padding_calculate(block_size, padding_type, rem);
    let s = data + pad;
    let bs = block_size as int;
    let r = rem as int;
    if padding_type == BLOCKCIPHER_PAD_TYPE_ONEANDZEROES
        || padding_type == BLOCKCIPHER_PAD_TYPE_ONEANDZEROES_ACOS5 {
        assert(s.len() == bs);
        assert(s[r] == 0x80);
        assert forall|j: int| r + 1 <= j < s.len() implies #[trigger] s[j] == 0 by {
            assert(s[j] == pad[j - r]);
        }
        lemma_trailing_zero_count_split(s, r + 1);
        let t = s.subrange(0, r + 1);
        assert(t.last() == 0x80);
        assert(trailing_zero_count(t) == 0);
        assert(trailing_zero_count(s) == bs - r - 1);
        if bs - r - 1 > 0 {
            assert(s[bs - 1] == 0);
        }
    } else if padding_type == BLOCKCIPHER_PAD_TYPE_ZEROES {
        assert(s.len() == bs);
        assert forall|j: int| r <= j < s.len() implies #[trigger] s[j] == 0 by {
            assert(s[j] == pad[j - r]);
        }
        lemma_trailing_zero_count_split(s, r);
        assert(s.subrange(0, r) =~= data);
        assert(trailing_zero_count(data) == 0);
    } else if padding_type == BLOCKCIPHER_PAD_TYPE_PKCS5 {
        assert(s.len() == bs);
        assert(s[bs - 1] == (bs - r) as u8);
        assert forall|j: int| bs - (bs - r) <= j < bs - 1 implies #[trigger] s[j] == (bs - r) as u8 by {
            assert(s[j] == pad[j - r]);
        }
    } else {
        assert(s.len() == bs);
        assert(s[bs - 1] == (bs - r) as u8);
        assert forall|j: int| bs - (bs - r) <= j < bs - 1 implies #[trigger] s[j] == 0 by {
            assert(s[j] == pad[j - r]);
        }
    }
}

} // verus!
