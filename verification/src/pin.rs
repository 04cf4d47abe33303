//! The PIN policy of the card and the query for the number of tries left.
use vstd::prelude::*;
use crate::errors::{SC_SUCCESS, SC_ERROR_KEYPAD_MSG_TOO_LONG};

verus! {

/// PIN encoding: ASCII characters.
pub const SC_PIN_ENCODING_ASCII: u32 = 0;

/// The properties of a PIN that the driver reports.
pub struct sc_pin_cmd_pin {
    pub min_length: usize,
    pub max_length: usize,
    pub stored_length: usize,
    pub encoding: u32,
    pub pad_char: u8,
    pub offset: usize,
    pub length_offset: usize,
    pub max_tries: i32,
    pub tries_left: i32,
}

/// The VERIFY command without data, which asks the card for the number of tries
/// left for the PIN with this reference.
pub fn pin_get_policy_command(pin_reference: i32) -> (r: [u8; 4])
    ensures
        r@ == seq![0x00u8, 0x20u8, 0x00u8, pin_reference as u8],
{
    let r: [u8; 4] = [0x00u8, 0x20, 0x00, pin_reference as u8];
    assert(r@ =~= seq![0x00u8, 0x20u8, 0x00u8, pin_reference as u8]);
    r
}

/// The number of tries left that the card's answer to the VERIFY query states
/// (`SW1 SW2 = 63 Cn`: `n` tries left), or `SC_ERROR_KEYPAD_MSG_TOO_LONG` where the
/// transmission failed or the answer is of another form.
pub open spec fn spec_pin_tries_left(transmit_rv: i32, sw1: u32, sw2: u32) -> Result<i32, i32> {
    if transmit_rv != SC_SUCCESS || sw1 != 0x63 || (sw2 & 0xC0) != 0xC0 {
        Err(SC_ERROR_KEYPAD_MSG_TOO_LONG)
    } else {
        Ok((sw2 & 0x0F) as i32)
    }
}

/// Fills in the PIN policy of the card (PINs of 4 to 8 ASCII characters, stored in 8
/// bytes padded with `FF`, at offset 5 of the command, 8 tries) and, from the card's
/// answer to the VERIFY query, the number of tries left. Returns `SC_SUCCESS`, or
/// `SC_ERROR_KEYPAD_MSG_TOO_LONG` where the answer states no number of tries; the
/// number of tries left is then left as it was.
pub fn pin_get_policy(data: &mut sc_pin_cmd_pin, transmit_rv: i32, sw1: u32, sw2: u32) -> (r: i32)
    ensures
        final(data).min_length == 4,
        final(data).max_length == 8,
        final(data).stored_length == 8,
        final(data).encoding == SC_PIN_ENCODING_ASCII,
        final(data).pad_char == 0xFF,
        final(data).offset == 5,
        final(data).length_offset == 0,
        final(data).max_tries == 8,
        match spec_pin_tries_left(transmit_rv, sw1, sw2) {
            Ok(n) => r == SC_SUCCESS && final(data).tries_left == n,
            Err(e) => r == e && final(data).tries_left == old(data).tries_left,
        },
{
    data.min_length = 4; /* min length of PIN */
    data.max_length = 8; /* max length of PIN */
    data.stored_length = 8; /* stored length of PIN */
    data.encoding = SC_PIN_ENCODING_ASCII;
    data.pad_char = 0xFF;
    data.offset = 5; /* PIN offset in the APDU */
    data.length_offset = 0; /* Effective PIN length offset in the APDU */
    data.max_tries = 8; /* the factory setting; the actual value cannot be read */

    if transmit_rv != SC_SUCCESS || sw1 != 0x63 || (sw2 & 0xC0) != 0xC0 {
        return SC_ERROR_KEYPAD_MSG_TOO_LONG;
    }
    assert((sw2 & 0x0Fu32) <= 15u32) by (bit_vector);
    data.tries_left = (sw2 & 0x0F) as i32; /* 63 Cn: n is remaining tries */
    SC_SUCCESS
}

/// Law: the card's answer `63 Cn` to the VERIFY query, transmitted successfully,
/// states `n` tries left, for every `n` from 0 to 15; and whatever the answer, a
/// number of tries read from it is the whole low nibble of `SW2` (`SW2 mod 16`).
pub proof fn lemma_pin_tries_left_is_low_nibble(n: u32, sw2: u32)
    requires
        n <= 15,
    ensures
        spec_pin_tries_left(SC_SUCCESS, 0x63, (0xC0 + n) as u32) == Ok::<i32, i32>(n as i32),
        spec_pin_tries_left(SC_SUCCESS, 0x63, sw2) matches Ok(t) ==> t == sw2 % 16,
{
    let w = (0xC0 + n) as u32;
    assert(w == 0xC0u32 + n);
    assert(n <= 15u32 && w == 0xC0u32 + n ==> (w & 0xC0u32) == 0xC0u32 && (w & 0x0Fu32) == n) by (bit_vector);
    assert((sw2 & 0x0Fu32) == sw2 % 16) by (bit_vector);
}

} // verus!
