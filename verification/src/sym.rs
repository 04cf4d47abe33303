//! Symmetric encryption and decryption on the card: how input is split into
//! command chunks, how its last block is padded and how the result length is found.
use vstd::prelude::*;
use crate::errors::{SC_SUCCESS, SC_ERROR_KEYPAD_MSG_TOO_LONG};
use crate::driver::sc_security_env;
use crate::select::{sc_path, sc_aid};
use crate::asym::{SC_SEC_ENV_KEY_REF_PRESENT, SC_SEC_ENV_ALG_REF_PRESENT, SC_SEC_ENV_ALG_PRESENT};
use crate::blockcipher::{
    BLOCKCIPHER_PAD_TYPE_ZEROES, BLOCKCIPHER_PAD_TYPE_ONEANDZEROES_ACOS5, is_known_pad_type,
    spec_padding_calculate, spec_padding_get_length, trailing_blockcipher_padding_calculate,
    trailing_blockcipher_padding_get_length, BLOCKCIPHER_PAD_TYPE_ONEANDZEROES, BLOCKCIPHER_PAD_TYPE_PKCS5,
    BLOCKCIPHER_PAD_TYPE_ANSIX9_23, roundtrip_applies, lemma_padding_roundtrip,
};

verus! {

/// OpenSC algorithm identifier of DES.
pub const SC_ALGORITHM_DES: u32 = 64;
/// OpenSC algorithm identifier of 3DES.
pub const SC_ALGORITHM_3DES: u32 = 65;
/// OpenSC algorithm identifier of AES.
pub const SC_ALGORITHM_AES: u32 = 67;

/// The smallest multiple of `multiplier` that is not less than `x`.
pub open spec fn spec_multiple_greater_equal(multiplier: int, x: int) -> int {
    if x % multiplier == 0 { x } else { x + (multiplier - x % multiplier) }
}

/// Rounds `x` up to the next multiple of `multiplier`.
pub fn multipleGreaterEqual(multiplier: usize, x: usize) -> (r: usize)
    requires
        multiplier > 0,
        spec_multiple_greater_equal(multiplier as int, x as int) <= usize::MAX,
    ensures
        r == spec_multiple_greater_equal(multiplier as int, x as int),
        r % multiplier == 0,
        x <= r < x + multiplier,
{
    let rem = x % multiplier;
    proof {
        vstd::arithmetic::div_mod::lemma_fundamental_div_mod(x as int, multiplier as int);
        if rem != 0 {
            let m = multiplier as int;
            let q = x as int / m;
            assert((q + 1) * m == m * q + m) by (nonlinear_arith);
            vstd::arithmetic::div_mod::lemma_mod_multiples_basic(q + 1, m);
        }
    }
    x + if rem == 0 { 0 } else { multiplier - rem }
}

/// The algorithm reference of the card for a symmetric algorithm and mode of
/// operation (CBC or ECB); `0xFFFF_FFFF` for an algorithm that the card lacks.
pub open spec fn spec_algo_ref_cos5_sym(algo: u32, op_mode_cbc: bool) -> u32 {
    if algo == SC_ALGORITHM_AES {
        if op_mode_cbc { 6 } else { 4 }
    } else if algo == SC_ALGORITHM_3DES {
        if op_mode_cbc { 2 } else { 0 }
    } else if algo == SC_ALGORITHM_DES {
        if op_mode_cbc { 3 } else { 1 }
    } else {
        0xFFFF_FFFF
    }
}

/// The algorithm reference that the card's security environment uses for a
/// symmetric algorithm in CBC or ECB mode.
pub fn algo_ref_cos5_sym_SEDO(algo: u32, op_mode_cbc: bool) -> (r: u32)
    ensures
        r == spec_algo_ref_cos5_sym(algo, op_mode_cbc),
{
    if algo == SC_ALGORITHM_AES {
        if op_mode_cbc { 6 } else { 4 }
    } else if algo == SC_ALGORITHM_3DES {
        if op_mode_cbc { 2 } else { 0 }
    } else if algo == SC_ALGORITHM_DES {
        if op_mode_cbc { 3 } else { 1 }
    } else {
        0xFFFF_FFFF
    }
}

/// Whether encryption with this padding type always adds padding (at least one byte).
pub open spec fn pads_always(encrypt: bool, pad_type: u8) -> bool {
    encrypt && pad_type != BLOCKCIPHER_PAD_TYPE_ZEROES && pad_type != BLOCKCIPHER_PAD_TYPE_ONEANDZEROES_ACOS5
}

/// The lengths that drive a symmetric operation: `len1` the input length, `len0`
/// the length of its full blocks, `len2` the length of the output, that is of the
/// input with its padding.
pub struct SymPlan {
    pub block_size: u8,
    pub pad_type: u8,
    pub encrypt: bool,
    pub cbc: bool,
    pub len0: usize,
    pub len1: usize,
    pub len2: usize,
}

impl SymPlan {
    /// The lengths agree with each other: `len0` is `len1` rounded down to whole
    /// blocks, `len2` is `len1` (plus one where padding is always added) rounded up,
    /// and decryption works on whole blocks only.
    pub open spec fn wf(self) -> bool {
        &&& self.block_size == 8 || self.block_size == 16
        &&& is_known_pad_type(self.pad_type)
        &&& self.len0 == (self.len1 as int / self.block_size as int) * self.block_size
        &&& self.len2 == spec_multiple_greater_equal(
            self.block_size as int,
            self.len1 + if pads_always(self.encrypt, self.pad_type) { 1int } else { 0int },
        )
        &&& !self.encrypt ==> self.len1 as int % self.block_size as int == 0
        &&& (self.len2 == self.len1 && self.len1 == self.len0)
            || (self.len2 == self.len0 + self.block_size && self.len0 <= self.len1 < self.len2)
    }

    /// The most data bytes that one command carries.
    pub open spec fn max_send(self) -> int {
        256 - self.block_size
    }
}

/// Computes the lengths for a symmetric operation on `indata_len` bytes; decryption
/// takes whole blocks only.
pub fn sym_plan(block_size: u8, pad_type: u8, encrypt: bool, cbc: bool, indata_len: usize) -> (p: SymPlan)
    requires
        block_size == 8 || block_size == 16,
        is_known_pad_type(pad_type),
        !encrypt ==> indata_len as int % block_size as int == 0,
        indata_len + block_size <= usize::MAX,
    ensures
        p.wf(),
        p.block_size == block_size,
        p.pad_type == pad_type,
        p.encrypt == encrypt,
        p.cbc == cbc,
        p.len1 == indata_len,
{
    let bs = block_size as usize;
    let len1 = indata_len;
    proof {
        vstd::arithmetic::div_mod::lemma_fundamental_div_mod(len1 as int, bs as int);
        vstd::arithmetic::div_mod::lemma_mod_pos_bound(len1 as int, bs as int);
        vstd::arithmetic::mul::lemma_mul_is_commutative(len1 as int / bs as int, bs as int);
        vstd::arithmetic::div_mod::lemma_div_pos_is_pos(len1 as int, bs as int);
    }
    let len0 = (len1 / bs) * bs;
    let extra: usize = if !encrypt || pad_type == BLOCKCIPHER_PAD_TYPE_ZEROES
        || pad_type == BLOCKCIPHER_PAD_TYPE_ONEANDZEROES_ACOS5 { 0 } else { 1 };
    proof {
        vstd::arithmetic::div_mod::lemma_fundamental_div_mod(len1 as int, bs as int);
        vstd::arithmetic::div_mod::lemma_fundamental_div_mod((len1 + extra) as int, bs as int);
        vstd::arithmetic::div_mod::lemma_mod_pos_bound(len1 as int, bs as int);
        vstd::arithmetic::mul::lemma_mul_is_commutative(len1 as int / bs as int, bs as int);
        assert(len0 == bs * (len1 as int / bs as int));
        assert(spec_multiple_greater_equal(bs as int, (len1 + extra) as int) <= usize::MAX);
    }
    let len2 = multipleGreaterEqual(bs, len1 + extra);
    proof {
        let q = len1 as int / bs as int;
        assert(len1 == bs * q + len1 as int % bs as int);
        assert(len0 <= len1 < len0 + bs);
        // len2 is the multiple of bs in [len1 + extra, len1 + extra + bs)
        let k = len2 as int / bs as int;
        vstd::arithmetic::div_mod::lemma_fundamental_div_mod(len2 as int, bs as int);
        assert(len2 == bs * k);
        if k <= q {
            vstd::arithmetic::mul::lemma_mul_inequality(k, q, bs as int);
            vstd::arithmetic::mul::lemma_mul_is_commutative(k, bs as int);
            assert(len2 <= len0);
            assert(len2 == len0 && len1 == len0);
        } else if k >= q + 2 {
            vstd::arithmetic::mul::lemma_mul_inequality(q + 2, k, bs as int);
            vstd::arithmetic::mul::lemma_mul_is_distributive_add_other_way(bs as int, q, 2);
            assert(false);
        } else {
            vstd::arithmetic::mul::lemma_mul_is_distributive_add_other_way(bs as int, q, 1);
            assert(len2 == len0 + bs);
            if len1 == len2 {
                assert(false);
            }
        }
        if !encrypt {
            assert(len1 == len0);
        }
    }
    SymPlan { block_size, pad_type, encrypt, cbc, len0, len1, len2 }
}

/// The length of the padding that encryption appends to input of length `len1`
/// whose full blocks take `len0` bytes.
pub open spec fn padding_len(p: SymPlan) -> int {
    spec_padding_calculate(p.block_size, p.pad_type, (p.len1 - p.len0) as u8).len() as int
}

proof fn lemma_padding_len(bs: u8, pt: u8, rem: u8)
    requires
        bs == 8 || bs == 16,
        rem < bs,
        is_known_pad_type(pt),
    ensures
        spec_padding_calculate(bs, pt, rem).len() == (if rem == 0 && (pt == BLOCKCIPHER_PAD_TYPE_ZEROES
            || pt == BLOCKCIPHER_PAD_TYPE_ONEANDZEROES_ACOS5) { 0 } else { bs - rem }),
{
}

/// Law: the output of a symmetric operation is as long as its input with the
/// padding that encryption appends (`trailing_blockcipher_padding_calculate` of the
/// bytes in the last block); decryption output is as long as its input. A padding
/// type that always pads (ISO 9797-1 method 2, PKCS#5, ANSI X9.23) thus adds a whole
/// block to input that fills its blocks.
pub proof fn lemma_sym_plan_output_is_padded_input(p: SymPlan)
    requires
        p.wf(),
    ensures
        p.len2 == p.len1 + (if p.encrypt { padding_len(p) } else { 0 }),
        p.encrypt && (p.pad_type == BLOCKCIPHER_PAD_TYPE_ONEANDZEROES || p.pad_type == BLOCKCIPHER_PAD_TYPE_PKCS5
            || p.pad_type == BLOCKCIPHER_PAD_TYPE_ANSIX9_23) ==> p.len2 == p.len0 + p.block_size,
{
    let bs = p.block_size as int;
    let l1 = p.len1 as int;
    vstd::arithmetic::div_mod::lemma_fundamental_div_mod(l1, bs);
    vstd::arithmetic::div_mod::lemma_mod_pos_bound(l1, bs);
    vstd::arithmetic::mul::lemma_mul_is_commutative(l1 / bs, bs);
    assert(p.len0 == bs * (l1 / bs));
    let rem = l1 - p.len0;
    assert(rem == l1 % bs);
    assert(0 <= rem < bs);
    let x = l1 + if pads_always(p.encrypt, p.pad_type) { 1int } else { 0int };
    vstd::arithmetic::div_mod::lemma_mod_pos_bound(x, bs);
    assert(p.len2 >= x);
    if p.encrypt {
        lemma_padding_len(p.block_size, p.pad_type, rem as u8);
        if pads_always(p.encrypt, p.pad_type) {
            assert(p.len2 == p.len0 + bs);
        } else if rem == 0 {
            assert(p.len1 == p.len0);
            assert(x % bs == 0);
        } else {
            assert(p.len2 == p.len0 + bs);
        }
    } else {
        assert(p.len1 == p.len0);
    }
}

/// The header of the ENCIPHER/DECIPHER command: class byte (`0x10` for command
/// chaining where data is sent in several CBC chunks), instruction `0x2A`, `P1`/`P2`
/// for the direction, followed by placeholders for `Lc`, data and `Le`.
pub open spec fn spec_sym_command_header(p: SymPlan) -> Seq<u8> {
    seq![
        if !p.cbc || (p.len1 == p.len2 && p.len1 <= p.max_send()) { 0u8 } else { 0x10u8 },
        0x2Au8,
        if p.encrypt { 0x84u8 } else { 0x80u8 },
        if p.encrypt { 0x80u8 } else { 0x84u8 },
        0x01u8,
        0xFFu8,
        0xFFu8,
    ]
}

/// Builds the header of the ENCIPHER/DECIPHER command for a planned operation.
pub fn sym_command_header(p: &SymPlan) -> (r: [u8; 7])
    requires
        p.wf(),
    ensures
        r@ == spec_sym_command_header(*p),
{
    let max_send: usize = 256 - p.block_size as usize;
    let cla: u8 = if !p.cbc || (p.len1 == p.len2 && p.len1 <= max_send) { 0 } else { 0x10 };
    let r: [u8; 7] = [
        cla,
        0x2A,
        if p.encrypt { 0x84 } else { 0x80 },
        if p.encrypt { 0x80 } else { 0x84 },
        0x01,
        0xFF,
        0xFF,
    ];
    assert(r@ =~= spec_sym_command_header(*p));
    r
}

/// One command of a symmetric operation: its class byte, where its output goes
/// (`offset`, which is also where its data comes from unless it is the padded last
/// block), how many bytes it carries, and whether the security environment must be
/// set anew before it (CBC decryption of every chunk but the first).
pub struct SymChunk {
    pub cla: u8,
    pub offset: usize,
    pub datalen: usize,
    pub from_last_block: bool,
    pub reestablish_env: bool,
}

/// The command to send once `cnt` output bytes have arrived, or `None` when all are done.
/// Whole blocks are sent first, at most `256 - block_size` bytes at a time; the padded
/// last block, if any, follows on its own.
pub open spec fn spec_sym_next_chunk(p: SymPlan, cnt: int) -> Option<SymChunk> {
    if cnt < p.len0 {
        let rest = p.len0 - cnt;
        Some(SymChunk {
            cla: if !p.cbc || (p.len1 == p.len2 && rest <= p.max_send()) { 0u8 } else { 0x10u8 },
            offset: cnt as usize,
            datalen: if rest < p.max_send() { rest as usize } else { p.max_send() as usize },
            from_last_block: false,
            reestablish_env: cnt != 0 && p.cbc && !p.encrypt,
        })
    } else if cnt == p.len0 && p.len1 != p.len2 {
        Some(SymChunk {
            cla: 0u8,
            offset: cnt as usize,
            datalen: p.block_size as usize,
            from_last_block: true,
            reestablish_env: cnt != 0 && p.cbc && !p.encrypt,
        })
    } else {
        None
    }
}

/// Decides the next command of a symmetric operation once `cnt` output bytes have
/// arrived.
pub fn sym_next_chunk(p: &SymPlan, cnt: usize) -> (r: Option<SymChunk>)
    requires
        p.wf(),
    ensures
        r == spec_sym_next_chunk(*p, cnt as int),
{
    let max_send: usize = 256 - p.block_size as usize;
    if cnt < p.len0 {
        let rest = p.len0 - cnt;
        Some(SymChunk {
            cla: if !p.cbc || (p.len1 == p.len2 && rest <= max_send) { 0 } else { 0x10 },
            offset: cnt,
            datalen: if rest < max_send { rest } else { max_send },
            from_last_block: false,
            reestablish_env: cnt != 0 && p.cbc && !p.encrypt,
        })
    } else if cnt == p.len0 && p.len1 != p.len2 {
        Some(SymChunk {
            cla: 0,
            offset: cnt,
            datalen: p.block_size as usize,
            from_last_block: true,
            reestablish_env: cnt != 0 && p.cbc && !p.encrypt,
        })
    } else {
        None
    }
}

/// The number of output bytes that have arrived once the commands from `cnt` on
/// have all been answered in full.
pub open spec fn sym_sent_total(p: SymPlan, cnt: int) -> int
    decreases p.len2 - cnt,
{
    match spec_sym_next_chunk(p, cnt) {
        Some(c) => if c.datalen > 0 && cnt + c.datalen <= p.len2 {
            sym_sent_total(p, cnt + c.datalen)
        } else {
            cnt
        },
        None => cnt,
    }
}

/// Law: the commands of a symmetric operation each carry between one byte and
/// `256 - block_size` bytes, and together they cover the whole output: the full
/// blocks of the input and then the padded last block.
pub proof fn lemma_sym_chunks_cover_output(p: SymPlan, cnt: int)
    requires
        p.wf(),
        0 <= cnt <= p.len0,
    ensures
        sym_sent_total(p, cnt) == p.len2,
        spec_sym_next_chunk(p, cnt) matches Some(c) ==> 0 < c.datalen <= p.max_send(),
    decreases p.len0 - cnt,
{
    if cnt < p.len0 {
        let c = spec_sym_next_chunk(p, cnt).unwrap();
        assert(0 < c.datalen);
        assert(cnt + c.datalen <= p.len0);
        lemma_sym_chunks_cover_output(p, cnt + c.datalen);
        assert(sym_sent_total(p, cnt) == sym_sent_total(p, cnt + c.datalen));
    } else if p.len1 != p.len2 {
        let next = cnt + p.block_size;
        assert(next == p.len2);
        assert(spec_sym_next_chunk(p, next).is_none());
        assert(sym_sent_total(p, next) == next);
        assert(sym_sent_total(p, cnt) == sym_sent_total(p, next));
    } else {
        assert(spec_sym_next_chunk(p, cnt).is_none());
    }
}

/// The last block that is sent when encrypting: the bytes of the input after its
/// full blocks, followed by their padding.
pub open spec fn spec_sym_last_block(p: SymPlan, indata: Seq<u8>) -> Seq<u8> {
    indata.subrange(p.len0 as int, p.len1 as int)
        + spec_padding_calculate(p.block_size, p.pad_type, (p.len1 - p.len0) as u8)
}

/// Builds the padded last block of the input, sent where encryption adds padding.
pub fn sym_last_block(p: &SymPlan, indata: &[u8]) -> (r: Vec<u8>)
    requires
        p.wf(),
        p.len1 != p.len2,
        indata@.len() == p.len1,
    ensures
        r@ == spec_sym_last_block(*p, indata@),
        r@.len() == p.block_size,
{
    let mut v: Vec<u8> = Vec::new();
    let mut i: usize = p.len0;
    while i < p.len1
        invariant
            p.wf(),
            indata@.len() == p.len1,
            p.len0 <= i <= p.len1,
            v@ == indata@.subrange(p.len0 as int, i as int),
        decreases p.len1 - i,
    {
        v.push(indata[i]);
        i += 1;
        assert(v@ =~= indata@.subrange(p.len0 as int, i as int));
    }
    let rem = (p.len1 - p.len0) as u8;
    let mut pad = trailing_blockcipher_padding_calculate(p.block_size, p.pad_type, rem);
    proof {
        let bs = p.block_size as int;
        let r = rem as int;
        let pt = p.pad_type;
        // the padding fills the block
        if pt == BLOCKCIPHER_PAD_TYPE_ZEROES || pt == BLOCKCIPHER_PAD_TYPE_ONEANDZEROES_ACOS5 {
            assert(!pads_always(p.encrypt, pt));
            if r == 0 {
                assert(p.len1 == p.len0);
                vstd::arithmetic::div_mod::lemma_fundamental_div_mod(p.len1 as int, bs);
                assert(false);
            }
        }
        assert(pad@.len() == bs - r);
    }
    v.append(&mut pad);
    v
}

/// The card's answer to one command: `transmit_rv` is the status of the transmission,
/// `check_rv` that of the status word, `resplen` the number of bytes that came back.
/// The answer is an error unless both statuses are success and data came back; then
/// `cnt` grows by the length of the command.
pub open spec fn spec_sym_after_response(cnt: int, datalen: int, transmit_rv: i32, check_rv: i32, resplen: int)
    -> Result<usize, i32> {
    if transmit_rv != SC_SUCCESS {
        Err(transmit_rv)
    } else if check_rv != SC_SUCCESS {
        Err(check_rv)
    } else if resplen == 0 {
        Err(SC_ERROR_KEYPAD_MSG_TOO_LONG)
    } else {
        Ok((cnt + datalen) as usize)
    }
}

/// Takes the card's answer to one command of a symmetric operation.
pub fn sym_after_response(cnt: usize, datalen: usize, transmit_rv: i32, check_rv: i32, resplen: usize)
    -> (r: Result<usize, i32>)
    requires
        cnt + datalen <= usize::MAX,
        transmit_rv == SC_SUCCESS && check_rv == SC_SUCCESS && resplen != 0 ==> resplen == datalen,
    ensures
        r == spec_sym_after_response(cnt as int, datalen as int, transmit_rv, check_rv, resplen as int),
{
    if transmit_rv != SC_SUCCESS {
        return Err(transmit_rv);
    }
    if check_rv != SC_SUCCESS {
        return Err(check_rv);
    }
    if resplen == 0 {
        return Err(SC_ERROR_KEYPAD_MSG_TOO_LONG);
    }
    Ok(cnt + datalen)
}

/// The length of the result: all bytes received when encrypting; when decrypting,
/// those bytes less the padding that the last decrypted block carries.
pub open spec fn spec_sym_output_len(p: SymPlan, cnt: int, last_block: Seq<u8>) -> int {
    if p.encrypt {
        cnt
    } else {
        cnt - spec_padding_get_length(p.block_size, p.pad_type, last_block)->Ok_0
    }
}

/// Computes the length of the result of a symmetric operation from the number of
/// bytes received and, when decrypting, the last decrypted block.
pub fn sym_output_len(p: &SymPlan, cnt: usize, last_block: &[u8]) -> (r: usize)
    requires
        p.wf(),
        last_block@.len() == p.block_size,
        !p.encrypt ==> spec_padding_get_length(p.block_size, p.pad_type, last_block@) is Ok,
        !p.encrypt ==> spec_padding_get_length(p.block_size, p.pad_type, last_block@)->Ok_0 <= cnt,
    ensures
        r == spec_sym_output_len(*p, cnt as int, last_block@),
        p.encrypt ==> r == cnt,
        !p.encrypt ==> r + spec_padding_get_length(p.block_size, p.pad_type, last_block@)->Ok_0 == cnt,
{
    if p.encrypt {
        cnt
    } else {
        match trailing_blockcipher_padding_get_length(p.block_size, p.pad_type, last_block) {
            Ok(n) => cnt - n as usize,
            Err(_) => cnt,
        }
    }
}

/// Law: decryption gives back exactly the input that encryption took. Where
/// encryption of `indata` (plan `enc`) sent a padded last block, decrypting its
/// `enc.len2` output bytes (plan `dec`) whose last block decrypts to that padded block
/// finds the padding again and yields `enc.len1` bytes. (Zero padding needs input not
/// ending in a zero byte, and the types that add nothing to a full block need a
/// partial last block, as for `lemma_padding_roundtrip`.)
pub proof fn lemma_sym_decrypt_gives_back_input_length(enc: SymPlan, dec: SymPlan, indata: Seq<u8>)
    requires
        enc.wf(),
        dec.wf(),
        enc.encrypt,
        !dec.encrypt,
        dec.block_size == enc.block_size,
        dec.pad_type == enc.pad_type,
        dec.len1 == enc.len2,
        indata.len() == enc.len1,
        enc.len1 != enc.len2,
        roundtrip_applies(enc.block_size, enc.pad_type, indata.subrange(enc.len0 as int, enc.len1 as int)),
    ensures
        spec_padding_get_length(dec.block_size, dec.pad_type, spec_sym_last_block(enc, indata)) is Ok,
        spec_sym_output_len(dec, dec.len2 as int, spec_sym_last_block(enc, indata)) == enc.len1,
{
    lemma_sym_plan_output_is_padded_input(enc);
    lemma_sym_plan_output_is_padded_input(dec);
    let data = indata.subrange(enc.len0 as int, enc.len1 as int);
    let bs = enc.block_size as int;
    let l1 = enc.len1 as int;
    vstd::arithmetic::div_mod::lemma_fundamental_div_mod(l1, bs);
    vstd::arithmetic::div_mod::lemma_mod_pos_bound(l1, bs);
    vstd::arithmetic::mul::lemma_mul_is_commutative(l1 / bs, bs);
    assert(enc.len0 == bs * (l1 / bs));
    assert(data.len() < bs);
    assert(data.len() as u8 == (enc.len1 - enc.len0) as u8);
    lemma_padding_roundtrip(enc.block_size, enc.pad_type, data);
}

/// Security environment flag: the key reference is that of a symmetric key.
pub const SC_SEC_ENV_KEY_REF_SYMMETRIC: u64 = 0x0008;

/// The security environment for a symmetric operation: AES for 16 byte blocks,
/// 3DES for 8 byte blocks, with the key reference `key_ref` and the card's algorithm
/// reference for the mode of operation, for the operation given.
pub fn sym_security_env(operation: i32, block_size: u8, cbc: bool, key_ref: u8) -> (env: sc_security_env)
    ensures
        env.operation == operation,
        env.flags == SC_SEC_ENV_KEY_REF_PRESENT | SC_SEC_ENV_ALG_REF_PRESENT | SC_SEC_ENV_ALG_PRESENT
            | SC_SEC_ENV_KEY_REF_SYMMETRIC,
        env.algorithm == (if block_size == 16 { SC_ALGORITHM_AES } else { SC_ALGORITHM_3DES }),
        env.algorithm_ref == spec_algo_ref_cos5_sym(env.algorithm, cbc),
        env.algorithm_flags == 0,
        env.key_ref@ == seq![key_ref, 0u8, 0u8, 0u8, 0u8, 0u8, 0u8, 0u8],
        env.key_ref_len == 1,
        env.file_ref.len == 0,
{
    let algorithm = if block_size == 16 { SC_ALGORITHM_AES } else { SC_ALGORITHM_3DES };
    let key_ref_bytes: [u8; 8] = [key_ref, 0, 0, 0, 0, 0, 0, 0];
    assert(key_ref_bytes@ =~= seq![key_ref, 0u8, 0u8, 0u8, 0u8, 0u8, 0u8, 0u8]);
    sc_security_env {
        flags: SC_SEC_ENV_KEY_REF_PRESENT | SC_SEC_ENV_ALG_REF_PRESENT | SC_SEC_ENV_ALG_PRESENT | SC_SEC_ENV_KEY_REF_SYMMETRIC,
        operation,
        algorithm,
        algorithm_flags: 0,
        algorithm_ref: algo_ref_cos5_sym_SEDO(algorithm, cbc),
        file_ref: sc_path { value: [0u8; 16], len: 0, type_: 0, aid: sc_aid { value: [0u8; 16], len: 0 } },
        key_ref: key_ref_bytes,
        key_ref_len: 1,
    }
}

} // verus!
