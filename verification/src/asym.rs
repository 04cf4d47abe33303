//! RSA key pair generation and public key encryption on the card: the commands
//! and security environments that the driver builds for them.
use vstd::prelude::*;
use crate::select::{sc_path, sc_aid, SC_PATH_TYPE_FILE_ID};
use crate::driver::sc_security_env;
use crate::card::SC_READER_SHORT_APDU_MAX_RECV_SIZE;

verus! {

/// OpenSC algorithm identifier of RSA.
pub const SC_ALGORITHM_RSA: u32 = 0;
/// Security environment flag: an algorithm reference is present.
pub const SC_SEC_ENV_ALG_REF_PRESENT: u64 = 0x0001;
/// Security environment flag: a file reference is present.
pub const SC_SEC_ENV_FILE_REF_PRESENT: u64 = 0x0002;
/// Security environment flag: a key reference is present.
pub const SC_SEC_ENV_KEY_REF_PRESENT: u64 = 0x0004;
/// Security environment flag: an algorithm is present.
pub const SC_SEC_ENV_ALG_PRESENT: u64 = 0x0010;

/// The two bytes of a file identifier, the more significant one first.
pub fn file_id_bytes(file_id: u16) -> (r: [u8; 2])
    ensures
        r@[0] as int * 256 + r@[1] as int == file_id as int,
{
    let r: [u8; 2] = [(file_id >> 8) as u8, (file_id & 0xFF) as u8];
    assert((file_id >> 8u16) as u8 as int * 256 + (file_id & 0xFFu16) as u8 as int == file_id as int) by (bit_vector);
    r
}

/// A security environment for RSA with the key file `file_id` as file reference,
/// for the given operation; with `alg_present`, the algorithm is flagged present too.
pub fn rsa_file_ref_env(operation: i32, alg_present: bool, file_id: u16) -> (env: sc_security_env)
    ensures
        env.operation == operation,
        env.algorithm == SC_ALGORITHM_RSA,
        env.flags == (if alg_present { SC_SEC_ENV_ALG_PRESENT | SC_SEC_ENV_FILE_REF_PRESENT } else { SC_SEC_ENV_FILE_REF_PRESENT }),
        env.file_ref.len == 2,
        env.file_ref.type_ == SC_PATH_TYPE_FILE_ID,
        env.file_ref.aid.len == 0,
        env.file_ref.value@[0] as int * 256 + env.file_ref.value@[1] as int == file_id as int,
        env.algorithm_flags == 0,
        env.algorithm_ref == 0,
        env.key_ref_len == 0,
{
    let fid = file_id_bytes(file_id);
    let mut value: [u8; 16] = [0u8; 16];
    value[0] = fid[0];
    value[1] = fid[1];
    sc_security_env {
        flags: if alg_present { SC_SEC_ENV_ALG_PRESENT | SC_SEC_ENV_FILE_REF_PRESENT } else { SC_SEC_ENV_FILE_REF_PRESENT },
        operation,
        algorithm: SC_ALGORITHM_RSA,
        algorithm_flags: 0,
        algorithm_ref: 0,
        file_ref: sc_path { value, len: 2, type_: SC_PATH_TYPE_FILE_ID, aid: sc_aid { value: [0u8; 16], len: 0 } },
        key_ref: [0u8; 8],
        key_ref_len: 0,
    }
}

/// The GENERATE KEY PAIR command: `00 46 00 00`, then the data length and the codes
/// of key length and private key type; with the standard public exponent, 2 data
/// bytes and nothing more, else 18 data bytes, the last 16 (the exponent) zero.
pub open spec fn spec_generate_asym_command(key_len_code: u8, key_priv_type_code: u8, exponent_std: bool) -> Seq<u8> {
    if exponent_std {
        seq![0x00u8, 0x46u8, 0x00u8, 0x00u8, 2u8, key_len_code, key_priv_type_code]
    } else {
        seq![0x00u8, 0x46u8, 0x00u8, 0x00u8, 18u8, key_len_code, key_priv_type_code] + Seq::new(16, |i: int| 0u8)
    }
}

/// Builds the GENERATE KEY PAIR command.
pub fn generate_asym_command(key_len_code: u8, key_priv_type_code: u8, exponent_std: bool) -> (r: Vec<u8>)
    ensures
        r@ == spec_generate_asym_command(key_len_code, key_priv_type_code, exponent_std),
{
    let mut command: Vec<u8> = vec![0u8, 0x46, 0, 0, 18, key_len_code, key_priv_type_code,
        0, 0, 0, 0, 0, 0, 0, 0, 0, 0, 0, 0, 0, 0, 0, 0];
    if exponent_std {
        command.set(4, 2);
        command.truncate(7);
        assert(command@ =~= spec_generate_asym_command(key_len_code, key_priv_type_code, exponent_std));
    } else {
        assert(command@ =~= spec_generate_asym_command(key_len_code, key_priv_type_code, exponent_std));
    }
    command
}

/// How an ENCIPHER command with `data_len` bytes is sent: the number of bytes
/// expected back (at most 256 in one short response) and whether command chaining
/// is needed because the data exceeds what the card accepts in one command.
pub fn encrypt_asym_transfer(data_len: usize, max_send_size: usize) -> (r: (usize, bool))
    ensures
        r.0 == (if data_len < SC_READER_SHORT_APDU_MAX_RECV_SIZE { data_len } else { SC_READER_SHORT_APDU_MAX_RECV_SIZE }),
        r.1 == (data_len > max_send_size),
{
    let le = if data_len < SC_READER_SHORT_APDU_MAX_RECV_SIZE { data_len } else { SC_READER_SHORT_APDU_MAX_RECV_SIZE };
    (le, data_len > max_send_size)
}

/// An ENCIPHER command with RSA public key: `CLA INS P1 P2 = 00 2A 84 80`, the data
/// (its length is Lc), the number of bytes expected back (at most 256), and whether
/// command chaining is needed.
#[derive(Debug)]
pub struct EncipherApdu {
    pub header: [u8; 4],
    pub data: Vec<u8>,
    pub le: usize,
    pub chaining: bool,
}

/// Builds the ENCIPHER command that encrypts `data` with the RSA public key selected
/// in the security environment.
pub fn encrypt_asym_apdu(data: &[u8], max_send_size: usize) -> (r: EncipherApdu)
    ensures
        r.header@ == seq![0x00u8, 0x2Au8, 0x84u8, 0x80u8],
        r.data@ == data@,
        r.le == (if data@.len() < SC_READER_SHORT_APDU_MAX_RECV_SIZE { data@.len() as usize } else { SC_READER_SHORT_APDU_MAX_RECV_SIZE }),
        r.chaining == (data@.len() > max_send_size),
{
    let (le, chaining) = encrypt_asym_transfer(data.len(), max_send_size);
    let mut v: Vec<u8> = Vec::new();
    let mut i: usize = 0;
    while i < data.len()
        invariant
            i <= data@.len(),
            v@ == data@.take(i as int),
        decreases data@.len() - i,
    {
        v.push(data[i]);
        i += 1;
        assert(v@ =~= data@.take(i as int));
    }
    assert(v@ =~= data@);
    let header: [u8; 4] = [0x00, 0x2A, 0x84, 0x80];
    assert(header@ =~= seq![0x00u8, 0x2Au8, 0x84u8, 0x80u8]);
    EncipherApdu { header, data: v, le, chaining }
}

/// Takes the card's answer to the ENCIPHER command: the encrypted bytes replace the
/// first bytes of `data`, the rest of it stays.
pub fn encrypt_asym_take_response(data: &mut [u8], resp: &[u8])
    requires
        resp@.len() <= old(data)@.len(),
    ensures
        final(data)@ == resp@ + old(data)@.skip(resp@.len() as int),
{
    let mut i: usize = 0;
    while i < resp.len()
        invariant
            resp@.len() <= data@.len(),
            data@.len() == old(data)@.len(),
            forall|k: int| 0 <= k < i ==> data@[k] == resp@[k],
            forall|k: int| i <= k < data@.len() ==> data@[k] == old(data)@[k],
            i <= resp@.len(),
        decreases resp@.len() - i,
    {
        data[i] = resp[i];
        i += 1;
    }
    assert(data@ =~= resp@ + old(data)@.skip(resp@.len() as int));
}

} // verus!
