use acos5_64::asym::{encrypt_asym_apdu,
    encrypt_asym_transfer, file_id_bytes, generate_asym_command, rsa_file_ref_env, SC_ALGORITHM_RSA,
    SC_SEC_ENV_ALG_PRESENT, SC_SEC_ENV_FILE_REF_PRESENT,
};
use acos5_64::errors::{SC_ERROR_KEYPAD_MSG_TOO_LONG, SC_SUCCESS};
use acos5_64::pin::{pin_get_policy, pin_get_policy_command, sc_pin_cmd_pin, SC_PIN_ENCODING_ASCII};

fn pin() -> sc_pin_cmd_pin {
    sc_pin_cmd_pin { min_length: 0, max_length: 0, stored_length: 0, encoding: 9, pad_char: 0, offset: 0,
                     length_offset: 3, max_tries: 0, tries_left: -1 }
}

#[test]
fn pin_policy_from_tries_left_answer() {
    assert_eq!(pin_get_policy_command(0x81), [0x00, 0x20, 0x00, 0x81]);
    let mut p = pin();
    assert_eq!(pin_get_policy(&mut p, SC_SUCCESS, 0x63, 0xC5), SC_SUCCESS);
    assert_eq!(p.tries_left, 5);
    assert_eq!((p.min_length, p.max_length, p.stored_length, p.encoding, p.pad_char, p.offset, p.length_offset, p.max_tries),
               (4, 8, 8, SC_PIN_ENCODING_ASCII, 0xFF, 5, 0, 8));
}

#[test]
fn pin_policy_failed_query() {
    let mut p = pin();
    assert_eq!(pin_get_policy(&mut p, SC_SUCCESS, 0x90, 0x00), SC_ERROR_KEYPAD_MSG_TOO_LONG);
    assert_eq!(p.tries_left, -1);
    assert_eq!(p.max_length, 8);
    assert_eq!(pin_get_policy(&mut p, SC_SUCCESS, 0x63, 0x05), SC_ERROR_KEYPAD_MSG_TOO_LONG);
    assert_eq!(pin_get_policy(&mut p, -1107, 0x63, 0xC3), SC_ERROR_KEYPAD_MSG_TOO_LONG);
}

#[test]
fn generate_key_pair_commands() {
    assert_eq!(generate_asym_command(0x20, 0x02, true), vec![0x00, 0x46, 0x00, 0x00, 0x02, 0x20, 0x02]);
    let c = generate_asym_command(0x20, 0x02, false);
    assert_eq!(c.len(), 23);
    assert_eq!(&c[..7], &[0x00, 0x46, 0x00, 0x00, 18, 0x20, 0x02]);
    assert!(c[7..].iter().all(|b| *b == 0));
}

#[test]
fn key_file_references() {
    assert_eq!(file_id_bytes(0x4133), [0x41, 0x33]);
    assert_eq!(file_id_bytes(0x00FF), [0x00, 0xFF]);
    let env = rsa_file_ref_env(5, true, 0x41F3);
    assert_eq!(env.flags, SC_SEC_ENV_ALG_PRESENT | SC_SEC_ENV_FILE_REF_PRESENT);
    assert_eq!((env.operation, env.algorithm, env.file_ref.len), (5, SC_ALGORITHM_RSA, 2));
    assert_eq!(&env.file_ref.value[..2], &[0x41, 0xF3]);
    assert_eq!(rsa_file_ref_env(6, false, 0x4133).flags, SC_SEC_ENV_FILE_REF_PRESENT);
}

#[test]
fn encipher_transfer() {
    assert_eq!(encrypt_asym_transfer(512, 255), (256, true));
    assert_eq!(encrypt_asym_transfer(128, 255), (128, false));
}

#[test]
fn encipher_command() {
    let data = vec![0x5Au8; 512];
    let a = encrypt_asym_apdu(&data, 255);
    assert_eq!(a.header, [0x00, 0x2A, 0x84, 0x80]);
    assert_eq!(a.data, data);
    assert_eq!((a.le, a.chaining), (256, true));
    let a = encrypt_asym_apdu(&[1, 2, 3], 255);
    assert_eq!((a.data.len(), a.le, a.chaining), (3, 3, false));
}
