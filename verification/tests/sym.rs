use acos5_64::blockcipher::{BLOCKCIPHER_PAD_TYPE_ONEANDZEROES_ACOS5, BLOCKCIPHER_PAD_TYPE_PKCS5, BLOCKCIPHER_PAD_TYPE_ZEROES};
use acos5_64::errors::{SC_ERROR_KEYPAD_MSG_TOO_LONG, SC_SUCCESS};
use acos5_64::sym::{sym_security_env, SC_ALGORITHM_AES, SC_ALGORITHM_3DES, sym_after_response, sym_command_header, sym_last_block, sym_next_chunk, sym_output_len, sym_plan};

#[test]
fn plan_lengths() {
    let p = sym_plan(16, BLOCKCIPHER_PAD_TYPE_PKCS5, true, true, 40);
    assert_eq!((p.len0, p.len1, p.len2), (32, 40, 48));
    let p = sym_plan(16, BLOCKCIPHER_PAD_TYPE_PKCS5, true, true, 32);
    assert_eq!((p.len0, p.len1, p.len2), (32, 32, 48));
    let p = sym_plan(16, BLOCKCIPHER_PAD_TYPE_ZEROES, true, false, 32);
    assert_eq!((p.len0, p.len1, p.len2), (32, 32, 32));
    let p = sym_plan(8, BLOCKCIPHER_PAD_TYPE_ONEANDZEROES_ACOS5, true, true, 13);
    assert_eq!((p.len0, p.len1, p.len2), (8, 13, 16));
    let p = sym_plan(8, BLOCKCIPHER_PAD_TYPE_PKCS5, false, true, 24);
    assert_eq!((p.len0, p.len1, p.len2), (24, 24, 24));
}

#[test]
fn command_headers() {
    let p = sym_plan(16, BLOCKCIPHER_PAD_TYPE_PKCS5, true, true, 40);
    assert_eq!(sym_command_header(&p), [0x10, 0x2A, 0x84, 0x80, 0x01, 0xFF, 0xFF]);
    let p = sym_plan(16, BLOCKCIPHER_PAD_TYPE_PKCS5, false, true, 32);
    assert_eq!(sym_command_header(&p), [0x00, 0x2A, 0x80, 0x84, 0x01, 0xFF, 0xFF]);
    let p = sym_plan(16, BLOCKCIPHER_PAD_TYPE_PKCS5, false, false, 1024);
    assert_eq!(sym_command_header(&p)[0], 0x00);
}

#[test]
fn chunks_cover_the_output() {
    // 600 bytes of whole blocks, CBC encryption with PKCS#5: 240 + 240 + 112 + last block of 16
    let p = sym_plan(16, BLOCKCIPHER_PAD_TYPE_PKCS5, true, true, 600);
    assert_eq!((p.len0, p.len2), (592, 608));
    let mut cnt = 0usize;
    let mut sizes = Vec::new();
    while let Some(c) = sym_next_chunk(&p, cnt) {
        assert_eq!(c.offset, cnt);
        sizes.push((c.datalen, c.cla, c.from_last_block, c.reestablish_env));
        cnt = sym_after_response(cnt, c.datalen, SC_SUCCESS, SC_SUCCESS, c.datalen).unwrap();
    }
    assert_eq!(cnt, p.len2);
    assert_eq!(sizes, vec![(240, 0x10, false, false), (240, 0x10, false, false), (112, 0x10, false, false), (16, 0, true, false)]);

    // CBC decryption of whole blocks: the security environment is set anew after the first chunk
    let p = sym_plan(8, BLOCKCIPHER_PAD_TYPE_PKCS5, false, true, 496);
    let first = sym_next_chunk(&p, 0).unwrap();
    assert_eq!((first.datalen, first.cla, first.reestablish_env), (248, 0x10, false));
    let second = sym_next_chunk(&p, 248).unwrap();
    assert_eq!((second.datalen, second.cla, second.reestablish_env), (248, 0x00, true));
    assert!(sym_next_chunk(&p, 496).is_none());
}

#[test]
fn responses() {
    assert_eq!(sym_after_response(16, 240, SC_SUCCESS, SC_SUCCESS, 240), Ok(256));
    assert_eq!(sym_after_response(16, 240, -1107, SC_SUCCESS, 0), Err(-1107));
    assert_eq!(sym_after_response(16, 240, SC_SUCCESS, -1200, 0), Err(-1200));
    assert_eq!(sym_after_response(16, 240, SC_SUCCESS, SC_SUCCESS, 0), Err(SC_ERROR_KEYPAD_MSG_TOO_LONG));
}

#[test]
fn last_block_and_output_length() {
    let p = sym_plan(8, BLOCKCIPHER_PAD_TYPE_PKCS5, true, true, 13);
    let input: Vec<u8> = (1u8..=13).collect();
    assert_eq!(sym_last_block(&p, &input), vec![9, 10, 11, 12, 13, 3, 3, 3]);
    assert_eq!(sym_output_len(&p, 16, &[9, 10, 11, 12, 13, 3, 3, 3]), 16);
    let d = sym_plan(8, BLOCKCIPHER_PAD_TYPE_PKCS5, false, true, 16);
    assert_eq!(sym_output_len(&d, 16, &[9, 10, 11, 12, 13, 3, 3, 3]), 13);
}

#[test]
fn symmetric_security_environment() {
    let env = sym_security_env(3, 16, true, 0x84);
    assert_eq!((env.algorithm, env.algorithm_ref, env.key_ref[0], env.key_ref_len), (SC_ALGORITHM_AES, 6, 0x84, 1));
    assert_eq!(env.flags, 0x1D);
    let env = sym_security_env(4, 8, false, 0x82);
    assert_eq!((env.operation, env.algorithm, env.algorithm_ref), (4, SC_ALGORITHM_3DES, 0));
}
