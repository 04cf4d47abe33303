use acos5_64::misc::{is_any_of_di_by_len, logical_xor};
use acos5_64::sym::{algo_ref_cos5_sym_SEDO, multipleGreaterEqual, SC_ALGORITHM_3DES, SC_ALGORITHM_AES, SC_ALGORITHM_DES};

#[allow(non_snake_case)]
#[test]
fn test_multipleGreaterEqual() {
    assert_eq!(multipleGreaterEqual(8, 0),  0);
    assert_eq!(multipleGreaterEqual(8, 7),  8);
    assert_eq!(multipleGreaterEqual(8, 8),  8);
    assert_eq!(multipleGreaterEqual(8, 9), 16);
}

#[test]
fn logical_xor_table() {
    assert!(!logical_xor(false, false));
    assert!(logical_xor(true, false));
    assert!(logical_xor(false, true));
    assert!(!logical_xor(true, true));
}

#[test]
fn digest_info_lengths() {
    for len in [34usize, 35, 47, 51, 67, 83] {
        assert!(is_any_of_di_by_len(len));
    }
    for len in [0usize, 20, 32, 33, 36, 48, 64, 84, 256] {
        assert!(!is_any_of_di_by_len(len));
    }
}

#[test]
fn algorithm_references() {
    assert_eq!(algo_ref_cos5_sym_SEDO(SC_ALGORITHM_AES, true), 6);
    assert_eq!(algo_ref_cos5_sym_SEDO(SC_ALGORITHM_AES, false), 4);
    assert_eq!(algo_ref_cos5_sym_SEDO(SC_ALGORITHM_3DES, true), 2);
    assert_eq!(algo_ref_cos5_sym_SEDO(SC_ALGORITHM_3DES, false), 0);
    assert_eq!(algo_ref_cos5_sym_SEDO(SC_ALGORITHM_DES, true), 3);
    assert_eq!(algo_ref_cos5_sym_SEDO(SC_ALGORITHM_DES, false), 1);
    assert_eq!(algo_ref_cos5_sym_SEDO(0, false), 0xFFFF_FFFF);
}
