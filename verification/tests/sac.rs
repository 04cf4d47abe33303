use acos5_64::errors::SC_ERROR_KEYPAD_MSG_TOO_LONG;
use acos5_64::sac::convert_bytes_tag_fcp_sac_to_scb_array;

#[test]
fn test_convert_bytes_tag_fcp_sac_to_scb_array() {
    // the complete TLV : [0x8C, 0x07,  0x7D, 0x02, 0x03, 0x04, 0xFF, 0xFF, 0x02]
    let bytes_tag_fcp_sac = [0x7D, 0x02, 0x03, 0x04, 0xFF, 0xFF, 0x02];
    let mut scb8 = convert_bytes_tag_fcp_sac_to_scb_array(&bytes_tag_fcp_sac).unwrap();
    assert_eq!(scb8, [0x02, 0x00, 0xFF, 0xFF, 0x04, 0x03, 0x02, 0xFF]);

    let bytes_tag_fcp_sac : [u8; 0] = [];
    scb8 = convert_bytes_tag_fcp_sac_to_scb_array(&bytes_tag_fcp_sac).unwrap();
    assert_eq!(scb8, [0x00, 0x00, 0x00, 0x00, 0x00, 0x00, 0x00, 0xFF]);

    let bytes_tag_fcp_sac = [0x00];
    scb8 = convert_bytes_tag_fcp_sac_to_scb_array(&bytes_tag_fcp_sac).unwrap();
    assert_eq!(scb8, [0x00, 0x00, 0x00, 0x00, 0x00, 0x00, 0x00, 0xFF]);

    let bytes_tag_fcp_sac = [0x7F, 0xFF, 0xFF, 0x03, 0x03, 0x01, 0x03, 0x01];
    scb8 = convert_bytes_tag_fcp_sac_to_scb_array(&bytes_tag_fcp_sac).unwrap();
    assert_eq!(scb8, [0x01, 0x03, 0x01, 0x03, 0x03, 0xFF, 0xFF, 0xFF]);

    let bytes_tag_fcp_sac = [0x62, 0x06, 0x05, 0x01];
    scb8 = convert_bytes_tag_fcp_sac_to_scb_array(&bytes_tag_fcp_sac).unwrap();
    assert_eq!(scb8, [0x00, 0x01, 0x00, 0x00, 0x00, 0x05, 0x06, 0xFF]);

    let bytes_tag_fcp_sac = [0x2B, 0x05, 0x03, 0x01, 0x45];
    scb8 = convert_bytes_tag_fcp_sac_to_scb_array(&bytes_tag_fcp_sac).unwrap();
    assert_eq!(scb8, [0x45, 0x01, 0x00, 0x03, 0x00, 0x05, 0x00, 0xFF]);
}

#[test]
fn sac_count_mismatch_is_rejected() {
    assert_eq!(convert_bytes_tag_fcp_sac_to_scb_array(&[0x03, 0x01]), Err(SC_ERROR_KEYPAD_MSG_TOO_LONG));
    assert_eq!(convert_bytes_tag_fcp_sac_to_scb_array(&[0x01, 0x01, 0x02]), Err(SC_ERROR_KEYPAD_MSG_TOO_LONG));
}

#[test]
fn sac_bit7_overrides_unused_entry() {
    assert_eq!(convert_bytes_tag_fcp_sac_to_scb_array(&[0x80, 0x07]), Ok([0, 0, 0, 0, 0, 0, 0, 0x07]));
}
