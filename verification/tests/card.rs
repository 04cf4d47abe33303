use acos5_64::card::{
    me_card_add_symmetric_alg, me_card_find_alg, me_get_max_recv_size, sc_algorithm_info, sc_card,
    sc_compare_oid, sc_object_id, sc_reader, SC_ALGORITHM_EC,
};
use acos5_64::errors::SC_SUCCESS;
use acos5_64::sym::{SC_ALGORITHM_3DES, SC_ALGORITHM_AES};

fn card(reader: Option<usize>, max_recv_size: usize, caps: u64) -> sc_card {
    sc_card {
        reader: reader.map(|m| sc_reader { max_recv_size: m }),
        max_recv_size,
        caps,
        algorithms: Vec::new(),
    }
}

#[test]
fn max_recv_size_limits() {
    assert_eq!(me_get_max_recv_size(&card(None, 100, 0)), 0);
    assert_eq!(me_get_max_recv_size(&card(Some(0), 0, 0)), 256);
    assert_eq!(me_get_max_recv_size(&card(Some(0), 0, 1)), 0x1_0000);
    assert_eq!(me_get_max_recv_size(&card(Some(0), 300, 0)), 300);
    assert_eq!(me_get_max_recv_size(&card(Some(200), 300, 0)), 200);
    assert_eq!(me_get_max_recv_size(&card(Some(400), 300, 0)), 300);
    // the reader's limit is compared with the card's own limit, which is 0 here
    assert_eq!(me_get_max_recv_size(&card(Some(100), 0, 0)), 256);
}

fn oid(prefix: &[i32]) -> sc_object_id {
    let mut value = [-1i32; 16];
    value[..prefix.len()].copy_from_slice(prefix);
    sc_object_id { value }
}

#[test]
fn compare_oid_up_to_end_marker() {
    let a = oid(&[1, 2, 840, 10045, 3, 1, 7]);
    let mut b = oid(&[1, 2, 840, 10045, 3, 1, 7]);
    assert_eq!(sc_compare_oid(&a, &a), 1);
    assert_eq!(sc_compare_oid(&a, &b), 1);
    b.value[10] = 5; // behind the end marker
    assert_eq!(sc_compare_oid(&a, &b), 1);
    let c = oid(&[1, 3, 132, 0, 34]);
    assert_eq!(sc_compare_oid(&a, &c), 0);
}

#[test]
fn add_then_find_symmetric_algorithms() {
    let mut c = card(Some(0), 0, 0);
    assert_eq!(me_card_add_symmetric_alg(&mut c, SC_ALGORITHM_AES, 128, 0x10), SC_SUCCESS);
    assert_eq!(me_card_add_symmetric_alg(&mut c, SC_ALGORITHM_AES, 256, 0x10), SC_SUCCESS);
    assert_eq!(me_card_add_symmetric_alg(&mut c, SC_ALGORITHM_3DES, 192, 0), SC_SUCCESS);
    assert_eq!(c.algorithms.len(), 3);
    assert_eq!(c.algorithms[1].key_length, 256);
    assert_eq!(c.algorithms[1].flags, 0x10);
    assert_eq!(me_card_find_alg(&c, SC_ALGORITHM_AES, 256, None), Some(1));
    assert_eq!(me_card_find_alg(&c, SC_ALGORITHM_3DES, 192, None), Some(2));
    assert_eq!(me_card_find_alg(&c, SC_ALGORITHM_3DES, 128, None), None);
}

#[test]
fn find_ec_algorithm_with_domain_parameters() {
    let p256 = oid(&[1, 2, 840, 10045, 3, 1, 7]);
    let p384 = oid(&[1, 3, 132, 0, 34]);
    let mut c = card(Some(0), 0, 0);
    c.algorithms.push(sc_algorithm_info { algorithm: SC_ALGORITHM_EC, key_length: 256, flags: 0, ec_params_id: p256 });
    // without parameters the entry is found
    assert_eq!(me_card_find_alg(&c, SC_ALGORITHM_EC, 256, None), Some(0));
    // with equal parameters too, with differing ones it is passed over
    assert_eq!(me_card_find_alg(&c, SC_ALGORITHM_EC, 256, Some(&p256)), Some(0));
    assert_eq!(me_card_find_alg(&c, SC_ALGORITHM_EC, 256, Some(&p384)), None);
    c.algorithms.push(sc_algorithm_info { algorithm: SC_ALGORITHM_EC, key_length: 256, flags: 0, ec_params_id: p384 });
    assert_eq!(me_card_find_alg(&c, SC_ALGORITHM_EC, 256, Some(&p384)), Some(1));
}
