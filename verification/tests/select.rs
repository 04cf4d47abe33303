use acos5_64::errors::{
    SC_ERROR_FILE_NOT_FOUND, SC_ERROR_INVALID_ARGUMENTS, SC_ERROR_UNKNOWN_DATA_RECEIVED, SC_SUCCESS,
};
use acos5_64::select::{select_path_outcome, select_path_continues,iso7816_select_file_replacement, select_begin, SelectAction, SelectAnswer, SelectState,
    sc_aid, sc_path, select_aid_apdu, select_fci_outcome, select_file_apdu, select_needs_retry,
    select_file_by_path, select_result_without_fci, track_select_changes_current, SelectFciOutcome,
    SC_APDU_CASE_1, SC_APDU_CASE_2_SHORT, SC_APDU_CASE_3_SHORT, SC_APDU_CASE_4_SHORT,
    SC_PATH_TYPE_DF_NAME, SC_PATH_TYPE_FILE_ID, SC_PATH_TYPE_FROM_CURRENT, SC_PATH_TYPE_PARENT,
    SC_PATH_TYPE_PATH,
};

fn path(bytes: &[u8], type_: i32, aid: &[u8]) -> sc_path {
    let mut value = [0u8; 16];
    value[..bytes.len()].copy_from_slice(bytes);
    let mut aid_value = [0u8; 16];
    aid_value[..aid.len()].copy_from_slice(aid);
    sc_path { value, len: bytes.len(), type_, aid: sc_aid { value: aid_value, len: aid.len() } }
}

#[test]
fn select_by_file_id() {
    let p = path(&[0x41, 0x00], SC_PATH_TYPE_FILE_ID, &[]);
    assert!(select_aid_apdu(&p).is_none());
    let a = select_file_apdu(&p, true, 1000).unwrap().apdu;
    assert_eq!((a.cse, a.p1, a.p2, a.le), (SC_APDU_CASE_4_SHORT, 0, 0, 256));
    assert_eq!(a.data, vec![0x41, 0x00]);
    let a = select_file_apdu(&p, false, 1000).unwrap().apdu;
    assert_eq!((a.cse, a.le), (SC_APDU_CASE_3_SHORT, 0));
    let a = select_file_apdu(&p, true, 128).unwrap().apdu;
    assert_eq!(a.le, 128);
    let bad = path(&[0x41, 0x00, 0x41], SC_PATH_TYPE_FILE_ID, &[]);
    assert_eq!(select_file_apdu(&bad, true, 256).err(), Some(SC_ERROR_INVALID_ARGUMENTS));
}

#[test]
fn select_absolute_paths() {
    let mf = path(&[0x3F, 0x00], SC_PATH_TYPE_PATH, &[]);
    let c = select_file_apdu(&mf, true, 256).unwrap();
    assert!(c.select_mf);
    assert_eq!(c.pathtype, SC_PATH_TYPE_PATH);
    let a = c.apdu;
    assert_eq!((a.p1, a.data.clone()), (0, vec![0x3F, 0x00]));
    let deep = path(&[0x3F, 0x00, 0x41, 0x00, 0x41, 0x33], SC_PATH_TYPE_PATH, &[]);
    let a = select_file_apdu(&deep, true, 256).unwrap().apdu;
    assert_eq!((a.p1, a.data.clone()), (8, vec![0x41, 0x00, 0x41, 0x33]));
    let other = path(&[0x41, 0x00, 0x41, 0x33], SC_PATH_TYPE_PATH, &[]);
    let a = select_file_apdu(&other, false, 256).unwrap().apdu;
    assert_eq!((a.p1, a.cse, a.data.clone()), (8, SC_APDU_CASE_3_SHORT, vec![0x41, 0x00, 0x41, 0x33]));
}

#[test]
fn select_parent_and_relative() {
    let parent = path(&[], SC_PATH_TYPE_PARENT, &[]);
    let a = select_file_apdu(&parent, true, 256).unwrap().apdu;
    assert_eq!((a.p1, a.cse, a.data.len()), (3, SC_APDU_CASE_2_SHORT, 0));
    let a = select_file_apdu(&parent, false, 256).unwrap().apdu;
    assert_eq!(a.cse, SC_APDU_CASE_1);
    let rel = path(&[0x41, 0x33], SC_PATH_TYPE_FROM_CURRENT, &[]);
    assert_eq!(select_file_apdu(&rel, true, 256).unwrap().apdu.p1, 9);
    let unknown = path(&[0x41, 0x33], 3, &[]);
    assert_eq!(select_file_apdu(&unknown, true, 256).err(), Some(SC_ERROR_INVALID_ARGUMENTS));
}

#[test]
fn select_with_application() {
    let aid = [0xA0, 0x00, 0x00, 0x00, 0x63];
    let only_aid = path(&[], SC_PATH_TYPE_PATH, &aid);
    assert!(select_aid_apdu(&only_aid).is_none());
    let c = select_file_apdu(&only_aid, true, 256).unwrap();
    assert_eq!((c.pathtype, c.select_mf), (SC_PATH_TYPE_DF_NAME, false));
    assert_eq!((c.apdu.p1, c.apdu.data.clone()), (4, aid.to_vec()));

    let within = path(&[0x41, 0x00, 0x41, 0x33], SC_PATH_TYPE_PATH, &aid);
    let first = select_aid_apdu(&within).unwrap();
    assert_eq!((first.cse, first.p1, first.p2, first.data.clone()), (SC_APDU_CASE_3_SHORT, 4, 0, aid.to_vec()));
    let c = select_file_apdu(&within, true, 256).unwrap();
    assert_eq!(c.pathtype, SC_PATH_TYPE_FROM_CURRENT);
    assert_eq!((c.apdu.p1, c.apdu.data.clone()), (9, vec![0x41, 0x00, 0x41, 0x33]));
}

#[test]
fn select_answers() {
    assert!(select_needs_retry(0x6A, 0x86));
    assert!(!select_needs_retry(0x6A, 0x82));
    assert_eq!(select_result_without_fci(-1200, 0x61), SC_SUCCESS);
    assert_eq!(select_result_without_fci(SC_ERROR_FILE_NOT_FOUND, 0x6A), SC_ERROR_FILE_NOT_FOUND);

    assert_eq!(select_fci_outcome(SC_ERROR_FILE_NOT_FOUND, &[], false, SC_PATH_TYPE_FILE_ID),
               SelectFciOutcome::Failed(SC_ERROR_FILE_NOT_FOUND));
    assert_eq!(select_fci_outcome(SC_SUCCESS, &[], true, SC_PATH_TYPE_PATH), SelectFciOutcome::FileFromPath);
    assert_eq!(select_fci_outcome(SC_SUCCESS, &[], false, SC_PATH_TYPE_DF_NAME), SelectFciOutcome::FileFromPath);
    assert_eq!(select_fci_outcome(SC_SUCCESS, &[0x62], false, SC_PATH_TYPE_FILE_ID),
               SelectFciOutcome::Failed(SC_ERROR_UNKNOWN_DATA_RECEIVED));
    assert_eq!(select_fci_outcome(SC_SUCCESS, &[0x62, 0x10], false, SC_PATH_TYPE_FILE_ID), SelectFciOutcome::ProcessFci);
    assert_eq!(select_fci_outcome(SC_SUCCESS, &[0x6F, 0x10], false, SC_PATH_TYPE_FILE_ID), SelectFciOutcome::ProcessFci);
    assert_eq!(select_fci_outcome(SC_SUCCESS, &[0x61, 0x10], false, SC_PATH_TYPE_FILE_ID),
               SelectFciOutcome::Failed(SC_ERROR_UNKNOWN_DATA_RECEIVED));
}

#[test]
fn tracking_the_current_file() {
    assert!(track_select_changes_current(SC_SUCCESS, &[0x41, 0x00]));
    assert!(track_select_changes_current(-1200, &[0x41, 0x00]));
    assert!(!track_select_changes_current(SC_ERROR_FILE_NOT_FOUND, &[0x41, 0x00]));
    assert!(!track_select_changes_current(SC_SUCCESS, &[0x3F, 0xFF]));
}

#[test]
fn path_split_into_file_ids() {
    let p = path(&[0x3F, 0x00, 0x41, 0x00, 0x41, 0x33], SC_PATH_TYPE_PATH, &[]);
    let chunks = select_file_by_path(&p).unwrap();
    assert_eq!(chunks.len(), 3);
    assert_eq!(&chunks[2].value[..2], &[0x41, 0x33]);
    assert_eq!((chunks[2].len, chunks[2].type_), (2, SC_PATH_TYPE_FILE_ID));
    let odd = path(&[0x3F, 0x00, 0x41], SC_PATH_TYPE_PATH, &[]);
    assert_eq!(select_file_by_path(&odd).err(), Some(SC_ERROR_INVALID_ARGUMENTS));
}

fn answer(transmit_rv: i32, check_rv: i32, sw1: u32, sw2: u32, resp: &[u8]) -> SelectAnswer {
    SelectAnswer { transmit_rv, check_rv, sw1, sw2, resp: resp.to_vec() }
}

#[test]
fn select_procedure_with_application() {
    let aid = [0xA0, 0x00, 0x00, 0x00, 0x63];
    let p = path(&[0x41, 0x00, 0x41, 0x33], SC_PATH_TYPE_PATH, &aid);
    let (st, act) = select_begin(&p, true, 256);
    assert_eq!(st, SelectState::AidSent);
    match act { SelectAction::Send(a) => assert_eq!(a.data, aid.to_vec()), other => panic!("{:?}", other) }
    let (st, act) = iso7816_select_file_replacement(&p, true, 256, st, &answer(SC_SUCCESS, SC_SUCCESS, 0x90, 0x00, &[]));
    assert_eq!(st, SelectState::MainSent);
    match act { SelectAction::Send(a) => assert_eq!((a.p1, a.data), (9, vec![0x41, 0x00, 0x41, 0x33])), other => panic!("{:?}", other) }
    let (st, act) = iso7816_select_file_replacement(&p, true, 256, st, &answer(SC_SUCCESS, SC_SUCCESS, 0x90, 0x00, &[0x62, 0x03, 0x82, 0x01, 0x01]));
    assert_eq!(st, SelectState::Done);
    assert!(matches!(act, SelectAction::ProcessFci));
    // a failing application selection ends the procedure
    let (_, act) = iso7816_select_file_replacement(&p, true, 256, SelectState::AidSent, &answer(SC_SUCCESS, SC_ERROR_FILE_NOT_FOUND, 0x6A, 0x82, &[]));
    assert!(matches!(act, SelectAction::Finish(SC_ERROR_FILE_NOT_FOUND)));
    let (_, act) = iso7816_select_file_replacement(&p, true, 256, SelectState::AidSent, &answer(-1107, SC_SUCCESS, 0, 0, &[]));
    assert!(matches!(act, SelectAction::Finish(-1107)));
}

#[test]
fn select_procedure_without_file_information() {
    let p = path(&[0x41, 0x00], SC_PATH_TYPE_FILE_ID, &[]);
    let (st, act) = select_begin(&p, false, 256);
    assert_eq!(st, SelectState::MainSent);
    match act { SelectAction::Send(a) => assert_eq!((a.cse, a.le), (SC_APDU_CASE_3_SHORT, 0)), other => panic!("{:?}", other) }
    // 6A86: sent once more
    let (st, act) = iso7816_select_file_replacement(&p, false, 256, st, &answer(SC_SUCCESS, -1205, 0x6A, 0x86, &[]));
    assert_eq!(st, SelectState::Retried { first_rv: -1205 });
    assert!(matches!(act, SelectAction::Send(_)));
    let (st, act) = iso7816_select_file_replacement(&p, false, 256, st, &answer(SC_SUCCESS, SC_SUCCESS, 0x61, 0x20, &[]));
    assert_eq!(st, SelectState::Done);
    assert!(matches!(act, SelectAction::Finish(SC_SUCCESS)));
    // the repetition's transmission failed: the first status stands
    let (_, act) = iso7816_select_file_replacement(&p, false, 256, SelectState::Retried { first_rv: -1205 }, &answer(-1107, 0, 0x6A, 0x86, &[]));
    assert!(matches!(act, SelectAction::Finish(-1205)));
    let (_, act) = iso7816_select_file_replacement(&p, false, 256, SelectState::MainSent, &answer(SC_SUCCESS, SC_ERROR_FILE_NOT_FOUND, 0x6A, 0x82, &[]));
    assert!(matches!(act, SelectAction::Finish(SC_ERROR_FILE_NOT_FOUND)));
}

#[test]
fn select_procedure_mf_and_invalid() {
    let mf = path(&[0x3F, 0x00], SC_PATH_TYPE_PATH, &[]);
    let (st, _) = select_begin(&mf, true, 256);
    let (_, act) = iso7816_select_file_replacement(&mf, true, 256, st, &answer(SC_SUCCESS, SC_SUCCESS, 0x90, 0x00, &[]));
    assert!(matches!(act, SelectAction::FileFromPath));
    let bad = path(&[0x41], SC_PATH_TYPE_FILE_ID, &[]);
    let (st, act) = select_begin(&bad, true, 256);
    assert_eq!(st, SelectState::Done);
    assert!(matches!(act, SelectAction::Finish(SC_ERROR_INVALID_ARGUMENTS)));
}

#[test]
fn select_by_path_outcome() {
    let p = path(&[0x3F, 0x00, 0x41, 0x00, 0x41, 0x33], SC_PATH_TYPE_PATH, &[]);
    assert_eq!(select_path_outcome(SC_SUCCESS, &p, &[SC_SUCCESS, SC_SUCCESS, SC_SUCCESS]), SC_SUCCESS);
    assert_eq!(select_path_outcome(SC_SUCCESS, &p, &[SC_SUCCESS, SC_ERROR_FILE_NOT_FOUND]), SC_ERROR_FILE_NOT_FOUND);
    assert_eq!(select_path_outcome(-1200, &p, &[]), -1200);
    let odd = path(&[0x3F, 0x00, 0x41], SC_PATH_TYPE_PATH, &[]);
    assert_eq!(select_path_outcome(SC_SUCCESS, &odd, &[]), SC_ERROR_INVALID_ARGUMENTS);
    assert!(select_path_continues(SC_SUCCESS, 1, 3));
    assert!(!select_path_continues(SC_SUCCESS, 3, 3));
    assert!(!select_path_continues(SC_ERROR_FILE_NOT_FOUND, 1, 3));
}
