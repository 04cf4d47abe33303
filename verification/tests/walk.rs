use std::collections::HashMap;
use acos5_64::driver::{
    sc_security_env, DataPrivate, FileEntry, FDB_DF, FDB_MF, FDB_RSA_KEY_EF, FDB_SE_FILE,
    PKCS15_FILE_TYPE_RSAPRIVATEKEY, PKCS15_FILE_TYPE_RSAPUBLICKEY,
};
use acos5_64::select::{sc_aid, sc_path, SC_PATH_TYPE_PATH};
use acos5_64::walk::{enum_dir_begin, enum_dir_step, update_hashmap_begin, EnumDirCommand, EnumDirEvent, EnumDirWalk};

fn path(bytes: &[u8]) -> sc_path {
    let mut value = [0u8; 16];
    value[..bytes.len()].copy_from_slice(bytes);
    sc_path { value, len: bytes.len(), type_: SC_PATH_TYPE_PATH, aid: sc_aid { value: [0u8; 16], len: 0 } }
}

fn entry(info: [u8; 8]) -> FileEntry {
    FileEntry { path: [0u8; 16], info, scb8: None }
}

/// MF 3F00 holding DF 4100, which holds an RSA key file 4101, another RSA key file
/// 4102 and a security environment file 4133 of 2 records of at most 0x21 bytes.
fn card_files() -> DataPrivate {
    let mut files = HashMap::new();
    files.insert(0x3F00u16, entry([FDB_MF, 0, 0x3F, 0x00, 0, 0, 0, 5]));
    files.insert(0x4100u16, entry([FDB_DF, 0, 0x41, 0x00, 0, 0, 0, 5]));
    files.insert(0x4101u16, entry([FDB_RSA_KEY_EF, 0, 0x41, 0x01, 0, 0, 0, 5]));
    files.insert(0x4102u16, entry([FDB_RSA_KEY_EF, 0, 0x41, 0x02, 0, 0, 0, 5]));
    files.insert(0x4133u16, entry([FDB_SE_FILE, 0, 0x41, 0x33, 0x21, 2, 0, 5]));
    let env = sc_security_env {
        flags: 0, operation: 0, algorithm: 0, algorithm_flags: 0, algorithm_ref: 0,
        file_ref: path(&[]), key_ref: [0u8; 8], key_ref_len: 0,
    };
    DataPrivate { files, sec_env: env, is_running_cmd_long_response: false, se_records: HashMap::new() }
}

fn selected(scb0: u8) -> EnumDirEvent {
    EnumDirEvent::Selected { rv: 0, scb8: [scb0, 1, 1, 0, 0, 1, 1, 0xFF] }
}

fn listed(ids: &[u8]) -> EnumDirEvent {
    EnumDirEvent::Listed { rv: ids.len() as i32, files_contained: ids.to_vec() }
}

fn expect_select(cmd: &EnumDirCommand, bytes: &[u8]) {
    match cmd {
        EnumDirCommand::Select(p) => {
            assert_eq!(p.len, bytes.len());
            assert_eq!(&p.value[..p.len], bytes);
        }
        _ => panic!("a selection was expected"),
    }
}

fn step(dp: &mut DataPrivate, w: EnumDirWalk, ev: EnumDirEvent) -> (EnumDirWalk, EnumDirCommand) {
    enum_dir_step(dp, w, &ev)
}

#[test]
fn update_hashmap_walks_every_file() {
    let mut dp = card_files();
    let (w, cmd) = update_hashmap_begin(&mut dp);
    expect_select(&cmd, &[0x3F, 0x00]);
    let (w, cmd) = step(&mut dp, w, selected(1));
    assert!(matches!(cmd, EnumDirCommand::ListFiles));
    let (w, cmd) = step(&mut dp, w, listed(&[0x41, 0x00]));
    expect_select(&cmd, &[0x3F, 0x00, 0x41, 0x00]);
    let (w, cmd) = step(&mut dp, w, selected(1));
    assert!(matches!(cmd, EnumDirCommand::ListFiles));
    let (w, cmd) = step(&mut dp, w, listed(&[0x41, 0x01, 0x41, 0x33, 0x41, 0x02]));
    expect_select(&cmd, &[0x3F, 0x00, 0x41, 0x00, 0x41, 0x01]);
    let (w, cmd) = step(&mut dp, w, selected(0));
    // the security environment file is registered and passed over
    expect_select(&cmd, &[0x3F, 0x00, 0x41, 0x00, 0x41, 0x02]);
    let (_w, cmd) = step(&mut dp, w, selected(3));
    assert!(matches!(cmd, EnumDirCommand::Done(0)));

    let key_pub = dp.files[&0x4101];
    assert_eq!(key_pub.scb8, Some([0, 1, 1, 0, 0, 1, 1, 0xFF]));
    assert_eq!(key_pub.info[6], PKCS15_FILE_TYPE_RSAPUBLICKEY);
    assert_eq!(key_pub.info[1], 6);
    assert_eq!(&key_pub.path[..6], &[0x3F, 0x00, 0x41, 0x00, 0x41, 0x01]);
    let key_priv = dp.files[&0x4102];
    assert_eq!(key_priv.info[6], PKCS15_FILE_TYPE_RSAPRIVATEKEY);
    assert_eq!(key_priv.scb8, Some([3, 1, 1, 0, 0, 1, 1, 0xFF]));
    assert_eq!(dp.files[&0x4100].scb8, Some([1, 1, 1, 0, 0, 1, 1, 0xFF]));
    assert_eq!(dp.files[&0x4100].info[1], 4);
    let se = dp.files[&0x4133];
    assert_eq!((se.info[1], se.scb8), (6, None));
    assert_eq!(&se.path[..6], &[0x3F, 0x00, 0x41, 0x00, 0x41, 0x33]);
    assert!(dp.se_records.is_empty());
}

#[test]
fn security_environment_records_are_kept_for_their_directory() {
    let mut dp = card_files();
    let (w, cmd) = enum_dir_begin(&mut dp, &path(&[0x3F, 0x00]), true);
    expect_select(&cmd, &[0x3F, 0x00]);
    let (w, cmd) = step(&mut dp, w, selected(1));
    assert!(matches!(cmd, EnumDirCommand::ListFiles));
    let (w, cmd) = step(&mut dp, w, listed(&[0x41, 0x00]));
    expect_select(&cmd, &[0x3F, 0x00, 0x41, 0x00]);
    let (w, cmd) = step(&mut dp, w, selected(1));
    assert!(matches!(cmd, EnumDirCommand::ListFiles));
    // the RSA key files are passed over: only security environment files are read
    let (w, cmd) = step(&mut dp, w, listed(&[0x41, 0x01, 0x41, 0x33]));
    expect_select(&cmd, &[0x3F, 0x00, 0x41, 0x00, 0x41, 0x33]);
    let (w, cmd) = step(&mut dp, w, selected(1));
    assert!(matches!(cmd, EnumDirCommand::ReadRecord { rec_nr: 1, mrl: 0x21 }));
    let (w, cmd) = step(&mut dp, w, EnumDirEvent::SeRecord { rv: 5, rec: vec![0x80, 1, 1, 0xAA, 0xBB, 0, 0] });
    assert!(matches!(cmd, EnumDirCommand::ReadRecord { rec_nr: 2, mrl: 0x21 }));
    let (_w, cmd) = step(&mut dp, w, EnumDirEvent::SeRecord { rv: 3, rec: vec![0, 0, 0] });
    assert!(matches!(cmd, EnumDirCommand::Done(0)));
    assert_eq!(dp.se_records[&0x4100], vec![vec![0x80u8, 1, 1, 0xAA, 0xBB]]);
    assert_eq!(dp.files[&0x4101].scb8, None);
    assert_eq!(dp.files[&0x4101].info[6], 0);
}

#[test]
fn security_environment_records_stop_at_the_last_record() {
    let mut dp = card_files();
    let (w, cmd) = enum_dir_begin(&mut dp, &path(&[0x3F, 0x00, 0x41, 0x00, 0x41, 0x33]), true);
    expect_select(&cmd, &[0x3F, 0x00, 0x41, 0x00, 0x41, 0x33]);
    let (w, _) = step(&mut dp, w, selected(1));
    let (w, _) = step(&mut dp, w, EnumDirEvent::SeRecord { rv: 4, rec: vec![0x80, 1, 1, 0xAA] });
    let (_w, cmd) = step(&mut dp, w, EnumDirEvent::SeRecord { rv: 4, rec: vec![0x80, 1, 2, 0xBB] });
    assert!(matches!(cmd, EnumDirCommand::Done(0)));
    assert_eq!(dp.se_records[&0x4100], vec![vec![0x80u8, 1, 1, 0xAA], vec![0x80u8, 1, 2, 0xBB]]);
}

#[test]
fn directory_at_the_path_length_limit_is_not_listed() {
    let mut dp = card_files();
    let deep = [0x3F, 0x00, 1, 1, 2, 2, 3, 3, 4, 4, 5, 5, 6, 6, 0x41, 0x00];
    let (w, cmd) = enum_dir_begin(&mut dp, &path(&deep), false);
    expect_select(&cmd, &deep);
    let (_w, cmd) = step(&mut dp, w, selected(1));
    assert!(matches!(cmd, EnumDirCommand::Done(0)));
    assert_eq!(dp.files[&0x4100].info[1], 16);
    assert!(dp.files[&0x4100].scb8.is_some());
}

#[test]
fn walk_of_a_file_that_calls_for_nothing_is_done_at_once() {
    let mut dp = card_files();
    let (_w, cmd) = enum_dir_begin(&mut dp, &path(&[0x3F, 0x00, 0x41, 0x00, 0x41, 0x33]), false);
    assert!(matches!(cmd, EnumDirCommand::Done(0)));
    assert_eq!(dp.files[&0x4133].info[1], 6);
}
