//! The driver's private data kept with a card: the known files with their paths,
//! file information and security conditions, the security environment last set,
//! and whether a command with a long response is running.
use vstd::prelude::*;
use std::collections::HashMap;
use crate::errors::SC_ERROR_FILE_NOT_FOUND;
use crate::select::{sc_path, track_select_changes_current, select_left_selection, SC_PATH_TYPE_FILE_ID};

verus! {

broadcast use vstd::std_specs::hash::group_hash_axioms;

/// OpenSC algorithm flag: raw RSA, without padding.
pub const SC_ALGORITHM_RSA_RAW: u32 = 0x0000_0001;
/// File descriptor byte of the master file.
pub const FDB_MF: u8 = 0x3F;
/// File descriptor byte of a dedicated file (directory).
pub const FDB_DF: u8 = 0x38;
/// File descriptor byte of an internal EF that holds an RSA key.
pub const FDB_RSA_KEY_EF: u8 = 0x09;
/// File descriptor byte of a security environment file.
pub const FDB_SE_FILE: u8 = 0x1C;

/// What the driver knows of one file: its path, its file information
/// (`FDB, DCB, FILE ID (2 bytes), SIZE or MRL, SIZE or NOR, SFI, LCSI`; byte 1 is
/// used for the path length) and, once read, its 8 security condition bytes.
#[derive(Clone, Copy)]
pub struct FileEntry {
    pub path: [u8; 16],
    pub info: [u8; 8],
    pub scb8: Option<[u8; 8]>,
}

/// A security environment, as far as the driver sets and reads it.
#[derive(Clone, Copy)]
pub struct sc_security_env {
    pub flags: u64,
    pub operation: i32,
    pub algorithm: u32,
    pub algorithm_flags: u32,
    pub algorithm_ref: u32,
    pub file_ref: sc_path,
    pub key_ref: [u8; 8],
    pub key_ref_len: usize,
}

/// The driver's private data of a card.
pub struct DataPrivate {
    /// The known files, by file identifier.
    pub files: HashMap<u16, FileEntry>,
    /// The security environment that was set last.
    pub sec_env: sc_security_env,
    /// A command whose response comes in several parts is running.
    pub is_running_cmd_long_response: bool,
    /// The records read from the security environment file of each DF, by the DF's
    /// file identifier.
    pub se_records: HashMap<u16, Vec<Vec<u8>>>,
}

/// Records whether a command with a long response is running.
pub fn set_is_running_cmd_long_response(dp: &mut DataPrivate, value: bool)
    ensures
        final(dp).is_running_cmd_long_response == value,
        final(dp).files@ == old(dp).files@,
        final(dp).sec_env == old(dp).sec_env,
{
    dp.is_running_cmd_long_response = value;
}

/// Whether a command with a long response is running.
pub fn get_is_running_cmd_long_response(dp: &DataPrivate) -> (r: bool)
    ensures
        r == dp.is_running_cmd_long_response,
{
    dp.is_running_cmd_long_response
}

/// The security environment as it is kept: as given, but with algorithm flags of at
/// least `SC_ALGORITHM_RSA_RAW` (flags of 0 become raw RSA).
pub open spec fn stored_sec_env(value: sc_security_env) -> sc_security_env {
    sc_security_env {
        algorithm_flags: if value.algorithm_flags < SC_ALGORITHM_RSA_RAW { SC_ALGORITHM_RSA_RAW } else { value.algorithm_flags },
        ..value
    }
}

/// Keeps a security environment.
pub fn set_sec_env(dp: &mut DataPrivate, value: &sc_security_env)
    ensures
        final(dp).sec_env == stored_sec_env(*value),
        final(dp).files@ == old(dp).files@,
        final(dp).is_running_cmd_long_response == old(dp).is_running_cmd_long_response,
{
    dp.sec_env = *value;
    // where the secure algorithm flags are 0, raw RSA is meant
    if dp.sec_env.algorithm_flags < SC_ALGORITHM_RSA_RAW {
        dp.sec_env.algorithm_flags = SC_ALGORITHM_RSA_RAW;
    }
}

/// The security environment that was kept last.
pub fn get_sec_env(dp: &DataPrivate) -> (r: sc_security_env)
    ensures
        r == dp.sec_env,
{
    dp.sec_env
}

/// Law: keeping a security environment keeps everything of it but the algorithm
/// flags, which become at least `SC_ALGORITHM_RSA_RAW`; keeping what was kept
/// changes nothing more.
pub proof fn lemma_stored_sec_env(value: sc_security_env)
    ensures
        stored_sec_env(value).algorithm_flags >= SC_ALGORITHM_RSA_RAW,
        value.algorithm_flags >= SC_ALGORITHM_RSA_RAW ==> stored_sec_env(value) == value,
        stored_sec_env(stored_sec_env(value)) == stored_sec_env(value),
        stored_sec_env(value).operation == value.operation,
        stored_sec_env(value).algorithm == value.algorithm,
        stored_sec_env(value).algorithm_ref == value.algorithm_ref,
        stored_sec_env(value).flags == value.flags,
        stored_sec_env(value).file_ref == value.file_ref,
        stored_sec_env(value).key_ref == value.key_ref,
        stored_sec_env(value).key_ref_len == value.key_ref_len,
{
}

/// Setting a security environment on the card (MSE) that failed with `rv < 0` ends
/// the operation that needed it, with that status and before any further command;
/// otherwise the operation goes on.
pub fn after_security_env(rv: i32) -> (r: Option<i32>)
    ensures
        r == (if rv < 0 { Some(rv) } else { None::<i32> }),
{
    if rv < 0 { Some(rv) } else { None }
}

/// The 32 bytes that describe a known file: its file information (8 bytes), its
/// path (16 bytes) and its security condition bytes (8 bytes, zero where not read yet).
pub open spec fn spec_file_info_bytes(e: FileEntry) -> Seq<u8> {
    e.info@ + e.path@ + match e.scb8 {
        Some(s) => s@,
        None => Seq::new(8, |i: int| 0u8),
    }
}

/// Describes the file with identifier `key` in 32 bytes; `SC_ERROR_FILE_NOT_FOUND`
/// where the file is not known.
pub fn get_files_hashmap_info(dp: &DataPrivate, key: u16) -> (r: Result<[u8; 32], i32>)
    ensures
        r is Err <==> !dp.files@.contains_key(key),
        r matches Err(e) ==> e == SC_ERROR_FILE_NOT_FOUND,
        r matches Ok(b) ==> b@ == spec_file_info_bytes(dp.files@[key]),
{
    let mut rbuf: [u8; 32] = [0u8; 32];
    match dp.files.get(&key) {
        None => Err(SC_ERROR_FILE_NOT_FOUND),
        Some(e) => {
            let mut i: usize = 0;
            while i < 8
                invariant
                    i <= 8,
                    forall|k: int| 0 <= k < i ==> rbuf@[k] == e.info@[k],
                    forall|k: int| 8 <= k < 32 ==> rbuf@[k] == 0,
                decreases 8 - i,
            {
                rbuf[i] = e.info[i];
                i += 1;
            }
            let mut i: usize = 0;
            while i < 16
                invariant
                    i <= 16,
                    forall|k: int| 0 <= k < 8 ==> rbuf@[k] == e.info@[k],
                    forall|k: int| 0 <= k < i ==> rbuf@[8 + k] == e.path@[k],
                    forall|k: int| 24 <= k < 32 ==> rbuf@[k] == 0,
                decreases 16 - i,
            {
                rbuf[8 + i] = e.path[i];
                i += 1;
            }
            match e.scb8 {
                Some(s) => {
                    let mut i: usize = 0;
                    while i < 8
                        invariant
                            i <= 8,
                            forall|k: int| 0 <= k < 8 ==> rbuf@[k] == e.info@[k],
                            forall|k: int| 0 <= k < 16 ==> rbuf@[8 + k] == e.path@[k],
                            forall|k: int| 0 <= k < i ==> rbuf@[24 + k] == s@[k],
                            forall|k: int| 24 + i <= k < 32 ==> rbuf@[k] == 0,
                        decreases 8 - i,
                    {
                        rbuf[24 + i] = s[i];
                        i += 1;
                    }
                },
                None => {},
            }
            assert(rbuf@ =~= spec_file_info_bytes(*e));
            Ok(rbuf)
        },
    }
}

/// The file identifier made of two bytes, the first one the more significant.
pub open spec fn file_id_of(b0: u8, b1: u8) -> u16 {
    (b0 as int * 256 + b1 as int) as u16
}

/// The file identifier made of two bytes, the first one the more significant.
pub fn file_id_from_bytes(b0: u8, b1: u8) -> (r: u16)
    ensures
        r == file_id_of(b0, b1),
{
    b0 as u16 * 256 + b1 as u16
}

/// Keeps the card's current path valid across a SELECT by file identifier: the
/// SELECT itself is made by the caller and ended with `rv`. Where it changed the
/// current file (see `track_select_changes_current`), the current path becomes the
/// path known for that file, with the length kept in byte 1 of its file information;
/// else the current path stays.
pub fn track_iso7816_select_file(dp: &DataPrivate, path: &sc_path, rv: i32, current_path: &mut sc_path)
    requires
        path.type_ == SC_PATH_TYPE_FILE_ID,
        path.len == 2,
        !select_left_selection(rv) && !(path.value@[0] == 0x3F && path.value@[1] == 0xFF)
            ==> dp.files@.contains_key(file_id_of(path.value@[0], path.value@[1])),
    ensures
        !select_left_selection(rv) && !(path.value@[0] == 0x3F && path.value@[1] == 0xFF) ==> {
            let e = dp.files@[file_id_of(path.value@[0], path.value@[1])];
            &&& final(current_path).value == e.path
            &&& final(current_path).len == e.info@[1] as usize
            &&& final(current_path).type_ == old(current_path).type_
            &&& final(current_path).aid == old(current_path).aid
        },
        select_left_selection(rv) || (path.value@[0] == 0x3F && path.value@[1] == 0xFF)
            ==> *final(current_path) == *old(current_path),
{
    let fid: [u8; 2] = [path.value[0], path.value[1]];
    if track_select_changes_current(rv, &fid) {
        let file_id = file_id_from_bytes(path.value[0], path.value[1]);
        match dp.files.get(&file_id) {
            Some(e) => {
                current_path.value = e.path;
                current_path.len = e.info[1] as usize;
            },
            None => {},
        }
    }
}

/// What a walk through the file system does with a file, by its file descriptor byte.
#[derive(Debug, Clone, Copy, PartialEq, Eq, Structural)]
pub enum EnumDirAction {
    /// Read the records of a security environment file (mrl and nor known).
    ReadSeRecords,
    /// Select the EF to learn its security conditions; `rsa_key` for an RSA key file.
    SelectFile { rsa_key: bool },
    /// Select the DF and go into the files it contains.
    SelectDirectory,
    /// Nothing.
    Skip,
}

/// The file descriptor byte is that of the MF or a DF.
pub open spec fn spec_is_DFMF(fdb: u8) -> bool {
    fdb == FDB_DF || fdb == FDB_MF
}

/// Decides what to do with a file while enumerating: with `only_se_df`, the
/// records of security environment files are read; else every EF but those is
/// selected; and every directory is entered.
pub open spec fn spec_enum_dir_action(fdb: u8, only_se_df: bool, mrl: u8, nor: u8) -> EnumDirAction {
    if only_se_df && fdb == FDB_SE_FILE && mrl > 0 && nor > 0 {
        EnumDirAction::ReadSeRecords
    } else if !only_se_df && !spec_is_DFMF(fdb) && fdb != FDB_SE_FILE {
        EnumDirAction::SelectFile { rsa_key: fdb == FDB_RSA_KEY_EF }
    } else if spec_is_DFMF(fdb) {
        EnumDirAction::SelectDirectory
    } else {
        EnumDirAction::Skip
    }
}

/// Decides what to do with a file while enumerating the file system.
pub fn enum_dir_action(fdb: u8, only_se_df: bool, mrl: u8, nor: u8) -> (r: EnumDirAction)
    ensures
        r == spec_enum_dir_action(fdb, only_se_df, mrl, nor),
{
    let is_dfmf = fdb == FDB_DF || fdb == FDB_MF;
    if only_se_df && fdb == FDB_SE_FILE && mrl > 0 && nor > 0 {
        EnumDirAction::ReadSeRecords
    } else if !only_se_df && !is_dfmf && fdb != FDB_SE_FILE {
        EnumDirAction::SelectFile { rsa_key: fdb == FDB_RSA_KEY_EF }
    } else if is_dfmf {
        EnumDirAction::SelectDirectory
    } else {
        EnumDirAction::Skip
    }
}

/// Records the full path of a known file found while enumerating, and gives its
/// file descriptor byte, maximum record length and number of records.
pub fn enum_dir_register(dp: &mut DataPrivate, path: &sc_path) -> (r: (u8, u8, u8))
    requires
        2 <= path.len <= 16,
        old(dp).files@.contains_key(file_id_of(path.value@[path.len - 2], path.value@[path.len - 1])),
    ensures
        ({
            let fid = file_id_of(path.value@[path.len - 2], path.value@[path.len - 1]);
            let e = old(dp).files@[fid];
            &&& final(dp).files@ == old(dp).files@.insert(fid, final(dp).files@[fid])
            &&& final(dp).files@[fid].path == path.value
            &&& final(dp).files@[fid].info@ == e.info@.update(1, path.len as u8)
            &&& final(dp).files@[fid].scb8 == e.scb8
            &&& r == (e.info@[0], e.info@[4], e.info@[5])
        }),
        final(dp).sec_env == old(dp).sec_env,
        final(dp).is_running_cmd_long_response == old(dp).is_running_cmd_long_response,
        final(dp).se_records@ == old(dp).se_records@,
{
    let file_id = file_id_from_bytes(path.value[path.len - 2], path.value[path.len - 1]);
    match dp.files.get(&file_id) {
        Some(e0) => {
            let mut e = *e0;
            let fdb = e.info[0];
            e.path = path.value;
            e.info[1] = path.len as u8;
            let mrl = e.info[4];
            let nor = e.info[5];
            dp.files.insert(file_id, e);
            proof {
                assert(e.info@ == old(dp).files@[file_id].info@.update(1, path.len as u8));
            }
            (fdb, mrl, nor)
        },
        None => (0, 0, 0),
    }
}

/// A record read from a security environment file ends the list where it is empty:
/// its first byte or its record number byte (byte 2) is 0.
pub fn se_record_ends(rv: usize, buf: &[u8]) -> (r: bool)
    requires
        buf@.len() >= 3,
    ensures
        r == (rv >= 1 && buf@[0] == 0 || rv >= 3 && buf@[2] == 0),
{
    rv >= 1 && buf[0] == 0 || rv >= 3 && buf[2] == 0
}

/// `ch` are the paths of the files that a directory contains, in the order listed:
/// each one the directory's path followed by a 2-byte file identifier from the
/// first `n` bytes of `files_contained`; none where the directory's path is already
/// as long as a path can be.
pub open spec fn is_children_of(path: sc_path, files_contained: Seq<u8>, n: int, ch: Seq<sc_path>) -> bool {
    &&& path.len == 16 ==> ch.len() == 0
    &&& path.len < 16 ==> ch.len() == n / 2
    &&& forall|i: int| 0 <= i < ch.len() ==> {
        &&& (#[trigger] ch[i]).len == path.len + 2
        &&& ch[i].type_ == path.type_
        &&& ch[i].aid == path.aid
        &&& ch[i].value@ == path.value@
            .update(path.len as int, files_contained[2 * i])
            .update(path.len + 1, files_contained[2 * i + 1])
    }
}

/// The paths of the files that a directory contains (see `is_children_of`).
pub fn enum_dir_children(path: &sc_path, files_contained: &[u8], n: usize) -> (r: Vec<sc_path>)
    requires
        path.len == 16 || path.len + 2 <= 16,
        n % 2 == 0,
        n <= files_contained@.len(),
    ensures
        is_children_of(*path, files_contained@, n as int, r@),
{
    let mut v: Vec<sc_path> = Vec::new();
    if path.len == 16 {
        return v;
    }
    let mut i: usize = 0;
    while i < n / 2
        invariant
            path.len + 2 <= 16,
            n % 2 == 0,
            n <= files_contained@.len(),
            i <= n / 2,
            v@.len() == i,
            forall|k: int| 0 <= k < i ==> {
                &&& (#[trigger] v@[k]).len == path.len + 2
                &&& v@[k].type_ == path.type_
                &&& v@[k].aid == path.aid
                &&& v@[k].value@ == path.value@
                    .update(path.len as int, files_contained@[2 * k])
                    .update(path.len + 1, files_contained@[2 * k + 1])
            },
        decreases n / 2 - i,
    {
        let mut tmp_path = *path;
        tmp_path.value[tmp_path.len] = files_contained[2 * i];
        tmp_path.value[tmp_path.len + 1] = files_contained[2 * i + 1];
        tmp_path.len = tmp_path.len + 2;
        v.push(tmp_path);
        i += 1;
    }
    v
}

/// Law: what `enum_dir_register` records of a path is what
/// `get_files_hashmap_info` reports for the file: its 16 path bytes in bytes 8 to 23
/// and the path length in byte 1; the file information and security conditions
/// stand in bytes 0 to 7 and 24 to 31.
pub proof fn lemma_registered_path_is_reported(f: FileEntry, path: sc_path)
    requires
        f.path == path.value,
        f.info@[1] == path.len as u8,
    ensures
        spec_file_info_bytes(f).len() == 32,
        spec_file_info_bytes(f).subrange(8, 24) == path.value@,
        spec_file_info_bytes(f)[1] == path.len as u8,
        spec_file_info_bytes(f).subrange(0, 8) == f.info@,
{
    let b = spec_file_info_bytes(f);
    assert(b.subrange(8, 24) =~= path.value@);
    assert(b.subrange(0, 8) =~= f.info@);
}

/// File type code (byte 6 of the file information) of a file holding an RSA private key.
pub const PKCS15_FILE_TYPE_RSAPRIVATEKEY: u8 = 13;
/// File type code (byte 6 of the file information) of a file holding an RSA public key.
pub const PKCS15_FILE_TYPE_RSAPUBLICKEY: u8 = 14;

/// The file type code of an RSA key file of the given type.
pub open spec fn spec_rsa_key_type_code(t: RsaKeyFileType) -> u8 {
    match t {
        RsaKeyFileType::Public => PKCS15_FILE_TYPE_RSAPUBLICKEY,
        RsaKeyFileType::Private => PKCS15_FILE_TYPE_RSAPRIVATEKEY,
    }
}

/// The file type code of an RSA key file of the given type.
pub fn rsa_key_type_code(t: RsaKeyFileType) -> (r: u8)
    ensures
        r == spec_rsa_key_type_code(t),
{
    match t {
        RsaKeyFileType::Public => PKCS15_FILE_TYPE_RSAPUBLICKEY,
        RsaKeyFileType::Private => PKCS15_FILE_TYPE_RSAPRIVATEKEY,
    }
}

/// Whether an RSA key file holds a public or a private key.
#[derive(Debug, Clone, Copy, PartialEq, Eq, Structural)]
pub enum RsaKeyFileType {
    Public,
    Private,
}

/// An RSA key file that anybody may read (first security condition byte 0, READ
/// always allowed) is taken to hold a public key, any other a private key.
pub fn rsa_key_file_type(scb8: &[u8; 8]) -> (r: RsaKeyFileType)
    ensures
        r == (if scb8@[0] == 0 { RsaKeyFileType::Public } else { RsaKeyFileType::Private }),
{
    if scb8[0] == 0 { RsaKeyFileType::Public } else { RsaKeyFileType::Private }
}

} // verus!
