//! Enumerating the card's file system: a walk from a directory through every file
//! below it, registering each file's path, learning its security conditions, its
//! RSA key type and the records of security environment files. The card commands
//! are made by the caller, who hands each answer back.
use vstd::prelude::*;
use crate::errors::SC_SUCCESS;
use crate::select::{sc_path, SC_PATH_TYPE_PATH};
use crate::driver::{
    DataPrivate, FileEntry, EnumDirAction, spec_enum_dir_action, enum_dir_action, enum_dir_register,
    enum_dir_children, is_children_of, se_record_ends, file_id_of, file_id_from_bytes, rsa_key_file_type,
    rsa_key_type_code, spec_rsa_key_type_code, RsaKeyFileType, FDB_RSA_KEY_EF,
};

verus! {

broadcast use vstd::std_specs::hash::group_hash_axioms;

/// The file identifier that a path ends in.
pub open spec fn path_id(p: sc_path) -> u16 {
    file_id_of(p.value@[p.len - 2], p.value@[p.len - 1])
}

/// A path that the walk can visit: of even length 2 to 16, ending in a known file.
pub open spec fn path_ok(files: Map<u16, FileEntry>, p: sc_path) -> bool {
    &&& 2 <= p.len <= 16
    &&& p.len % 2 == 0
    &&& files.contains_key(path_id(p))
}

/// Where the walk stands with the file it is at.
pub enum EnumDirPhase {
    /// At no file.
    Idle,
    /// The file was selected; what to do with it once selected, and its maximum record
    /// length and number of records.
    Selecting { path: sc_path, action: EnumDirAction, mrl: u8, nor: u8 },
    /// The directory's file list was asked for.
    Listing { path: sc_path },
    /// Record `rec_nr` (of `rec_count`, each at most `rec_len` bytes) of a security
    /// environment file was asked for; `records` were read before it.
    Reading { path: sc_path, rec_nr: u32, rec_count: u32, rec_len: usize, records: Vec<Vec<u8>> },
}

/// A walk through the file system: the paths still to visit (the last one next),
/// whether only security environment files are read, and where it stands.
pub struct EnumDirWalk {
    pub pending: Vec<sc_path>,
    pub only_se_df: bool,
    pub phase: EnumDirPhase,
    /// The file identifiers of the files selected so far.
    pub visited: Ghost<Set<u16>>,
}

/// What the caller does next in a walk.
pub enum EnumDirCommand {
    /// Select this path (and process the file's control parameters); answer `Selected`.
    Select(sc_path),
    /// List the files of the directory just selected; answer `Listed`.
    ListFiles,
    /// Read this record of the security environment file just selected; answer `SeRecord`.
    ReadRecord { rec_nr: u32, mrl: usize },
    /// The walk ended with this status.
    Done(i32),
}

/// The card's answer to the last command of a walk.
pub enum EnumDirEvent {
    /// The file was selected with status `rv`; its control parameters give the 8
    /// security condition bytes `scb8`.
    Selected { rv: i32, scb8: [u8; 8] },
    /// The directory lists `rv` bytes of file identifiers (2 bytes each).
    Listed { rv: i32, files_contained: Vec<u8> },
    /// The record read has `rv` bytes.
    SeRecord { rv: i32, rec: Vec<u8> },
}

/// What the walk has learnt of a file it selected: its security condition bytes and,
/// for an RSA key file, the key type in byte 6 of its file information.
pub open spec fn learnt(files: Map<u16, FileEntry>, id: u16) -> bool {
    &&& files.contains_key(id)
    &&& files[id].scb8 is Some
    &&& files[id].info@[0] == FDB_RSA_KEY_EF
        ==> files[id].info@[6] == spec_rsa_key_type_code(spec_rsa_key_file_type(files[id].scb8->0))
}

/// The walk is well formed over the known files: of every file selected so far its
/// security condition bytes and RSA key type are known, every path it still has to visit
/// and the path it is at can be visited, a security environment file to be read has
/// records, a directory being listed can hold children, and a record number lies
/// within the records.
pub open spec fn walk_wf(files: Map<u16, FileEntry>, w: EnumDirWalk) -> bool {
    &&& forall|i: int| 0 <= i < w.pending@.len() ==> path_ok(files, #[trigger] w.pending@[i])
    &&& forall|id: u16| #[trigger] w.visited@.contains(id) ==> learnt(files, id)
    &&& match w.phase {
        EnumDirPhase::Idle => true,
        EnumDirPhase::Selecting { path, action, mrl, nor } => {
            &&& path_ok(files, path)
            &&& action == spec_enum_dir_action(files[path_id(path)].info@[0], w.only_se_df, mrl, nor)
            &&& action != EnumDirAction::Skip
            &&& action == EnumDirAction::ReadSeRecords ==> mrl > 0 && nor > 0
        },
        EnumDirPhase::Listing { path } => path_ok(files, path) && path.len < 16,
        EnumDirPhase::Reading { path, rec_nr, rec_count, .. } => path_ok(files, path) && 1 <= rec_nr <= rec_count,
    }
}

/// What the walk keeps of the known files while it goes: no file is forgotten, and
/// of each file the security condition bytes and the file information (but for the
/// path length in byte 1) stay.
pub open spec fn files_kept(old_files: Map<u16, FileEntry>, new_files: Map<u16, FileEntry>) -> bool {
    forall|k: u16| #[trigger] old_files.contains_key(k) ==> {
        &&& new_files.contains_key(k)
        &&& new_files[k].scb8 == old_files[k].scb8
        &&& forall|j: int| 0 <= j < 8 && j != 1 ==> #[trigger] new_files[k].info@[j] == old_files[k].info@[j]
    }
}

/// `dp` records the visit of `p` with the walk at `phase`: its path and path length
/// are registered, and the phase is the selection of `p` with the action that its
/// file descriptor byte calls for.
pub open spec fn visits(files: Map<u16, FileEntry>, only_se_df: bool, p: sc_path, phase: EnumDirPhase) -> bool {
    let e = files[path_id(p)];
    &&& files.contains_key(path_id(p))
    &&& e.path == p.value
    &&& e.info@[1] == p.len as u8
    &&& phase matches EnumDirPhase::Selecting { path, action, mrl, nor }
        && path == p
        && action == spec_enum_dir_action(e.info@[0], only_se_df, e.info@[4], e.info@[5])
        && mrl == e.info@[4]
        && nor == e.info@[5]
}

/// Goes on to the next path to visit: the paths taken from the end of the list are
/// registered, and those that call for nothing are passed over; the first one that
/// calls for something is selected. Where none is left, the walk is done.
fn next_file(dp: &mut DataPrivate, w: EnumDirWalk) -> (r: (EnumDirWalk, EnumDirCommand))
    requires
        walk_wf(old(dp).files@, w),
    ensures
        walk_wf(final(dp).files@, r.0),
        files_kept(old(dp).files@, final(dp).files@),
        final(dp).files@.dom() == old(dp).files@.dom(),
        final(dp).se_records@ == old(dp).se_records@,
        final(dp).sec_env == old(dp).sec_env,
        r.0.only_se_df == w.only_se_df,
        r.0.visited@ == w.visited@,
        r.0.pending@ == w.pending@.take(r.0.pending@.len() as int),
        r.1 is Select || r.1 is Done,
        r.1 matches EnumDirCommand::Select(p) ==> {
            &&& r.0.pending@.len() < w.pending@.len()
            &&& p == w.pending@[r.0.pending@.len() as int]
            &&& visits(final(dp).files@, w.only_se_df, p, r.0.phase)
        },
        r.1 matches EnumDirCommand::Done(e) ==> e == SC_SUCCESS && r.0.pending@.len() == 0 && r.0.phase is Idle,
{
    let only_se_df = w.only_se_df;
    let mut pending = w.pending;
    let ghost old_pending = pending@;
    let ghost old_files = dp.files@;
    while pending.len() > 0
        invariant
            forall|i: int| 0 <= i < pending@.len() ==> path_ok(dp.files@, #[trigger] pending@[i]),
            pending@ == old_pending.take(pending@.len() as int),
            pending@.len() <= old_pending.len(),
            files_kept(old_files, dp.files@),
            dp.files@.dom() == old_files.dom(),
            dp.se_records@ == old(dp).se_records@,
            dp.sec_env == old(dp).sec_env,
            old_files == old(dp).files@,
            old_pending == w.pending@,
            only_se_df == w.only_se_df,
            walk_wf(old_files, w),
        decreases pending@.len(),
    {
        let ghost before = dp.files@;
        let p = pending.pop().unwrap();
        assert(p == old_pending[pending@.len() as int]);
        assert(pending@ =~= old_pending.take(pending@.len() as int));
        assert(path_ok(before, p));
        let (fdb, mrl, nor) = enum_dir_register(dp, &p);
        proof {
            assert forall|k: u16| #[trigger] old_files.contains_key(k) implies {
                &&& dp.files@.contains_key(k)
                &&& dp.files@[k].scb8 == old_files[k].scb8
                &&& forall|j: int| 0 <= j < 8 && j != 1 ==> #[trigger] dp.files@[k].info@[j] == old_files[k].info@[j]
            } by {
                if k == path_id(p) {
                    assert forall|j: int| 0 <= j < 8 && j != 1 implies #[trigger] dp.files@[k].info@[j] == old_files[k].info@[j] by {
                        assert(dp.files@[k].info@[j] == before[k].info@[j]);
                    }
                }
            }
            assert(dp.files@.dom() =~= old_files.dom());
            assert forall|i: int| 0 <= i < pending@.len() implies path_ok(dp.files@, #[trigger] pending@[i]) by {
                assert(path_ok(before, pending@[i]));
            }
        }
        let action = enum_dir_action(fdb, only_se_df, mrl, nor);
        match action {
            EnumDirAction::Skip => {},
            _ => {
                let phase = EnumDirPhase::Selecting { path: p, action, mrl, nor };
                let r = (EnumDirWalk { pending, only_se_df, phase, visited: w.visited }, EnumDirCommand::Select(p));
                proof { lemma_visited_kept(old_files, dp.files@, w.visited@); }
                return r;
            },
        }
    }
    proof { lemma_visited_kept(old_files, dp.files@, w.visited@); }
    (EnumDirWalk { pending, only_se_df, phase: EnumDirPhase::Idle, visited: w.visited }, EnumDirCommand::Done(SC_SUCCESS))
}

proof fn lemma_visited_kept(f1: Map<u16, FileEntry>, f2: Map<u16, FileEntry>, visited: Set<u16>)
    requires
        files_kept(f1, f2),
        forall|id: u16| #[trigger] visited.contains(id) ==> learnt(f1, id),
    ensures
        forall|id: u16| #[trigger] visited.contains(id) ==> learnt(f2, id),
{
    assert forall|id: u16| #[trigger] visited.contains(id) implies learnt(f2, id) by {
        assert(f1.contains_key(id));
        assert(f2[id].info@[0] == f1[id].info@[0]);
        assert(f2[id].info@[6] == f1[id].info@[6]);
    }
}

/// Starts a walk at `root`, with `only_se_df` reading only
/// the records of security environment files and otherwise selecting every file.
pub fn enum_dir_begin(dp: &mut DataPrivate, root: &sc_path, only_se_df: bool) -> (r: (EnumDirWalk, EnumDirCommand))
    requires
        path_ok(old(dp).files@, *root),
    ensures
        walk_wf(final(dp).files@, r.0),
        files_kept(old(dp).files@, final(dp).files@),
        final(dp).files@.dom() == old(dp).files@.dom(),
        r.0.only_se_df == only_se_df,
        r.0.pending@.len() == 0,
        r.0.visited@ == Set::<u16>::empty(),
        r.1 is Select || r.1 is Done,
        r.1 matches EnumDirCommand::Select(p) ==> p == *root && visits(final(dp).files@, only_se_df, p, r.0.phase),
        r.1 matches EnumDirCommand::Done(e) ==> e == SC_SUCCESS,
{
    let mut pending: Vec<sc_path> = Vec::new();
    pending.push(*root);
    next_file(dp, EnumDirWalk { pending, only_se_df, phase: EnumDirPhase::Idle, visited: Ghost(Set::empty()) })
}

/// Of every file that a walk has selected so far, the security condition bytes are
/// known, and an RSA key file carries its key type in byte 6 of its file information.
pub proof fn lemma_walk_selected_files_learnt(files: Map<u16, FileEntry>, w: EnumDirWalk, id: u16)
    requires
        walk_wf(files, w),
        w.visited@.contains(id),
    ensures
        files.contains_key(id),
        files[id].scb8 is Some,
        files[id].info@[0] == FDB_RSA_KEY_EF
            ==> files[id].info@[6] == spec_rsa_key_type_code(spec_rsa_key_file_type(files[id].scb8->0)),
{
}

/// The RSA key type that the first security condition byte of a key file shows.
pub open spec fn spec_rsa_key_file_type(scb8: [u8; 8]) -> RsaKeyFileType {
    if scb8@[0] == 0 { RsaKeyFileType::Public } else { RsaKeyFileType::Private }
}

/// Records what the selection of `path` taught: the file's security condition bytes
/// and, for an RSA key file, its key type in byte 6 of its file information.
fn store_selected(dp: &mut DataPrivate, path: &sc_path, action: EnumDirAction, scb8: [u8; 8])
    requires
        path_ok(old(dp).files@, *path),
    ensures
        ({
            let id = path_id(*path);
            let e = old(dp).files@[id];
            &&& final(dp).files@ == old(dp).files@.insert(id, final(dp).files@[id])
            &&& final(dp).files@[id].path == e.path
            &&& final(dp).files@[id].scb8 == Some(scb8)
            &&& final(dp).files@[id].info@ == (if action == (EnumDirAction::SelectFile { rsa_key: true }) {
                e.info@.update(6, spec_rsa_key_type_code(spec_rsa_key_file_type(scb8)))
            } else {
                e.info@
            })
        }),
        final(dp).se_records@ == old(dp).se_records@,
        final(dp).sec_env == old(dp).sec_env,
{
    let id = file_id_from_bytes(path.value[path.len - 2], path.value[path.len - 1]);
    match dp.files.get(&id) {
        Some(e0) => {
            let mut e = *e0;
            e.scb8 = Some(scb8);
            match action {
                EnumDirAction::SelectFile { rsa_key: true } => {
                    /* how to tell public from private keys without reading: a key file that
                       anybody may read holds a public key */
                    e.info[6] = rsa_key_type_code(rsa_key_file_type(&scb8));
                },
                _ => {},
            }
            dp.files.insert(id, e);
        },
        None => {},
    }
}

/// The card's answer fits the command last given: a selection that succeeded, a
/// file list of whole file identifiers that are all known, or a record within its
/// buffer, of the expected record number where it is not the end marker, read from a
/// security environment file within a directory.
pub open spec fn event_fits(files: Map<u16, FileEntry>, w: EnumDirWalk, ev: EnumDirEvent) -> bool {
    match w.phase {
        EnumDirPhase::Idle => false,
        EnumDirPhase::Selecting { .. } => ev matches EnumDirEvent::Selected { rv, .. } && rv == SC_SUCCESS,
        EnumDirPhase::Listing { .. } => ev matches EnumDirEvent::Listed { rv, files_contained } && {
            &&& 0 <= rv <= files_contained@.len()
            &&& rv % 2 == 0
            &&& forall|i: int| 0 <= i < rv / 2
                ==> #[trigger] files.contains_key(file_id_of(files_contained@[2 * i], files_contained@[2 * i + 1]))
        },
        EnumDirPhase::Reading { path, rec_nr, .. } => ev matches EnumDirEvent::SeRecord { rv, rec } && {
            &&& 0 <= rv <= rec@.len()
            &&& rec@.len() >= 3
            &&& path.len >= 4
            &&& rv >= 3 && !(rv >= 1 && rec@[0] == 0 || rec@[2] == 0) ==> rec@[2] as u32 == rec_nr
        },
    }
}

/// A record read from a security environment file ends the list.
pub open spec fn record_ends(rv: int, rec: Seq<u8>) -> bool {
    rv >= 1 && rec[0] == 0 || rv >= 3 && rec[2] == 0
}

/// The file identifier of the directory that holds the file at `path`.
pub open spec fn dir_id(path: sc_path) -> u16 {
    file_id_of(path.value@[path.len - 4], path.value@[path.len - 3])
}

proof fn lemma_pending_grows(f1: Map<u16, FileEntry>, f2: Map<u16, FileEntry>, pending: Seq<sc_path>)
    requires
        forall|i: int| 0 <= i < pending.len() ==> path_ok(f1, #[trigger] pending[i]),
        f1.dom().subset_of(f2.dom()),
    ensures
        forall|i: int| 0 <= i < pending.len() ==> path_ok(f2, #[trigger] pending[i]),
{
    assert forall|i: int| 0 <= i < pending.len() implies path_ok(f2, #[trigger] pending[i]) by {
        assert(path_ok(f1, pending[i]));
    }
}

/// Takes the card's answer to the last command of a walk and gives the next command.
/// After a selection, the file's security bytes and RSA key type are recorded; a
/// directory is then listed (unless its path is as long as a path can be) and its
/// files are visited in the order listed, each completely before the next; a
/// security environment file has its records read until the end marker or the last
/// record, and they are kept for its directory.
pub fn enum_dir_step(dp: &mut DataPrivate, w: EnumDirWalk, ev: &EnumDirEvent) -> (r: (EnumDirWalk, EnumDirCommand))
    requires
        walk_wf(old(dp).files@, w),
        event_fits(old(dp).files@, w, *ev),
    ensures
        walk_wf(final(dp).files@, r.0),
        old(dp).files@.dom().subset_of(final(dp).files@.dom()),
        r.0.only_se_df == w.only_se_df,
        r.1 matches EnumDirCommand::Select(p) ==> visits(final(dp).files@, w.only_se_df, p, r.0.phase),
        r.1 matches EnumDirCommand::Done(e) ==> e == SC_SUCCESS && r.0.pending@.len() == 0,
        r.0.visited@ == (match w.phase {
            EnumDirPhase::Selecting { path, .. } => w.visited@.insert(path_id(path)),
            _ => w.visited@,
        }),
        r.1 is Done ==> forall|id: u16| #[trigger] r.0.visited@.contains(id) ==> learnt(final(dp).files@, id),
        // a selection was answered
        w.phase matches EnumDirPhase::Selecting { path, action, mrl, nor } ==> {
            let scb8 = ev->Selected_scb8;
            let q = w.pending@;
            let e = final(dp).files@[path_id(path)];
            &&& e.scb8 == Some(scb8)
            &&& action == (EnumDirAction::SelectFile { rsa_key: true })
                ==> e.info@[6] == spec_rsa_key_type_code(spec_rsa_key_file_type(scb8))
            &&& action == EnumDirAction::SelectDirectory && path.len < 16
                ==> r.1 is ListFiles && r.0.phase == (EnumDirPhase::Listing { path }) && r.0.pending@ == q
            &&& action == EnumDirAction::ReadSeRecords
                ==> {
                    &&& r.1 == (EnumDirCommand::ReadRecord { rec_nr: 1, mrl: mrl as usize })
                    &&& r.0.pending@ == q
                    &&& r.0.phase matches EnumDirPhase::Reading { path: pp, rec_nr, rec_count, rec_len, records }
                        && pp == path && rec_nr == 1 && rec_count == nor as u32 && rec_len == mrl as usize
                        && records@.len() == 0
                }
            &&& (action is SelectFile || (action == EnumDirAction::SelectDirectory && path.len == 16)) ==> {
                &&& r.0.pending@ == q.take(r.0.pending@.len() as int)
                &&& r.1 matches EnumDirCommand::Select(p) ==> p == q[r.0.pending@.len() as int]
            }
        },
        // a directory's file list was answered: its files follow, in the order listed
        w.phase matches EnumDirPhase::Listing { path } ==> exists|ch: Seq<sc_path>| {
            let q = w.pending@ + ch.reverse();
            &&& #[trigger] is_children_of(path, ev->Listed_files_contained@, ev->Listed_rv as int, ch)
            &&& r.0.pending@ == q.take(r.0.pending@.len() as int)
            &&& r.1 matches EnumDirCommand::Select(p) ==> p == q[r.0.pending@.len() as int]
        },
        // a record was answered
        w.phase matches EnumDirPhase::Reading { path, rec_nr, rec_count, rec_len, records } ==> {
            let rv = ev->SeRecord_rv as int;
            let rec = ev->SeRecord_rec@;
            let recs = if record_ends(rv, rec) { records@.map_values(|v: Vec<u8>| v@) } else { records@.map_values(|v: Vec<u8>| v@).push(rec.take(rv)) };
            if record_ends(rv, rec) || rec_nr == rec_count {
                &&& final(dp).se_records@.contains_key(dir_id(path))
                &&& final(dp).se_records@[dir_id(path)]@.map_values(|v: Vec<u8>| v@) == recs
                &&& final(dp).files@.contains_key(dir_id(path))
                &&& r.0.pending@ == w.pending@.take(r.0.pending@.len() as int)
                &&& r.1 matches EnumDirCommand::Select(p) ==> p == w.pending@[r.0.pending@.len() as int]
            } else {
                &&& r.1 == (EnumDirCommand::ReadRecord { rec_nr: (rec_nr + 1) as u32, mrl: rec_len })
                &&& r.0.pending@ == w.pending@
                &&& r.0.phase matches EnumDirPhase::Reading { path: pp, rec_nr: n, rec_count: c, rec_len: l, records: rs }
                    && pp == path && n == rec_nr + 1 && c == rec_count && l == rec_len && rs@.map_values(|v: Vec<u8>| v@) == recs
            }
        },
{
    let only_se_df = w.only_se_df;
    let mut pending = w.pending;
    let ghost q = pending@;
    match w.phase {
        EnumDirPhase::Selecting { path, action, mrl, nor } => {
            let scb8 = match ev {
                EnumDirEvent::Selected { scb8, .. } => *scb8,
                _ => [0u8; 8],
            };
            store_selected(dp, &path, action, scb8);
            let ghost after_store = dp.files@;
            let ghost vis = w.visited@.insert(path_id(path));
            proof {
                lemma_pending_grows(old(dp).files@, dp.files@, pending@);
                assert(path_ok(dp.files@, path));
                assert forall|id: u16| #[trigger] vis.contains(id) implies learnt(dp.files@, id) by {
                    if id != path_id(path) {
                        assert(old(dp).files@.contains_key(id));
                        assert(learnt(old(dp).files@, id));
                    } else {
                        assert(dp.files@[id].info@[0] == old(dp).files@[id].info@[0]);
                    }
                }
            }
            match action {
                EnumDirAction::SelectDirectory => {
                    if path.len < 16 {
                        (EnumDirWalk { pending, only_se_df, phase: EnumDirPhase::Listing { path }, visited: Ghost(vis) }, EnumDirCommand::ListFiles)
                    } else {
                        /* couldn't visit all files due to the path length limit */
                        let r = next_file(dp, EnumDirWalk { pending, only_se_df, phase: EnumDirPhase::Idle, visited: Ghost(vis) });
                        proof {
                            assert(dp.files@[path_id(path)].scb8 == after_store[path_id(path)].scb8);
                        }
                        r
                    }
                },
                EnumDirAction::ReadSeRecords => {
                    let phase = EnumDirPhase::Reading {
                        path, rec_nr: 1, rec_count: nor as u32, rec_len: mrl as usize, records: Vec::new(),
                    };
                    (EnumDirWalk { pending, only_se_df, phase, visited: Ghost(vis) }, EnumDirCommand::ReadRecord { rec_nr: 1, mrl: mrl as usize })
                },
                _ => {
                    let r = next_file(dp, EnumDirWalk { pending, only_se_df, phase: EnumDirPhase::Idle, visited: Ghost(vis) });
                    proof {
                        assert(dp.files@[path_id(path)].scb8 == after_store[path_id(path)].scb8);
                        assert(dp.files@[path_id(path)].info@[6] == after_store[path_id(path)].info@[6]);
                    }
                    r
                },
            }
        },
        EnumDirPhase::Listing { path } => {
            let (rv, files_contained) = match ev {
                EnumDirEvent::Listed { rv, files_contained } => (*rv, files_contained.as_slice()),
                _ => (0i32, [0u8; 0].as_slice()),
            };
            let ch = enum_dir_children(&path, files_contained, rv as usize);
            let n = ch.len();
            let mut i: usize = n;
            let ghost files = dp.files@;
            proof {
                assert(pending@ =~= q + ch@.subrange(n as int, n as int).reverse());
            }
            while i > 0
                invariant
                    i <= n,
                    n == ch@.len(),
                    pending@ == q + ch@.subrange(i as int, n as int).reverse(),
                    forall|k: int| 0 <= k < pending@.len() ==> path_ok(files, #[trigger] pending@[k]),
                    forall|k: int| 0 <= k < n ==> path_ok(files, #[trigger] ch@[k]),
                decreases i,
            {
                i -= 1;
                pending.push(ch[i]);
                assert(pending@ =~= q + ch@.subrange(i as int, n as int).reverse());
            }
            assert(ch@.subrange(0, n as int) =~= ch@);
            let r = next_file(dp, EnumDirWalk { pending, only_se_df, phase: EnumDirPhase::Idle, visited: w.visited });
            assert(is_children_of(path, files_contained@, rv as int, ch@));
            r
        },
        EnumDirPhase::Reading { path, rec_nr, rec_count, rec_len, records } => {
            let (rv, rec) = match ev {
                EnumDirEvent::SeRecord { rv, rec } => (*rv, rec.as_slice()),
                _ => (0i32, [0u8; 3].as_slice()),
            };
            let mut records = records;
            let ghost before = records@.map_values(|v: Vec<u8>| v@);
            let ends = se_record_ends(rv as usize, rec);
            assert(ends == record_ends(rv as int, rec@));
            if !ends {
                let mut v: Vec<u8> = Vec::new();
                let mut k: usize = 0;
                while k < rv as usize
                    invariant
                        k <= rv <= rec@.len(),
                        v@ == rec@.take(k as int),
                    decreases rv - k,
                {
                    v.push(rec[k]);
                    k += 1;
                    assert(v@ =~= rec@.take(k as int));
                }
                let ghost vv = v@;
                records.push(v);
                assert(records@.map_values(|v: Vec<u8>| v@) =~= before.push(vv));
            }
            let ghost recs = records@.map_values(|v: Vec<u8>| v@);
            if ends || rec_nr == rec_count {
                let dir = file_id_from_bytes(path.value[path.len - 4], path.value[path.len - 3]);
                if !dp.files.contains_key(&dir) {
                    dp.files.insert(dir, FileEntry { path: [0u8; 16], info: [0u8; 8], scb8: None });
                }
                dp.se_records.insert(dir, records);
                let ghost stored = dp.se_records@;
                proof {
                    lemma_pending_grows(old(dp).files@, dp.files@, pending@);
                    assert forall|id: u16| #[trigger] w.visited@.contains(id) implies learnt(dp.files@, id) by {
                        assert(old(dp).files@.contains_key(id));
                        assert(learnt(old(dp).files@, id));
                    }
                }
                assert(dp.se_records@[dir]@.map_values(|v: Vec<u8>| v@) == recs);
                assert(dir == dir_id(path));
                let r = next_file(dp, EnumDirWalk { pending, only_se_df, phase: EnumDirPhase::Idle, visited: w.visited });
                r
            } else {
                let phase = EnumDirPhase::Reading { path, rec_nr: rec_nr + 1, rec_count, rec_len, records };
                (EnumDirWalk { pending, only_se_df, phase, visited: w.visited }, EnumDirCommand::ReadRecord { rec_nr: rec_nr + 1, mrl: rec_len })
            }
        },
        EnumDirPhase::Idle => {
            (EnumDirWalk { pending, only_se_df, phase: EnumDirPhase::Idle, visited: w.visited }, EnumDirCommand::Done(SC_SUCCESS))
        },
    }
}

/// Starts the walk of the whole file system from the MF (`3F00`), selecting every
/// file. Afterwards every selected file's security condition
/// bytes are known, and every RSA key file carries its key type.
pub fn update_hashmap_begin(dp: &mut DataPrivate) -> (r: (EnumDirWalk, EnumDirCommand))
    requires
        old(dp).files@.contains_key(0x3F00u16),
    ensures
        walk_wf(final(dp).files@, r.0),
        files_kept(old(dp).files@, final(dp).files@),
        final(dp).files@.dom() == old(dp).files@.dom(),
        r.0.only_se_df == false,
        r.0.pending@.len() == 0,
        r.0.visited@ == Set::<u16>::empty(),
        r.1 matches EnumDirCommand::Select(p) ==> p.value@[0] == 0x3F && p.value@[1] == 0x00 && p.len == 2
            && p.type_ == SC_PATH_TYPE_PATH && p.aid.len == 0 && visits(final(dp).files@, false, p, r.0.phase),
        r.1 is Select || r.1 is Done,
        r.1 matches EnumDirCommand::Done(e) ==> e == SC_SUCCESS,
{
    let mut value: [u8; 16] = [0u8; 16];
    value[0] = 0x3F;
    let root = sc_path { value, len: 2, type_: SC_PATH_TYPE_PATH, aid: crate::select::sc_aid { value: [0u8; 16], len: 0 } };
    assert(file_id_of(0x3F, 0x00) == 0x3F00u16);
    enum_dir_begin(dp, &root, false)
}

} // verus!
