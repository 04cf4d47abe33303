//! Selecting files on the card: the ISO 7816 SELECT commands that a path turns
//! into, and what the card's answers to them mean.
use vstd::prelude::*;
use crate::errors::{
    SC_SUCCESS, SC_ERROR_INVALID_ARGUMENTS, SC_ERROR_UNKNOWN_DATA_RECEIVED, SC_ERROR_WRONG_LENGTH,
    SC_ERROR_NOT_ALLOWED, SC_ERROR_FILE_NOT_FOUND, SC_ERROR_INCORRECT_PARAMETERS,
};

verus! {

/// The most bytes that a path holds.
pub const SC_MAX_PATH_SIZE: usize = 16;
/// A path that is a single file identifier (2 bytes).
pub const SC_PATH_TYPE_FILE_ID: i32 = 0;
/// A path that is a DF name (application identifier).
pub const SC_PATH_TYPE_DF_NAME: i32 = 1;
/// A path of file identifiers from the MF on.
pub const SC_PATH_TYPE_PATH: i32 = 2;
/// A path of file identifiers from the currently selected DF on.
pub const SC_PATH_TYPE_FROM_CURRENT: i32 = 4;
/// The parent of the currently selected DF.
pub const SC_PATH_TYPE_PARENT: i32 = 5;

/// APDU case 1: no command data, no response data.
pub const SC_APDU_CASE_1: i32 = 1;
/// APDU case 2 (short): no command data, response data.
pub const SC_APDU_CASE_2_SHORT: i32 = 2;
/// APDU case 3 (short): command data, no response data.
pub const SC_APDU_CASE_3_SHORT: i32 = 3;
/// APDU case 4 (short): command data and response data.
pub const SC_APDU_CASE_4_SHORT: i32 = 4;

/// Tag of a file control information template.
pub const ISO7816_TAG_FCI: u8 = 0x6F;
/// Tag of a file control parameter template.
pub const ISO7816_TAG_FCP: u8 = 0x62;

/// An application identifier.
#[derive(Clone, Copy)]
pub struct sc_aid {
    pub value: [u8; 16],
    pub len: usize,
}

/// A path to a file on the card: `len` bytes of `value`, of kind `type_`, possibly
/// within the application `aid`.
#[derive(Clone, Copy)]
pub struct sc_path {
    pub value: [u8; 16],
    pub len: usize,
    pub type_: i32,
    pub aid: sc_aid,
}

impl sc_path {
    /// The lengths fit the buffers.
    pub open spec fn wf(self) -> bool {
        self.len <= SC_MAX_PATH_SIZE && self.aid.len <= 16
    }

    /// The bytes of the path.
    pub open spec fn bytes(self) -> Seq<u8> {
        self.value@.take(self.len as int)
    }

    /// The bytes of the application identifier.
    pub open spec fn aid_bytes(self) -> Seq<u8> {
        self.aid.value@.take(self.aid.len as int)
    }
}

/// A SELECT command: its case, `P1`, `P2`, data and the number of bytes expected back.
#[derive(Debug)]
pub struct SelectApdu {
    pub cse: i32,
    pub p1: u8,
    pub p2: u8,
    pub data: Vec<u8>,
    pub le: usize,
}

/// The main SELECT command together with what its answer is judged by: whether it
/// selects the MF alone, and how it names its target (`select_target_type`).
pub struct SelectCommand {
    pub apdu: SelectApdu,
    pub select_mf: bool,
    pub pathtype: i32,
}

/// The copy of the first `n` bytes of `src`.
fn copy_prefix(src: &[u8; 16], n: usize) -> (r: Vec<u8>)
    requires
        n <= 16,
    ensures
        r@ == src@.take(n as int),
{
    let mut r: Vec<u8> = Vec::new();
    let mut i: usize = 0;
    while i < n
        invariant
            i <= n <= 16,
            r@ == src@.take(i as int),
        decreases n - i,
    {
        r.push(src[i]);
        i += 1;
        assert(r@ =~= src@.take(i as int));
    }
    r
}

/// Where a path names both an application and a file within it, the application is
/// selected first, by its DF name.
pub open spec fn selects_aid_first(path: sc_path) -> bool {
    path.aid.len > 0 && path.len > 0
}

/// `a` selects the application of `path` by its DF name.
pub open spec fn is_aid_select_apdu(path: sc_path, a: SelectApdu) -> bool {
    &&& a.cse == SC_APDU_CASE_3_SHORT
    &&& a.p1 == 4
    &&& a.p2 == 0
    &&& a.data@ == path.aid_bytes()
    &&& a.le == 0
}

/// The SELECT command that selects the application of `path` by its DF name, where
/// the path needs one.
pub fn select_aid_apdu(path: &sc_path) -> (r: Option<SelectApdu>)
    requires
        path.wf(),
    ensures
        r is Some <== selects_aid_first(*path),
        r is Some ==> selects_aid_first(*path),
        r matches Some(a) ==> is_aid_select_apdu(*path, a),
{
    if path.aid.len > 0 && path.len > 0 {
        Some(SelectApdu { cse: SC_APDU_CASE_3_SHORT, p1: 4, p2: 0, data: copy_prefix(&path.aid.value, path.aid.len), le: 0 })
    } else {
        None
    }
}

/// The bytes that the main SELECT command names: the DF name where the path holds
/// an application identifier only, else the path's own bytes.
pub open spec fn select_target_bytes(path: sc_path) -> Seq<u8> {
    if path.aid.len > 0 && path.len == 0 { path.aid_bytes() } else { path.bytes() }
}

/// How the main SELECT command names its target: by DF name where the path holds an
/// application identifier only; relative to the application where the application
/// was selected first and the path is absolute or a DF name; else as the path says.
pub open spec fn select_target_type(path: sc_path) -> i32 {
    if path.aid.len > 0 && path.len == 0 {
        SC_PATH_TYPE_DF_NAME
    } else if path.aid.len > 0 && (path.type_ == SC_PATH_TYPE_PATH || path.type_ == SC_PATH_TYPE_DF_NAME) {
        SC_PATH_TYPE_FROM_CURRENT
    } else {
        path.type_
    }
}

/// The absolute path names the MF (`3F00`) first.
pub open spec fn starts_at_mf(bytes: Seq<u8>) -> bool {
    bytes.len() >= 2 && bytes[0] == 0x3F && bytes[1] == 0x00
}

/// The path is the MF alone, which is selected by its file identifier.
pub open spec fn spec_select_mf(path: sc_path) -> bool {
    select_target_type(path) == SC_PATH_TYPE_PATH && starts_at_mf(select_target_bytes(path))
        && select_target_bytes(path).len() == 2
}

/// The `P1` of the main SELECT command: 0 for a file identifier (and the MF), 4 for
/// a DF name, 8 for an absolute path, 9 for a path from the current DF, 3 for the parent.
pub open spec fn spec_select_p1(path: sc_path) -> u8 {
    let t = select_target_type(path);
    if t == SC_PATH_TYPE_FILE_ID { 0 }
    else if t == SC_PATH_TYPE_DF_NAME { 4 }
    else if t == SC_PATH_TYPE_PATH { if spec_select_mf(path) { 0 } else { 8 } }
    else if t == SC_PATH_TYPE_FROM_CURRENT { 9 }
    else { 3 }
}

/// The data of the main SELECT command: the target bytes, without the leading
/// `3F00` of an absolute path that goes below the MF, and nothing for the parent.
pub open spec fn spec_select_data(path: sc_path) -> Seq<u8> {
    let t = select_target_type(path);
    let b = select_target_bytes(path);
    if t == SC_PATH_TYPE_PATH && starts_at_mf(b) && b.len() > 2 {
        b.skip(2)
    } else if t == SC_PATH_TYPE_PARENT {
        Seq::empty()
    } else {
        b
    }
}

/// The main SELECT command cannot be built: a file identifier that is not 2 bytes
/// long, or a kind of path that SELECT does not know.
pub open spec fn select_path_invalid(path: sc_path) -> bool {
    let t = select_target_type(path);
    ||| (t == SC_PATH_TYPE_FILE_ID && select_target_bytes(path).len() != 2)
    ||| !(t == SC_PATH_TYPE_FILE_ID || t == SC_PATH_TYPE_DF_NAME || t == SC_PATH_TYPE_PATH
        || t == SC_PATH_TYPE_FROM_CURRENT || t == SC_PATH_TYPE_PARENT)
}

/// `a` is the main SELECT command for `path`: `P1` and data as the path says, `P2 = 00`,
/// case 4 (case 2 for the parent) where file information is asked for, else case 3
/// (case 1 without data).
pub open spec fn is_main_select_apdu(path: sc_path, file_out: bool, max_recv_size: usize, a: SelectApdu) -> bool {
    &&& a.p1 == spec_select_p1(path)
    &&& a.p2 == 0
    &&& a.data@ == spec_select_data(path)
    &&& a.cse == (if file_out {
        if select_target_type(path) == SC_PATH_TYPE_PARENT { SC_APDU_CASE_2_SHORT } else { SC_APDU_CASE_4_SHORT }
    } else if a.data@.len() == 0 { SC_APDU_CASE_1 } else { SC_APDU_CASE_3_SHORT })
    &&& a.le == (if file_out { if max_recv_size < 256 { max_recv_size } else { 256 } } else { 0 })
}

/// The main SELECT command for `path` (after its application, where it names one,
/// was selected). Where file information is asked for (`file_out`), the card is asked
/// for at most `min(max_recv_size, 256)` bytes of it; else nothing is asked back.
pub fn select_file_apdu(path: &sc_path, file_out: bool, max_recv_size: usize) -> (r: Result<SelectCommand, i32>)
    requires
        path.wf(),
    ensures
        r is Err <==> select_path_invalid(*path),
        r matches Err(e) ==> e == SC_ERROR_INVALID_ARGUMENTS,
        r matches Ok(c) ==> c.select_mf == spec_select_mf(*path) && c.pathtype == select_target_type(*path),
        r matches Ok(c) ==> is_main_select_apdu(*path, file_out, max_recv_size, c.apdu),
{
    let mut data: Vec<u8>;
    let mut pathtype = path.type_;
    if path.aid.len > 0 && path.len == 0 {
        data = copy_prefix(&path.aid.value, path.aid.len);
        pathtype = SC_PATH_TYPE_DF_NAME;
    } else {
        data = copy_prefix(&path.value, path.len);
        if path.aid.len > 0 && (pathtype == SC_PATH_TYPE_PATH || pathtype == SC_PATH_TYPE_DF_NAME) {
            pathtype = SC_PATH_TYPE_FROM_CURRENT;
        }
    }
    assert(data@ == select_target_bytes(*path));
    assert(pathtype == select_target_type(*path));

    let mut cse = SC_APDU_CASE_4_SHORT;
    let mut select_mf = false;
    let p1: u8;
    if pathtype == SC_PATH_TYPE_FILE_ID {
        p1 = 0;
        if data.len() != 2 {
            return Err(SC_ERROR_INVALID_ARGUMENTS);
        }
    } else if pathtype == SC_PATH_TYPE_DF_NAME {
        p1 = 4;
    } else if pathtype == SC_PATH_TYPE_PATH {
        if data.len() >= 2 && data[0] == 0x3F && data[1] == 0 {
            if data.len() == 2 {
                /* only 3F00 supplied */
                select_mf = true;
                p1 = 0;
            } else {
                p1 = 8;
                let ghost full = data@;
                let mut rest: Vec<u8> = Vec::new();
                let mut i: usize = 2;
                while i < data.len()
                    invariant
                        2 <= i <= data@.len(),
                        data@ == full,
                        rest@ == full.subrange(2, i as int),
                    decreases data@.len() - i,
                {
                    rest.push(data[i]);
                    i += 1;
                    assert(rest@ =~= full.subrange(2, i as int));
                }
                assert(rest@ =~= full.skip(2));
                data = rest;
            }
        } else {
            p1 = 8;
        }
    } else if pathtype == SC_PATH_TYPE_FROM_CURRENT {
        p1 = 9;
    } else if pathtype == SC_PATH_TYPE_PARENT {
        p1 = 3;
        data = Vec::new();
        cse = SC_APDU_CASE_2_SHORT;
    } else {
        return Err(SC_ERROR_INVALID_ARGUMENTS);
    }

    let le: usize;
    if file_out {
        /* first record, return FCI */
        le = if max_recv_size < 256 { max_recv_size } else { 256 };
    } else {
        le = 0;
        cse = if data.len() == 0 { SC_APDU_CASE_1 } else { SC_APDU_CASE_3_SHORT };
    }
    Ok(SelectCommand { apdu: SelectApdu { cse, p1, p2: 0, data, le }, select_mf, pathtype })
}

/// Without file information asked for, the card may refuse `P2`: answering
/// `6A86` (incorrect P1-P2), the command is sent once more with `P2 = 00`.
pub fn select_needs_retry(sw1: u32, sw2: u32) -> (r: bool)
    ensures
        r == (sw1 == 0x6A && sw2 == 0x86),
{
    sw1 == 0x6A && sw2 == 0x86
}

/// The result of a SELECT without file information asked for: success where the
/// card says that response bytes are available (`SW1 = 61`), else the status that
/// the status word was checked to.
pub fn select_result_without_fci(check_rv: i32, sw1: u32) -> (r: i32)
    ensures
        r == (if sw1 == 0x61 { SC_SUCCESS } else { check_rv }),
{
    if sw1 == 0x61 { SC_SUCCESS } else { check_rv }
}

/// What to do with the answer to a SELECT that asked for file information.
#[derive(Debug, PartialEq, Eq, Structural)]
pub enum SelectFciOutcome {
    /// Fail with this status.
    Failed(i32),
    /// The card answers no information for the MF or a DF name: a file object is made
    /// from the path alone.
    FileFromPath,
    /// The answer is an FCI or FCP template, to be processed.
    ProcessFci,
}

/// Decides on the answer to a SELECT that asked for file information, from the
/// checked status word, the response bytes and what was selected.
pub open spec fn spec_select_fci_outcome(check_rv: i32, resp: Seq<u8>, select_mf: bool, pathtype: i32) -> SelectFciOutcome {
    if check_rv != SC_SUCCESS {
        SelectFciOutcome::Failed(check_rv)
    } else if resp.len() == 0 && (select_mf || pathtype == SC_PATH_TYPE_DF_NAME) {
        SelectFciOutcome::FileFromPath
    } else if resp.len() < 2 {
        SelectFciOutcome::Failed(SC_ERROR_UNKNOWN_DATA_RECEIVED)
    } else if resp[0] == ISO7816_TAG_FCI || resp[0] == ISO7816_TAG_FCP {
        SelectFciOutcome::ProcessFci
    } else {
        SelectFciOutcome::Failed(SC_ERROR_UNKNOWN_DATA_RECEIVED)
    }
}

/// Decides on the answer to a SELECT that asked for file information.
pub fn select_fci_outcome(check_rv: i32, resp: &[u8], select_mf: bool, pathtype: i32) -> (r: SelectFciOutcome)
    ensures
        r == spec_select_fci_outcome(check_rv, resp@, select_mf, pathtype),
{
    if check_rv != SC_SUCCESS {
        return SelectFciOutcome::Failed(check_rv);
    }
    if resp.len() == 0 && (select_mf || pathtype == SC_PATH_TYPE_DF_NAME) {
        return SelectFciOutcome::FileFromPath;
    }
    if resp.len() < 2 {
        return SelectFciOutcome::Failed(SC_ERROR_UNKNOWN_DATA_RECEIVED);
    }
    if resp[0] == ISO7816_TAG_FCI || resp[0] == ISO7816_TAG_FCP {
        SelectFciOutcome::ProcessFci
    } else {
        SelectFciOutcome::Failed(SC_ERROR_UNKNOWN_DATA_RECEIVED)
    }
}

/// A SELECT by file identifier that failed with one of these statuses selected
/// nothing, so that the current path stays as it was.
pub open spec fn select_left_selection(rv: i32) -> bool {
    rv == SC_ERROR_WRONG_LENGTH || rv == SC_ERROR_NOT_ALLOWED || rv == SC_ERROR_FILE_NOT_FOUND
        || rv == SC_ERROR_INCORRECT_PARAMETERS
}

/// Whether a SELECT by file identifier that ended with `rv` changed the current
/// file: it did unless it failed as `select_left_selection` says, or the file
/// identifier is `3FFF` (the current DF).
pub fn track_select_changes_current(rv: i32, file_id: &[u8; 2]) -> (r: bool)
    ensures
        r == (!select_left_selection(rv) && !(file_id@[0] == 0x3F && file_id@[1] == 0xFF)),
{
    if rv == SC_ERROR_WRONG_LENGTH || rv == SC_ERROR_NOT_ALLOWED || rv == SC_ERROR_FILE_NOT_FOUND
        || rv == SC_ERROR_INCORRECT_PARAMETERS {
        false
    } else {
        !(file_id[0] == 0x3F && file_id[1] == 0xFF)
    }
}

/// The commands that select a path file by file: one 2-byte file identifier path
/// for every two bytes of `path`.
pub open spec fn spec_path_chunks_ok(path: sc_path, r: Seq<sc_path>) -> bool {
    &&& r.len() == path.len / 2
    &&& forall|i: int| 0 <= i < r.len() ==> {
        &&& (#[trigger] r[i]).len == 2
        &&& r[i].type_ == SC_PATH_TYPE_FILE_ID
        &&& r[i].aid.len == 0
        &&& r[i].value@[0] == path.value@[2 * i]
        &&& r[i].value@[1] == path.value@[2 * i + 1]
    }
}

/// Selecting by path is done 2 bytes at a time: splits the path (already made
/// relative to the current file) into the file identifiers that are selected one
/// after the other; a path of odd length gives `SC_ERROR_INVALID_ARGUMENTS`.
pub fn select_file_by_path(path: &sc_path) -> (r: Result<Vec<sc_path>, i32>)
    requires
        path.wf(),
    ensures
        r is Err <==> path.len % 2 != 0,
        r matches Err(e) ==> e == SC_ERROR_INVALID_ARGUMENTS,
        r matches Ok(v) ==> spec_path_chunks_ok(*path, v@),
{
    let len = path.len;
    if len % 2 != 0 {
        return Err(SC_ERROR_INVALID_ARGUMENTS);
    }
    let mut v: Vec<sc_path> = Vec::new();
    let mut i: usize = 0;
    while i < len / 2
        invariant
            len == path.len,
            len <= 16,
            i <= len / 2,
            v@.len() == i,
            forall|k: int| 0 <= k < i ==> {
                &&& (#[trigger] v@[k]).len == 2
                &&& v@[k].type_ == SC_PATH_TYPE_FILE_ID
                &&& v@[k].aid.len == 0
                &&& v@[k].value@[0] == path.value@[2 * k]
                &&& v@[k].value@[1] == path.value@[2 * k + 1]
            },
        decreases len / 2 - i,
    {
        let mut value: [u8; 16] = [0u8; 16];
        value[0] = path.value[i * 2];
        value[1] = path.value[i * 2 + 1];
        v.push(sc_path { value, len: 2, type_: SC_PATH_TYPE_FILE_ID, aid: sc_aid { value: [0u8; 16], len: 0 } });
        i += 1;
    }
    Ok(v)
}

/// Where a SELECT procedure stands: nothing sent yet, the application selection
/// sent, the main SELECT sent, the main SELECT sent a second time (after `6A86`,
/// keeping the status of the first answer), or finished.
#[derive(Debug, Clone, Copy, PartialEq, Eq, Structural)]
pub enum SelectState {
    Start,
    AidSent,
    MainSent,
    Retried { first_rv: i32 },
    Done,
}

/// The card's answer to a SELECT command: the status of the transmission, the
/// status word checked to a status, the status word itself and the response bytes.
pub struct SelectAnswer {
    pub transmit_rv: i32,
    pub check_rv: i32,
    pub sw1: u32,
    pub sw2: u32,
    pub resp: Vec<u8>,
}

/// What the caller does next in a SELECT procedure.
#[derive(Debug)]
pub enum SelectAction {
    /// Send this command and hand its answer back.
    Send(SelectApdu),
    /// The procedure ends with this status.
    Finish(i32),
    /// The procedure ends successfully; the file object is made from the path alone.
    FileFromPath,
    /// The procedure ends successfully; the file object is made from the FCI/FCP
    /// template in the response.
    ProcessFci,
}

/// The kind of the next step of a SELECT procedure, without the command's bytes.
#[derive(Debug, Clone, Copy, PartialEq, Eq, Structural)]
pub enum SelectStep {
    SendAid,
    SendMain,
    Finish(i32),
    FileFromPath,
    ProcessFci,
}

/// After the application (if any) is selected: send the main SELECT, or fail where
/// it cannot be built.
pub open spec fn spec_main_step(path: sc_path) -> (SelectState, SelectStep) {
    if select_path_invalid(path) {
        (SelectState::Done, SelectStep::Finish(SC_ERROR_INVALID_ARGUMENTS))
    } else {
        (SelectState::MainSent, SelectStep::SendMain)
    }
}

/// The first step of a SELECT procedure.
pub open spec fn spec_select_begin(path: sc_path) -> (SelectState, SelectStep) {
    if selects_aid_first(path) {
        (SelectState::AidSent, SelectStep::SendAid)
    } else {
        spec_main_step(path)
    }
}

/// The next step of a SELECT procedure on the card's answer: a transmission
/// failure ends it with that status; the answer to the application selection must
/// be a success; the answer to the main SELECT without file information asked for
/// may be `6A86`, upon which the command is sent once more, and it succeeds where the
/// card says that response bytes are available (`SW1 = 61`); with file information
/// asked for, the answer is judged by `spec_select_fci_outcome`.
pub open spec fn spec_select_on_answer(
    path: sc_path,
    file_out: bool,
    state: SelectState,
    transmit_rv: i32,
    check_rv: i32,
    sw1: u32,
    sw2: u32,
    resp: Seq<u8>,
) -> (SelectState, SelectStep) {
    match state {
        SelectState::AidSent => {
            if transmit_rv < 0 {
                (SelectState::Done, SelectStep::Finish(transmit_rv))
            } else if check_rv != SC_SUCCESS {
                (SelectState::Done, SelectStep::Finish(check_rv))
            } else {
                spec_main_step(path)
            }
        },
        SelectState::MainSent => {
            if transmit_rv < 0 {
                (SelectState::Done, SelectStep::Finish(transmit_rv))
            } else if !file_out {
                if sw1 == 0x6A && sw2 == 0x86 {
                    (SelectState::Retried { first_rv: check_rv }, SelectStep::SendMain)
                } else {
                    (SelectState::Done, SelectStep::Finish(if sw1 == 0x61 { SC_SUCCESS } else { check_rv }))
                }
            } else {
                match spec_select_fci_outcome(check_rv, resp, spec_select_mf(path), select_target_type(path)) {
                    SelectFciOutcome::Failed(e) => (SelectState::Done, SelectStep::Finish(e)),
                    SelectFciOutcome::FileFromPath => (SelectState::Done, SelectStep::FileFromPath),
                    SelectFciOutcome::ProcessFci => (SelectState::Done, SelectStep::ProcessFci),
                }
            }
        },
        SelectState::Retried { first_rv } => {
            let r = if transmit_rv == SC_SUCCESS { check_rv } else { first_rv };
            (SelectState::Done, SelectStep::Finish(if sw1 == 0x61 { SC_SUCCESS } else { r }))
        },
        _ => (SelectState::Done, SelectStep::Finish(SC_ERROR_INVALID_ARGUMENTS)),
    }
}

/// `act` is the action of kind `step`, with the command that the kind names.
pub open spec fn action_is(act: SelectAction, step: SelectStep, path: sc_path, file_out: bool, max_recv_size: usize) -> bool {
    match step {
        SelectStep::SendAid => act matches SelectAction::Send(a) && is_aid_select_apdu(path, a),
        SelectStep::SendMain => act matches SelectAction::Send(a) && is_main_select_apdu(path, file_out, max_recv_size, a),
        SelectStep::Finish(e) => act matches SelectAction::Finish(f) && f == e,
        SelectStep::FileFromPath => act is FileFromPath,
        SelectStep::ProcessFci => act is ProcessFci,
    }
}

fn main_step(path: &sc_path, file_out: bool, max_recv_size: usize) -> (r: (SelectState, SelectAction))
    requires
        path.wf(),
    ensures
        r.0 == spec_main_step(*path).0,
        action_is(r.1, spec_main_step(*path).1, *path, file_out, max_recv_size),
{
    match select_file_apdu(path, file_out, max_recv_size) {
        Ok(c) => (SelectState::MainSent, SelectAction::Send(c.apdu)),
        Err(e) => (SelectState::Done, SelectAction::Finish(e)),
    }
}

/// Starts selecting `path`: the SELECT procedure of ISO 7816-4 (as OpenSC's, but
/// without asking the card to return nothing where no file information is wanted).
/// The caller sends each command and hands the answer to `select_on_answer`.
pub fn select_begin(path: &sc_path, file_out: bool, max_recv_size: usize) -> (r: (SelectState, SelectAction))
    requires
        path.wf(),
    ensures
        r.0 == spec_select_begin(*path).0,
        action_is(r.1, spec_select_begin(*path).1, *path, file_out, max_recv_size),
{
    match select_aid_apdu(path) {
        Some(a) => (SelectState::AidSent, SelectAction::Send(a)),
        None => main_step(path, file_out, max_recv_size),
    }
}

/// Takes the card's answer to the command last sent in a SELECT procedure and
/// decides the next step; this is what `iso7816_select_file_replacement` decides
/// between its card commands.
pub fn iso7816_select_file_replacement(
    path: &sc_path,
    file_out: bool,
    max_recv_size: usize,
    state: SelectState,
    answer: &SelectAnswer,
) -> (r: (SelectState, SelectAction))
    requires
        path.wf(),
        state is AidSent || state is MainSent || state is Retried,
        state is MainSent || state is Retried ==> !select_path_invalid(*path),
    ensures
        ({
            let (st, step) = spec_select_on_answer(
                *path, file_out, state, answer.transmit_rv, answer.check_rv, answer.sw1, answer.sw2, answer.resp@);
            r.0 == st && action_is(r.1, step, *path, file_out, max_recv_size)
        }),
{
    match state {
        SelectState::AidSent => {
            if answer.transmit_rv < 0 {
                (SelectState::Done, SelectAction::Finish(answer.transmit_rv))
            } else if answer.check_rv != SC_SUCCESS {
                (SelectState::Done, SelectAction::Finish(answer.check_rv))
            } else {
                main_step(path, file_out, max_recv_size)
            }
        },
        SelectState::MainSent => {
            if answer.transmit_rv < 0 {
                return (SelectState::Done, SelectAction::Finish(answer.transmit_rv));
            }
            if !file_out {
                if select_needs_retry(answer.sw1, answer.sw2) {
                    match select_file_apdu(path, file_out, max_recv_size) {
                        Ok(c) => (SelectState::Retried { first_rv: answer.check_rv }, SelectAction::Send(c.apdu)),
                        Err(e) => (SelectState::Done, SelectAction::Finish(e)),
                    }
                } else {
                    (SelectState::Done, SelectAction::Finish(select_result_without_fci(answer.check_rv, answer.sw1)))
                }
            } else {
                match select_file_apdu(path, file_out, max_recv_size) {
                    Ok(c) => {
                        match select_fci_outcome(answer.check_rv, answer.resp.as_slice(), c.select_mf, c.pathtype) {
                            SelectFciOutcome::Failed(e) => (SelectState::Done, SelectAction::Finish(e)),
                            SelectFciOutcome::FileFromPath => (SelectState::Done, SelectAction::FileFromPath),
                            SelectFciOutcome::ProcessFci => (SelectState::Done, SelectAction::ProcessFci),
                        }
                    },
                    Err(e) => (SelectState::Done, SelectAction::Finish(e)),
                }
            }
        },
        SelectState::Retried { first_rv } => {
            let r = if answer.transmit_rv == SC_SUCCESS { answer.check_rv } else { first_rv };
            (SelectState::Done, SelectAction::Finish(select_result_without_fci(r, answer.sw1)))
        },
        _ => (SelectState::Done, SelectAction::Finish(SC_ERROR_INVALID_ARGUMENTS)),
    }
}

/// How many more answers a SELECT procedure in this state can take at most.
pub open spec fn select_answers_left(state: SelectState) -> int {
    match state {
        SelectState::Start => 4,
        SelectState::AidSent => 3,
        SelectState::MainSent => 2,
        SelectState::Retried { .. } => 1,
        SelectState::Done => 0,
    }
}

/// Law: a SELECT procedure sends at most three commands (the application
/// selection, the main SELECT and its single repetition): every answer moves it to
/// a state with fewer answers left, and a procedure that ends sends nothing more.
pub proof fn lemma_select_procedure_terminates(
    path: sc_path,
    file_out: bool,
    state: SelectState,
    transmit_rv: i32,
    check_rv: i32,
    sw1: u32,
    sw2: u32,
    resp: Seq<u8>,
)
    requires
        state is AidSent || state is MainSent || state is Retried,
    ensures
        select_answers_left(spec_select_on_answer(path, file_out, state, transmit_rv, check_rv, sw1, sw2, resp).0)
            < select_answers_left(state),
        select_answers_left(spec_select_begin(path).0) < select_answers_left(SelectState::Start),
        spec_select_on_answer(path, file_out, state, transmit_rv, check_rv, sw1, sw2, resp).0 is Done
            <==> !(spec_select_on_answer(path, file_out, state, transmit_rv, check_rv, sw1, sw2, resp).1 is SendAid
                || spec_select_on_answer(path, file_out, state, transmit_rv, check_rv, sw1, sw2, resp).1 is SendMain),
{
}

/// Law: where the card refuses the main SELECT without file information with `6A86`,
/// the command is sent once more, and where that repetition is transmitted, the
/// procedure ends with the status of the repeated answer (success where it says
/// response bytes are available, `SW1 = 61`), whatever the first answer's status was;
/// where the repetition is not transmitted, the first answer's status stands.
pub proof fn lemma_select_retry_judged_by_second_answer(
    path: sc_path,
    t1: i32,
    c1: i32,
    resp1: Seq<u8>,
    t2: i32,
    c2: i32,
    sw1b: u32,
    sw2b: u32,
    resp2: Seq<u8>,
)
    requires
        t1 >= 0,
    ensures
        ({
            let (s1, step1) = spec_select_on_answer(path, false, SelectState::MainSent, t1, c1, 0x6A, 0x86, resp1);
            &&& step1 is SendMain
            &&& spec_select_on_answer(path, false, s1, SC_SUCCESS, c2, sw1b, sw2b, resp2).1
                == SelectStep::Finish(if sw1b == 0x61 { SC_SUCCESS } else { c2 })
            &&& t2 != SC_SUCCESS ==> spec_select_on_answer(path, false, s1, t2, c2, sw1b, sw2b, resp2).1
                == SelectStep::Finish(if sw1b == 0x61 { SC_SUCCESS } else { c1 })
        }),
{
}

/// The status of selecting a path file by file, from the statuses `rvs` of the
/// selects made in order: the first that is not a success (the selects stop
/// there), or `SC_SUCCESS` where all succeeded.
pub open spec fn spec_first_failure(rvs: Seq<i32>) -> i32
    decreases rvs.len(),
{
    if rvs.len() == 0 {
        SC_SUCCESS
    } else if rvs[0] != SC_SUCCESS {
        rvs[0]
    } else {
        spec_first_failure(rvs.drop_first())
    }
}

/// The result of selecting a path file by file: the status of making the path
/// relative to the current file (`cut_rv`) where that failed,
/// `SC_ERROR_INVALID_ARGUMENTS` for a path of odd length, else the status of the
/// first select that failed, or `SC_SUCCESS`.
pub open spec fn spec_select_path_outcome(cut_rv: i32, path: sc_path, rvs: Seq<i32>) -> i32 {
    if cut_rv != SC_SUCCESS {
        cut_rv
    } else if path.len % 2 != 0 {
        SC_ERROR_INVALID_ARGUMENTS
    } else {
        spec_first_failure(rvs)
    }
}

/// Whether selecting by path goes on after the select of one file identifier
/// ended with `rv`: only after a success, and while file identifiers are left.
pub fn select_path_continues(rv: i32, done: usize, total: usize) -> (r: bool)
    ensures
        r == (rv == SC_SUCCESS && done < total),
{
    rv == SC_SUCCESS && done < total
}

/// Decides the status of selecting a path file by file (see
/// `spec_select_path_outcome`), from the statuses of the selects made in order.
pub fn select_path_outcome(cut_rv: i32, path: &sc_path, rvs: &[i32]) -> (r: i32)
    ensures
        r == spec_select_path_outcome(cut_rv, *path, rvs@),
{
    if cut_rv != SC_SUCCESS {
        return cut_rv;
    }
    if path.len % 2 != 0 {
        return SC_ERROR_INVALID_ARGUMENTS;
    }
    let mut i: usize = 0;
    assert(rvs@.skip(0) =~= rvs@);
    while i < rvs.len()
        invariant
            i <= rvs@.len(),
            cut_rv == SC_SUCCESS,
            path.len % 2 == 0,
            spec_first_failure(rvs@) == spec_first_failure(rvs@.skip(i as int)),
        decreases rvs@.len() - i,
    {
        assert(rvs@.skip(i as int).drop_first() =~= rvs@.skip(i + 1));
        assert(rvs@.skip(i as int)[0] == rvs@[i as int]);
        assert(rvs@.skip(i as int).len() > 0);
        if rvs[i] != SC_SUCCESS {
            assert(spec_first_failure(rvs@.skip(i as int)) == rvs@[i as int]);
            return rvs[i];
        }
        i += 1;
    }
    assert(rvs@.skip(i as int).len() == 0);
    SC_SUCCESS
}

} // verus!
