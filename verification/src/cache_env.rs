//! Crash-safe cache writes, as a decision machine.
//!
//! The durable write goes to a temporary sibling file (random suffix) and
//! is renamed over the destination, so no reader ever observes a half
//! written file.  A missing parent directory is created and the write
//! retried once; a failed creation whose directory still does not exist
//! surfaces a permission-style error.  The filesystem operations themselves
//! are the driver's; every decision between them is made and proved here.

use vstd::prelude::*;
use vstd::string::StringSliceAdditionalSpecFns;

use crate::bytestr::{clone_bytes, str_to_bytes, DOT};
use crate::cache_settings::pop_path;
use crate::hash::hex_digit;
use crate::module_loader::ext_of;

verus! {

/// Permissions used to save a file in the disk caches.
pub const CACHE_PERM: u32 = 0o644;

/// `path` with its extension replaced (or appended) by `ext`.
pub open spec fn with_extension_of(path: Seq<u8>, ext: Seq<u8>) -> Seq<u8> {
    let base = match ext_of(path) {
        Some(e) => path.subrange(0, path.len() - e.len() - 1),
        None => path,
    };
    base + seq![DOT] + ext
}

/// Two lower-case hex digits of one byte.
pub open spec fn hex2_of(b: u8) -> Seq<u8> {
    seq![hex_digit((b / 16) as int), hex_digit((b % 16) as int)]
}

/// The random temporary extension: eight hex digits and `.tmp`.
pub open spec fn temp_ext_of(r0: u8, r1: u8, r2: u8, r3: u8) -> Seq<u8> {
    hex2_of(r0) + hex2_of(r1) + hex2_of(r2) + hex2_of(r3) + (".tmp").spec_bytes()
}

/// An error message annotated with the path it concerns.
pub open spec fn annotated_of(message: Seq<u8>, path: Seq<u8>) -> Seq<u8> {
    message + (" (for '").spec_bytes() + path + ("')").spec_bytes()
}

/// The permission-style message for a directory that could not be created
/// and still does not exist.
pub open spec fn dir_error_of(message: Seq<u8>, dir: Seq<u8>) -> Seq<u8> {
    annotated_of(message, dir) + ("\nCheck the permission of the directory.").spec_bytes()
}

/// Attach the target path to an error message, for diagnostics.
pub fn add_file_context_to_err(path: &Vec<u8>, message: &Vec<u8>) -> (r: Vec<u8>)
    ensures
        r@ == annotated_of(message@, path@),
{
    let mut r = clone_bytes(message);
    let infix = str_to_bytes(" (for '");
    r.extend_from_slice(infix.as_slice());
    r.extend_from_slice(path.as_slice());
    let suffix = str_to_bytes("')");
    r.extend_from_slice(suffix.as_slice());
    proof {
        assert(r@ =~= annotated_of(message@, path@));
    }
    r
}

fn two_hex(b: u8) -> (r: Vec<u8>)
    ensures
        r@ == hex2_of(b),
{
    let mut r: Vec<u8> = Vec::new();
    let hi = b / 16;
    let lo = b % 16;
    if hi < 10 {
        r.push(48 + hi);
    } else {
        r.push(87 + hi);
    }
    if lo < 10 {
        r.push(48 + lo);
    } else {
        r.push(87 + lo);
    }
    proof {
        assert(r@ =~= hex2_of(b));
    }
    r
}

/// `path` with its extension replaced (or appended) by `ext`.
pub fn with_extension(path: &Vec<u8>, ext: &Vec<u8>) -> (r: Vec<u8>)
    ensures
        r@ == with_extension_of(path@, ext@),
{
    let mut base = match crate::module_loader::path_extension(path) {
        Some(e) => {
            proof {
                let p = path@;
                assert(p.len() > 0);
                crate::bytestr::lemma_rfind_from_props(p, crate::bytestr::SLASH, p.len() - 1);
                let start = match crate::bytestr::rfind_from(p, crate::bytestr::SLASH, p.len() - 1) {
                    Some(j) => j + 1,
                    None => 0int,
                };
                let fname = p.subrange(start, p.len() as int);
                assert(fname.len() > 0);
                crate::bytestr::lemma_rfind_from_props(fname, DOT, fname.len() - 1);
                assert(ext_of(p) matches Some(ev) && ev.len() < p.len());
            }
            crate::bytestr::bytes_range(path, 0, path.len() - e.len() - 1)
        },
        None => clone_bytes(path),
    };
    base.push(DOT);
    base.extend_from_slice(ext.as_slice());
    proof {
        assert(base@ =~= with_extension_of(path@, ext@));
    }
    base
}

/// One pending durable write.
pub struct WriteJob {
    pub dest: Vec<u8>,
    pub temp: Vec<u8>,
    pub data: Vec<u8>,
    pub mode: u32,
}

/// What the driver must do next for a durable write.
pub enum WriteAction {
    /// Write `data` to `temp` with `mode`, then rename `temp` over `dest`.
    WriteAndRename { temp: Vec<u8>, dest: Vec<u8>, data: Vec<u8>, mode: u32 },
    /// Create the directory, recursively.
    CreateDir { dir: Vec<u8> },
    /// Report whether the directory exists.
    CheckDir { dir: Vec<u8> },
}

/// What a filesystem operation reported back.
pub struct IoFail {
    /// The failure was of the not-found kind.
    pub is_not_found: bool,
    /// The failure rendered as text.
    pub message: Vec<u8>,
}

/// Where the durable write stands.
pub enum WriteState {
    /// Waiting for the first write-and-rename.
    First(WriteJob),
    /// The first write hit a missing directory; waiting for its creation.
    /// Carries the directory and the first write's error text.
    CreatingDir(WriteJob, Vec<u8>, Vec<u8>),
    /// Waiting for the retried write-and-rename.
    Retry(WriteJob),
    /// Directory creation failed; checking whether it exists after all.
    /// Carries the directory, the creation error and the write error.
    CheckingDir(WriteJob, Vec<u8>, Vec<u8>, Vec<u8>),
}

/// The machine's answer: another action to perform, or the final result,
/// whose error carries the annotated message.
pub enum WriteStep {
    Do(WriteAction, WriteState),
    Done(Result<(), Vec<u8>>),
}

/// Begin a durable write: the temporary sibling gets a random `.tmp`
/// extension derived from the four bytes the driver drew.
pub fn atomic_write_begin(dest: Vec<u8>, data: Vec<u8>, mode: u32, r0: u8, r1: u8, r2: u8, r3: u8) -> (r:
    WriteStep)
    ensures
        ({
            &&& r matches WriteStep::Do(a, s)
            &&& (a matches WriteAction::WriteAndRename { temp, dest: d, data: dt, mode: m }
                && temp@ == with_extension_of(dest@, temp_ext_of(r0, r1, r2, r3)) && d@ == dest@
                && dt@ == data@ && m == mode)
            &&& (s matches WriteState::First(job) && job.dest@ == dest@ && job.temp@
                == with_extension_of(dest@, temp_ext_of(r0, r1, r2, r3)) && job.data@ == data@
                && job.mode == mode)
        }),
{
    let mut ext = two_hex(r0);
    let e1 = two_hex(r1);
    ext.extend_from_slice(e1.as_slice());
    let e2 = two_hex(r2);
    ext.extend_from_slice(e2.as_slice());
    let e3 = two_hex(r3);
    ext.extend_from_slice(e3.as_slice());
    let tmp = str_to_bytes(".tmp");
    ext.extend_from_slice(tmp.as_slice());
    proof {
        assert(ext@ =~= temp_ext_of(r0, r1, r2, r3));
    }
    let temp = with_extension(&dest, &ext);
    let job = WriteJob {
        dest: clone_bytes(&dest),
        temp: clone_bytes(&temp),
        data: clone_bytes(&data),
        mode,
    };
    WriteStep::Do(
        WriteAction::WriteAndRename { temp, dest, data, mode },
        WriteState::First(job),
    )
}

/// Continue after a write-and-rename attempt.  A not-found failure on the
/// first attempt asks for the parent directory; any other failure, and any
/// failure of the retry, ends with the path-annotated error.
pub fn on_write_result(state: WriteState, r: Result<(), IoFail>) -> (step: WriteStep)
    requires
        state is First || state is Retry,
    ensures
        ({
            let job = match state {
                WriteState::First(job) => job,
                WriteState::Retry(job) => job,
                WriteState::CreatingDir(job, _, _) => job,
                WriteState::CheckingDir(job, _, _, _) => job,
            };
            match r {
                Ok(u) => step matches WriteStep::Done(res) && res is Ok,
                Err(e) => {
                    if state is First && e.is_not_found && pop_path(job.dest@) is Some {
                        &&& step matches WriteStep::Do(a, s2)
                        &&& a matches WriteAction::CreateDir { dir } && Some(dir@) == pop_path(
                            job.dest@,
                        )
                        &&& s2 matches WriteState::CreatingDir(job2, dir2, m) && job2.dest@
                            == job.dest@ && job2.temp@ == job.temp@ && job2.data@ == job.data@
                            && job2.mode == job.mode && Some(dir2@) == pop_path(job.dest@) && m@
                            == e.message@
                    } else {
                        step matches WriteStep::Done(res) && res matches Err(msg) && msg@
                            == annotated_of(e.message@, job.dest@)
                    }
                },
            }
        }),
{
    let first = match &state {
        WriteState::First(_) => true,
        _ => false,
    };
    let job = match state {
        WriteState::First(job) => job,
        WriteState::Retry(job) => job,
        WriteState::CreatingDir(job, _, _) => job,
        WriteState::CheckingDir(job, _, _, _) => job,
    };
    match r {
        Ok(_) => WriteStep::Done(Ok(())),
        Err(e) => {
            if first && e.is_not_found {
                match crate::cache_settings::pop_path_exec(&job.dest) {
                    Some(dir) => {
                        let dir2 = clone_bytes(&dir);
                        return WriteStep::Do(
                            WriteAction::CreateDir { dir },
                            WriteState::CreatingDir(job, dir2, e.message),
                        );
                    },
                    None => {
                        let msg = add_file_context_to_err(&job.dest, &e.message);
                        return WriteStep::Done(Err(msg));
                    },
                }
            }
            let msg = add_file_context_to_err(&job.dest, &e.message);
            WriteStep::Done(Err(msg))
        },
    }
}

/// Continue after the directory creation: retry the write, or check
/// whether the directory exists despite the failure.
pub fn on_create_dir_result(state: WriteState, r: Result<(), IoFail>) -> (step: WriteStep)
    requires
        state is CreatingDir,
    ensures
        ({
            let (job, dir, write_msg) = match state {
                WriteState::CreatingDir(job, dir, m) => (job, dir@, m@),
                WriteState::First(job) => (job, Seq::<u8>::empty(), Seq::<u8>::empty()),
                WriteState::Retry(job) => (job, Seq::<u8>::empty(), Seq::<u8>::empty()),
                WriteState::CheckingDir(job, d, _, m) => (job, d@, m@),
            };
            match r {
                Ok(u) => {
                    &&& step matches WriteStep::Do(a, s2)
                    &&& a matches WriteAction::WriteAndRename { temp, dest, data, mode }
                        && temp@ == job.temp@ && dest@ == job.dest@ && data@ == job.data@ && mode
                        == job.mode
                    &&& s2 matches WriteState::Retry(job2) && job2.dest@ == job.dest@
                        && job2.temp@ == job.temp@ && job2.data@ == job.data@ && job2.mode
                        == job.mode
                },
                Err(e) => {
                    &&& step matches WriteStep::Do(a, s2)
                    &&& a matches WriteAction::CheckDir { dir: d } && d@ == dir
                    &&& s2 matches WriteState::CheckingDir(job2, d2, cm, wm) && job2.dest@
                        == job.dest@ && d2@ == dir && cm@ == e.message@ && wm@ == write_msg
                },
            }
        }),
{
    let (job, dir, write_msg) = match state {
        WriteState::CreatingDir(job, dir, m) => (job, dir, m),
        WriteState::First(job) => (job, Vec::new(), Vec::new()),
        WriteState::Retry(job) => (job, Vec::new(), Vec::new()),
        WriteState::CheckingDir(job, d, _, m) => (job, d, m),
    };
    match r {
        Ok(_) => {
            let temp = clone_bytes(&job.temp);
            let dest = clone_bytes(&job.dest);
            let data = clone_bytes(&job.data);
            let mode = job.mode;
            WriteStep::Do(
                WriteAction::WriteAndRename { temp, dest, data, mode },
                WriteState::Retry(job),
            )
        },
        Err(e) => {
            let d2 = clone_bytes(&dir);
            WriteStep::Do(
                WriteAction::CheckDir { dir },
                WriteState::CheckingDir(job, d2, e.message, write_msg),
            )
        },
    }
}

/// Continue after the directory check: a directory that still does not
/// exist is a permission-style error naming it; otherwise the first
/// write failure is surfaced, annotated with the target path.
pub fn on_dir_check(state: WriteState, exists: bool) -> (step: WriteStep)
    requires
        state is CheckingDir,
    ensures
        ({
            let (job, dir, create_msg, write_msg) = match state {
                WriteState::CheckingDir(job, d, cm, wm) => (job, d@, cm@, wm@),
                WriteState::First(job) => (
                    job,
                    Seq::<u8>::empty(),
                    Seq::<u8>::empty(),
                    Seq::<u8>::empty(),
                ),
                WriteState::Retry(job) => (
                    job,
                    Seq::<u8>::empty(),
                    Seq::<u8>::empty(),
                    Seq::<u8>::empty(),
                ),
                WriteState::CreatingDir(job, d, m) => (job, d@, Seq::<u8>::empty(), m@),
            };
            if !exists {
                step matches WriteStep::Done(res) && res matches Err(msg) && msg@ == dir_error_of(
                    create_msg,
                    dir,
                )
            } else {
                step matches WriteStep::Done(res) && res matches Err(msg) && msg@ == annotated_of(
                    write_msg,
                    job.dest@,
                )
            }
        }),
{
    let (job, dir, create_msg, write_msg) = match state {
        WriteState::CheckingDir(job, d, cm, wm) => (job, d, cm, wm),
        WriteState::First(job) => (job, Vec::new(), Vec::new(), Vec::new()),
        WriteState::Retry(job) => (job, Vec::new(), Vec::new(), Vec::new()),
        WriteState::CreatingDir(job, d, m) => (job, d, Vec::new(), m),
    };
    if !exists {
        let mut msg = add_file_context_to_err(&dir, &create_msg);
        let tail = str_to_bytes("\nCheck the permission of the directory.");
        msg.extend_from_slice(tail.as_slice());
        proof {
            assert(msg@ =~= dir_error_of(create_msg@, dir@));
        }
        WriteStep::Done(Err(msg))
    } else {
        let msg = add_file_context_to_err(&job.dest, &write_msg);
        WriteStep::Done(Err(msg))
    }
}

} // verus!
