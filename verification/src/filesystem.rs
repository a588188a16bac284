//! Files on a host volume.
//!
//! A file is an opaque host resource: opening one yields a handle to be
//! closed exactly once, reading or writing goes through host calls whose
//! outcomes only the host knows, and a file's metadata record is variable
//! length — a fixed header plus a name — fetched by probe, allocate and
//! retry.  The host's answers are modeled as scripts carried by the file;
//! the decisions around them are verified for every possible answer.

use vstd::prelude::*;

use crate::boot::{lemma_round8, round8, BootServices};
use crate::codec::{le_at, le_read, lemma_le_at_bound, lemma_pow256_bound};
use crate::path::bytes_to_units;
use crate::pointer::{Dtor, Owned, ReleaseFn};
use crate::query::{
    has_terminal, lemma_term_idx, term_idx, GrowableQuery, QueryEvent, QueryStep,
};
use crate::status::{Status, SUCCESS};
use crate::string::{wf_units, EfiStr};
use crate::time::Time;

verus! {

/// Modes a file may be opened with: read, write, create, as single bits.
#[derive(Clone, Copy, PartialEq, Eq, Structural, Debug)]
pub struct FileModes(pub u64);

impl FileModes {
    /// Open for reading.
    pub fn read() -> (m: FileModes)
        ensures
            m.0 == 0x0000000000000001,
    {
        FileModes(0x0000000000000001)
    }

    /// Open for writing.
    pub fn write() -> (m: FileModes)
        ensures
            m.0 == 0x0000000000000002,
    {
        FileModes(0x0000000000000002)
    }

    /// Create the file if it does not exist.
    pub fn create() -> (m: FileModes)
        ensures
            m.0 == 0x8000000000000000,
    {
        FileModes(0x8000000000000000)
    }

    /// Both sets of modes together.
    pub fn union(self, other: FileModes) -> (m: FileModes)
        ensures
            m.0 == self.0 | other.0,
    {
        FileModes(self.0 | other.0)
    }
}

/// Attributes of a file, as single bits.
#[derive(Clone, Copy, PartialEq, Eq, Structural, Debug)]
pub struct FileAttributes(pub u64);

impl FileAttributes {
    /// No attribute set.
    pub fn empty() -> (a: FileAttributes)
        ensures
            a.0 == 0,
    {
        FileAttributes(0)
    }

    /// The read-only attribute.
    pub fn read_only() -> (a: FileAttributes)
        ensures
            a.0 == 0x0000000000000001,
    {
        FileAttributes(0x0000000000000001)
    }

    /// The hidden attribute.
    pub fn hidden() -> (a: FileAttributes)
        ensures
            a.0 == 0x0000000000000002,
    {
        FileAttributes(0x0000000000000002)
    }

    /// The system attribute.
    pub fn system() -> (a: FileAttributes)
        ensures
            a.0 == 0x0000000000000004,
    {
        FileAttributes(0x0000000000000004)
    }

    /// The directory attribute.
    pub fn directory() -> (a: FileAttributes)
        ensures
            a.0 == 0x0000000000000010,
    {
        FileAttributes(0x0000000000000010)
    }

    /// The archive attribute.
    pub fn archive() -> (a: FileAttributes)
        ensures
            a.0 == 0x0000000000000020,
    {
        FileAttributes(0x0000000000000020)
    }

    /// Both sets of attributes together.
    pub fn union(self, other: FileAttributes) -> (a: FileAttributes)
        ensures
            a.0 == self.0 | other.0,
    {
        FileAttributes(self.0 | other.0)
    }

    /// Whether every bit of `other` is set in `self`.
    pub fn contains(self, other: FileAttributes) -> (r: bool)
        ensures
            r == (self.0 & other.0 == other.0),
    {
        self.0 & other.0 == other.0
    }

    /// Whether the directory bit is set.
    pub open spec fn is_directory(self) -> bool {
        self.0 & 0x0000000000000010 == 0x0000000000000010
    }
}

/// The host's answer to one read call: a status and the bytes it wrote.
#[derive(Debug)]
pub struct ReadResponse {
    pub status: Status,
    pub data: Vec<u8>,
}

/// The host's answer to one write call: a status and how many bytes it
/// accepted.
#[derive(Clone, Copy, PartialEq, Eq, Structural, Debug)]
pub struct WriteResponse {
    pub status: Status,
    pub written: usize,
}

/// The host's scripted answers for one file, consumed front to back, one
/// per call.
#[derive(Debug)]
pub struct FileScript {
    /// Answers to metadata queries.
    pub info_events: Vec<QueryEvent>,
    /// Results of metadata writes.
    pub set_info_results: Vec<Status>,
    /// Answers to reads.
    pub read_responses: Vec<ReadResponse>,
    /// Answers to writes.
    pub write_responses: Vec<WriteResponse>,
    /// Results of position changes.
    pub set_position_results: Vec<Status>,
    /// Results of flushes.
    pub flush_results: Vec<Status>,
    /// Answers to opening files relative to this one.
    pub open_responses: Vec<OpenResponse>,
}

impl FileScript {
    /// A script with no answers left.
    pub fn empty() -> (s: FileScript)
        ensures
            s.info_events@.len() == 0,
            s.set_info_results@.len() == 0,
            s.read_responses@.len() == 0,
            s.write_responses@.len() == 0,
            s.set_position_results@.len() == 0,
            s.flush_results@.len() == 0,
            s.open_responses@.len() == 0,
    {
        FileScript {
            info_events: Vec::new(),
            set_info_results: Vec::new(),
            read_responses: Vec::new(),
            write_responses: Vec::new(),
            set_position_results: Vec::new(),
            flush_results: Vec::new(),
            open_responses: Vec::new(),
        }
    }
}

/// The host's answer to opening a file: a status and, on success, the
/// scripted behaviour of the opened file.
#[derive(Debug)]
pub struct OpenResponse {
    pub status: Status,
    pub script: FileScript,
}

/// An open file: its host handle and the host's scripted answers.
#[derive(Debug)]
pub struct File {
    /// The raw host handle behind this file.
    pub handle: u64,
    /// Answers to metadata queries.
    pub info_events: Vec<QueryEvent>,
    /// Results of metadata writes.
    pub set_info_results: Vec<Status>,
    /// Answers to reads.
    pub read_responses: Vec<ReadResponse>,
    /// Answers to writes.
    pub write_responses: Vec<WriteResponse>,
    /// Results of position changes.
    pub set_position_results: Vec<Status>,
    /// Results of flushes.
    pub flush_results: Vec<Status>,
    /// Answers to opening files relative to this one.
    pub open_responses: Vec<OpenResponse>,
}

/// A volume's filesystem: the host's answers to opening its root.
#[derive(Debug)]
pub struct SimpleFileSystem {
    /// Answers to opening the root directory.
    pub open_responses: Vec<OpenResponse>,
}

impl File {
    /// A file with the given handle and scripted answers.
    pub fn from_script(handle: u64, script: FileScript) -> (f: File)
        ensures
            f.handle == handle,
            f.info_events == script.info_events,
            f.set_info_results == script.set_info_results,
            f.read_responses == script.read_responses,
            f.write_responses == script.write_responses,
            f.set_position_results == script.set_position_results,
            f.flush_results == script.flush_results,
            f.open_responses == script.open_responses,
    {
        File {
            handle,
            info_events: script.info_events,
            set_info_results: script.set_info_results,
            read_responses: script.read_responses,
            write_responses: script.write_responses,
            set_position_results: script.set_position_results,
            flush_results: script.flush_results,
            open_responses: script.open_responses,
        }
    }

    /// The script fields of `a` and `b` agree.
    pub open spec fn script_eq(a: File, b: File) -> bool {
        &&& a.handle == b.handle
        &&& a.info_events@ == b.info_events@
        &&& a.set_info_results@ == b.set_info_results@
        &&& a.read_responses@ == b.read_responses@
        &&& a.write_responses@ == b.write_responses@
        &&& a.set_position_results@ == b.set_position_results@
        &&& a.flush_results@ == b.flush_results@
        &&& a.open_responses@ == b.open_responses@
    }

    /// Opens a file relative to this one.  The name, modes and attributes
    /// are the caller's request; what comes back is the host's next
    /// scripted answer, whatever the request was.  On success the new file
    /// carries a fresh open handle, wrapped so that closing it is owed
    /// exactly once.
    pub fn open(&mut self, bs: &mut BootServices, name: &EfiStr, modes: FileModes, attrs:
        FileAttributes) -> (r: Result<Owned<File>, Status>)
        requires
            old(bs).wf(),
            old(bs).next_handle < u64::MAX,
            old(self).open_responses@.len() >= 1,
        ensures
            final(bs).wf(),
            final(bs).hdr == old(bs).hdr,
            BootServices::pool_eq(*final(bs), *old(bs)),
            final(bs).memory_map_events@ == old(bs).memory_map_events@,
            final(self).open_responses@ == old(self).open_responses@.drop_first(),
            final(self).handle == old(self).handle,
            final(self).info_events@ == old(self).info_events@,
            final(self).set_info_results@ == old(self).set_info_results@,
            final(self).read_responses@ == old(self).read_responses@,
            final(self).write_responses@ == old(self).write_responses@,
            final(self).set_position_results@ == old(self).set_position_results@,
            final(self).flush_results@ == old(self).flush_results@,
            r is Ok <==> old(self).open_responses@[0].status.0 == SUCCESS,
            r is Err ==> r == Err::<Owned<File>, Status>(old(self).open_responses@[0].status)
                && BootServices::handles_eq(*final(bs), *old(bs)),
            r matches Ok(o) ==> ({
                &&& o.value.handle == old(bs).next_handle
                &&& o.raw == old(bs).next_handle
                &&& o.dtor == Dtor::Function(ReleaseFn::CloseHandle)
                &&& o.value.info_events@ == old(self).open_responses@[0].script.info_events@
                &&& o.value.set_info_results@ == old(
                    self,
                ).open_responses@[0].script.set_info_results@
                &&& o.value.read_responses@ == old(self).open_responses@[0].script.read_responses@
                &&& o.value.write_responses@ == old(
                    self,
                ).open_responses@[0].script.write_responses@
                &&& o.value.set_position_results@ == old(
                    self,
                ).open_responses@[0].script.set_position_results@
                &&& o.value.flush_results@ == old(self).open_responses@[0].script.flush_results@
                &&& o.value.open_responses@ == old(self).open_responses@[0].script.open_responses@
                &&& final(bs).next_handle == old(bs).next_handle + 1
                &&& final(bs).open_handles@ == old(bs).open_handles@.push(o.value.handle)
                &&& final(bs).closed_handles@ == old(bs).closed_handles@
                &&& o.can_release(*final(bs))
            }),
    {
        let resp = self.open_responses.remove(0);
        if resp.status.0 == SUCCESS {
            let h = bs.open_handle();
            let file = File::from_script(h, resp.script);
            let o = Owned::new(file, h, Dtor::Function(ReleaseFn::CloseHandle));
            proof {
                assert(bs.open_handles@[bs.open_handles@.len() - 1] == h);
            }
            Ok(o)
        } else {
            Err(resp.status)
        }
    }

    /// Reads from the file into `buf`.  The host's next scripted answer
    /// decides: on success the host's bytes are copied into the front of
    /// `buf` — never more than `buf` holds — and their number is returned;
    /// on failure `buf` is unchanged and the status is surfaced.
    #[verifier::loop_isolation(false)]
    pub fn read(&mut self, buf: &mut Vec<u8>) -> (r: Result<usize, Status>)
        requires
            old(self).read_responses@.len() >= 1,
        ensures
            final(self).read_responses@ == old(self).read_responses@.drop_first(),
            final(self).handle == old(self).handle,
            final(self).info_events@ == old(self).info_events@,
            final(self).set_info_results@ == old(self).set_info_results@,
            final(self).write_responses@ == old(self).write_responses@,
            final(self).set_position_results@ == old(self).set_position_results@,
            final(self).flush_results@ == old(self).flush_results@,
            final(self).open_responses@ == old(self).open_responses@,
            final(buf)@.len() == old(buf)@.len(),
            ({
                let resp = old(self).read_responses@[0];
                if resp.status.0 == SUCCESS {
                    let n = if resp.data@.len() <= old(buf)@.len() {
                        resp.data@.len() as int
                    } else {
                        old(buf)@.len() as int
                    };
                    &&& r == Ok::<usize, Status>(n as usize)
                    &&& final(buf)@ =~= resp.data@.take(n) + old(buf)@.skip(n)
                } else {
                    &&& r == Err::<usize, Status>(resp.status)
                    &&& final(buf)@ == old(buf)@
                }
            }),
    {
        let resp = self.read_responses.remove(0);
        if resp.status.0 == SUCCESS {
            let n = if resp.data.len() <= buf.len() {
                resp.data.len()
            } else {
                buf.len()
            };
            let mut j: usize = 0;
            while j < n
                invariant
                    j <= n,
                    n <= buf@.len(),
                    n <= resp.data@.len(),
                    buf@.len() == old(buf)@.len(),
                    forall|k: int| 0 <= k < j ==> buf@[k] == resp.data@[k],
                    forall|k: int| j <= k < buf@.len() ==> buf@[k] == old(buf)@[k],
                decreases n - j,
            {
                buf.set(j, resp.data[j]);
                j += 1;
            }
            Ok(n)
        } else {
            Err(resp.status)
        }
    }

    /// Writes `buf` to the file.  The host's next scripted answer decides:
    /// on success the number of bytes the host accepted is returned — never
    /// more than `buf` holds, and short only when the host ran out of room;
    /// on failure the status is surfaced.
    pub fn write(&mut self, buf: &Vec<u8>) -> (r: Result<usize, Status>)
        requires
            old(self).write_responses@.len() >= 1,
        ensures
            final(self).write_responses@ == old(self).write_responses@.drop_first(),
            final(self).handle == old(self).handle,
            final(self).info_events@ == old(self).info_events@,
            final(self).set_info_results@ == old(self).set_info_results@,
            final(self).read_responses@ == old(self).read_responses@,
            final(self).set_position_results@ == old(self).set_position_results@,
            final(self).flush_results@ == old(self).flush_results@,
            final(self).open_responses@ == old(self).open_responses@,
            ({
                let resp = old(self).write_responses@[0];
                if resp.status.0 == SUCCESS {
                    r == Ok::<usize, Status>(
                        if resp.written <= buf@.len() {
                            resp.written
                        } else {
                            buf@.len() as usize
                        },
                    )
                } else {
                    r == Err::<usize, Status>(resp.status)
                }
            }),
    {
        let resp = self.write_responses.remove(0);
        if resp.status.0 == SUCCESS {
            let n = if resp.written <= buf.len() {
                resp.written
            } else {
                buf.len()
            };
            Ok(n)
        } else {
            Err(resp.status)
        }
    }

    /// Moves the file's position.  The host's next scripted result is
    /// surfaced: success, or the failure unchanged.
    pub fn set_position(&mut self, position: u64) -> (r: Result<(), Status>)
        requires
            old(self).set_position_results@.len() >= 1,
        ensures
            final(self).set_position_results@ == old(self).set_position_results@.drop_first(),
            final(self).handle == old(self).handle,
            final(self).info_events@ == old(self).info_events@,
            final(self).set_info_results@ == old(self).set_info_results@,
            final(self).read_responses@ == old(self).read_responses@,
            final(self).write_responses@ == old(self).write_responses@,
            final(self).flush_results@ == old(self).flush_results@,
            final(self).open_responses@ == old(self).open_responses@,
            old(self).set_position_results@[0].0 == SUCCESS ==> r == Ok::<(), Status>(()),
            old(self).set_position_results@[0].0 != SUCCESS ==> r == Err::<(), Status>(
                old(self).set_position_results@[0],
            ),
    {
        let st = self.set_position_results.remove(0);
        st.err_or(())
    }

    /// Flushes all modified data to the device.  The host's next scripted
    /// result is surfaced: success, or the failure unchanged.
    pub fn flush(&mut self) -> (r: Result<(), Status>)
        requires
            old(self).flush_results@.len() >= 1,
        ensures
            final(self).flush_results@ == old(self).flush_results@.drop_first(),
            final(self).handle == old(self).handle,
            final(self).info_events@ == old(self).info_events@,
            final(self).set_info_results@ == old(self).set_info_results@,
            final(self).read_responses@ == old(self).read_responses@,
            final(self).write_responses@ == old(self).write_responses@,
            final(self).set_position_results@ == old(self).set_position_results@,
            final(self).open_responses@ == old(self).open_responses@,
            old(self).flush_results@[0].0 == SUCCESS ==> r == Ok::<(), Status>(()),
            old(self).flush_results@[0].0 != SUCCESS ==> r == Err::<(), Status>(
                old(self).flush_results@[0],
            ),
    {
        let st = self.flush_results.remove(0);
        st.err_or(())
    }
}

impl SimpleFileSystem {
    /// Opens the root directory of the volume.  The host's next scripted
    /// answer decides; on success the root file carries a fresh open
    /// handle, wrapped so that closing it is owed exactly once.
    pub fn open(&mut self, bs: &mut BootServices) -> (r: Result<Owned<File>, Status>)
        requires
            old(bs).wf(),
            old(bs).next_handle < u64::MAX,
            old(self).open_responses@.len() >= 1,
        ensures
            final(bs).wf(),
            final(bs).hdr == old(bs).hdr,
            BootServices::pool_eq(*final(bs), *old(bs)),
            final(bs).memory_map_events@ == old(bs).memory_map_events@,
            final(self).open_responses@ == old(self).open_responses@.drop_first(),
            r is Ok <==> old(self).open_responses@[0].status.0 == SUCCESS,
            r is Err ==> r == Err::<Owned<File>, Status>(old(self).open_responses@[0].status)
                && BootServices::handles_eq(*final(bs), *old(bs)),
            r matches Ok(o) ==> ({
                &&& o.value.handle == old(bs).next_handle
                &&& o.raw == old(bs).next_handle
                &&& o.dtor == Dtor::Function(ReleaseFn::CloseHandle)
                &&& o.value.info_events@ == old(self).open_responses@[0].script.info_events@
                &&& o.value.set_info_results@ == old(
                    self,
                ).open_responses@[0].script.set_info_results@
                &&& o.value.read_responses@ == old(self).open_responses@[0].script.read_responses@
                &&& o.value.write_responses@ == old(
                    self,
                ).open_responses@[0].script.write_responses@
                &&& o.value.set_position_results@ == old(
                    self,
                ).open_responses@[0].script.set_position_results@
                &&& o.value.flush_results@ == old(self).open_responses@[0].script.flush_results@
                &&& o.value.open_responses@ == old(self).open_responses@[0].script.open_responses@
                &&& final(bs).next_handle == old(bs).next_handle + 1
                &&& final(bs).open_handles@ == old(bs).open_handles@.push(o.value.handle)
                &&& final(bs).closed_handles@ == old(bs).closed_handles@
                &&& o.can_release(*final(bs))
            }),
    {
        let resp = self.open_responses.remove(0);
        if resp.status.0 == SUCCESS {
            let h = bs.open_handle();
            let file = File::from_script(h, resp.script);
            let o = Owned::new(file, h, Dtor::Function(ReleaseFn::CloseHandle));
            proof {
                assert(bs.open_handles@[bs.open_handles@.len() - 1] == h);
            }
            Ok(o)
        } else {
            Err(resp.status)
        }
    }
}

/// Why creating a file failed.
#[derive(Clone, Copy, PartialEq, Eq, Structural, Debug)]
pub enum FileCreateError {
    /// Opening with create modes failed with this status.
    CreateFailed(Status),
    /// The file opened but could not be truncated.
    TruncateFailed(FileSetLenError),
}

/// Why changing a file's length failed.
#[derive(Clone, Copy, PartialEq, Eq, Structural, Debug)]
pub enum FileSetLenError {
    /// The current metadata could not be read.
    GetInfoFailed(Status),
    /// The file is a directory.
    FileIsDirectory,
    /// The updated metadata could not be written back.
    SetInfoFailed(Status),
}


/// The pool bytes that hold a metadata record whose name has `name`
/// 16-bit units: the 0x50-byte header, the name, padded to 8 bytes.
pub open spec fn info_layout(name: int) -> int {
    round8(0x50 + 2 * name)
}

/// The layout implied by a host-reported record length.
pub open spec fn info_cap_of(new_len: int) -> int {
    info_layout((new_len - 0x50) / 2)
}

/// The buffer capacity in effect at attempt `i` of a metadata query.
pub open spec fn info_cap_at(s: Seq<QueryEvent>, i: int) -> int
    decreases i,
{
    if i <= 0 {
        info_layout(1)
    } else {
        info_cap_of(s[i - 1].retry_len())
    }
}

/// The pool room a metadata query script takes: every attempt's buffer
/// through the terminal answer, plus room to straighten the final buffer
/// to its exact layout.
pub open spec fn info_demand(s: Seq<QueryEvent>, cap: int) -> int
    decreases s.len(),
{
    if s.len() == 0 {
        0
    } else if s[0].is_retry() {
        round8(cap) + info_demand(s.drop_first(), info_cap_of(s[0].retry_len()))
    } else if s[0] matches QueryEvent::Success { .. } {
        round8(cap) + info_cap_of(s[0].success_data().len() as int)
    } else {
        round8(cap)
    }
}

/// Whether a byte buffer holds a well-formed metadata record: the fixed
/// header, then a whole number of name units ending in NUL with no NUL
/// before it.
pub open spec fn info_bytes_ok(b: Seq<u8>) -> bool {
    &&& b.len() >= 0x52
    &&& (b.len() as int - 0x50) % 2 == 0
    &&& wf_units(bytes_to_units(b.skip(0x50)))
}

/// Whether a metadata answer script is one a sane host could give: every
/// retry reports a length that at least covers the header and one name
/// unit, and a success writes a well-formed record that fits the buffer.
pub open spec fn info_script_ok(s: Seq<QueryEvent>) -> bool {
    let t = term_idx(s);
    &&& forall|j: int|
        0 <= j < t ==> 0x52 <= (#[trigger] s[j]).retry_len() && s[j].retry_len() + 8
            <= usize::MAX
    &&& ((t < s.len() && s[t] matches QueryEvent::Success { .. }) ==> (
    s[t].success_data().len() <= info_cap_at(s, t) && s[t].success_data().len() + 0x60
        <= usize::MAX && info_bytes_ok(s[t].success_data())))
}

/// The metadata query's demand is never negative.
pub proof fn lemma_info_demand_nonneg(s: Seq<QueryEvent>, cap: int)
    requires
        cap >= 0,
        forall|j: int| 0 <= j < term_idx(s) ==> (#[trigger] s[j]).retry_len() >= 0x52,
        (term_idx(s) < s.len() && s[term_idx(s)] matches QueryEvent::Success { .. })
            ==> s[term_idx(s)].success_data().len() >= 0x52,
    ensures
        info_demand(s, cap) >= 0,
    decreases s.len(),
{
    lemma_round8(cap);
    lemma_term_idx(s);
    if s.len() > 0 && s[0].is_retry() {
        assert(term_idx(s) >= 1);
        assert(s[0].retry_len() >= 0x52);
        lemma_round8(0x50 + 2 * ((s[0].retry_len() - 0x50) / 2));
        let d = s.drop_first();
        lemma_term_idx(d);
        assert(term_idx(s) == 1 + term_idx(d));
        assert forall|j: int| 0 <= j < term_idx(d) implies (#[trigger] d[j]).retry_len()
            >= 0x52 by {
            assert(s[j + 1] == d[j]);
            assert(s[j + 1].retry_len() >= 0x52);
        }
        if term_idx(d) < d.len() && d[term_idx(d)] matches QueryEvent::Success { .. } {
            assert(d[term_idx(d)] == s[term_idx(s)]);
        }
        lemma_info_demand_nonneg(d, info_cap_of(s[0].retry_len()));
    } else if s.len() > 0 && s[0] matches QueryEvent::Success { .. } {
        assert(term_idx(s) == 0);
        lemma_round8(0x50 + 2 * ((s[0].success_data().len() as int - 0x50) / 2));
    }
}

/// Whether a file's scripts can serve one whole truncation: a metadata
/// query that terminates, within the protocol's bounds, and one metadata
/// write answer.
pub open spec fn has_terminal_info(script: FileScript) -> bool {
    &&& has_terminal(script.info_events@)
    &&& info_script_ok(script.info_events@)
    &&& script.set_info_results@.len() >= 1
}

/// The time fields encoded at `off` in `b`.
pub open spec fn time_at(b: Seq<u8>, off: int) -> Time {
    Time {
        year: le_at(b, off, 2) as u16,
        month: b[off + 2],
        day: b[off + 3],
        hour: b[off + 4],
        minute: b[off + 5],
        second: b[off + 6],
        pad1: b[off + 7],
        nanosecond: le_at(b, off + 8, 4) as u32,
        time_zone: (le_at(b, off + 12, 2) as u16) as i16,
        daylight: b[off + 14],
        pad2: b[off + 15],
    }
}

/// A file's metadata: the fixed header fields and the name.
#[derive(Debug)]
pub struct FileInfo {
    pub size: u64,
    pub file_size: u64,
    pub physical_size: u64,
    pub create_time: Time,
    pub last_access_time: Time,
    pub modification_time: Time,
    pub attribute: FileAttributes,
    pub file_name: EfiStr,
}

/// Whether `info` holds exactly the fields encoded in the record bytes
/// `b`: three 64-bit sizes, three times, the attribute word, then the name
/// units.
pub open spec fn info_matches(info: FileInfo, b: Seq<u8>) -> bool {
    &&& info.size == le_at(b, 0, 8) as u64
    &&& info.file_size == le_at(b, 8, 8) as u64
    &&& info.physical_size == le_at(b, 16, 8) as u64
    &&& info.create_time == time_at(b, 24)
    &&& info.last_access_time == time_at(b, 40)
    &&& info.modification_time == time_at(b, 56)
    &&& info.attribute == FileAttributes(le_at(b, 72, 8) as u64)
    &&& info.file_name@ == bytes_to_units(b.skip(0x50))
}

impl FileInfo {
    /// The file's logical size in bytes.
    pub fn file_size(&self) -> (r: u64)
        ensures
            r == self.file_size,
    {
        self.file_size
    }

    /// Sets the file's logical size.
    pub fn set_file_size(&mut self, v: u64)
        ensures
            *final(self) == (FileInfo { file_size: v, ..*old(self) }),
    {
        self.file_size = v;
    }

    /// Leases out the file's logical size for updating in place.
    pub fn file_size_mut(&mut self) -> (r: &mut u64)
        ensures
            *r == old(self).file_size,
            *final(self) == (FileInfo { file_size: *final(r), ..*old(self) }),
    {
        &mut self.file_size
    }

    /// The bytes the file occupies on the device.
    pub fn physical_size(&self) -> (r: u64)
        ensures
            r == self.physical_size,
    {
        self.physical_size
    }

    /// When the file was created.
    pub fn create_time(&self) -> (r: &Time)
        ensures
            *r == self.create_time,
    {
        &self.create_time
    }

    /// Sets the creation time; all zero means "leave unchanged".
    pub fn set_create_time(&mut self, v: Time)
        ensures
            *final(self) == (FileInfo { create_time: v, ..*old(self) }),
    {
        self.create_time = v;
    }

    /// Leases out the creation time for updating in place.
    pub fn create_time_mut(&mut self) -> (r: &mut Time)
        ensures
            *r == old(self).create_time,
            *final(self) == (FileInfo { create_time: *final(r), ..*old(self) }),
    {
        &mut self.create_time
    }

    /// When the file was last read.
    pub fn last_accessed(&self) -> (r: &Time)
        ensures
            *r == self.last_access_time,
    {
        &self.last_access_time
    }

    /// Sets the last-access time; all zero means "leave unchanged".
    pub fn set_last_accessed(&mut self, v: Time)
        ensures
            *final(self) == (FileInfo { last_access_time: v, ..*old(self) }),
    {
        self.last_access_time = v;
    }

    /// Leases out the last-access time for updating in place.
    pub fn last_accessed_mut(&mut self) -> (r: &mut Time)
        ensures
            *r == old(self).last_access_time,
            *final(self) == (FileInfo { last_access_time: *final(r), ..*old(self) }),
    {
        &mut self.last_access_time
    }

    /// When the file was last written.
    pub fn last_modified(&self) -> (r: &Time)
        ensures
            *r == self.modification_time,
    {
        &self.modification_time
    }

    /// Sets the modification time; all zero means "leave unchanged".
    pub fn set_last_modified(&mut self, v: Time)
        ensures
            *final(self) == (FileInfo { modification_time: v, ..*old(self) }),
    {
        self.modification_time = v;
    }

    /// Leases out the modification time for updating in place.
    pub fn last_modified_mut(&mut self) -> (r: &mut Time)
        ensures
            *r == old(self).modification_time,
            *final(self) == (FileInfo { modification_time: *final(r), ..*old(self) }),
    {
        &mut self.modification_time
    }

    /// The file's attributes.
    pub fn attributes(&self) -> (r: FileAttributes)
        ensures
            r == self.attribute,
    {
        self.attribute
    }

    /// Sets the file's attributes.
    pub fn set_attributes(&mut self, v: FileAttributes)
        ensures
            *final(self) == (FileInfo { attribute: v, ..*old(self) }),
    {
        self.attribute = v;
    }

    /// Leases out the attributes for updating in place.
    pub fn attributes_mut(&mut self) -> (r: &mut FileAttributes)
        ensures
            *r == old(self).attribute,
            *final(self) == (FileInfo { attribute: *final(r), ..*old(self) }),
    {
        &mut self.attribute
    }

    /// The file's name.
    pub fn file_name(&self) -> (r: &EfiStr)
        ensures
            *r == self.file_name,
    {
        &self.file_name
    }

    /// The pool bytes that hold a record whose name has `name` units: the
    /// 0x50-byte header plus the name, padded to 8 bytes.
    pub fn memory_layout(name: usize) -> (r: usize)
        requires
            2 * name + 0x58 <= usize::MAX,
        ensures
            r == info_layout(name as int),
            0x50 + 2 * name <= r,
            (r as int) % 8 == 0,
    {
        let sz = 0x50 + 2 * name;
        let rem = sz % 8;
        proof {
            lemma_round8(sz as int);
        }
        if rem == 0 {
            sz
        } else {
            sz + (8 - rem)
        }
    }
}

/// Decodes a metadata record from its bytes, field by field, with
/// unaligned little-endian reads.
#[verifier::loop_isolation(false)]
fn parse_file_info(bytes: &Vec<u8>) -> (info: FileInfo)
    requires
        info_bytes_ok(bytes@),
    ensures
        info_matches(info, bytes@),
        info.file_name.wf(),
{
    proof {
        lemma_pow256_bound();
        lemma_le_at_bound(bytes@, 0, 8);
        lemma_le_at_bound(bytes@, 8, 8);
        lemma_le_at_bound(bytes@, 16, 8);
        lemma_le_at_bound(bytes@, 72, 8);
    }
    let size = le_read(bytes, 0, 8);
    let file_size = le_read(bytes, 8, 8);
    let physical_size = le_read(bytes, 16, 8);
    let create_time = parse_time(bytes, 24);
    let last_access_time = parse_time(bytes, 40);
    let modification_time = parse_time(bytes, 56);
    let attribute = FileAttributes(le_read(bytes, 72, 8));
    let n = bytes.len();
    let count = (n - 0x50) / 2;
    let ghost name_bytes = bytes@.skip(0x50);
    let mut units: Vec<u16> = Vec::new();
    let mut i: usize = 0;
    while i < count
        invariant
            i <= count,
            count == (n - 0x50) as int / 2,
            n == bytes@.len(),
            2 * count == n - 0x50,
            units@ =~= bytes_to_units(name_bytes).take(i as int),
        decreases count - i,
    {
        proof {
            assert(name_bytes[2 * (i as int)] == bytes@[0x50 + 2 * (i as int)]);
            assert(name_bytes[2 * (i as int) + 1] == bytes@[0x50 + 2 * (i as int) + 1]);
        }
        let lo = bytes[0x50 + 2 * i];
        let hi = bytes[0x50 + 2 * i + 1];
        units.push((lo as u16) + 0x100 * (hi as u16));
        proof {
            assert(bytes_to_units(name_bytes)[i as int] == (lo + 0x100 * hi) as u16);
        }
        i += 1;
    }
    proof {
        assert(units@ =~= bytes_to_units(name_bytes));
        vstd::arithmetic::div_mod::lemma_fundamental_div_mod(n as int - 0x50, 2);
    }
    let file_name = match EfiStr::from_units(units) {
        Some(v) => v,
        None => {
            proof {
                assert(false);
            }
            EfiStr::empty()
        },
    };
    FileInfo {
        size,
        file_size,
        physical_size,
        create_time,
        last_access_time,
        modification_time,
        attribute,
        file_name,
    }
}

/// Decodes the time fields at `off`.
fn parse_time(bytes: &Vec<u8>, off: usize) -> (time: Time)
    requires
        off + 16 <= bytes@.len(),
    ensures
        time == time_at(bytes@, off as int),
{
    let n = bytes.len();
    proof {
        lemma_pow256_bound();
        lemma_le_at_bound(bytes@, off as int, 2);
        lemma_le_at_bound(bytes@, off + 8, 4);
        lemma_le_at_bound(bytes@, off + 12, 2);
    }
    Time {
        year: le_read(bytes, off, 2) as u16,
        month: bytes[off + 2],
        day: bytes[off + 3],
        hour: bytes[off + 4],
        minute: bytes[off + 5],
        second: bytes[off + 6],
        pad1: bytes[off + 7],
        nanosecond: le_read(bytes, off + 8, 4) as u32,
        time_zone: (le_read(bytes, off + 12, 2) as u16) as i16,
        daylight: bytes[off + 14],
        pad2: bytes[off + 15],
    }
}


impl File {
    /// Fetches the file's metadata by probe, allocate and retry.
    ///
    /// A pool buffer is allocated at the layout guessed for a one-unit
    /// name; on "buffer too small" it is freed and the layout implied by
    /// the host-reported length is tried instead.  When the host's record
    /// arrives, the buffer is straightened to the record's exact layout if
    /// the two differ — a fresh allocation, a copy, and a free — then the
    /// record is decoded field by field and its buffer freed: the pool's
    /// live set ends exactly where it began, whichever attempt failed or
    /// succeeded.
    #[verifier::loop_isolation(false)]
    #[verifier::rlimit(60)]
    pub fn info(&mut self, bs: &mut BootServices) -> (r: Result<FileInfo, Status>)
        requires
            old(bs).wf(),
            has_terminal(old(self).info_events@),
            info_script_ok(old(self).info_events@),
            old(bs).pool_next + info_demand(old(self).info_events@, info_layout(1)) <= old(
                bs,
            ).pool_mem@.len(),
        ensures
            final(bs).wf(),
            final(bs).hdr == old(bs).hdr,
            BootServices::handles_eq(*final(bs), *old(bs)),
            final(bs).memory_map_events@ == old(bs).memory_map_events@,
            final(bs).pool_live@ == old(bs).pool_live@,
            final(bs).pool_mem@.len() == old(bs).pool_mem@.len(),
            final(self).handle == old(self).handle,
            final(self).set_info_results@ == old(self).set_info_results@,
            final(self).read_responses@ == old(self).read_responses@,
            final(self).write_responses@ == old(self).write_responses@,
            final(self).set_position_results@ == old(self).set_position_results@,
            final(self).flush_results@ == old(self).flush_results@,
            final(self).open_responses@ == old(self).open_responses@,
            ({
                let s = old(self).info_events@;
                let t = term_idx(s);
                &&& final(self).info_events@ == s.skip(t + 1)
                &&& (s[t] matches QueryEvent::Success { data, .. } ==> (r matches Ok(info)
                    && info_matches(info, data@) && info.file_name.wf()))
                &&& (s[t] matches QueryEvent::Failed { status } ==> r == Err::<FileInfo, Status>(
                    status,
                ) && final(bs).pool_mem@ == old(bs).pool_mem@)
            }),
    {
        let ghost s = old(self).info_events@;
        let ghost t = term_idx(s);
        proof {
            lemma_term_idx(s);
            assert(s.skip(0) =~= s);
        }
        let mut q = GrowableQuery::new(FileInfo::memory_layout(1));
        let ghost mut k: int = 0;
        loop
            invariant
                bs.wf(),
                0 <= k <= t,
                self.info_events@ == s.skip(k),
                self.handle == old(self).handle,
                self.set_info_results@ == old(self).set_info_results@,
                self.read_responses@ == old(self).read_responses@,
                self.write_responses@ == old(self).write_responses@,
                self.set_position_results@ == old(self).set_position_results@,
                self.flush_results@ == old(self).flush_results@,
                self.open_responses@ == old(self).open_responses@,
                q.capacity == info_cap_at(s, k),
                q.capacity >= 0x58,
                (q.capacity as int) % 8 == 0,
                bs.hdr == old(bs).hdr,
                BootServices::handles_eq(*bs, *old(bs)),
                bs.memory_map_events@ == old(bs).memory_map_events@,
                bs.pool_mem@ == old(bs).pool_mem@,
                bs.pool_live@ == old(bs).pool_live@,
                bs.pool_next + info_demand(s.skip(k), info_cap_at(s, k)) <= bs.pool_mem@.len(),
            decreases t - k,
        {
            let cap = q.capacity;
            proof {
                assert(s.skip(k).len() > 0);
                assert(s.skip(k)[0] == s[k]);
                lemma_round8(cap as int);
                if s[k].is_retry() {
                    assert(k < t);
                    assert(s[k].retry_len() >= 0x52);
                    lemma_round8(0x50 + 2 * ((s[k].retry_len() - 0x50) / 2));
                    let d = s.skip(k).drop_first();
                    assert(d =~= s.skip(k + 1));
                    crate::query::lemma_term_idx_skip(s, k + 1);
                    lemma_term_idx(d);
                    assert forall|j: int| 0 <= j < term_idx(d) implies (
                    #[trigger] d[j]).retry_len() >= 0x52 by {
                        assert(d[j] == s[k + 1 + j]);
                        assert(k + 1 + j < t);
                    }
                    if term_idx(d) < d.len() && d[term_idx(d)] matches QueryEvent::Success {
                        ..
                    } {
                        assert(d[term_idx(d)] == s[t]);
                    }
                    lemma_info_demand_nonneg(d, info_cap_of(s[k].retry_len()));
                } else if s[k] matches QueryEvent::Success { .. } {
                    assert(k == t);
                    lemma_round8(0x50 + 2 * ((s[k].success_data().len() as int - 0x50) / 2));
                }
            }
            let base = match bs.allocate_pool(cap) {
                Ok(b) => b,
                Err(e) => {
                    return Err(e);
                },
            };
            let ev = self.info_events.remove(0);
            proof {
                assert(ev == s[k]);
                assert(self.info_events@ =~= s.skip(k + 1));
            }
            let step = q.absorb(ev);
            match step {
                QueryStep::Retry => {
                    proof {
                        if k == t {
                            assert(!s[t].is_retry());
                        }
                        assert(bs.pool_live@.last().0 == base);
                    }
                    let nl = q.capacity;
                    q.capacity = FileInfo::memory_layout((nl - 0x50) / 2);
                    let freed = bs.free_pool(base);
                    proof {
                        assert(freed is Ok);
                        assert(bs.pool_live@ =~= old(bs).pool_live@);
                        k = k + 1;
                        lemma_round8(0x50 + 2 * ((nl as int - 0x50) / 2));
                    }
                },
                QueryStep::Done { data, key: _ } => {
                    proof {
                        if k < t {
                            assert(s[k].is_retry());
                        }
                        assert(k == t);
                        assert(data@ == s[t].success_data());
                        assert(info_bytes_ok(data@));
                        assert(data@.len() <= cap);
                    }
                    bs.pool_write(base, data.as_slice());
                    let len = data.len();
                    let name = (len - 0x50) / 2;
                    let new_cap = FileInfo::memory_layout(name);
                    proof {
                        vstd::arithmetic::div_mod::lemma_fundamental_div_mod(
                            len as int - 0x50,
                            2,
                        );
                        assert(2 * (name as int) == len - 0x50);
                        assert(len <= new_cap);
                        assert(new_cap == info_cap_of(len as int));
                        lemma_round8(0x50 + 2 * (name as int));
                    }
                    let mut fbase = base;
                    if new_cap != cap {
                        // The record's exact layout differs from the
                        // buffer's: move it into a buffer of that layout.
                        let b2 = match bs.allocate_pool(new_cap) {
                            Ok(b) => b,
                            Err(e) => {
                                proof {
                                    assert(false);
                                }
                                return Err(e);
                            },
                        };
                        let bytes = bs.pool_read(base, len);
                        bs.pool_write(b2, bytes.as_slice());
                        proof {
                            let n = bs.pool_live@.len();
                            assert(bs.pool_live@[n - 2].0 == base);
                            assert(bs.pool_live@[n - 1].0 == b2);
                        }
                        let freed = bs.free_pool(base);
                        proof {
                            assert(freed is Ok);
                            let i = choose|i: int|
                                0 <= i < old(bs).pool_live@.push((base, cap)).push(
                                    (b2, new_cap),
                                ).len() && (#[trigger] old(bs).pool_live@.push((base, cap)).push(
                                    (b2, new_cap),
                                )[i]).0 == base;
                            assert(bs.pool_live@ =~= old(bs).pool_live@.push((b2, new_cap)));
                        }
                        fbase = b2;
                    }
                    proof {
                        assert(bs.pool_live@.last().0 == fbase);
                        assert(bs.pool_mem@.subrange(fbase as int, fbase + len) =~= data@);
                    }
                    let bytes = bs.pool_read(fbase, len);
                    proof {
                        assert(bytes@ =~= data@);
                    }
                    let info = parse_file_info(&bytes);
                    let freed = bs.free_pool(fbase);
                    proof {
                        assert(freed is Ok);
                        assert(bs.pool_live@ =~= old(bs).pool_live@);
                    }
                    return Ok(info);
                },
                QueryStep::Fail { status } => {
                    proof {
                        if k < t {
                            assert(s[k].is_retry());
                        }
                        assert(k == t);
                        assert(bs.pool_live@.last().0 == base);
                    }
                    let freed = bs.free_pool(base);
                    proof {
                        assert(freed is Ok);
                        assert(bs.pool_live@ =~= old(bs).pool_live@);
                        assert(bs.pool_mem@ =~= old(bs).pool_mem@);
                    }
                    return Err(status);
                },
            }
        }
    }
}


impl File {
    /// Sets the file's logical length.
    ///
    /// The current metadata is fetched first; a file that turns out to be
    /// a directory is refused.  Otherwise the record is updated — the new
    /// size, and all three times zeroed so the host leaves them alone —
    /// and handed back to the host, whose scripted verdict decides the
    /// outcome.  Each failure is wrapped so the caller sees which step
    /// broke.
    pub fn set_len(&mut self, bs: &mut BootServices, len: u64) -> (r: Result<(), FileSetLenError>)
        requires
            old(bs).wf(),
            has_terminal(old(self).info_events@),
            info_script_ok(old(self).info_events@),
            old(bs).pool_next + info_demand(old(self).info_events@, info_layout(1)) <= old(
                bs,
            ).pool_mem@.len(),
            old(self).set_info_results@.len() >= 1,
        ensures
            final(bs).wf(),
            final(bs).hdr == old(bs).hdr,
            BootServices::handles_eq(*final(bs), *old(bs)),
            final(bs).memory_map_events@ == old(bs).memory_map_events@,
            final(bs).pool_live@ == old(bs).pool_live@,
            final(bs).pool_mem@.len() == old(bs).pool_mem@.len(),
            final(self).handle == old(self).handle,
            final(self).read_responses@ == old(self).read_responses@,
            final(self).write_responses@ == old(self).write_responses@,
            final(self).set_position_results@ == old(self).set_position_results@,
            final(self).flush_results@ == old(self).flush_results@,
            final(self).open_responses@ == old(self).open_responses@,
            ({
                let s = old(self).info_events@;
                let t = term_idx(s);
                &&& final(self).info_events@ == s.skip(t + 1)
                &&& (s[t] matches QueryEvent::Failed { status } ==> r == Err::<
                    (),
                    FileSetLenError,
                >(FileSetLenError::GetInfoFailed(status)) && final(self).set_info_results@ == old(
                    self,
                ).set_info_results@)
                &&& (s[t] matches QueryEvent::Success { data, .. } ==> ({
                    if FileAttributes(le_at(data@, 72, 8) as u64).is_directory() {
                        &&& r == Err::<(), FileSetLenError>(FileSetLenError::FileIsDirectory)
                        &&& final(self).set_info_results@ == old(self).set_info_results@
                    } else {
                        let st = old(self).set_info_results@[0];
                        &&& final(self).set_info_results@ == old(
                            self,
                        ).set_info_results@.drop_first()
                        &&& (st.0 == SUCCESS ==> r == Ok::<(), FileSetLenError>(()))
                        &&& (st.0 != SUCCESS ==> r == Err::<(), FileSetLenError>(
                            FileSetLenError::SetInfoFailed(st),
                        ))
                    }
                }))
            }),
    {
        // Load the current record.
        let mut info = match self.info(bs) {
            Ok(v) => v,
            Err(e) => {
                return Err(FileSetLenError::GetInfoFailed(e));
            },
        };
        if info.attributes().contains(FileAttributes::directory()) {
            return Err(FileSetLenError::FileIsDirectory);
        }
        // Update the record: the new size, and zeroed times so the host
        // leaves them unchanged.
        info.set_file_size(len);
        info.set_create_time(Time::zeroed());
        info.set_last_accessed(Time::zeroed());
        info.set_last_modified(Time::zeroed());
        // Hand it back to the host.
        let st = self.set_info_results.remove(0);
        if st.0 != SUCCESS {
            Err(FileSetLenError::SetInfoFailed(st))
        } else {
            Ok(())
        }
    }

    /// Creates a file relative to this one: opens it with read, write and
    /// create modes, then truncates it to length zero.
    ///
    /// Failure to open is reported as such; a file that opened but could
    /// not be truncated is closed again — its handle is not leaked — and
    /// the truncation failure is reported.
    pub fn create(&mut self, bs: &mut BootServices, name: &EfiStr, attrs: FileAttributes) -> (r:
        Result<Owned<File>, FileCreateError>)
        requires
            old(bs).wf(),
            old(bs).next_handle < u64::MAX,
            old(self).open_responses@.len() >= 1,
            old(self).open_responses@[0].status.0 == SUCCESS ==> ({
                let script = old(self).open_responses@[0].script;
                &&& has_terminal(script.info_events@)
                &&& info_script_ok(script.info_events@)
                &&& old(bs).pool_next + info_demand(script.info_events@, info_layout(1)) <= old(
                    bs,
                ).pool_mem@.len()
                &&& script.set_info_results@.len() >= 1
            }),
        ensures
            final(bs).wf(),
            final(bs).hdr == old(bs).hdr,
            final(bs).memory_map_events@ == old(bs).memory_map_events@,
            final(bs).pool_live@ == old(bs).pool_live@,
            final(bs).pool_mem@.len() == old(bs).pool_mem@.len(),
            final(self).open_responses@ == old(self).open_responses@.drop_first(),
            ({
                let resp = old(self).open_responses@[0];
                let script = resp.script;
                let s = script.info_events@;
                let t = term_idx(s);
                if resp.status.0 != SUCCESS {
                    &&& r == Err::<Owned<File>, FileCreateError>(
                        FileCreateError::CreateFailed(resp.status),
                    )
                    &&& BootServices::handles_eq(*final(bs), *old(bs))
                } else {
                    &&& final(bs).next_handle == old(bs).next_handle + 1
                    &&& (r matches Ok(o) ==> ({
                        &&& o.value.handle == old(bs).next_handle
                        &&& o.raw == old(bs).next_handle
                        &&& o.dtor == Dtor::Function(ReleaseFn::CloseHandle)
                        &&& o.can_release(*final(bs))
                        &&& final(bs).open_handles@ == old(bs).open_handles@.push(o.value.handle)
                        &&& final(bs).closed_handles@ == old(bs).closed_handles@
                        &&& o.value.info_events@ == s.skip(t + 1)
                        &&& o.value.set_info_results@ == script.set_info_results@.drop_first()
                    }))
                    &&& (r is Err ==> ({
                        // The opened file was closed again before reporting.
                        &&& final(bs).open_handles@ == old(bs).open_handles@
                        &&& final(bs).closed_handles@ == old(bs).closed_handles@.push(
                            old(bs).next_handle,
                        )
                    }))
                    &&& (s[t] matches QueryEvent::Failed { status } ==> r == Err::<
                        Owned<File>,
                        FileCreateError,
                    >(FileCreateError::TruncateFailed(FileSetLenError::GetInfoFailed(status))))
                    &&& (s[t] matches QueryEvent::Success { data, .. } ==> ({
                        if FileAttributes(le_at(data@, 72, 8) as u64).is_directory() {
                            r == Err::<Owned<File>, FileCreateError>(
                                FileCreateError::TruncateFailed(FileSetLenError::FileIsDirectory),
                            )
                        } else {
                            let st = script.set_info_results@[0];
                            &&& (st.0 == SUCCESS ==> r is Ok)
                            &&& (st.0 != SUCCESS ==> r == Err::<Owned<File>, FileCreateError>(
                                FileCreateError::TruncateFailed(
                                    FileSetLenError::SetInfoFailed(st),
                                ),
                            ))
                        }
                    }))
                }
            }),
    {
        // Open, creating if absent and truncating below.
        let modes = FileModes::read().union(FileModes::write()).union(FileModes::create());
        let mut file = match self.open(bs, name, modes, attrs) {
            Ok(v) => v,
            Err(e) => {
                return Err(FileCreateError::CreateFailed(e));
            },
        };
        proof {
            let s = old(self).open_responses@[0].script.info_events@;
            lemma_term_idx(s);
            assert(term_idx(s) < s.len());
            assert(!s[term_idx(s)].is_retry());
        }
        // Truncate; on failure close the file again rather than leak it.
        match file.value.set_len(bs, 0) {
            Ok(()) => Ok(file),
            Err(e) => {
                proof {
                    assert(bs.open_handles@.last() == file.raw);
                }
                file.release(bs);
                proof {
                    assert(bs.open_handles@ =~= old(bs).open_handles@);
                }
                Err(FileCreateError::TruncateFailed(e))
            },
        }
    }
}

} // verus!
