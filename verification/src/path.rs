//! The device-path record format.
//!
//! A device path is a sequence of variable-length, type-tagged binary
//! records.  Each record starts with a 4-byte header: an 8-bit major type,
//! an 8-bit subtype, and a 16-bit little-endian length that counts the
//! header itself.  The length field sits at offset 2 and is therefore
//! unaligned; it is always decoded byte by byte.  A path ends with the
//! 4-byte end record `7F FF 04 00`, and a path with no records is exactly
//! that end record alone.

use vstd::arithmetic::div_mod::lemma_fundamental_div_mod;
use vstd::prelude::*;

use crate::string::{wf_units, EfiStr};

verus! {

/// Major type of the end-of-path record.
pub const END_TYPE: u8 = 0x7f;

/// Subtype of the end-of-path record.
pub const END_SUBTYPE: u8 = 0xff;

/// Major type of media device-path records.
pub const MEDIA_TYPE: u8 = 4;

/// Subtype of the media file-path record.
pub const MEDIA_FILE_SUBTYPE: u8 = 4;

/// The four bytes of the end-of-path record.
pub open spec fn end_record() -> Seq<u8> {
    seq![0x7fu8, 0xffu8, 4u8, 0u8]
}

/// The length field of the record at `off`: 16 bits, little endian,
/// unaligned.
pub open spec fn node_len(s: Seq<u8>, off: int) -> int {
    s[off + 2] + 0x100 * s[off + 3]
}

/// Whether the record at `off` is the end-of-path record.
pub open spec fn is_end(s: Seq<u8>, off: int) -> bool {
    s[off] == END_TYPE && s[off + 1] == END_SUBTYPE
}

/// Whether the bytes from `off` to the end of `s` form a well-formed path:
/// a chain of records, each at least 4 bytes long by its own length field,
/// closed off by exactly the end record.
pub open spec fn valid_from(s: Seq<u8>, off: int) -> bool
    decreases s.len() - off,
{
    if off + 4 > s.len() {
        false
    } else if is_end(s, off) {
        off + 4 == s.len() && s[off + 2] == 4 && s[off + 3] == 0
    } else {
        &&& node_len(s, off) >= 4
        &&& off + node_len(s, off) + 4 <= s.len()
        &&& valid_from(s, off + node_len(s, off))
    }
}

/// The records of the path from `off` on, each as its major type, subtype
/// and payload, the end record excluded.
pub open spec fn records_from(s: Seq<u8>, off: int) -> Seq<(u8, u8, Seq<u8>)>
    decreases s.len() - off,
{
    if valid_from(s, off) && !is_end(s, off) {
        seq![(s[off], s[off + 1], s.subrange(off + 4, off + node_len(s, off)))] + records_from(
            s,
            off + node_len(s, off),
        )
    } else {
        Seq::empty()
    }
}

/// A well-formed path ends with the end record: its last four bytes are
/// `7F FF 04 00`, and every record lies before them.
pub proof fn lemma_valid_end(s: Seq<u8>, off: int)
    requires
        0 <= off,
        valid_from(s, off),
    ensures
        s.len() >= off + 4,
        s[s.len() - 4] == END_TYPE,
        s[s.len() - 3] == END_SUBTYPE,
        s[s.len() - 2] == 4,
        s[s.len() - 1] == 0,
    decreases s.len() - off,
{
    if is_end(s, off) {
    } else {
        lemma_valid_end(s, off + node_len(s, off));
    }
}

/// The bytes of a path after overwriting its end record with the header of
/// a new record, appending the new record's payload, and appending a fresh
/// end record.
pub open spec fn push_spec(s: Seq<u8>, ty: u8, sub: u8, data: Seq<u8>) -> Seq<u8> {
    s.take(s.len() - 4) + seq![
        ty,
        sub,
        (((data.len() + 4) as int % 0x100) as u8),
        (((data.len() + 4) as int / 0x100) as u8),
    ] + data + end_record()
}

/// Appending a record turns a well-formed path into a well-formed path and
/// adds exactly that record at the end of its record sequence.
pub proof fn lemma_push_from(s: Seq<u8>, off: int, ty: u8, sub: u8, data: Seq<u8>)
    requires
        0 <= off,
        valid_from(s, off),
        !(ty == END_TYPE && sub == END_SUBTYPE),
        data.len() + 4 < 0x10000,
    ensures
        valid_from(push_spec(s, ty, sub, data), off),
        records_from(push_spec(s, ty, sub, data), off) =~= records_from(s, off).push(
            (ty, sub, data),
        ),
    decreases s.len() - off,
{
    let t = push_spec(s, ty, sub, data);
    let l = data.len() + 4;
    assert(s.len() >= off + 4) by {
        lemma_valid_end(s, off);
    }
    assert(t.len() == s.len() + data.len() + 4);
    if is_end(s, off) {
        // The end record sat at `off`, so the new record's header sits there
        // now, followed by the payload and the fresh end record.
        assert(off + 4 == s.len());
        assert(t[off] == ty && t[off + 1] == sub);
        assert(t[off + 2] == (l as int % 0x100) as u8);
        assert(t[off + 3] == (l as int / 0x100) as u8);
        assert(node_len(t, off) == l) by {
            lemma_fundamental_div_mod(l as int, 0x100);
            assert(l as int / 0x100 < 0x100);
        }
        assert(!is_end(t, off));
        let end = off + l;
        assert(end == t.len() - 4);
        assert(t[end] == END_TYPE && t[end + 1] == END_SUBTYPE);
        assert(t[end + 2] == 4 && t[end + 3] == 0);
        assert(valid_from(t, end));
        assert(valid_from(t, off));
        assert(records_from(t, end) =~= Seq::<(u8, u8, Seq<u8>)>::empty());
        assert(t.subrange(off + 4, off + l) =~= data);
        assert(records_from(s, off) =~= Seq::<(u8, u8, Seq<u8>)>::empty());
        assert(records_from(t, off) =~= records_from(s, off).push((ty, sub, data)));
    } else {
        // The record at `off` lies strictly before the old end record, so
        // its bytes are untouched; recurse past it.
        let nl = node_len(s, off);
        assert(off + nl + 4 <= s.len());
        assert(forall|k: int| off <= k < off + nl ==> t[k] == s[k]);
        assert(node_len(t, off) == nl);
        assert(!is_end(t, off));
        lemma_push_from(s, off + nl, ty, sub, data);
        assert(valid_from(t, off));
        assert(t.subrange(off + 4, off + nl) =~= s.subrange(off + 4, off + nl));
        assert(records_from(t, off) =~= records_from(s, off).push((ty, sub, data)));
    }
}

/// Pushing two records in a row appends exactly those two records, in push
/// order, and grows the path by each record's payload length plus 4.
pub proof fn lemma_push_two(
    s: Seq<u8>,
    ty1: u8,
    sub1: u8,
    d1: Seq<u8>,
    ty2: u8,
    sub2: u8,
    d2: Seq<u8>,
)
    requires
        valid_from(s, 0),
        !(ty1 == END_TYPE && sub1 == END_SUBTYPE),
        !(ty2 == END_TYPE && sub2 == END_SUBTYPE),
        d1.len() + 4 < 0x10000,
        d2.len() + 4 < 0x10000,
    ensures
        valid_from(push_spec(push_spec(s, ty1, sub1, d1), ty2, sub2, d2), 0),
        records_from(push_spec(push_spec(s, ty1, sub1, d1), ty2, sub2, d2), 0) =~= records_from(
            s,
            0,
        ).push((ty1, sub1, d1)).push((ty2, sub2, d2)),
        push_spec(push_spec(s, ty1, sub1, d1), ty2, sub2, d2).len() == s.len() + (d1.len() + 4) + (
        d2.len() + 4),
{
    lemma_valid_end(s, 0);
    lemma_push_from(s, 0, ty1, sub1, d1);
    lemma_push_from(push_spec(s, ty1, sub1, d1), 0, ty2, sub2, d2);
}

/// The 16-bit units encoded little-endian in a byte sequence, two bytes per
/// unit; a trailing odd byte is ignored.
pub open spec fn bytes_to_units(b: Seq<u8>) -> Seq<u16> {
    Seq::new((b.len() / 2) as nat, |i: int| (b[2 * i] + 0x100 * b[2 * i + 1]) as u16)
}

/// The little-endian byte encoding of a sequence of 16-bit units.
pub open spec fn units_to_bytes(u: Seq<u16>) -> Seq<u8> {
    Seq::new(
        (u.len() * 2) as nat,
        |i: int|
            if i % 2 == 0 {
                (u[i / 2] as int % 0x100) as u8
            } else {
                (u[i / 2] as int / 0x100) as u8
            },
    )
}

/// Encoding units as bytes and decoding them again gives the units back.
pub proof fn lemma_units_roundtrip(u: Seq<u16>)
    ensures
        bytes_to_units(units_to_bytes(u)) =~= u,
{
    let b = units_to_bytes(u);
    assert forall|i: int| 0 <= i < u.len() implies bytes_to_units(b)[i] == u[i] by {
        assert(b[2 * i] == (u[i] as int % 0x100) as u8);
        assert(b[2 * i + 1] == (u[i] as int / 0x100) as u8);
        lemma_fundamental_div_mod(u[i] as int, 0x100);
    }
}

/// Whether a payload carries a well-formed media file-path string: an even
/// number of bytes decoding to NUL-terminated units with no interior NUL.
pub open spec fn media_payload_wf(p: Seq<u8>) -> bool {
    p.len() % 2 == 0 && wf_units(bytes_to_units(p))
}

/// One or more device-path records ending with the end record.
#[derive(Debug)]
pub struct Path {
    data: Vec<u8>,
}

impl View for Path {
    type V = Seq<u8>;

    closed spec fn view(&self) -> Seq<u8> {
        self.data@
    }
}

/// The data read from one device-path record.
#[derive(Debug)]
pub enum PathNode {
    /// A media file-path record: a NUL-terminated string of 16-bit units.
    MediaFilePath(EfiStr),
}

impl Path {
    /// Whether the bytes form a well-formed path.
    pub open spec fn wf(&self) -> bool {
        valid_from(self@, 0)
    }

    /// The records of the path, end record excluded.
    pub open spec fn records(&self) -> Seq<(u8, u8, Seq<u8>)> {
        records_from(self@, 0)
    }

    /// The empty path: exactly the end record.
    pub fn empty() -> (p: Path)
        ensures
            p@ =~= end_record(),
            p.wf(),
            p.records() =~= Seq::<(u8, u8, Seq<u8>)>::empty(),
    {
        let mut data: Vec<u8> = Vec::new();
        data.push(0x7f);
        data.push(0xff);
        data.push(4);
        data.push(0);
        let p = Path { data };
        proof {
            assert(p@ =~= end_record());
        }
        p
    }

    /// Wraps a byte buffer after checking, record by record, that it is a
    /// well-formed path.
    #[verifier::loop_isolation(false)]
    pub fn from_bytes(data: Vec<u8>) -> (r: Option<Path>)
        ensures
            r is Some <==> valid_from(data@, 0),
            r is Some ==> r->0@ == data@,
    {
        let n = data.len();
        let mut off: usize = 0;
        loop
            invariant
                off <= n,
                n == data@.len(),
                valid_from(data@, 0) <==> valid_from(data@, off as int),
            decreases n - off,
        {
            if n - off < 4 {
                return None;
            }
            if data[off] == 0x7f && data[off + 1] == 0xff {
                if off + 4 == n && data[off + 2] == 4 && data[off + 3] == 0 {
                    return Some(Path { data });
                }
                return None;
            }
            let nl = (data[off + 2] as usize) + 0x100 * (data[off + 3] as usize);
            if nl < 4 || nl > n - off || n - off - nl < 4 {
                return None;
            }
            off += nl;
        }
    }

    /// Builds an owned path from this one plus one media file-path record:
    /// the borrowed bytes are copied first, then the copy grows in place.
    pub fn join_media_file_path(&self, file: &EfiStr) -> (r: PathBuf)
        requires
            self.wf(),
            file.wf(),
            2 * file@.len() + 4 < 0x10000,
            self@.len() + 2 * file@.len() + 8 <= usize::MAX,
        ensures
            r.wf(),
            r.records() =~= self.records().push(
                (MEDIA_TYPE, MEDIA_FILE_SUBTYPE, units_to_bytes(file@)),
            ),
            r@.len() == self@.len() + 2 * file@.len() + 4,
    {
        let mut buf = self.to_path_buf();
        buf.push_media_file_path(file);
        buf
    }

    /// Reads the string of the leading media file-path record.
    pub fn to_media_file_path(&self) -> (r: Option<EfiStr>)
        requires
            self.wf(),
            self.records().len() > 0,
            self.records()[0].0 == MEDIA_TYPE,
            self.records()[0].1 == MEDIA_FILE_SUBTYPE,
            media_payload_wf(self.records()[0].2),
        ensures
            r is Some,
            r->0@ == bytes_to_units(self.records()[0].2),
            r->0.wf(),
    {
        match self.read() {
            PathNode::MediaFilePath(v) => Some(v),
        }
    }

    /// Decodes the first record of the path.  Only the media file-path
    /// record kind is known; the caller must have checked the leading tag,
    /// since a record of any other kind cannot be represented.
    #[verifier::loop_isolation(false)]
    pub fn read(&self) -> (r: PathNode)
        requires
            self.wf(),
            self.records().len() > 0,
            self.records()[0].0 == MEDIA_TYPE,
            self.records()[0].1 == MEDIA_FILE_SUBTYPE,
            media_payload_wf(self.records()[0].2),
        ensures
            r matches PathNode::MediaFilePath(s) && s@ == bytes_to_units(self.records()[0].2)
                && s.wf(),
    {
        proof {
            if is_end(self@, 0) {
                assert(self.records() =~= Seq::<(u8, u8, Seq<u8>)>::empty());
            }
        }
        let nl = (self.data[2] as usize) + 0x100 * (self.data[3] as usize);
        let ghost payload = self.records()[0].2;
        let mut units: Vec<u16> = Vec::new();
        let count = (nl - 4) / 2;
        let mut i: usize = 0;
        while i < count
            invariant
                self.wf(),
                self.records().len() > 0,
                nl == node_len(self@, 0),
                payload == self@.subrange(4, nl as int),
                4 <= nl <= self@.len(),
                count == (nl - 4) / 2,
                (nl - 4) % 2 == 0,
                i <= count,
                units@ =~= bytes_to_units(payload).take(i as int),
            decreases count - i,
        {
            let lo = self.data[4 + 2 * i];
            let hi = self.data[4 + 2 * i + 1];
            units.push((lo as u16) + 0x100 * (hi as u16));
            proof {
                assert(payload[2 * (i as int)] == lo && payload[2 * (i as int) + 1] == hi);
                assert(bytes_to_units(payload)[i as int] == (lo + 0x100 * hi) as u16);
            }
            i += 1;
        }
        proof {
            assert(units@ =~= bytes_to_units(payload));
        }
        let s = EfiStr::from_units(units);
        match s {
            Some(v) => PathNode::MediaFilePath(v),
            None => {
                proof {
                    assert(false);
                }
                PathNode::MediaFilePath(EfiStr::empty())
            },
        }
    }

    /// The raw bytes of the path.
    pub fn as_bytes(&self) -> (r: &[u8])
        ensures
            r@ == self@,
    {
        self.data.as_slice()
    }

    /// The path's total byte length, measured by full traversal: the sum
    /// of every record's length field, plus the 4-byte end record.  There
    /// is no shortcut length field at the head of a path.
    #[verifier::loop_isolation(false)]
    pub fn measure(&self) -> (n: usize)
        requires
            self.wf(),
        ensures
            n == self@.len(),
    {
        let m = self.data.len();
        let mut off: usize = 0;
        loop
            invariant
                off <= m,
                valid_from(self@, off as int),
            decreases m - off,
        {
            if self.data[off] == 0x7f && self.data[off + 1] == 0xff {
                return off + 4;
            }
            let nl = (self.data[off + 2] as usize) + 0x100 * (self.data[off + 3] as usize);
            off += nl;
        }
    }

    /// An owned, growable copy of this path.
    pub fn to_path_buf(&self) -> (r: PathBuf)
        ensures
            r@ == self@,
    {
        PathBuf { data: self.data.clone() }
    }

    /// An iterator over the records of this path.
    pub fn nodes(&self) -> (it: PathNodes)
        requires
            self.wf(),
        ensures
            it.path()@ == self@,
            it.pos() == 0,
            it.wf(),
            it.remaining() == self.records(),
    {
        PathNodes { path: self, pos: 0 }
    }
}

/// An owned, growable device path, always ending with the end record.
#[derive(Debug)]
pub struct PathBuf {
    data: Vec<u8>,
}

impl View for PathBuf {
    type V = Seq<u8>;

    closed spec fn view(&self) -> Seq<u8> {
        self.data@
    }
}

impl PathBuf {
    /// Whether the bytes form a well-formed path.
    pub open spec fn wf(&self) -> bool {
        valid_from(self@, 0)
    }

    /// The records of the path, end record excluded.
    pub open spec fn records(&self) -> Seq<(u8, u8, Seq<u8>)> {
        records_from(self@, 0)
    }

    /// The empty path: exactly the end record.
    pub fn new() -> (p: PathBuf)
        ensures
            p@ =~= end_record(),
            p.wf(),
            p.records() =~= Seq::<(u8, u8, Seq<u8>)>::empty(),
    {
        let p = Path::empty();
        PathBuf { data: p.data }
    }

    /// An immutable view of this buffer as a path.
    pub fn as_path(&self) -> (r: Path)
        ensures
            r@ == self@,
    {
        Path { data: self.data.clone() }
    }

    /// The raw bytes of the path.
    pub fn as_bytes(&self) -> (r: &[u8])
        ensures
            r@ == self@,
    {
        self.data.as_slice()
    }

    /// Appends a media file-path record carrying `file`, terminator
    /// included, and re-terminates the path.
    #[verifier::loop_isolation(false)]
    pub fn push_media_file_path(&mut self, file: &EfiStr)
        requires
            old(self).wf(),
            file.wf(),
            2 * file@.len() + 4 < 0x10000,
            old(self)@.len() + 2 * file@.len() + 8 <= usize::MAX,
        ensures
            final(self).wf(),
            final(self)@ == push_spec(old(self)@, MEDIA_TYPE, MEDIA_FILE_SUBTYPE, units_to_bytes(file@)),
            final(self).records() =~= old(self).records().push(
                (MEDIA_TYPE, MEDIA_FILE_SUBTYPE, units_to_bytes(file@)),
            ),
            final(self)@.len() == old(self)@.len() + 2 * file@.len() + 4,
    {
        let units = file.as_units();
        let mut bytes: Vec<u8> = Vec::new();
        let mut i: usize = 0;
        while i < units.len()
            invariant
                i <= units@.len(),
                units@ == file@,
                bytes@ =~= units_to_bytes(file@).take(2 * i as int),
            decreases units@.len() - i,
        {
            let u = units[i];
            bytes.push((u % 0x100) as u8);
            bytes.push((u / 0x100) as u8);
            i += 1;
        }
        proof {
            assert(bytes@ =~= units_to_bytes(file@));
        }
        self.push(4, 4, &bytes);
    }

    /// Overwrites the end record with the header of a new record, appends
    /// the payload, and appends a fresh end record.
    #[verifier::loop_isolation(false)]
    fn push(&mut self, ty: u8, sub: u8, data: &Vec<u8>)
        requires
            old(self).wf(),
            !(ty == END_TYPE && sub == END_SUBTYPE),
            data@.len() + 4 < 0x10000,
            old(self)@.len() + data@.len() + 8 <= usize::MAX,
        ensures
            final(self).wf(),
            final(self)@ == push_spec(old(self)@, ty, sub, data@),
            final(self).records() =~= old(self).records().push((ty, sub, data@)),
            final(self)@.len() == old(self)@.len() + data@.len() + 4,
    {
        proof {
            lemma_valid_end(old(self)@, 0);
        }
        let l = data.len() + 4;
        let off = self.data.len() - 4;
        self.data.set(off, ty);
        self.data.set(off + 1, sub);
        self.data.set(off + 2, (l % 0x100) as u8);
        self.data.set(off + 3, (l / 0x100) as u8);
        let mut j: usize = 0;
        while j < data.len()
            invariant
                j <= data@.len(),
                off == old(self)@.len() - 4,
                self@.len() == old(self)@.len() + j,
                self@ =~= old(self)@.take(off as int) + seq![
                    ty,
                    sub,
                    ((data@.len() + 4) as int % 0x100) as u8,
                    ((data@.len() + 4) as int / 0x100) as u8,
                ] + data@.take(j as int),
            decreases data@.len() - j,
        {
            self.data.push(data[j]);
            j += 1;
        }
        self.data.push(0x7f);
        self.data.push(0xff);
        self.data.push(4);
        self.data.push(0);
        proof {
            assert(self@ =~= push_spec(old(self)@, ty, sub, data@));
            lemma_push_from(old(self)@, 0, ty, sub, data@);
        }
    }
}

/// An iterator over the records of a path, in order, stopping at the end
/// record.
pub struct PathNodes<'a> {
    path: &'a Path,
    pos: usize,
}

impl<'a> PathNodes<'a> {
    /// The path being walked.
    pub closed spec fn path(&self) -> &'a Path {
        self.path
    }

    /// The current byte offset.
    pub closed spec fn pos(&self) -> usize {
        self.pos
    }

    /// Whether the iterator still points at a well-formed tail.
    pub open spec fn wf(&self) -> bool {
        valid_from(self.path()@, self.pos() as int)
    }

    /// The records not yet yielded.
    pub open spec fn remaining(&self) -> Seq<(u8, u8, Seq<u8>)> {
        records_from(self.path()@, self.pos() as int)
    }

    /// Yields the next record as its major type, subtype and payload, or
    /// `None` at the end record.
    #[verifier::loop_isolation(false)]
    pub fn next(&mut self) -> (r: Option<(u8, u8, Vec<u8>)>)
        requires
            old(self).wf(),
        ensures
            final(self).wf(),
            final(self).path() == old(self).path(),
            old(self).remaining().len() == 0 ==> r is None && final(self).remaining()
                == old(self).remaining(),
            old(self).remaining().len() > 0 ==> (r matches Some(v) && (v.0, v.1, v.2@)
                == old(self).remaining()[0] && final(self).remaining() == old(
                self,
            ).remaining().drop_first()),
    {
        let pos = self.pos;
        let data = &self.path.data;
        let n = data.len();
        proof {
            assert(valid_from(data@, pos as int));
            assert(pos + 4 <= n);
        }
        if data[pos] == 0x7f && data[pos + 1] == 0xff {
            proof {
                assert(self.remaining() =~= Seq::<(u8, u8, Seq<u8>)>::empty());
            }
            return None;
        }
        let nl = (data[pos + 2] as usize) + 0x100 * (data[pos + 3] as usize);
        let ty = data[pos];
        let sub = data[pos + 1];
        let mut payload: Vec<u8> = Vec::new();
        let mut j: usize = 0;
        while j < nl - 4
            invariant
                old(self).wf(),
                pos == old(self).pos(),
                self.path == old(self).path(),
                !is_end(self.path()@, pos as int),
                nl == node_len(self.path()@, pos as int),
                4 <= nl,
                pos + nl + 4 <= self.path()@.len(),
                j <= nl - 4,
                payload@ =~= self.path()@.subrange(pos + 4, pos + 4 + j),
            decreases nl - 4 - j,
        {
            payload.push(data[pos + 4 + j]);
            j += 1;
        }
        self.pos = pos + nl;
        proof {
            assert(payload@ =~= old(self).remaining()[0].2);
            assert(self.remaining() =~= old(self).remaining().drop_first());
        }
        Some((ty, sub, payload))
    }
}

} // verus!
