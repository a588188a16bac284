//! The header that every host table begins with.

use vstd::prelude::*;

verus! {

/// The revision field of a table header: a major number in the high 16 bits
/// and a minor number in the low 16 bits, so that revisions order correctly
/// as plain integers.
#[derive(Clone, Copy, PartialEq, Eq, Structural, Debug, PartialOrd, Ord)]
pub struct TableRevision(pub u32);

impl TableRevision {
    /// Packs a major and minor revision number into one word.
    pub fn new(major: u16, minor: u16) -> (r: TableRevision)
        ensures
            r.0 == major * 0x10000 + minor,
    {
        TableRevision((major as u32) * 0x10000 + (minor as u32))
    }
}

/// The common header of a host table.
#[derive(Clone, Copy, PartialEq, Eq, Structural, Debug)]
pub struct TableHeader {
    pub signature: u64,
    pub revision: TableRevision,
    pub header_size: u32,
    pub crc32: u32,
    pub reserved: u32,
}

impl TableHeader {
    /// The table's revision.
    pub fn revision(&self) -> (r: TableRevision)
        ensures
            r == self.revision,
    {
        self.revision
    }
}

} // verus!
