//! A host device handle.

use vstd::prelude::*;

use crate::filesystem::SimpleFileSystem;
use crate::path::Path;

verus! {

/// A device as the host presents it: what its protocol lookups would
/// yield — a device path, and a filesystem where the device carries one.
#[derive(Debug)]
pub struct Device {
    /// The device's path, where it exposes one.
    pub path: Option<Path>,
    /// The device's filesystem, where it exposes one.
    pub file_system: Option<SimpleFileSystem>,
}

impl Device {
    /// The device's path, where it exposes one.
    pub fn path(&self) -> (r: Option<&Path>)
        ensures
            r is Some <==> self.path is Some,
            r matches Some(p) ==> self.path matches Some(q) && p == q,
    {
        self.path.as_ref()
    }

    /// The device's filesystem, where it exposes one.
    pub fn file_system(&self) -> (r: Option<&SimpleFileSystem>)
        ensures
            r is Some <==> self.file_system is Some,
            r matches Some(f) ==> self.file_system matches Some(g) && f == g,
    {
        self.file_system.as_ref()
    }

    /// Whether the device exposes a filesystem.
    pub fn has_file_system(&self) -> (r: bool)
        ensures
            r == (self.file_system is Some),
    {
        self.file_system.is_some()
    }
}

} // verus!
