//! The host's system table.

use vstd::prelude::*;

use crate::boot::BootServices;
use crate::header::TableHeader;

verus! {

/// The host's top-level table: its header and the boot services.
#[derive(Debug)]
pub struct SystemTable {
    /// The table header.
    pub hdr: TableHeader,
    /// The boot services the table points at.
    pub boot_services: BootServices,
}

impl SystemTable {
    /// A system table over the given boot services.
    pub fn new(hdr: TableHeader, boot_services: BootServices) -> (st: SystemTable)
        ensures
            st.hdr == hdr,
            st.boot_services == boot_services,
    {
        SystemTable { hdr, boot_services }
    }

    /// The table's header.
    pub fn hdr(&self) -> (r: &TableHeader)
        ensures
            *r == self.hdr,
    {
        &self.hdr
    }

    /// The boot services.
    pub fn boot_services(&self) -> (r: &BootServices)
        ensures
            *r == self.boot_services,
    {
        &self.boot_services
    }
}

} // verus!
