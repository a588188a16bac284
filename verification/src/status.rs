//! Host status codes.
//!
//! A status word in which the highest bit marks an error, as the host's
//! calling convention defines it.  `SUCCESS` is zero; every failure code has
//! the high bit set, so no failure ever compares equal to success.

use vstd::prelude::*;

verus! {

/// Code of a host operation that completed successfully.
pub const SUCCESS: u64 = 0;

/// Code reporting that the operation is not supported.
pub const UNSUPPORTED: u64 = 0x8000000000000003;

/// Code reporting that the supplied buffer is not large enough.
pub const BUFFER_TOO_SMALL: u64 = 0x8000000000000005;

/// Code reporting that the host has no memory left for an allocation.
pub const OUT_OF_RESOURCES: u64 = 0x8000000000000009;

/// Code reporting that the operation was aborted.
pub const ABORTED: u64 = 0x8000000000000015;

/// Code reporting that an argument was not valid, such as freeing an
/// address the pool never handed out.
pub const INVALID_PARAMETER: u64 = 0x8000000000000002;

/// A status code returned by every host operation.
#[derive(Clone, Copy, PartialEq, Eq, Structural, Debug)]
pub struct Status(pub u64);

impl Status {
    /// Whether this code denotes an error (high bit set).
    pub open spec fn is_error(self) -> bool {
        self.0 >= 0x8000000000000000
    }

    /// Turns this status into `Ok(success)` when it is `SUCCESS` and into
    /// `Err(self)` otherwise.
    pub fn err_or<T>(self, success: T) -> (r: Result<T, Status>)
        ensures
            self.0 == SUCCESS ==> r == Ok::<T, Status>(success),
            self.0 != SUCCESS ==> r == Err::<T, Status>(self),
    {
        if self.0 == SUCCESS {
            Ok(success)
        } else {
            Err(self)
        }
    }

    /// Whether this status is `SUCCESS`.
    pub fn is_success(self) -> (r: bool)
        ensures
            r == (self.0 == SUCCESS),
    {
        self.0 == SUCCESS
    }
}

} // verus!
