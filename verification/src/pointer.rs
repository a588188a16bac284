//! Ownership of host resources.
//!
//! A host resource — an open handle, a pool buffer — must be released
//! through the host routine that matches it, exactly once.  `Owned` pairs
//! the resource with its release action; releasing consumes the value, so
//! the type system rules out a second release, and the host model refuses
//! one anyway.

use vstd::prelude::*;

use crate::boot::BootServices;
use crate::status::SUCCESS;

verus! {

/// A host release routine.
#[derive(Clone, Copy, PartialEq, Eq, Structural, Debug)]
pub enum ReleaseFn {
    /// Close an open handle.
    CloseHandle,
    /// Free a pool allocation at its base address.
    FreePool,
}

/// The release action of an [`Owned`] value: either a plain routine applied
/// to the wrapped raw handle, or a routine with a captured argument of its
/// own — for a destructor whose signature does not take the wrapped handle.
#[derive(Clone, Copy, PartialEq, Eq, Structural, Debug)]
pub enum Dtor {
    /// Apply the routine to the wrapped raw handle.
    Function(ReleaseFn),
    /// Apply the routine to the captured argument.
    Closure(ReleaseFn, u64),
}

/// A value paired with the host release action that must run for it,
/// exactly once.  Release consumes the whole value, so the action can run
/// only once however the fields are used in between.
#[derive(Debug)]
pub struct Owned<T> {
    /// The wrapped value.
    pub value: T,
    /// The raw handle behind the value.
    pub raw: u64,
    /// The release action to run.
    pub dtor: Dtor,
}

impl<T> Owned<T> {
    /// The raw handle the release action may apply to.
    pub open spec fn raw_spec(&self) -> u64 {
        self.raw
    }

    /// The release action.
    pub open spec fn dtor_spec(&self) -> Dtor {
        self.dtor
    }

    /// The routine the release action runs.
    pub open spec fn release_fn(&self) -> ReleaseFn {
        match self.dtor_spec() {
            Dtor::Function(f) => f,
            Dtor::Closure(f, _) => f,
        }
    }

    /// The argument the release action hands to its routine.
    pub open spec fn release_target(&self) -> u64 {
        match self.dtor_spec() {
            Dtor::Function(_) => self.raw_spec(),
            Dtor::Closure(_, ctx) => ctx,
        }
    }

    /// Whether the host is in a state in which this value's release action
    /// succeeds: the handle to close is open, or the pool base to free is
    /// live.
    pub open spec fn can_release(&self, bs: BootServices) -> bool {
        match self.release_fn() {
            ReleaseFn::CloseHandle => bs.open_handles@.contains(self.release_target()),
            ReleaseFn::FreePool => self.release_target() <= usize::MAX && exists|i: int|
                0 <= i < bs.pool_live@.len() && (#[trigger] bs.pool_live@[i]).0
                    == self.release_target() as usize,
        }
    }

    /// Takes ownership of `value`, whose raw handle is `raw`, to be
    /// released by `dtor`.  The caller asserts that `raw` came from a host
    /// operation matching the release action.
    pub fn new(value: T, raw: u64, dtor: Dtor) -> (o: Owned<T>)
        ensures
            o.value == value,
            o.raw_spec() == raw,
            o.dtor_spec() == dtor,
    {
        Owned { value, raw, dtor }
    }

    /// Runs the release action, exactly once: consuming `self` here is what
    /// makes a second release unwritable.  A closed handle lands in the
    /// host's close log exactly once more; a freed pool base lands in the
    /// free log exactly once more.
    pub fn release(self, bs: &mut BootServices)
        requires
            old(bs).wf(),
            self.can_release(*old(bs)),
        ensures
            final(bs).wf(),
            final(bs).hdr == old(bs).hdr,
            final(bs).memory_map_events@ == old(bs).memory_map_events@,
            self.release_fn() is CloseHandle ==> ({
                &&& BootServices::pool_eq(*final(bs), *old(bs))
                &&& final(bs).next_handle == old(bs).next_handle
                &&& final(bs).closed_handles@ == old(bs).closed_handles@.push(
                    self.release_target(),
                )
                &&& final(bs).open_handles@ == old(bs).open_handles@.remove(
                    old(bs).open_handles@.index_of(self.release_target()),
                )
            }),
            self.release_fn() is FreePool ==> ({
                &&& BootServices::handles_eq(*final(bs), *old(bs))
                &&& final(bs).pool_mem@ == old(bs).pool_mem@
                &&& final(bs).pool_next == old(bs).pool_next
                &&& final(bs).pool_allocated@ == old(bs).pool_allocated@
                &&& exists|i: int|
                    {
                        &&& 0 <= i < old(bs).pool_live@.len()
                        &&& (#[trigger] old(bs).pool_live@[i]).0 == self.release_target() as usize
                        &&& final(bs).pool_live@ == old(bs).pool_live@.remove(i)
                        &&& final(bs).pool_freed@ == old(bs).pool_freed@.push(
                            old(bs).pool_live@[i],
                        )
                    }
            }),
    {
        let target: u64 = match self.dtor {
            Dtor::Function(_) => self.raw,
            Dtor::Closure(_, ctx) => ctx,
        };
        let f = match self.dtor {
            Dtor::Function(f) => f,
            Dtor::Closure(f, _) => f,
        };
        match f {
            ReleaseFn::CloseHandle => {
                let st = bs.close_handle(target);
                proof {
                    assert(st.0 == SUCCESS);
                }
            },
            ReleaseFn::FreePool => {
                let r = bs.free_pool(target as usize);
                proof {
                    assert(r is Ok);
                }
            },
        }
    }
}

} // verus!
