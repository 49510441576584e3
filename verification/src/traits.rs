//! Capability traits for values stored in a cycler.
//!
//! A stored type exposes two projections: a write view for the writer (which
//! may carry bookkeeping such as a change log) and a read view for the
//! readers. Setting both view types to `Self` and returning `self` gives the
//! plain case with no narrowing and no runtime cost.

use vstd::prelude::*;

verus! {

/// Implemented to check, at the impl site, that a type can move between
/// threads.
pub trait EnsureSend: Send {

}

/// Implemented to check, at the impl site, that a type can be shared between
/// threads.
pub trait EnsureSync: Sync {

}

/// A type the cycler's writer can work on: it exposes a write view, which may
/// hold bookkeeping the readers never see.
pub trait WriteAccess {
    /// The type of the write view.
    type Write;

    /// The write view of this value.
    spec fn write_view(self) -> Self::Write;

    /// Shared access to the write view.
    fn write_data(&self) -> (r: &Self::Write)
        ensures
            *r == self.write_view(),
    ;

    /// Exclusive access to the write view.
    fn write_data_mut(&mut self) -> (r: &mut Self::Write)
        ensures
            *r == old(self).write_view(),
            final(self).write_view() == *final(r),
    ;
}

/// A type a cycler reader can observe: it exposes a read view, possibly
/// narrower than the write view.
pub trait ReadAccess {
    /// The type of the read view.
    type Read;

    /// The read view of this value.
    spec fn read_view(self) -> Self::Read;

    /// Shared access to the read view.
    fn read_data(&self) -> (r: &Self::Read)
        ensures
            *r == self.read_view(),
    ;
}

impl WriteAccess for String {
    type Write = String;

    open spec fn write_view(self) -> String {
        self
    }

    fn write_data(&self) -> &String {
        self
    }

    fn write_data_mut(&mut self) -> &mut String {
        self
    }
}

impl ReadAccess for String {
    type Read = String;

    open spec fn read_view(self) -> String {
        self
    }

    fn read_data(&self) -> &String {
        self
    }
}

impl WriteAccess for usize {
    type Write = usize;

    open spec fn write_view(self) -> usize {
        self
    }

    fn write_data(&self) -> &usize {
        self
    }

    fn write_data_mut(&mut self) -> &mut usize {
        self
    }
}

impl ReadAccess for usize {
    type Read = usize;

    open spec fn read_view(self) -> usize {
        self
    }

    fn read_data(&self) -> &usize {
        self
    }
}

} // verus!
