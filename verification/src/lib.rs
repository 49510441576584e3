//! A data synchronization system with one writer and N readers. The writer and
//! every reader can work on the data at the same time; a reader switches to the
//! most up-to-date published version on demand. This is accomplished by keeping
//! N + 2 copies of the data in a pool of slots, with the writer publishing new
//! versions by rotating through the free slots.
//!
//! Each slot is guarded by [`AtomicRwLock`], a small counting reader/writer
//! lock: a count of `0` means the writer holds the slot, `1` means the slot is
//! free, and `c > 1` means `c - 1` readers hold it. The pool keeps an index
//! naming the slot that holds the latest published value; the writer's slot is
//! never that slot, and at least one slot is always free for the writer to
//! claim next, so neither side ever waits for the other.

pub mod atomic_cycler;
pub mod atomic_rw_lock;
pub mod static_ref_holder;
mod traits;

pub use atomic_cycler::{AtomicCycler, AtomicCyclerReader, AtomicCyclerWriter};
pub use atomic_rw_lock::{AtomicRwLock, AtomicRwLockReader, AtomicRwLockWriter, AtomicValue};
pub use static_ref_holder::StaticRefHolder;
pub use traits::{EnsureSend, EnsureSync, ReadAccess, WriteAccess};

use vstd::prelude::*;

verus! {

/// The cycler writer this crate builds by default.
pub type DefaultCyclerWriter = AtomicCyclerWriter;

/// The cycler reader this crate builds by default.
pub type DefaultCyclerReader = AtomicCyclerReader;

/// Builds a single-reader cycler whose three slots hold `initial_values`;
/// see [`atomic_cycler::build_single_reader`].
pub fn build_single_reader<T>(initial_values: (T, T, T)) -> (r: (
    AtomicCycler<T>,
    DefaultCyclerWriter,
    DefaultCyclerReader,
))
    ensures
        r.0.wf(1),
        r.1.writing() == 1,
        r.2.wf_in(r.0),
        r.2.rid() == 0,
        r.2.reading() == 0,
        r.2.seen() == 0,
        r.0.num_slots() == 3,
        r.0.most_recent() == 0,
        r.0.slot_value(0) == initial_values.0,
        r.0.slot_value(1) == initial_values.1,
        r.0.slot_value(2) == initial_values.2,
        r.0.published() == seq![initial_values.0],
{
    atomic_cycler::build_single_reader(initial_values)
}

/// Builds a single-reader cycler, cloning `initial_value` into every slot.
pub fn build_single_reader_cloned<T: Clone>(initial_value: T) -> (r: (
    AtomicCycler<T>,
    DefaultCyclerWriter,
    DefaultCyclerReader,
))
    ensures
        r.0.wf(1),
        r.1.writing() == 1,
        r.2.wf_in(r.0),
        r.2.rid() == 0,
        r.2.reading() == 0,
        r.2.seen() == 0,
        r.0.num_slots() == 3,
        r.0.most_recent() == 0,
        vstd::pervasive::cloned::<T>(initial_value, r.0.slot_value(0)),
        vstd::pervasive::cloned::<T>(initial_value, r.0.slot_value(1)),
        r.0.slot_value(2) == initial_value,
        r.0.published() == seq![r.0.slot_value(0)],
{
    atomic_cycler::build_single_reader((
        initial_value.clone(),
        initial_value.clone(),
        initial_value,
    ))
}

/// Builds a single-reader cycler with default values in every slot.
pub fn build_single_reader_default<T: Default>() -> (r: (
    AtomicCycler<T>,
    DefaultCyclerWriter,
    DefaultCyclerReader,
))
    ensures
        r.0.wf(1),
        r.1.writing() == 1,
        r.2.wf_in(r.0),
        r.2.rid() == 0,
        r.2.reading() == 0,
        r.2.seen() == 0,
        r.0.num_slots() == 3,
        r.0.most_recent() == 0,
        r.0.published() == seq![r.0.slot_value(0)],
{
    atomic_cycler::build_single_reader((T::default(), T::default(), T::default()))
}

/// Builds a multi-reader cycler whose slots hold `initial_values`, with
/// `initial_values.len() - 2` readers; see
/// [`atomic_cycler::build_multiple_reader`].
pub fn build_multiple_reader<T>(initial_values: Vec<T>) -> (r: (
    AtomicCycler<T>,
    DefaultCyclerWriter,
    Vec<DefaultCyclerReader>,
))
    requires
        3 <= initial_values@.len() <= 255,
    ensures
        r.0.wf(1),
        r.1.writing() == 1,
        r.0.num_slots() == initial_values@.len(),
        r.0.most_recent() == 0,
        forall|i: int|
            0 <= i < initial_values@.len() ==> r.0.slot_value(i) == initial_values@[i],
        r.0.published() == seq![initial_values@[0]],
        r.2@.len() == initial_values@.len() - 2,
        forall|k: int|
            0 <= k < r.2@.len() ==> (#[trigger] r.2@[k]).wf_in(r.0) && r.2@[k].rid() == k
                && r.2@[k].reading() == 0 && r.2@[k].seen() == 0,
{
    atomic_cycler::build_multiple_reader(initial_values)
}

/// Builds a multi-reader cycler for `num_readers` readers, cloning
/// `initial_value` into every slot.
pub fn build_multiple_reader_cloned<T: Clone>(initial_value: T, num_readers: u8) -> (r: (
    AtomicCycler<T>,
    DefaultCyclerWriter,
    Vec<DefaultCyclerReader>,
))
    requires
        1 <= num_readers <= 253,
    ensures
        r.0.wf(1),
        r.1.writing() == 1,
        r.0.num_slots() == num_readers + 2,
        r.0.most_recent() == 0,
        forall|i: int|
            0 <= i < r.0.num_slots() ==> vstd::pervasive::cloned::<T>(
                initial_value,
                #[trigger] r.0.slot_value(i),
            ),
        r.0.published() == seq![r.0.slot_value(0)],
        r.2@.len() == num_readers as int,
        forall|k: int|
            0 <= k < r.2@.len() ==> (#[trigger] r.2@[k]).wf_in(r.0) && r.2@[k].rid() == k
                && r.2@[k].reading() == 0 && r.2@[k].seen() == 0,
{
    let total: usize = num_readers as usize + 2;
    let mut values: Vec<T> = Vec::new();
    let mut i: usize = 0;
    while i < total - 1
        invariant
            i == values@.len(),
            i <= total - 1,
            3 <= total <= 255,
            forall|j: int|
                0 <= j < i ==> vstd::pervasive::cloned::<T>(
                    initial_value,
                    #[trigger] values@[j],
                ),
        decreases total - 1 - i,
    {
        values.push(initial_value.clone());
        i += 1;
    }
    values.push(initial_value);
    atomic_cycler::build_multiple_reader(values)
}

/// Builds a multi-reader cycler for `num_readers` readers with default
/// values in every slot.
pub fn build_multiple_reader_default<T: Default>(num_readers: u8) -> (r: (
    AtomicCycler<T>,
    DefaultCyclerWriter,
    Vec<DefaultCyclerReader>,
))
    requires
        1 <= num_readers <= 253,
    ensures
        r.0.wf(1),
        r.1.writing() == 1,
        r.0.num_slots() == num_readers + 2,
        r.0.most_recent() == 0,
        r.0.published() == seq![r.0.slot_value(0)],
        r.2@.len() == num_readers as int,
        forall|k: int|
            0 <= k < r.2@.len() ==> (#[trigger] r.2@[k]).wf_in(r.0) && r.2@[k].rid() == k
                && r.2@[k].reading() == 0 && r.2@[k].seen() == 0,
{
    let total: usize = num_readers as usize + 2;
    let mut values: Vec<T> = Vec::new();
    let mut i: usize = 0;
    while i < total
        invariant
            i == values@.len(),
            i <= total,
            3 <= total <= 255,
        decreases total - i,
    {
        values.push(T::default());
        i += 1;
    }
    atomic_cycler::build_multiple_reader(values)
}

} // verus!
