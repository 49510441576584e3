//! A counting reader/writer lock for one slot of the cycler.
//!
//! The whole lock state is one counter:
//! - `0`: the slot is exclusively held by a writer;
//! - `1`: the slot is free;
//! - `c > 1`: the slot is held by `c - 1` readers.
//!
//! Acquiring hands out a grant value ([`AtomicRwLockReader`] or
//! [`AtomicRwLockWriter`]); the grant is given back explicitly to release the
//! lock, or a write grant is downgraded in place to a read grant. A grant must
//! only be used with the lock that issued it.

use vstd::prelude::*;

use crate::traits::EnsureSend;
use crate::traits::EnsureSync;

verus! {

/// A counter wide enough to carry the lock state of one slot.
///
/// Implementations are the plain unsigned integer types. Every value is
/// between `0` and `max_int()`, and `max_int()` is at least 255, so a pool of
/// up to 255 slots can drive any of them.
pub trait AtomicValue: Sized + Copy {
    /// The counter value as a mathematical integer.
    spec fn as_int(self) -> int;

    /// The largest value the counter can carry.
    spec fn max_int() -> int;

    /// Every counter value lies between zero and the maximum, and the
    /// maximum is at least 255.
    proof fn bounds(self)
        ensures
            0 <= self.as_int() <= Self::max_int(),
            Self::max_int() >= 255,
    ;

    /// The counter value one.
    fn one() -> (r: Self)
        ensures
            r.as_int() == 1,
    ;

    /// Whether the counter is zero (write-held).
    fn is_zero(self) -> (r: bool)
        ensures
            r <==> self.as_int() == 0,
    ;

    /// Whether the counter is one (free).
    fn is_one(self) -> (r: bool)
        ensures
            r <==> self.as_int() == 1,
    ;

    /// The counter plus one.
    fn plus_one(self) -> (r: Self)
        requires
            self.as_int() < Self::max_int(),
        ensures
            r.as_int() == self.as_int() + 1,
    ;

    /// The counter minus one.
    fn minus_one(self) -> (r: Self)
        requires
            self.as_int() >= 1,
        ensures
            r.as_int() == self.as_int() - 1,
    ;
}

impl AtomicValue for u8 {
    open spec fn as_int(self) -> int {
        self as int
    }

    open spec fn max_int() -> int {
        u8::MAX as int
    }

    proof fn bounds(self) {
    }

    fn one() -> u8 {
        1
    }

    fn is_zero(self) -> bool {
        self == 0
    }

    fn is_one(self) -> bool {
        self == 1
    }

    fn plus_one(self) -> u8 {
        self + 1
    }

    fn minus_one(self) -> u8 {
        self - 1
    }
}

impl AtomicValue for u16 {
    open spec fn as_int(self) -> int {
        self as int
    }

    open spec fn max_int() -> int {
        u16::MAX as int
    }

    proof fn bounds(self) {
    }

    fn one() -> u16 {
        1
    }

    fn is_zero(self) -> bool {
        self == 0
    }

    fn is_one(self) -> bool {
        self == 1
    }

    fn plus_one(self) -> u16 {
        self + 1
    }

    fn minus_one(self) -> u16 {
        self - 1
    }
}

impl AtomicValue for u32 {
    open spec fn as_int(self) -> int {
        self as int
    }

    open spec fn max_int() -> int {
        u32::MAX as int
    }

    proof fn bounds(self) {
    }

    fn one() -> u32 {
        1
    }

    fn is_zero(self) -> bool {
        self == 0
    }

    fn is_one(self) -> bool {
        self == 1
    }

    fn plus_one(self) -> u32 {
        self + 1
    }

    fn minus_one(self) -> u32 {
        self - 1
    }
}

impl AtomicValue for u64 {
    open spec fn as_int(self) -> int {
        self as int
    }

    open spec fn max_int() -> int {
        u64::MAX as int
    }

    proof fn bounds(self) {
    }

    fn one() -> u64 {
        1
    }

    fn is_zero(self) -> bool {
        self == 0
    }

    fn is_one(self) -> bool {
        self == 1
    }

    fn plus_one(self) -> u64 {
        self + 1
    }

    fn minus_one(self) -> u64 {
        self - 1
    }
}

impl AtomicValue for usize {
    open spec fn as_int(self) -> int {
        self as int
    }

    open spec fn max_int() -> int {
        usize::MAX as int
    }

    proof fn bounds(self) {
    }

    fn one() -> usize {
        1
    }

    fn is_zero(self) -> bool {
        self == 0
    }

    fn is_one(self) -> bool {
        self == 1
    }

    fn plus_one(self) -> usize {
        self + 1
    }

    fn minus_one(self) -> usize {
        self - 1
    }
}

/// A lock guarding one value `T` with a single counter of type `A`.
pub struct AtomicRwLock<T, A: AtomicValue> {
    /// Stores 1 + the number of readers, or 0 while a writer holds the slot.
    count: A,
    data: T,
}

/// A grant witnessing one shared (read) hold on an [`AtomicRwLock`].
pub struct AtomicRwLockReader {
    _token: (),
}

/// A grant witnessing the exclusive (write) hold on an [`AtomicRwLock`].
pub struct AtomicRwLockWriter {
    _token: (),
}

impl<T, A: AtomicValue> AtomicRwLock<T, A> {
    /// The counter, as an integer: 0 while write-held, 1 while free,
    /// `c > 1` while held by `c - 1` readers.
    pub closed spec fn counter(self) -> int {
        self.count.as_int()
    }

    /// The value the lock guards.
    pub closed spec fn stored(self) -> T {
        self.data
    }

    /// The counter never leaves the range of its carrier type.
    pub proof fn counter_bounds(self)
        ensures
            0 <= self.counter() <= A::max_int(),
            A::max_int() >= 255,
    {
        self.count.bounds();
    }

    /// A new lock around `value`, free (counter 1).
    pub fn new(value: T) -> (r: Self)
        ensures
            r.counter() == 1,
            r.stored() == value,
    {
        AtomicRwLock { count: A::one(), data: value }
    }

    /// The current counter value.
    pub fn load(&self) -> (r: A)
        ensures
            r.as_int() == self.counter(),
    {
        self.count
    }

    /// Consumes the lock and returns the value it guarded.
    pub fn into_inner(self) -> (r: T)
        ensures
            r == self.stored(),
    {
        self.data
    }

    /// Exclusive access to the value through exclusive access to the whole
    /// lock; no grant is involved and the counter does not move.
    pub fn get_mut(&mut self) -> (r: &mut T)
        ensures
            *r == old(self).stored(),
            final(self).stored() == *final(r),
            final(self).counter() == old(self).counter(),
    {
        &mut self.data
    }

    /// Tries to add a reader: fails exactly while a writer holds the slot.
    fn lock_read(&mut self) -> (r: bool)
        requires
            old(self).counter() < A::max_int(),
        ensures
            r <==> old(self).counter() != 0,
            final(self).stored() == old(self).stored(),
            old(self).counter() == 0 ==> *final(self) == *old(self),
            old(self).counter() != 0 ==> final(self).counter() == old(self).counter() + 1,
    {
        let prev = self.count;
        if prev.is_zero() {
            false
        } else {
            self.count = prev.plus_one();
            true
        }
    }

    /// Tries to take the slot for writing: succeeds exactly while it is free.
    fn lock_write(&mut self) -> (r: bool)
        ensures
            r <==> old(self).counter() == 1,
            final(self).stored() == old(self).stored(),
            old(self).counter() == 1 ==> final(self).counter() == 0,
            old(self).counter() != 1 ==> *final(self) == *old(self),
    {
        let prev = self.count;
        if prev.is_one() {
            self.count = prev.minus_one();
            true
        } else {
            false
        }
    }

    /// Tries to acquire a read grant. Returns `None` exactly while a writer
    /// holds the slot; never blocks.
    pub fn try_read(&mut self) -> (r: Option<AtomicRwLockReader>)
        requires
            old(self).counter() < A::max_int(),
        ensures
            r is Some <==> old(self).counter() != 0,
            final(self).stored() == old(self).stored(),
            old(self).counter() == 0 ==> *final(self) == *old(self),
            old(self).counter() != 0 ==> final(self).counter() == old(self).counter() + 1,
    {
        if self.lock_read() {
            Some(AtomicRwLockReader { _token: () })
        } else {
            None
        }
    }

    /// Tries to acquire the write grant. Returns `None` exactly while the slot
    /// is not free; never blocks.
    pub fn try_write(&mut self) -> (r: Option<AtomicRwLockWriter>)
        ensures
            r is Some <==> old(self).counter() == 1,
            final(self).stored() == old(self).stored(),
            old(self).counter() == 1 ==> final(self).counter() == 0,
            old(self).counter() != 1 ==> *final(self) == *old(self),
    {
        if self.lock_write() {
            Some(AtomicRwLockWriter { _token: () })
        } else {
            None
        }
    }

    /// [`Self::try_read`] under the name used where the lock is held through a
    /// shared pool handle; the grant discipline is the same.
    pub fn try_read_static(&mut self) -> (r: Option<AtomicRwLockReader>)
        requires
            old(self).counter() < A::max_int(),
        ensures
            r is Some <==> old(self).counter() != 0,
            final(self).stored() == old(self).stored(),
            old(self).counter() == 0 ==> *final(self) == *old(self),
            old(self).counter() != 0 ==> final(self).counter() == old(self).counter() + 1,
    {
        self.try_read()
    }

    /// [`Self::try_write`] under the name used where the lock is held through
    /// a shared pool handle; the grant discipline is the same.
    pub fn try_write_static(&mut self) -> (r: Option<AtomicRwLockWriter>)
        ensures
            r is Some <==> old(self).counter() == 1,
            final(self).stored() == old(self).stored(),
            old(self).counter() == 1 ==> final(self).counter() == 0,
            old(self).counter() != 1 ==> *final(self) == *old(self),
    {
        self.try_write()
    }

    /// Gives a read grant back: one reader leaves. The counter must show at
    /// least one reader (a free or write-held lock has no read grant to give
    /// back).
    pub fn release_read(&mut self, grant: AtomicRwLockReader)
        requires
            old(self).counter() >= 2,
        ensures
            final(self).counter() == old(self).counter() - 1,
            final(self).stored() == old(self).stored(),
    {
        let _ = grant;
        self.count = self.count.minus_one();
    }

    /// Gives the write grant back: the slot becomes free.
    pub fn release_write(&mut self, grant: AtomicRwLockWriter)
        requires
            old(self).counter() == 0,
        ensures
            final(self).counter() == 1,
            final(self).stored() == old(self).stored(),
    {
        let _ = grant;
        proof {
            self.count.bounds();
        }
        self.count = self.count.plus_one();
    }

    /// Shared access to the value under a read grant.
    pub fn read_ref<'a>(&'a self, grant: &AtomicRwLockReader) -> (r: &'a T)
        requires
            self.counter() >= 2,
        ensures
            *r == self.stored(),
    {
        let _ = grant;
        &self.data
    }

    /// Shared access to the value under the write grant.
    pub fn write_ref<'a>(&'a self, grant: &AtomicRwLockWriter) -> (r: &'a T)
        requires
            self.counter() == 0,
        ensures
            *r == self.stored(),
    {
        let _ = grant;
        &self.data
    }

    /// Exclusive access to the value under the write grant.
    pub fn write_mut<'a>(&'a mut self, grant: &AtomicRwLockWriter) -> (r: &'a mut T)
        requires
            old(self).counter() == 0,
        ensures
            *r == old(self).stored(),
            final(self).stored() == *final(r),
            final(self).counter() == 0,
    {
        let _ = grant;
        &mut self.data
    }
}

impl<T> AtomicRwLock<T, u8> {
    /// A new free lock with a `u8` counter.
    pub fn new_u8(value: T) -> (r: Self)
        ensures
            r.counter() == 1,
            r.stored() == value,
    {
        Self::new(value)
    }
}

impl<T> AtomicRwLock<T, u16> {
    /// A new free lock with a `u16` counter.
    pub fn new_u16(value: T) -> (r: Self)
        ensures
            r.counter() == 1,
            r.stored() == value,
    {
        Self::new(value)
    }
}

impl<T> AtomicRwLock<T, u32> {
    /// A new free lock with a `u32` counter.
    pub fn new_u32(value: T) -> (r: Self)
        ensures
            r.counter() == 1,
            r.stored() == value,
    {
        Self::new(value)
    }
}

impl<T> AtomicRwLock<T, u64> {
    /// A new free lock with a `u64` counter.
    pub fn new_u64(value: T) -> (r: Self)
        ensures
            r.counter() == 1,
            r.stored() == value,
    {
        Self::new(value)
    }
}

impl<T> AtomicRwLock<T, usize> {
    /// A new free lock with a `usize` counter.
    pub fn new_usize(value: T) -> (r: Self)
        ensures
            r.counter() == 1,
            r.stored() == value,
    {
        Self::new(value)
    }
}

impl AtomicRwLockWriter {
    /// Discards the grant without releasing the lock: the slot stays
    /// write-held for good.
    pub fn into_inner(self) {
        let _ = self;
    }

    /// Turns the write grant into a read grant in place: the counter moves
    /// from 0 to 2, so the caller keeps one reader seat and other readers may
    /// join at once.
    pub fn downgrade<T, A: AtomicValue>(self, lock: &mut AtomicRwLock<T, A>) -> (r: AtomicRwLockReader)
        requires
            old(lock).counter() == 0,
        ensures
            final(lock).counter() == 2,
            final(lock).stored() == old(lock).stored(),
    {
        let _ = self;
        lock.bump_two();
        AtomicRwLockReader { _token: () }
    }
}

impl<T, A: AtomicValue> AtomicRwLock<T, A> {
    /// Moves the counter from 0 to 2 for a downgrade.
    fn bump_two(&mut self)
        requires
            old(self).counter() == 0,
        ensures
            final(self).counter() == 2,
            final(self).stored() == old(self).stored(),
    {
        proof {
            self.count.bounds();
        }
        self.count = self.count.plus_one().plus_one();
    }
}

impl<T: Send, A: AtomicValue + Send> EnsureSend for AtomicRwLock<T, A> {

}

impl<T: Sync, A: AtomicValue + Sync> EnsureSync for AtomicRwLock<T, A> {

}

impl EnsureSend for AtomicRwLockReader {

}

impl EnsureSync for AtomicRwLockReader {

}

impl EnsureSend for AtomicRwLockWriter {

}

impl EnsureSync for AtomicRwLockWriter {

}

} // verus!
