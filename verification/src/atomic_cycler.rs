//! The cycler: a pool of `N + 2` slots, each one copy of the data behind its
//! own [`AtomicRwLock`], plus an index naming the slot that holds the latest
//! published value.
//!
//! One writer handle and `N` reader handles work against the pool. The writer
//! always write-holds exactly one slot (its buffer); each reader always
//! read-holds exactly one slot (its snapshot). The pool keeps these facts as
//! its well-formedness: the lock counter of the writer's slot is `0`, the
//! counter of every other slot is one more than the number of readers on it,
//! the most-recent index never names the writer's slot, and the slot it names
//! holds the last published value.
//!
//! The pool size `N + 2` is what keeps both sides free of waiting: even when
//! all `N` readers hold distinct stale slots, one slot other than the
//! writer's is free, so a publish can always claim its next buffer; and the
//! most-recent slot is never write-held, so a reader can always take it.

use vstd::prelude::*;

use crate::atomic_rw_lock::{AtomicRwLock, AtomicRwLockReader, AtomicRwLockWriter};
use crate::traits::EnsureSend;
use crate::traits::EnsureSync;
use crate::traits::ReadAccess;
use crate::traits::WriteAccess;

verus! {

/// How many entries of `s` equal `v`.
pub open spec fn count_eq(s: Seq<int>, v: int) -> int
    decreases s.len(),
{
    if s.len() == 0 {
        0
    } else {
        count_eq(s.drop_last(), v) + if s.last() == v {
            1int
        } else {
            0int
        }
    }
}

proof fn lemma_count_eq_bounds(s: Seq<int>, v: int)
    ensures
        0 <= count_eq(s, v) <= s.len(),
    decreases s.len(),
{
    if s.len() > 0 {
        lemma_count_eq_bounds(s.drop_last(), v);
    }
}

proof fn lemma_count_eq_push(s: Seq<int>, x: int, v: int)
    ensures
        count_eq(s.push(x), v) == count_eq(s, v) + if x == v {
            1int
        } else {
            0int
        },
{
    assert(s.push(x).drop_last() =~= s);
}

proof fn lemma_count_eq_update(s: Seq<int>, j: int, x: int, v: int)
    requires
        0 <= j < s.len(),
    ensures
        count_eq(s.update(j, x), v) == count_eq(s, v) - (if s[j] == v {
            1int
        } else {
            0int
        }) + (if x == v {
            1int
        } else {
            0int
        }),
    decreases s.len(),
{
    let s1 = s.update(j, x);
    if j == s.len() - 1 {
        assert(s1.drop_last() =~= s.drop_last());
    } else {
        assert(s1.drop_last() =~= s.drop_last().update(j, x));
        lemma_count_eq_update(s.drop_last(), j, x, v);
    }
}

proof fn lemma_count_eq_member(s: Seq<int>, j: int)
    requires
        0 <= j < s.len(),
    ensures
        count_eq(s, s[j]) >= 1,
    decreases s.len(),
{
    lemma_count_eq_bounds(s.drop_last(), s[j]);
    if j < s.len() - 1 {
        lemma_count_eq_member(s.drop_last(), j);
    }
}

proof fn lemma_count_eq_absent(s: Seq<int>, v: int)
    requires
        forall|j: int| 0 <= j < s.len() ==> s[j] != v,
    ensures
        count_eq(s, v) == 0,
    decreases s.len(),
{
    if s.len() > 0 {
        lemma_count_eq_absent(s.drop_last(), v);
    }
}

/// The sum of `count_eq(s, i)` over `lo <= i < hi`.
spec fn sum_counts(s: Seq<int>, lo: int, hi: int) -> int
    decreases hi - lo,
{
    if lo >= hi {
        0
    } else {
        count_eq(s, lo) + sum_counts(s, lo + 1, hi)
    }
}

proof fn lemma_sum_counts_shift(s1: Seq<int>, s2: Seq<int>, x: int, lo: int, hi: int)
    requires
        forall|v: int| count_eq(s1, v) == count_eq(s2, v) + if v == x {
            1int
        } else {
            0int
        },
    ensures
        sum_counts(s1, lo, hi) == sum_counts(s2, lo, hi) + if lo <= x < hi {
            1int
        } else {
            0int
        },
    decreases hi - lo,
{
    if lo < hi {
        lemma_sum_counts_shift(s1, s2, x, lo + 1, hi);
    }
}

proof fn lemma_sum_counts_empty(lo: int, hi: int)
    ensures
        sum_counts(Seq::empty(), lo, hi) == 0,
    decreases hi - lo,
{
    if lo < hi {
        lemma_sum_counts_empty(lo + 1, hi);
    }
}

proof fn lemma_sum_counts_total(s: Seq<int>, lo: int, hi: int)
    requires
        forall|j: int| 0 <= j < s.len() ==> lo <= #[trigger] s[j] < hi,
    ensures
        sum_counts(s, lo, hi) == s.len(),
    decreases s.len(),
{
    if s.len() == 0 {
        assert(s =~= Seq::empty());
        lemma_sum_counts_empty(lo, hi);
    } else {
        let s0 = s.drop_last();
        let x = s.last();
        assert(lo <= s[s.len() - 1] < hi);
        assert forall|j: int| 0 <= j < s0.len() implies lo <= #[trigger] s0[j] < hi by {
            assert(s0[j] == s[j]);
        }
        lemma_sum_counts_total(s0, lo, hi);
        assert forall|v: int| count_eq(s, v) == count_eq(s0, v) + (if v == x {
            1int
        } else {
            0int
        }) by {
            lemma_count_eq_push(s0, x, v);
            assert(s0.push(x) =~= s);
        }
        lemma_sum_counts_shift(s, s0, x, lo, hi);
    }
}

proof fn lemma_sum_counts_occupied(s: Seq<int>, lo: int, hi: int, w: int)
    requires
        forall|i: int| lo <= i < hi && i != w ==> count_eq(s, i) >= 1,
    ensures
        sum_counts(s, lo, hi) >= hi - lo - if lo <= w < hi {
            1int
        } else {
            0int
        },
    decreases hi - lo,
{
    if lo < hi {
        lemma_count_eq_bounds(s, lo);
        lemma_sum_counts_occupied(s, lo + 1, hi, w);
    }
}

/// The index `d` steps onward from `w`, cyclically, in a pool of `l` slots;
/// exact for `0 <= d <= l` and `0 <= w < l`.
pub open spec fn wrap_index(w: int, d: int, l: int) -> int {
    if w + d < l {
        w + d
    } else {
        w + d - l
    }
}

/// The pool: the slots, the most-recent index, and (as ghost bookkeeping) the
/// slot each reader currently holds and the sequence of published values.
pub struct AtomicCycler<T> {
    data_slots: Vec<AtomicRwLock<T, u8>>,
    most_up_to_date: u8,
    reader_slots: Ghost<Seq<int>>,
    log: Ghost<Seq<T>>,
}

/// The writer half: the index of its buffer slot and the write grant on it.
///
/// Exactly one writer handle exists per pool; it is not clonable.
pub struct AtomicCyclerWriter {
    currently_writing: u8,
    writer: AtomicRwLockWriter,
}

/// A reader half: the index of its snapshot slot and the read grant on it.
///
/// Reader handles are not clonable, but several exist per pool, each
/// independent of the others.
pub struct AtomicCyclerReader {
    reading: u8,
    reader: Option<AtomicRwLockReader>,
    id: Ghost<int>,
    seen: Ghost<int>,
}

impl<T> AtomicCycler<T> {
    /// The number of slots.
    pub closed spec fn num_slots(self) -> int {
        self.data_slots@.len() as int
    }

    /// The lock counter of slot `i`.
    pub closed spec fn slot_count(self, i: int) -> int {
        self.data_slots@[i].counter()
    }

    /// The value slot `i` holds.
    pub closed spec fn slot_value(self, i: int) -> T {
        self.data_slots@[i].stored()
    }

    /// The index of the slot holding the latest published value.
    pub closed spec fn most_recent(self) -> int {
        self.most_up_to_date as int
    }

    /// The slot each reader currently holds, by reader id.
    pub closed spec fn readers(self) -> Seq<int> {
        self.reader_slots@
    }

    /// Every value published so far, oldest first; the first entry is the
    /// initial value of slot 0.
    pub closed spec fn published(self) -> Seq<T> {
        self.log@
    }

    /// Well-formedness of the pool, given the writer's slot index `w`:
    /// the slot counters encode exactly who holds what, the most-recent
    /// index avoids the writer's slot, and the most-recent slot carries the
    /// last published value.
    pub open spec fn wf(self, w: int) -> bool {
        &&& 3 <= self.num_slots() <= 255
        &&& self.readers().len() == self.num_slots() - 2
        &&& 0 <= w < self.num_slots()
        &&& 0 <= self.most_recent() < self.num_slots()
        &&& self.most_recent() != w
        &&& self.slot_count(w) == 0
        &&& forall|i: int|
            0 <= i < self.num_slots() && i != w ==> self.slot_count(i) == 1 + count_eq(
                self.readers(),
                i,
            )
        &&& forall|j: int|
            0 <= j < self.readers().len() ==> 0 <= #[trigger] self.readers()[j] < self.num_slots()
                && self.readers()[j] != w
        &&& self.published().len() >= 1
        &&& self.slot_value(self.most_recent()) == self.published().last()
    }

    /// Well-formedness for some writer slot; the writer slot is the unique
    /// slot whose counter is zero, so at most one `w` fits.
    pub open spec fn wf_any(self) -> bool {
        exists|w: int| self.wf(w)
    }

    /// The number of readers the pool was built for.
    pub fn num_readers(&self) -> (r: usize)
        requires
            self.num_slots() >= 2,
        ensures
            r == self.num_slots() - 2,
    {
        self.data_slots.len() - 2
    }

    /// The number of slots.
    pub fn len(&self) -> (r: usize)
        ensures
            r == self.num_slots(),
    {
        self.data_slots.len()
    }

    /// The index of the slot holding the latest published value.
    pub fn most_up_to_date(&self) -> (r: u8)
        ensures
            r as int == self.most_recent(),
    {
        self.most_up_to_date
    }
}

/// The distance, cyclically onward from slot `w`, of the first free slot at
/// distance `d` or more; `c.num_slots()` if no slot from distance `d` on is
/// free. The publish step claims the slot this names.
pub open spec fn free_offset<T>(c: AtomicCycler<T>, w: int, d: int) -> int
    decreases c.num_slots() - d,
{
    if d < 0 || d >= c.num_slots() {
        c.num_slots()
    } else if c.slot_count(wrap_index(w, d, c.num_slots())) == 1 {
        d
    } else {
        free_offset(c, w, d + 1)
    }
}

/// The slot a publish from slot `w` claims: the first free slot cyclically
/// onward from `w`.
pub open spec fn next_slot<T>(c: AtomicCycler<T>, w: int) -> int {
    wrap_index(w, free_offset(c, w, 1), c.num_slots())
}

proof fn lemma_free_offset_lb<T>(c: AtomicCycler<T>, w: int, d: int)
    requires
        0 <= d <= c.num_slots(),
    ensures
        free_offset(c, w, d) >= d,
    decreases c.num_slots() - d,
{
    if d < c.num_slots() && c.slot_count(wrap_index(w, d, c.num_slots())) != 1 {
        lemma_free_offset_lb(c, w, d + 1);
    }
}

proof fn lemma_free_offset_reaches<T>(c: AtomicCycler<T>, w: int, d: int, target_d: int)
    requires
        1 <= d <= target_d < c.num_slots(),
        c.slot_count(wrap_index(w, target_d, c.num_slots())) == 1,
    ensures
        d <= free_offset(c, w, d) <= target_d,
        c.slot_count(wrap_index(w, free_offset(c, w, d), c.num_slots())) == 1,
    decreases target_d - d,
{
    if c.slot_count(wrap_index(w, d, c.num_slots())) != 1 {
        lemma_free_offset_reaches(c, w, d + 1, target_d);
    }
}

/// Slot counters say exactly who holds what (the grant encoding): the
/// writer's slot has counter 0, and every other slot's counter is one more
/// than the number of readers holding it.
pub proof fn lemma_counter_encodes_grants<T>(c: AtomicCycler<T>, w: int)
    requires
        c.wf(w),
    ensures
        c.slot_count(w) == 0,
        forall|i: int|
            0 <= i < c.num_slots() && i != w ==> c.slot_count(i) == 1 + count_eq(c.readers(), i),
{
}

/// The writer holds exactly one slot exclusively: every slot but `w` has a
/// nonzero counter, so no other slot is write-held.
pub proof fn lemma_writer_exclusive<T>(c: AtomicCycler<T>, w: int)
    requires
        c.wf(w),
    ensures
        c.slot_count(w) == 0,
        forall|i: int| 0 <= i < c.num_slots() && i != w ==> c.slot_count(i) >= 1,
{
    assert forall|i: int| 0 <= i < c.num_slots() && i != w implies c.slot_count(i) >= 1 by {
        lemma_count_eq_bounds(c.readers(), i);
    }
}

/// The most-recent index never names the writer's slot.
pub proof fn lemma_most_recent_not_writing<T>(c: AtomicCycler<T>, w: int)
    requires
        c.wf(w),
    ensures
        c.most_recent() != w,
{
}

/// The slot named most recent is never write-held, so a reader taking it
/// cannot be turned away: `read_latest` completes without retrying.
pub proof fn lemma_most_recent_acquirable<T>(c: AtomicCycler<T>, w: int)
    requires
        c.wf(w),
    ensures
        c.slot_count(c.most_recent()) >= 1,
{
    lemma_count_eq_bounds(c.readers(), c.most_recent());
}

/// What a reader sees is always a published value: its snapshot slot holds
/// the publication it last switched to, word for word. Together with
/// `read_latest`'s guarantee that the publication position never moves
/// backwards and that each switch lands on the newest publication, the
/// values one reader sees form a non-decreasing subsequence of the
/// publication sequence.
pub proof fn lemma_reader_snapshot_is_published<T>(r: AtomicCyclerReader, c: AtomicCycler<T>)
    requires
        r.wf_in(c),
    ensures
        0 <= r.seen() < c.published().len(),
        c.slot_value(r.reading()) == c.published()[r.seen()],
{
}

/// A slot other than the writer's is always free: the `N` readers hold at
/// most `N` of the `N + 1` other slots, so at least one has counter 1 and the
/// writer can always claim its next buffer.
pub proof fn lemma_free_slot_exists<T>(c: AtomicCycler<T>, w: int)
    requires
        c.wf(w),
    ensures
        exists|i: int| 0 <= i < c.num_slots() && i != w && c.slot_count(i) == 1,
{
    let l = c.num_slots();
    let s = c.readers();
    if !(exists|i: int| 0 <= i < l && i != w && c.slot_count(i) == 1) {
        assert forall|i: int| 0 <= i < l && i != w implies count_eq(s, i) >= 1 by {
            assert(c.slot_count(i) == 1 + count_eq(s, i));
            assert(c.slot_count(i) != 1);
            lemma_count_eq_bounds(s, i);
        }
        lemma_sum_counts_occupied(s, 0, l, w);
        lemma_sum_counts_total(s, 0, l);
        assert(false);
    }
}

/// Overwriting the writer's buffer keeps the pool well-formed: the buffer
/// slot is not the most-recent slot, so no published value and no reader
/// snapshot is touched. `c0` is the pool before the buffer write, `c1`
/// after.
pub proof fn lemma_buffer_write_keeps_wf<T>(c0: AtomicCycler<T>, c1: AtomicCycler<T>, w: int)
    requires
        c0.wf(w),
        c1.num_slots() == c0.num_slots(),
        c1.most_recent() == c0.most_recent(),
        c1.readers() == c0.readers(),
        c1.published() == c0.published(),
        forall|i: int| 0 <= i < c0.num_slots() ==> c1.slot_count(i) == c0.slot_count(i),
        forall|i: int| 0 <= i < c0.num_slots() && i != w ==> c1.slot_value(i) == c0.slot_value(i),
    ensures
        c1.wf(w),
{
    assert forall|i: int| 0 <= i < c1.num_slots() && i != w implies c1.slot_count(i) == 1
        + count_eq(c1.readers(), i) by {
        assert(c0.slot_count(i) == 1 + count_eq(c0.readers(), i));
    }
    assert forall|j: int|
        0 <= j < c1.readers().len() implies 0 <= #[trigger] c1.readers()[j] < c1.num_slots()
        && c1.readers()[j] != w by {
        assert(c0.readers()[j] == c1.readers()[j]);
    }
    assert(c1.slot_value(c1.most_recent()) == c0.slot_value(c0.most_recent()));
}

impl AtomicCyclerWriter {
    /// The index of the writer's buffer slot.
    pub closed spec fn writing(self) -> int {
        self.currently_writing as int
    }

    /// The index of the writer's buffer slot.
    pub fn currently_writing(&self) -> (r: u8)
        ensures
            r as int == self.writing(),
    {
        self.currently_writing
    }

    /// Shared access to the read view of the writer's current buffer.
    pub fn read_data<'a, T: ReadAccess>(&self, cycler: &'a AtomicCycler<T>) -> (r: &'a T::Read)
        requires
            cycler.wf(self.writing()),
        ensures
            *r == cycler.slot_value(self.writing()).read_view(),
    {
        slot_lock_ref(&cycler.data_slots, self.currently_writing as usize).write_ref(
            &self.writer,
        ).read_data()
    }

    /// Shared access to the write view of the writer's current buffer.
    pub fn write_data<'a, T: WriteAccess>(&self, cycler: &'a AtomicCycler<T>) -> (r: &'a T::Write)
        requires
            cycler.wf(self.writing()),
        ensures
            *r == cycler.slot_value(self.writing()).write_view(),
    {
        slot_lock_ref(&cycler.data_slots, self.currently_writing as usize).write_ref(
            &self.writer,
        ).write_data()
    }

    /// Exclusive access to the write view of the writer's current buffer.
    ///
    /// Only the buffer slot's value changes; every other slot, the
    /// most-recent index, the publication record and every reader are left
    /// as they were. The new buffer value is whatever the caller writes
    /// through the returned reference; nothing is published until the next
    /// publish call. [`lemma_buffer_write_keeps_wf`] recovers the pool's
    /// well-formedness from these facts once the borrow ends.
    pub fn write_data_mut<'a, T: WriteAccess>(&self, cycler: &'a mut AtomicCycler<T>) -> (r:
        &'a mut T::Write)
        requires
            old(cycler).wf(self.writing()),
        ensures
            *r == old(cycler).slot_value(self.writing()).write_view(),
            final(cycler).slot_value(self.writing()).write_view() == *final(r),
            final(cycler).num_slots() == old(cycler).num_slots(),
            final(cycler).most_recent() == old(cycler).most_recent(),
            final(cycler).readers() == old(cycler).readers(),
            final(cycler).published() == old(cycler).published(),
            forall|i: int|
                0 <= i < old(cycler).num_slots() ==> final(cycler).slot_count(i) == old(cycler).slot_count(i),
            forall|i: int|
                0 <= i < old(cycler).num_slots() && i != self.writing() ==> final(cycler).slot_value(i) == old(cycler).slot_value(i),
            forall|r2: AtomicCyclerReader| r2.wf_in(*old(cycler)) ==> r2.wf_in(*final(cycler)),
    {
        proof {
            assert forall|r2: AtomicCyclerReader| r2.wf_in(*old(cycler)) implies r2.reading()
                != self.writing() by {
            }
        }
        let lk = slot_lock_mut(&mut cycler.data_slots, self.currently_writing as usize);
        let buffer = lk.write_mut(&self.writer);
        buffer.write_data_mut()
    }

    /// Publishes the writer's buffer and advances to the next free slot,
    /// copying the published value forward with `clone_fn` (a one-shot
    /// closure; [`Self::write_next_fn`] takes a reusable one).
    ///
    /// The buffer the writer just finished becomes the latest published
    /// value: the first free slot cyclically onward is claimed as the new
    /// buffer, the write hold on the finished slot is downgraded to a read
    /// hold, `clone_fn` copies the published value into the new buffer, the
    /// most-recent index moves to the finished slot, and the read hold is
    /// released. The downgrade comes before the copy, so the published slot
    /// stays acquirable by readers throughout; every reader's snapshot slot
    /// and the value in it are left untouched.
    pub fn write_next_fn_impl<T, F: FnOnce(&T) -> T>(
        &mut self,
        cycler: &mut AtomicCycler<T>,
        clone_fn: F,
    )
        requires
            old(cycler).wf(old(self).writing()),
            call_requires(clone_fn, (&old(cycler).slot_value(old(self).writing()),)),
        ensures
            final(cycler).wf(final(self).writing()),
            final(self).writing() == next_slot(*old(cycler), old(self).writing()),
            old(cycler).slot_count(final(self).writing()) == 1,
            final(self).writing() != old(self).writing(),
            final(cycler).most_recent() == old(self).writing(),
            final(cycler).num_slots() == old(cycler).num_slots(),
            final(cycler).readers() == old(cycler).readers(),
            final(cycler).published() == old(cycler).published().push(
                old(cycler).slot_value(old(self).writing()),
            ),
            final(cycler).slot_value(old(self).writing()) == old(cycler).slot_value(
                old(self).writing(),
            ),
            call_ensures(
                clone_fn,
                (&old(cycler).slot_value(old(self).writing()),),
                final(cycler).slot_value(final(self).writing()),
            ),
            forall|i: int|
                0 <= i < old(cycler).num_slots() && i != final(self).writing() ==> final(cycler).slot_value(i) == old(cycler).slot_value(i),
            forall|r2: AtomicCyclerReader|
                r2.wf_in(*old(cycler)) ==> r2.wf_in(*final(cycler)) && final(cycler).slot_value(
                    r2.reading(),
                ) == old(cycler).slot_value(r2.reading()),
    {
        let ghost c0 = *old(cycler);
        let ghost w_spec = old(self).writing();
        let ghost l = c0.num_slots();
        let w_us = self.currently_writing as usize;
        let (next, claimed) = claim_next_slot(cycler, w_us);
        let ghost nxt = next as int;
        let mut other = claimed;
        std::mem::swap(&mut self.writer, &mut other);
        let rg = other.downgrade(slot_lock_mut(&mut cycler.data_slots, w_us));
        let ghost c2 = *cycler;
        proof {
            assert(c2.slot_count(w_spec) == 2);
            assert(c2.slot_value(w_spec) == c0.slot_value(w_spec));
        }
        let new_value = clone_fn(slot_lock_ref(&cycler.data_slots, w_us).read_ref(&rg));
        let ghost copied = new_value;
        let dst = slot_lock_mut(&mut cycler.data_slots, next).write_mut(&self.writer);
        *dst = new_value;
        let ghost c3 = *cycler;
        proof {
            assert(c3.slot_count(nxt) == 0);
            assert(c3.slot_value(nxt) == copied);
            assert forall|i: int| 0 <= i < l && i != nxt implies c3.slot_count(i) == c2.slot_count(
                i,
            ) && c3.slot_value(i) == c2.slot_value(i) by {}
        }
        cycler.most_up_to_date = self.currently_writing;
        let ghost new_log = c0.published().push(c0.slot_value(w_spec));
        cycler.log = Ghost(new_log);
        slot_lock_mut(&mut cycler.data_slots, w_us).release_read(rg);
        self.currently_writing = next as u8;
        proof {
            lemma_publish_post(c0, w_spec, *final(cycler), nxt);
            assert(final(cycler).slot_value(nxt) == copied);
        }
    }

    /// Publishes the writer's buffer and advances to the next free slot,
    /// copying the published value forward with `clone_fn`. The same as
    /// [`Self::write_next_fn_impl`], for a copy function that can be called
    /// more than once.
    pub fn write_next_fn<T, F: Fn(&T) -> T>(
        &mut self,
        cycler: &mut AtomicCycler<T>,
        clone_fn: F,
    )
        requires
            old(cycler).wf(old(self).writing()),
            call_requires(clone_fn, (&old(cycler).slot_value(old(self).writing()),)),
        ensures
            final(cycler).wf(final(self).writing()),
            final(self).writing() == next_slot(*old(cycler), old(self).writing()),
            old(cycler).slot_count(final(self).writing()) == 1,
            final(self).writing() != old(self).writing(),
            final(cycler).most_recent() == old(self).writing(),
            final(cycler).num_slots() == old(cycler).num_slots(),
            final(cycler).readers() == old(cycler).readers(),
            final(cycler).published() == old(cycler).published().push(
                old(cycler).slot_value(old(self).writing()),
            ),
            final(cycler).slot_value(old(self).writing()) == old(cycler).slot_value(
                old(self).writing(),
            ),
            call_ensures(
                clone_fn,
                (&old(cycler).slot_value(old(self).writing()),),
                final(cycler).slot_value(final(self).writing()),
            ),
            forall|i: int|
                0 <= i < old(cycler).num_slots() && i != final(self).writing() ==> final(cycler).slot_value(i) == old(cycler).slot_value(i),
            forall|r2: AtomicCyclerReader|
                r2.wf_in(*old(cycler)) ==> r2.wf_in(*final(cycler)) && final(cycler).slot_value(
                    r2.reading(),
                ) == old(cycler).slot_value(r2.reading()),
    {
        self.write_next_fn_impl(cycler, clone_fn)
    }

    /// Publishes the writer's buffer and advances to the next free slot,
    /// copying the published value forward by cloning it.
    pub fn write_next<T: Clone>(&mut self, cycler: &mut AtomicCycler<T>)
        requires
            old(cycler).wf(old(self).writing()),
        ensures
            final(cycler).wf(final(self).writing()),
            final(self).writing() == next_slot(*old(cycler), old(self).writing()),
            old(cycler).slot_count(final(self).writing()) == 1,
            final(self).writing() != old(self).writing(),
            final(cycler).most_recent() == old(self).writing(),
            final(cycler).num_slots() == old(cycler).num_slots(),
            final(cycler).readers() == old(cycler).readers(),
            final(cycler).published() == old(cycler).published().push(
                old(cycler).slot_value(old(self).writing()),
            ),
            final(cycler).slot_value(old(self).writing()) == old(cycler).slot_value(
                old(self).writing(),
            ),
            vstd::pervasive::cloned::<T>(
                old(cycler).slot_value(old(self).writing()),
                final(cycler).slot_value(final(self).writing()),
            ),
            forall|i: int|
                0 <= i < old(cycler).num_slots() && i != final(self).writing() ==> final(cycler).slot_value(i) == old(cycler).slot_value(i),
            forall|r2: AtomicCyclerReader|
                r2.wf_in(*old(cycler)) ==> r2.wf_in(*final(cycler)) && final(cycler).slot_value(
                    r2.reading(),
                ) == old(cycler).slot_value(r2.reading()),
    {
        let duplicate = |x: &T| -> (r: T)
            ensures
                vstd::pervasive::cloned::<T>(*x, r),
            {
                x.clone()
            };
        self.write_next_fn_impl(cycler, duplicate)
    }

    /// Publishes the writer's buffer and advances to the next free slot,
    /// with a copy step that may rework the published value as it copies
    /// (a one-shot closure; [`Self::write_next_mut_fn`] takes a reusable
    /// one).
    ///
    /// `clone_fn` maps the finished buffer value to a pair: the value for
    /// the new buffer, and the value the finished slot keeps and publishes.
    /// The finished slot stays write-held during the copy (no downgrade), so
    /// unlike [`Self::write_next_fn_impl`] the copy step may rework what is
    /// published; the write hold is only released after the most-recent
    /// index has moved. Every reader's snapshot slot and the value in it are
    /// left untouched.
    pub fn write_next_mut_fn_impl<T, F: FnOnce(&T) -> (T, T)>(
        &mut self,
        cycler: &mut AtomicCycler<T>,
        clone_fn: F,
    )
        requires
            old(cycler).wf(old(self).writing()),
            call_requires(clone_fn, (&old(cycler).slot_value(old(self).writing()),)),
        ensures
            final(cycler).wf(final(self).writing()),
            final(self).writing() == next_slot(*old(cycler), old(self).writing()),
            old(cycler).slot_count(final(self).writing()) == 1,
            final(self).writing() != old(self).writing(),
            final(cycler).most_recent() == old(self).writing(),
            final(cycler).num_slots() == old(cycler).num_slots(),
            final(cycler).readers() == old(cycler).readers(),
            final(cycler).published() == old(cycler).published().push(
                final(cycler).slot_value(old(self).writing()),
            ),
            call_ensures(
                clone_fn,
                (&old(cycler).slot_value(old(self).writing()),),
                (
                    final(cycler).slot_value(final(self).writing()),
                    final(cycler).slot_value(old(self).writing()),
                ),
            ),
            forall|i: int|
                0 <= i < old(cycler).num_slots() && i != final(self).writing() && i != old(self).writing() ==> final(cycler).slot_value(i) == old(cycler).slot_value(i),
            forall|r2: AtomicCyclerReader|
                r2.wf_in(*old(cycler)) ==> r2.wf_in(*final(cycler)) && final(cycler).slot_value(
                    r2.reading(),
                ) == old(cycler).slot_value(r2.reading()),
    {
        let ghost c0 = *old(cycler);
        let ghost w_spec = old(self).writing();
        let ghost l = c0.num_slots();
        let w_us = self.currently_writing as usize;
        let (next, claimed) = claim_next_slot(cycler, w_us);
        let ghost nxt = next as int;
        let mut other = claimed;
        std::mem::swap(&mut self.writer, &mut other);
        let pair = clone_fn(slot_lock_ref(&cycler.data_slots, w_us).write_ref(&other));
        let (new_buffer, kept) = pair;
        let ghost buffer_spec = new_buffer;
        let ghost kept_spec = kept;
        let dstw = slot_lock_mut(&mut cycler.data_slots, w_us).write_mut(&other);
        *dstw = kept;
        let dstn = slot_lock_mut(&mut cycler.data_slots, next).write_mut(&self.writer);
        *dstn = new_buffer;
        let ghost c3 = *cycler;
        proof {
            assert(c3.slot_count(nxt) == 0);
            assert(c3.slot_count(w_spec) == 0);
            assert(c3.slot_value(nxt) == buffer_spec);
            assert(c3.slot_value(w_spec) == kept_spec);
        }
        cycler.most_up_to_date = self.currently_writing;
        let ghost new_log = c0.published().push(kept_spec);
        cycler.log = Ghost(new_log);
        slot_lock_mut(&mut cycler.data_slots, w_us).release_write(other);
        self.currently_writing = next as u8;
        proof {
            lemma_publish_post(c0, w_spec, *final(cycler), nxt);
            assert(final(cycler).slot_value(nxt) == buffer_spec);
            assert(final(cycler).slot_value(w_spec) == kept_spec);
        }
    }

    /// Publishes the writer's buffer and advances to the next free slot,
    /// with a copy step that may rework the published value as it copies.
    /// The same as [`Self::write_next_mut_fn_impl`], for a copy function
    /// that can be called more than once.
    pub fn write_next_mut_fn<T, F: Fn(&T) -> (T, T)>(
        &mut self,
        cycler: &mut AtomicCycler<T>,
        clone_fn: F,
    )
        requires
            old(cycler).wf(old(self).writing()),
            call_requires(clone_fn, (&old(cycler).slot_value(old(self).writing()),)),
        ensures
            final(cycler).wf(final(self).writing()),
            final(self).writing() == next_slot(*old(cycler), old(self).writing()),
            old(cycler).slot_count(final(self).writing()) == 1,
            final(self).writing() != old(self).writing(),
            final(cycler).most_recent() == old(self).writing(),
            final(cycler).num_slots() == old(cycler).num_slots(),
            final(cycler).readers() == old(cycler).readers(),
            final(cycler).published() == old(cycler).published().push(
                final(cycler).slot_value(old(self).writing()),
            ),
            call_ensures(
                clone_fn,
                (&old(cycler).slot_value(old(self).writing()),),
                (
                    final(cycler).slot_value(final(self).writing()),
                    final(cycler).slot_value(old(self).writing()),
                ),
            ),
            forall|i: int|
                0 <= i < old(cycler).num_slots() && i != final(self).writing() && i != old(self).writing() ==> final(cycler).slot_value(i) == old(cycler).slot_value(i),
            forall|r2: AtomicCyclerReader|
                r2.wf_in(*old(cycler)) ==> r2.wf_in(*final(cycler)) && final(cycler).slot_value(
                    r2.reading(),
                ) == old(cycler).slot_value(r2.reading()),
    {
        self.write_next_mut_fn_impl(cycler, clone_fn)
    }
}

/// Claims the first free slot cyclically onward from the writer's slot
/// `w_us`: the termination of this scan is exactly the guarantee that a free
/// slot always exists ([`lemma_free_slot_exists`]).
fn claim_next_slot<T>(cycler: &mut AtomicCycler<T>, w_us: usize) -> (r: (
    usize,
    AtomicRwLockWriter,
))
    requires
        old(cycler).wf(w_us as int),
    ensures
        r.0 as int == next_slot(*old(cycler), w_us as int),
        r.0 < old(cycler).num_slots(),
        r.0 != w_us,
        old(cycler).slot_count(r.0 as int) == 1,
        final(cycler).slot_count(r.0 as int) == 0,
        forall|i: int|
            0 <= i < old(cycler).num_slots() && i != r.0 ==> final(cycler).slot_count(i) == old(cycler).slot_count(i),
        forall|i: int|
            0 <= i < old(cycler).num_slots() ==> final(cycler).slot_value(i) == old(cycler).slot_value(i),
        final(cycler).num_slots() == old(cycler).num_slots(),
        final(cycler).most_recent() == old(cycler).most_recent(),
        final(cycler).readers() == old(cycler).readers(),
        final(cycler).published() == old(cycler).published(),
{
    let ghost c0 = *old(cycler);
    let ghost w_spec = w_us as int;
    let ghost l = c0.num_slots();
    let ghost foff = free_offset(c0, w_spec, 1);
    proof {
        lemma_free_slot_exists(c0, w_spec);
        let i_free = choose|i: int| 0 <= i < l && i != w_spec && c0.slot_count(i) == 1;
        let target_d = if i_free > w_spec {
            i_free - w_spec
        } else {
            i_free + l - w_spec
        };
        assert(wrap_index(w_spec, target_d, l) == i_free);
        lemma_free_offset_reaches(c0, w_spec, 1, target_d);
    }
    let len = cycler.data_slots.len();
    let mut d: usize = 1;
    let mut next: usize = if w_us + 1 >= len {
        0
    } else {
        w_us + 1
    };
    let mut claimed: Option<AtomicRwLockWriter> = None;
    loop
        invariant_except_break
            claimed is None,
            next == wrap_index(w_spec, d as int, l),
            free_offset(c0, w_spec, d as int) == foff,
            cycler.data_slots@ == c0.data_slots@,
            cycler.most_up_to_date == c0.most_up_to_date,
            cycler.reader_slots == c0.reader_slots,
            cycler.log == c0.log,
        invariant
            1 <= d <= foff < l,
            l == c0.num_slots(),
            len == l,
            w_us == w_spec,
            0 <= w_spec < l,
            c0.wf(w_spec),
            c0.slot_count(wrap_index(w_spec, foff, l)) == 1,
            free_offset(c0, w_spec, 1) == foff,
        ensures
            claimed is Some,
            d == foff,
            next == wrap_index(w_spec, foff, l),
            next < len,
            cycler.num_slots() == l,
            cycler.most_recent() == c0.most_recent(),
            cycler.readers() == c0.readers(),
            cycler.published() == c0.published(),
            cycler.slot_count(next as int) == 0,
            forall|i: int| 0 <= i < l && i != next ==> cycler.slot_count(i) == c0.slot_count(i),
            forall|i: int| 0 <= i < l ==> cycler.slot_value(i) == c0.slot_value(i),
        decreases foff - d,
    {
        let got = slot_lock_mut(&mut cycler.data_slots, next).try_write();
        if got.is_some() {
            claimed = got;
            proof {
                assert(c0.slot_count(next as int) == 1);
                assert(free_offset(c0, w_spec, d as int) == d);
            }
            break ;
        }
        proof {
            assert(cycler.data_slots@ =~= c0.data_slots@);
            assert(c0.slot_count(wrap_index(w_spec, d as int, l)) != 1);
            lemma_free_offset_lb(c0, w_spec, d + 1);
            assert(free_offset(c0, w_spec, d + 1) == foff);
        }
        d += 1;
        next += 1;
        if next >= len {
            next = 0;
        }
        proof {
            assert(next == wrap_index(w_spec, d as int, l));
        }
    }
    let grant = claimed.unwrap();
    proof {
        assert(next != w_us);
    }
    (next, grant)
}

/// The facts common to the end of every publish step, provable from the
/// slot-level bookkeeping: the pool is well-formed around the new buffer
/// slot, and every reader keeps its snapshot. `c0` is the pool as the
/// publish began with the writer on `w`; `c1` is the finished pool with the
/// writer on `nxt`.
proof fn lemma_publish_post<T>(c0: AtomicCycler<T>, w: int, c1: AtomicCycler<T>, nxt: int)
    requires
        c0.wf(w),
        0 <= nxt < c0.num_slots(),
        nxt != w,
        c0.slot_count(nxt) == 1,
        c1.num_slots() == c0.num_slots(),
        c1.readers() == c0.readers(),
        c1.most_recent() == w,
        c1.published() == c0.published().push(c1.slot_value(w)),
        c1.slot_count(w) == 1,
        c1.slot_count(nxt) == 0,
        forall|i: int|
            0 <= i < c0.num_slots() && i != nxt && i != w ==> c1.slot_count(i) == c0.slot_count(i)
                && c1.slot_value(i) == c0.slot_value(i),
    ensures
        c1.wf(nxt),
        forall|r2: AtomicCyclerReader|
            r2.wf_in(c0) ==> r2.wf_in(c1) && c1.slot_value(r2.reading()) == c0.slot_value(
                r2.reading(),
            ),
{
    let l = c0.num_slots();
    assert forall|j: int| 0 <= j < c0.readers().len() implies #[trigger] c0.readers()[j]
        != nxt by {
        if c0.readers()[j] == nxt {
            lemma_count_eq_member(c0.readers(), j);
        }
    }
    lemma_count_eq_absent(c0.readers(), nxt);
    lemma_count_eq_absent(c0.readers(), w);
    assert forall|i: int| 0 <= i < l && i != nxt implies c1.slot_count(i) == 1 + count_eq(
        c1.readers(),
        i,
    ) by {
        if i != w {
            assert(c0.slot_count(i) == 1 + count_eq(c0.readers(), i));
        }
    }
    assert forall|j: int| 0 <= j < c1.readers().len() implies 0 <= #[trigger] c1.readers()[j]
        < c1.num_slots() && c1.readers()[j] != nxt by {
        assert(c1.readers()[j] == c0.readers()[j]);
    }
    assert(c1.slot_value(c1.most_recent()) == c1.published().last());
    assert(c1.wf(nxt));
    assert forall|r2: AtomicCyclerReader| r2.wf_in(c0) implies r2.wf_in(c1) && c1.slot_value(
        r2.reading(),
    ) == c0.slot_value(r2.reading()) by {
        lemma_count_eq_member(c0.readers(), r2.rid());
        assert(r2.reading() != nxt);
        assert(c1.published()[r2.seen()] == c0.published()[r2.seen()]);
    }
}

impl AtomicCyclerReader {
    /// The index of the slot this reader holds.
    pub closed spec fn reading(self) -> int {
        self.reading as int
    }

    /// This reader's id: its position in the pool's ghost record of held
    /// slots.
    pub closed spec fn rid(self) -> int {
        self.id@
    }

    /// The position in the publication sequence of the value this reader
    /// sees.
    pub closed spec fn seen(self) -> int {
        self.seen@
    }

    /// Whether this reader holds its read grant (it always does between
    /// calls; the grant is only ever set aside inside `read_latest`).
    pub closed spec fn has_grant(self) -> bool {
        self.reader is Some
    }

    /// This reader agrees with the pool: the pool records it on the slot it
    /// holds, and that slot carries the published value it last switched to.
    pub open spec fn wf_in<T>(self, c: AtomicCycler<T>) -> bool {
        &&& self.has_grant()
        &&& 0 <= self.rid() < c.readers().len()
        &&& c.readers()[self.rid()] == self.reading()
        &&& 0 <= self.seen() < c.published().len()
        &&& c.slot_value(self.reading()) == c.published()[self.seen()]
    }
}

/// Builds a pool of exactly 3 slots holding `values`, with its writer and a
/// single reader: the reader starts on slot 0, the writer on slot 1, and
/// slot 0 is the most recent (the first published value is `values.0`).
pub fn build_single_reader<T>(values: (T, T, T)) -> (r: (
    AtomicCycler<T>,
    AtomicCyclerWriter,
    AtomicCyclerReader,
))
    ensures
        r.0.wf(1),
        r.1.writing() == 1,
        r.2.wf_in(r.0),
        r.2.rid() == 0,
        r.2.reading() == 0,
        r.2.seen() == 0,
        r.0.num_slots() == 3,
        r.0.most_recent() == 0,
        r.0.slot_value(0) == values.0,
        r.0.slot_value(1) == values.1,
        r.0.slot_value(2) == values.2,
        r.0.published() == seq![values.0],
        r.0.readers() == seq![0int],
        r.0.slot_count(0) == 2,
        r.0.slot_count(1) == 0,
        r.0.slot_count(2) == 1,
{
    let (a, b, c) = values;
    let ghost a_spec = a;
    let mut slots: Vec<AtomicRwLock<T, u8>> = Vec::new();
    slots.push(AtomicRwLock::new_u8(a));
    slots.push(AtomicRwLock::new_u8(b));
    slots.push(AtomicRwLock::new_u8(c));
    let write_grant = slot_lock_mut(&mut slots, 1).try_write().unwrap();
    let read_grant = slot_lock_mut(&mut slots, 0).try_read().unwrap();
    let ghost initial_readers: Seq<int> = seq![0int];
    let ghost initial_log: Seq<T> = seq![a_spec];
    let cycler = AtomicCycler {
        data_slots: slots,
        most_up_to_date: 0,
        reader_slots: Ghost(initial_readers),
        log: Ghost(initial_log),
    };
    let writer = AtomicCyclerWriter { currently_writing: 1, writer: write_grant };
    let reader = AtomicCyclerReader {
        reading: 0,
        reader: Some(read_grant),
        id: Ghost(0),
        seen: Ghost(0),
    };
    proof {
        assert forall|v: int| count_eq(seq![0int], v) == (if v == 0 {
            1int
        } else {
            0int
        }) by {
            lemma_count_eq_push(Seq::empty(), 0, v);
            assert(Seq::<int>::empty().push(0) =~= seq![0int]);
        }
    }
    (cycler, writer, reader)
}

proof fn lemma_count_eq_const_zero(m: nat, v: int)
    ensures
        count_eq(Seq::new(m, |j: int| 0int), v) == if v == 0 {
            m as int
        } else {
            0int
        },
    decreases m,
{
    let s = Seq::new(m, |j: int| 0int);
    if m > 0 {
        lemma_count_eq_const_zero((m - 1) as nat, v);
        assert(s.drop_last() =~= Seq::new((m - 1) as nat, |j: int| 0int));
    }
}

/// Builds a pool with one slot per entry of `initial_values` (at least 3, at
/// most 255 of them), with its writer and `len - 2` readers: all readers
/// start on slot 0, the writer on slot 1, and slot 0 is the most recent (the
/// first published value is `initial_values[0]`).
pub fn build_multiple_reader<T>(initial_values: Vec<T>) -> (r: (
    AtomicCycler<T>,
    AtomicCyclerWriter,
    Vec<AtomicCyclerReader>,
))
    requires
        3 <= initial_values@.len() <= 255,
    ensures
        r.0.wf(1),
        r.1.writing() == 1,
        r.0.num_slots() == initial_values@.len(),
        r.0.most_recent() == 0,
        forall|i: int|
            0 <= i < initial_values@.len() ==> r.0.slot_value(i) == initial_values@[i],
        r.0.published() == seq![initial_values@[0]],
        r.2@.len() == initial_values@.len() - 2,
        forall|k: int|
            0 <= k < r.2@.len() ==> (#[trigger] r.2@[k]).wf_in(r.0) && r.2@[k].rid() == k
                && r.2@[k].reading() == 0 && r.2@[k].seen() == 0,
        r.0.readers() == Seq::new((initial_values@.len() - 2) as nat, |k: int| 0int),
        r.0.slot_count(0) == initial_values@.len() - 1,
        r.0.slot_count(1) == 0,
        forall|i: int| 2 <= i < initial_values@.len() ==> r.0.slot_count(i) == 1,
{
    let ghost vals = initial_values@;
    let n = initial_values.len();
    let mut vals_left = initial_values;
    let mut slots: Vec<AtomicRwLock<T, u8>> = Vec::new();
    let mut i: usize = 0;
    while i < n
        invariant
            i == slots@.len(),
            i <= n,
            n == vals.len(),
            vals_left@ == vals.skip(i as int),
            forall|j: int|
                0 <= j < i ==> (#[trigger] slots@[j]).counter() == 1 && slots@[j].stored()
                    == vals[j],
        decreases n - i,
    {
        let v = vals_left.remove(0);
        slots.push(AtomicRwLock::new_u8(v));
        proof {
            assert(vals.skip(i as int).remove(0) =~= vals.skip(i + 1));
        }
        i += 1;
    }
    let write_grant = slot_lock_mut(&mut slots, 1).try_write().unwrap();
    let mut readers: Vec<AtomicCyclerReader> = Vec::new();
    let mut k: usize = 0;
    while k < n - 2
        invariant
            3 <= n <= 255,
            k == readers@.len(),
            k <= n - 2,
            slots@.len() == n,
            slots@[0].counter() == 1 + k,
            slots@[1].counter() == 0,
            forall|j: int| 2 <= j < n ==> (#[trigger] slots@[j]).counter() == 1,
            forall|j: int| 0 <= j < n ==> (#[trigger] slots@[j]).stored() == vals[j],
            forall|j: int|
                0 <= j < k ==> (#[trigger] readers@[j]).reading() == 0 && readers@[j].rid() == j
                    && readers@[j].seen() == 0 && readers@[j].has_grant(),
        decreases n - 2 - k,
    {
        let g = slot_lock_mut(&mut slots, 0).try_read().unwrap();
        let ghost kk = k as int;
        readers.push(
            AtomicCyclerReader { reading: 0, reader: Some(g), id: Ghost(kk), seen: Ghost(0) },
        );
        k += 1;
    }
    let ghost initial_readers: Seq<int> = Seq::new((n - 2) as nat, |j: int| 0int);
    let ghost initial_log: Seq<T> = seq![vals[0]];
    let cycler = AtomicCycler {
        data_slots: slots,
        most_up_to_date: 0,
        reader_slots: Ghost(initial_readers),
        log: Ghost(initial_log),
    };
    let writer = AtomicCyclerWriter { currently_writing: 1, writer: write_grant };
    proof {
        assert forall|v: int| count_eq(initial_readers, v) == (if v == 0 {
            (n - 2) as int
        } else {
            0int
        }) by {
            lemma_count_eq_const_zero((n - 2) as nat, v);
        }
    }
    (cycler, writer, readers)
}

impl AtomicCyclerReader {
    /// Shared access to the read view of this reader's current snapshot.
    ///
    /// The result is the read view of the published value this reader last
    /// switched to; it stays the same, however often the writer publishes,
    /// until this reader's next `read_latest`.
    pub fn read_data<'a, T: ReadAccess>(&self, cycler: &'a AtomicCycler<T>) -> (r: &'a T::Read)
        requires
            cycler.wf_any(),
            self.wf_in(*cycler),
        ensures
            *r == cycler.slot_value(self.reading()).read_view(),
            *r == cycler.published()[self.seen()].read_view(),
    {
        proof {
            let w = choose|w: int| cycler.wf(w);
            assert(cycler.wf(w));
            lemma_count_eq_member(cycler.readers(), self.rid());
            assert(cycler.slot_count(self.reading()) == 1 + count_eq(
                cycler.readers(),
                self.reading(),
            ));
        }
        let lk = slot_lock_ref(&cycler.data_slots, self.reading as usize);
        lk.read_ref(self.reader.as_ref().unwrap()).read_data()
    }

    /// Releases the current snapshot and acquires the slot that the
    /// most-recent index names, so this reader sees the latest published
    /// value.
    ///
    /// In this state model the acquire cannot fail: the most-recent slot is
    /// never write-held, which is the liveness the pool maintains for its
    /// readers. The switch may keep the same slot, which means nothing was
    /// published since the last call; the position this reader sees never
    /// moves backwards.
    pub fn read_latest<T>(&mut self, cycler: &mut AtomicCycler<T>)
        requires
            old(cycler).wf_any(),
            old(self).wf_in(*old(cycler)),
        ensures
            forall|w: int| old(cycler).wf(w) ==> final(cycler).wf(w),
            final(cycler).wf_any(),
            final(self).wf_in(*final(cycler)),
            final(self).rid() == old(self).rid(),
            final(self).reading() == old(cycler).most_recent(),
            final(self).seen() == old(cycler).published().len() - 1,
            old(self).seen() <= final(self).seen(),
            final(cycler).published() == old(cycler).published(),
            final(cycler).most_recent() == old(cycler).most_recent(),
            final(cycler).num_slots() == old(cycler).num_slots(),
            forall|i: int|
                0 <= i < old(cycler).num_slots() ==> final(cycler).slot_value(i) == old(cycler).slot_value(i),
            final(cycler).readers() == old(cycler).readers().update(
                old(self).rid(),
                old(cycler).most_recent(),
            ),
            forall|r2: AtomicCyclerReader|
                r2.wf_in(*old(cycler)) && r2.rid() != old(self).rid() ==> r2.wf_in(*final(cycler)),
    {
        let ghost w = choose|w: int| old(cycler).wf(w);
        let ghost old_readers = old(cycler).readers();
        let ghost rid = old(self).rid();
        let ghost held = old(self).reading();
        proof {
            assert(old(cycler).wf(w));
            lemma_count_eq_member(old_readers, rid);
            assert(old(cycler).slot_count(held) == 1 + count_eq(old_readers, held));
        }
        let grant = self.reader.take().unwrap();
        let idx = self.reading as usize;
        slot_lock_mut(&mut cycler.data_slots, idx).release_read(grant);
        let m = cycler.most_up_to_date;
        proof {
            lemma_count_eq_bounds(old_readers, m as int);
            assert(old(cycler).slot_count(m as int) == 1 + count_eq(old_readers, m as int));
            assert(cycler.data_slots@[m as int].counter() == old(cycler).slot_count(m as int) - (
            if m as int == held {
                1int
            } else {
                0int
            }));
            assert(cycler.data_slots@[m as int].counter() < 255);
            assert(cycler.data_slots@[m as int].counter() != 0);
        }
        let new_grant = slot_lock_mut(&mut cycler.data_slots, m as usize).try_read().unwrap();
        self.reader = Some(new_grant);
        self.reading = m;
        let ghost new_readers = old_readers.update(rid, m as int);
        cycler.reader_slots = Ghost(new_readers);
        let ghost new_seen = old(cycler).published().len() - 1;
        self.seen = Ghost(new_seen);
        proof {
            assert forall|v: int|
                count_eq(new_readers, v) == count_eq(old_readers, v) - (if old(self).reading() == v {
                    1int
                } else {
                    0int
                }) + (if m as int == v {
                    1int
                } else {
                    0int
                }) by {
                lemma_count_eq_update(old_readers, rid, m as int, v);
            }
            assert(final(cycler).readers() =~= old(cycler).readers().update(
                old(self).rid(),
                old(cycler).most_recent(),
            ));
            assert forall|i: int| 0 <= i < old(cycler).num_slots() implies final(cycler).slot_count(
                i,
            ) == old(cycler).slot_count(i) - (if i == held {
                1int
            } else {
                0int
            }) + (if i == m as int {
                1int
            } else {
                0int
            }) by {}
            assert forall|i: int| 0 <= i < old(cycler).num_slots() implies final(cycler).slot_value(
                i,
            ) == old(cycler).slot_value(i) by {}
            assert forall|w2: int| old(cycler).wf(w2) implies final(cycler).wf(w2) by {
                assert(held != w2);
                assert(old(cycler).most_recent() != w2);
                assert(final(cycler).slot_count(w2) == 0);
                assert forall|j: int| 0 <= j < new_readers.len() implies 0 <= #[trigger] new_readers[j]
                    < final(cycler).num_slots() && new_readers[j] != w2 by {
                    if j != rid {
                        assert(new_readers[j] == old_readers[j]);
                    }
                }
            }
        }
    }
}

/// Exclusive access to the lock of slot `i`.
fn slot_lock_mut<T>(slots: &mut Vec<AtomicRwLock<T, u8>>, i: usize) -> (r: &mut AtomicRwLock<
    T,
    u8,
>)
    requires
        i < old(slots).len(),
    ensures
        *r == old(slots)@[i as int],
        final(slots)@ == old(slots)@.update(i as int, *final(r)),
{
    &mut slots[i]
}

/// Shared access to the lock of slot `i`.
fn slot_lock_ref<T>(slots: &Vec<AtomicRwLock<T, u8>>, i: usize) -> (r: &AtomicRwLock<T, u8>)
    requires
        i < slots.len(),
    ensures
        *r == slots@[i as int],
{
    &slots[i]
}

impl<T: Send> EnsureSend for AtomicCycler<T> {

}

impl<T: Send + Sync> EnsureSync for AtomicCycler<T> {

}

impl EnsureSend for AtomicCyclerWriter {

}

impl EnsureSync for AtomicCyclerWriter {

}

impl EnsureSend for AtomicCyclerReader {

}

impl EnsureSync for AtomicCyclerReader {

}

} // verus!
