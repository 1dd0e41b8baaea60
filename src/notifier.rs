use core::sync::atomic::{AtomicU64, Ordering};
use vstd::prelude::*;

verus! {

/// Bit 63: an exchange of the payload is in progress.
pub const LOCKED: u64 = 0x8000_0000_0000_0000;

/// Bit 62: a wake was requested.
pub const NOTIFIED: u64 = 0x4000_0000_0000_0000;

/// Bit 61: the payload has never been initialized.
pub const NEW: u64 = 0x2000_0000_0000_0000;

/// Bits 0 to 60: the number of live handles.
pub const COUNT_MASK: u64 = 0x1FFF_FFFF_FFFF_FFFF;

pub open spec fn is_locked(w: u64) -> bool {
    w & LOCKED != 0
}

pub open spec fn is_notified(w: u64) -> bool {
    w & NOTIFIED != 0
}

pub open spec fn is_new(w: u64) -> bool {
    w & NEW != 0
}

pub open spec fn count_of(w: u64) -> u64 {
    w & COUNT_MASK
}

/// The word with the given flags and count.
pub open spec fn pack(locked: bool, notified: bool, new: bool, count: u64) -> u64 {
    (if locked { LOCKED } else { 0u64 }) | (if notified { NOTIFIED } else { 0u64 }) | (if new {
        NEW
    } else {
        0u64
    }) | (count & COUNT_MASK)
}

/// Word after one more handle was retained.
pub open spec fn retained(w: u64) -> u64 {
    pack(is_locked(w), is_notified(w), is_new(w), (count_of(w) + 1) as u64)
}

/// Word after one handle was released.
pub open spec fn released(w: u64) -> u64 {
    pack(is_locked(w), is_notified(w), is_new(w), (count_of(w) - 1) as u64)
}

/// Word after a wake set the notified bit (and, when the lock was free, took the lock).
pub open spec fn wake_target(w: u64) -> u64 {
    pack(true, true, is_new(w), count_of(w))
}

/// Word after a wake that held the lock let go of it.
pub open spec fn wake_unlocked(w: u64) -> u64 {
    pack(false, is_notified(w), is_new(w), count_of(w))
}

/// Word once `update` has taken the lock.
pub open spec fn update_locked(w: u64) -> u64 {
    pack(true, is_notified(w), is_new(w), count_of(w))
}

/// Word once `update` has swapped the payload and let go of the lock.
pub open spec fn update_unlocked(w: u64) -> u64 {
    pack(false, false, false, count_of(w))
}

/// What `release` decided, from the word it found.
pub struct Release {
    /// The word just before the decrement.
    pub prev: u64,
    /// This release dropped the last handle of an initialized notifier: the
    /// payload must be freed through the table's free entry, and the
    /// enclosing structure may be freed.
    pub last: bool,
}

pub open spec fn release_decision(prev: u64) -> Release {
    Release {
        prev,
        last: count_of(prev) == 1 && !is_new(prev),
    }
}

/// One attempt of `wake` on the word it observed.
pub enum WakeStep {
    /// The lock is held by `update`: only set the notified bit and leave.
    Delegate { next: u64 },
    /// The lock is free: take it together with the notified bit, then wake the payload.
    Acquire { next: u64 },
}

pub open spec fn wake_decision(current: u64) -> WakeStep {
    if is_locked(current) {
        WakeStep::Delegate { next: wake_target(current) }
    } else {
        WakeStep::Acquire { next: wake_target(current) }
    }
}

/// What `update` must do once it let go of the lock.
pub struct UpdateDecision {
    /// The word just before the lock was released.
    pub prev: u64,
    /// A wake came in while the payload was exchanged: wake the new payload.
    pub wake_new: bool,
    /// There was a real previous payload: free it.
    pub free_old: bool,
}

pub open spec fn update_decision(prev: u64) -> UpdateDecision {
    UpdateDecision { prev, wake_new: is_notified(prev), free_old: !is_new(prev) }
}

proof fn lemma_pack_fields(locked: bool, notified: bool, new: bool, count: u64)
    requires
        count <= COUNT_MASK,
    ensures
        is_locked(pack(locked, notified, new, count)) == locked,
        is_notified(pack(locked, notified, new, count)) == notified,
        is_new(pack(locked, notified, new, count)) == new,
        count_of(pack(locked, notified, new, count)) == count,
{
    let l: u64 = if locked { LOCKED } else { 0u64 };
    let n: u64 = if notified { NOTIFIED } else { 0u64 };
    let f: u64 = if new { NEW } else { 0u64 };
    assert(l == 0 || l == 0x8000_0000_0000_0000u64);
    assert(n == 0 || n == 0x4000_0000_0000_0000u64);
    assert(f == 0 || f == 0x2000_0000_0000_0000u64);
    assert(((l | n | f | (count & 0x1FFF_FFFF_FFFF_FFFFu64)) & 0x8000_0000_0000_0000u64 != 0) == (l
        != 0) && ((l | n | f | (count & 0x1FFF_FFFF_FFFF_FFFFu64)) & 0x4000_0000_0000_0000u64 != 0)
        == (n != 0) && ((l | n | f | (count & 0x1FFF_FFFF_FFFF_FFFFu64)) & 0x2000_0000_0000_0000u64
        != 0) == (f != 0) && ((l | n | f | (count & 0x1FFF_FFFF_FFFF_FFFFu64))
        & 0x1FFF_FFFF_FFFF_FFFFu64) == count) by (bit_vector)
        requires
            l == 0 || l == 0x8000_0000_0000_0000u64,
            n == 0 || n == 0x4000_0000_0000_0000u64,
            f == 0 || f == 0x2000_0000_0000_0000u64,
            count <= 0x1FFF_FFFF_FFFF_FFFFu64,
    ;
}

proof fn lemma_count_bound(w: u64)
    ensures
        count_of(w) <= COUNT_MASK,
        w == pack(is_locked(w), is_notified(w), is_new(w), count_of(w)),
{
    assert(w & 0x1FFF_FFFF_FFFF_FFFFu64 <= 0x1FFF_FFFF_FFFF_FFFFu64) by (bit_vector);
    let l: u64 = if w & LOCKED != 0 { LOCKED } else { 0u64 };
    let n: u64 = if w & NOTIFIED != 0 { NOTIFIED } else { 0u64 };
    let f: u64 = if w & NEW != 0 { NEW } else { 0u64 };
    assert(l == w & 0x8000_0000_0000_0000u64 && n == w & 0x4000_0000_0000_0000u64 && f == w
        & 0x2000_0000_0000_0000u64) by (bit_vector)
        requires
            l == (if w & 0x8000_0000_0000_0000u64 != 0 {
                0x8000_0000_0000_0000u64
            } else {
                0u64
            }),
            n == (if w & 0x4000_0000_0000_0000u64 != 0 {
                0x4000_0000_0000_0000u64
            } else {
                0u64
            }),
            f == (if w & 0x2000_0000_0000_0000u64 != 0 {
                0x2000_0000_0000_0000u64
            } else {
                0u64
            }),
    ;
    assert(w == (w & 0x8000_0000_0000_0000u64) | (w & 0x4000_0000_0000_0000u64) | (w
        & 0x2000_0000_0000_0000u64) | ((w & 0x1FFF_FFFF_FFFF_FFFFu64) & 0x1FFF_FFFF_FFFF_FFFFu64))
        by (bit_vector);
}

/// The word of a freshly built notifier: one handle, no payload yet.
pub fn initial_word() -> (r: u64)
    ensures
        r == pack(false, false, true, 1),
        !is_locked(r) && !is_notified(r) && is_new(r) && count_of(r) == 1,
{
    proof {
        lemma_pack_fields(false, false, true, 1);
    }
    assert(0u64 | 0u64 | 0x2000_0000_0000_0000u64 | (1u64 & 0x1FFF_FFFF_FFFF_FFFFu64)
        == 0x2000_0000_0000_0001u64) by (bit_vector);
    0x2000_0000_0000_0001u64
}

/// The word after `retain`: the count goes up by one, the flags stay.
pub fn retain_word(w: u64) -> (r: u64)
    requires
        count_of(w) < COUNT_MASK,
    ensures
        r == retained(w),
        count_of(r) == count_of(w) + 1,
        is_locked(r) == is_locked(w) && is_notified(r) == is_notified(w) && is_new(r) == is_new(w),
{
    assert(w < 0xFFFF_FFFF_FFFF_FFFFu64) by (bit_vector)
        requires
            w & 0x1FFF_FFFF_FFFF_FFFFu64 < 0x1FFF_FFFF_FFFF_FFFFu64,
    ;
    let r = w + 1;
    assert((r & 0x1FFF_FFFF_FFFF_FFFFu64) == (w & 0x1FFF_FFFF_FFFF_FFFFu64) + 1 && (r
        & 0x8000_0000_0000_0000u64) == (w & 0x8000_0000_0000_0000u64) && (r
        & 0x4000_0000_0000_0000u64) == (w & 0x4000_0000_0000_0000u64) && (r
        & 0x2000_0000_0000_0000u64) == (w & 0x2000_0000_0000_0000u64)) by (bit_vector)
        requires
            w & 0x1FFF_FFFF_FFFF_FFFFu64 < 0x1FFF_FFFF_FFFF_FFFFu64,
            r == w + 1,
    ;
    proof {
        lemma_count_bound(r);
        lemma_pack_fields(is_locked(w), is_notified(w), is_new(w), (count_of(w) + 1) as u64);
    }
    r
}

proof fn lemma_or_and_fields(w: u64)
    ensures
        (w | LOCKED | NOTIFIED) == wake_target(w),
        (w | LOCKED) == update_locked(w),
        (w & !LOCKED) == wake_unlocked(w),
        (w & COUNT_MASK) == update_unlocked(w),
{
    let a = w | 0x8000_0000_0000_0000u64 | 0x4000_0000_0000_0000u64;
    let b = w | 0x8000_0000_0000_0000u64;
    let c = w & !0x8000_0000_0000_0000u64;
    let d = w & 0x1FFF_FFFF_FFFF_FFFFu64;
    assert(a & 0x8000_0000_0000_0000u64 != 0 && a & 0x4000_0000_0000_0000u64 != 0 && a
        & 0x2000_0000_0000_0000u64 == w & 0x2000_0000_0000_0000u64 && a & 0x1FFF_FFFF_FFFF_FFFFu64
        == w & 0x1FFF_FFFF_FFFF_FFFFu64) by (bit_vector)
        requires
            a == w | 0x8000_0000_0000_0000u64 | 0x4000_0000_0000_0000u64,
    ;
    assert(b & 0x8000_0000_0000_0000u64 != 0 && b & 0x4000_0000_0000_0000u64 == w
        & 0x4000_0000_0000_0000u64 && b & 0x2000_0000_0000_0000u64 == w & 0x2000_0000_0000_0000u64
        && b & 0x1FFF_FFFF_FFFF_FFFFu64 == w & 0x1FFF_FFFF_FFFF_FFFFu64) by (bit_vector)
        requires
            b == w | 0x8000_0000_0000_0000u64,
    ;
    assert(c & 0x8000_0000_0000_0000u64 == 0 && c & 0x4000_0000_0000_0000u64 == w
        & 0x4000_0000_0000_0000u64 && c & 0x2000_0000_0000_0000u64 == w & 0x2000_0000_0000_0000u64
        && c & 0x1FFF_FFFF_FFFF_FFFFu64 == w & 0x1FFF_FFFF_FFFF_FFFFu64) by (bit_vector)
        requires
            c == w & !0x8000_0000_0000_0000u64,
    ;
    assert(d & 0x8000_0000_0000_0000u64 == 0 && d & 0x4000_0000_0000_0000u64 == 0 && d
        & 0x2000_0000_0000_0000u64 == 0 && d & 0x1FFF_FFFF_FFFF_FFFFu64 == w
        & 0x1FFF_FFFF_FFFF_FFFFu64) by (bit_vector)
        requires
            d == w & 0x1FFF_FFFF_FFFF_FFFFu64,
    ;
    lemma_count_bound(w);
    lemma_count_bound(a);
    lemma_count_bound(b);
    lemma_count_bound(c);
    lemma_count_bound(d);
}

proof fn lemma_decrement(w: u64)
    requires
        count_of(w) >= 1,
    ensures
        count_of(w) <= COUNT_MASK,
        w >= 1,
        (w - 1) as u64 == released(w),
        count_of((w - 1) as u64) == count_of(w) - 1,
{
    assert(w >= 1) by (bit_vector)
        requires
            w & 0x1FFF_FFFF_FFFF_FFFFu64 >= 1,
    ;
    let r = (w - 1) as u64;
    assert((r & 0x1FFF_FFFF_FFFF_FFFFu64) == (w & 0x1FFF_FFFF_FFFF_FFFFu64) - 1 && (r
        & 0x8000_0000_0000_0000u64) == (w & 0x8000_0000_0000_0000u64) && (r
        & 0x4000_0000_0000_0000u64) == (w & 0x4000_0000_0000_0000u64) && (r
        & 0x2000_0000_0000_0000u64) == (w & 0x2000_0000_0000_0000u64)) by (bit_vector)
        requires
            w & 0x1FFF_FFFF_FFFF_FFFFu64 >= 1,
            r == (w - 1) as u64,
    ;
    lemma_count_bound(w);
    lemma_count_bound(r);
}

/// The word after `release`, and what the release must do.
pub fn release_word(prev: u64) -> (r: (u64, Release))
    requires
        count_of(prev) >= 1,
    ensures
        r.0 == released(prev),
        count_of(r.0) == count_of(prev) - 1,
        r.1 == release_decision(prev),
{
    proof {
        lemma_decrement(prev);
    }
    (prev - 1, release_outcome(prev))
}

/// What a release must do, given the word it found before its decrement:
/// it reports the last handle exactly when the count was one and the payload
/// was ever initialized.
pub fn release_outcome(prev: u64) -> (r: Release)
    ensures
        r == release_decision(prev),
{
    let last = prev & COUNT_MASK == 1;
    let fresh = prev & NEW != 0;
    Release { prev, last: last && !fresh }
}

/// One attempt of `wake` on the word it observed: the word it tries to
/// install, and whether it delegates to a running `update`.
pub fn wake_step(current: u64) -> (r: WakeStep)
    ensures
        r == wake_decision(current),
{
    proof {
        lemma_or_and_fields(current);
    }
    let next = current | LOCKED | NOTIFIED;
    if current & LOCKED != 0 {
        WakeStep::Delegate { next }
    } else {
        WakeStep::Acquire { next }
    }
}

/// Whether a `wake` that took the lock from word `acquired_from` must wake the
/// payload: only when the payload was ever initialized.
pub fn wake_reaches_payload(acquired_from: u64) -> (r: bool)
    ensures
        r == !is_new(acquired_from),
{
    acquired_from & NEW == 0
}

/// The bits that a `wake` holding the lock clears when it lets go.
pub fn wake_release_mask() -> (r: u64)
    ensures
        forall|w: u64| #[trigger] (w & r) == wake_unlocked(w),
{
    assert forall|w: u64| #[trigger] (w & !LOCKED) == wake_unlocked(w) by {
        lemma_or_and_fields(w);
    }
    !LOCKED
}

/// Whether a lock attempt of `update`, which found word `prev`, took the lock.
pub fn update_acquired(prev: u64) -> (r: bool)
    ensures
        r == !is_locked(prev),
        (prev | LOCKED) == update_locked(prev),
{
    proof {
        lemma_or_and_fields(prev);
    }
    prev & LOCKED == 0
}

/// What `update` must do, given the word it found when it let go of the lock.
pub fn update_outcome(prev: u64) -> (r: UpdateDecision)
    ensures
        r == update_decision(prev),
        (prev & COUNT_MASK) == update_unlocked(prev),
{
    proof {
        lemma_or_and_fields(prev);
    }
    UpdateDecision { prev, wake_new: prev & NOTIFIED != 0, free_old: prev & NEW == 0 }
}

/// The shared word of a notifier. Each method makes exactly one atomic
/// operation on it and returns what the caller must do next; the loops that
/// retry and the payload that the lock guards belong to the owner.
///
/// The value held in the word is not modelled: std's atomics carry no value
/// in their specifications, since another thread may change the word at any
/// time. So these methods state nothing of the word itself. What they hand
/// on is the verified decision for the word they observed (`release_outcome`,
/// `wake_step`, `update_acquired`, `update_outcome`), and the changes they
/// make (+1, -1, setting or clearing bits) are the ones that `retain_word`,
/// `release_word`, `wake_step` and `update_outcome` prove correct.
pub struct AtomicFFICWaker {
    state: AtomicU64,
}

impl AtomicFFICWaker {
    /// A notifier word with one handle and a payload that was never set.
    pub fn new() -> (r: Self) {
        AtomicFFICWaker { state: AtomicU64::new(initial_word()) }
    }

    /// Retains one more handle. Relaxed: it publishes nothing.
    pub fn inc(&self) {
        self.state.fetch_add(1, Ordering::Relaxed);
    }

    /// Releases one handle, and says whether it was the last handle of an
    /// initialized notifier (payload and structure to be freed).
    pub fn dec(&self) -> (r: Release)
        ensures
            r == release_decision(r.prev),
    {
        let prev = self.state.fetch_sub(1, Ordering::AcqRel);
        release_outcome(prev)
    }

    /// Reads the word.
    pub fn load(&self) -> u64 {
        self.state.load(Ordering::Relaxed)
    }

    /// One compare-and-swap of `wake` from the word it last saw. On success
    /// it says which path was taken; on failure it hands back the word found.
    pub fn try_wake(&self, current: u64) -> (r: Result<WakeStep, u64>)
        ensures
            r is Ok ==> r == Ok::<WakeStep, u64>(wake_decision(current)),
    {
        let step = wake_step(current);
        let (next, success) = match step {
            WakeStep::Delegate { next } => (next, Ordering::Release),
            WakeStep::Acquire { next } => (next, Ordering::Acquire),
        };
        match self.state.compare_exchange_weak(current, next, success, Ordering::Relaxed) {
            Ok(_) => Ok(step),
            Err(found) => Err(found),
        }
    }

    /// Lets go of the lock taken by `wake`; the notified bit stays.
    pub fn end_wake(&self) {
        self.state.fetch_and(wake_release_mask(), Ordering::Release);
    }

    /// One attempt of `update` to take the lock; true when it was taken.
    pub fn try_lock(&self) -> bool {
        let prev = self.state.fetch_or(LOCKED, Ordering::Acquire);
        update_acquired(prev)
    }

    /// Clears the lock, notified and new bits at once, and says whether the
    /// new payload must be woken and the old one freed.
    pub fn end_update(&self) -> (r: UpdateDecision)
        ensures
            r == update_decision(r.prev),
    {
        let prev = self.state.fetch_and(COUNT_MASK, Ordering::Release);
        update_outcome(prev)
    }
}

/// Net change of the handle count over retains (`true`) and releases (`false`).
pub open spec fn net(ops: Seq<bool>) -> int
    decreases ops.len(),
{
    if ops.len() == 0 {
        0
    } else {
        net(ops.drop_last()) + if ops.last() {
            1int
        } else {
            -1int
        }
    }
}

/// The word after the retains (`true`) and releases (`false`) of `ops`, in order.
pub open spec fn run_handles(w: u64, ops: Seq<bool>) -> u64
    decreases ops.len(),
{
    if ops.len() == 0 {
        w
    } else {
        let before = run_handles(w, ops.drop_last());
        if ops.last() {
            retained(before)
        } else {
            released(before)
        }
    }
}

/// Every retain and release of `ops` is made while a handle is live, and no
/// retain overflows the count field.
pub open spec fn made_by_live_handles(w: u64, ops: Seq<bool>) -> bool {
    forall|i: int|
        0 <= i < ops.len() ==> 1 <= count_of(w) + #[trigger] net(ops.take(i)) < COUNT_MASK
}

/// The release at position `i` of `ops` reports that it dropped the last handle.
pub open spec fn reports_last(w: u64, ops: Seq<bool>, i: int) -> bool {
    !ops[i] && release_decision(run_handles(w, ops.take(i))).last
}

proof fn lemma_run_handles(w: u64, ops: Seq<bool>)
    requires
        made_by_live_handles(w, ops),
    ensures
        count_of(run_handles(w, ops)) == count_of(w) + net(ops),
        is_locked(run_handles(w, ops)) == is_locked(w),
        is_notified(run_handles(w, ops)) == is_notified(w),
        is_new(run_handles(w, ops)) == is_new(w),
    decreases ops.len(),
{
    lemma_count_bound(w);
    if ops.len() > 0 {
        let p = ops.drop_last();
        assert forall|i: int| 0 <= i < p.len() implies 1 <= count_of(w) + #[trigger] net(
            p.take(i),
        ) < COUNT_MASK by {
            assert(p.take(i) =~= ops.take(i));
            assert(1 <= count_of(w) + net(ops.take(i)) < COUNT_MASK);
        }
        lemma_run_handles(w, p);
        assert(ops.take(ops.len() - 1) =~= p);
        assert(1 <= count_of(w) + net(ops.take(ops.len() - 1)) < COUNT_MASK);
        let b = run_handles(w, p);
        if ops.last() {
            lemma_pack_fields(is_locked(b), is_notified(b), is_new(b), (count_of(b) + 1) as u64);
        } else {
            lemma_pack_fields(is_locked(b), is_notified(b), is_new(b), (count_of(b) - 1) as u64);
        }
    }
}

/// Whatever the order of retains and releases, as long as each is made by a
/// live handle, exactly one release reports the last handle, it is the final
/// operation, and it happens exactly when the net count comes to zero on a
/// notifier whose payload was ever initialized; otherwise no release reports it.
pub proof fn lemma_last_release_exactly_once(w: u64, ops: Seq<bool>)
    requires
        made_by_live_handles(w, ops),
    ensures
        forall|i: int|
            0 <= i < ops.len() ==> (#[trigger] reports_last(w, ops, i) <==> (i == ops.len() - 1
                && count_of(w) + net(ops) == 0 && !is_new(w))),
{
    assert forall|i: int| 0 <= i < ops.len() implies (#[trigger] reports_last(w, ops, i) <==> (i
        == ops.len() - 1 && count_of(w) + net(ops) == 0 && !is_new(w))) by {
        let t = ops.take(i);
        assert forall|j: int| 0 <= j < t.len() implies 1 <= count_of(w) + #[trigger] net(
            t.take(j),
        ) < COUNT_MASK by {
            assert(t.take(j) =~= ops.take(j));
            assert(1 <= count_of(w) + net(ops.take(j)) < COUNT_MASK);
        }
        lemma_run_handles(w, t);
        assert(1 <= count_of(w) + net(ops.take(i)) < COUNT_MASK);
        let t1 = ops.take(i + 1);
        assert(t1.drop_last() =~= t);
        assert(net(t1) == net(t) + if ops[i] {
            1int
        } else {
            -1int
        });
        if i < ops.len() - 1 {
            assert(1 <= count_of(w) + net(ops.take(i + 1)) < COUNT_MASK);
        } else {
            assert(t1 =~= ops);
        }
    }
}

/// What can happen to the word while `update` holds the lock.
pub enum Interleaved {
    Wake,
    Retain,
    Release,
}

/// The word after the events of `evs`, in order, from word `w`.
pub open spec fn run_events(w: u64, evs: Seq<Interleaved>) -> u64
    decreases evs.len(),
{
    if evs.len() == 0 {
        w
    } else {
        let b = run_events(w, evs.drop_last());
        match evs.last() {
            Interleaved::Wake => match wake_decision(b) {
                WakeStep::Delegate { next } => next,
                WakeStep::Acquire { next } => next,
            },
            Interleaved::Retain => retained(b),
            Interleaved::Release => released(b),
        }
    }
}

pub open spec fn has_wake(evs: Seq<Interleaved>) -> bool
    decreases evs.len(),
{
    evs.len() > 0 && (has_wake(evs.drop_last()) || evs.last() is Wake)
}

/// Every retain and release among `evs` is made by a live handle and no
/// retain overflows the count field.
pub open spec fn events_by_live_handles(w: u64, evs: Seq<Interleaved>) -> bool {
    forall|i: int|
        0 <= i < evs.len() ==> 1 <= #[trigger] count_of(run_events(w, evs.take(i))) < COUNT_MASK
}

/// While `update` holds the lock, every wake delegates to it and the lock
/// stays with `update`; when `update` lets go it wakes the new payload exactly
/// when a wake was requested (before or during its hold), so no wake is lost,
/// and it frees the old payload exactly when there was one.
pub proof fn lemma_wake_during_update_not_lost(w: u64, evs: Seq<Interleaved>)
    requires
        is_locked(w),
        events_by_live_handles(w, evs),
    ensures
        is_locked(run_events(w, evs)),
        forall|i: int|
            0 <= i < evs.len() && evs[i] is Wake ==> #[trigger] wake_decision(
                run_events(w, evs.take(i)),
            ) is Delegate,
        update_decision(run_events(w, evs)).wake_new == (is_notified(w) || has_wake(evs)),
        update_decision(run_events(w, evs)).free_old == !is_new(w),
    decreases evs.len(),
{
    lemma_count_bound(w);
    if evs.len() > 0 {
        let p = evs.drop_last();
        assert forall|i: int| 0 <= i < p.len() implies 1 <= #[trigger] count_of(
            run_events(w, p.take(i)),
        ) < COUNT_MASK by {
            assert(p.take(i) =~= evs.take(i));
        }
        lemma_wake_during_update_not_lost(w, p);
        assert(evs.take(evs.len() - 1) =~= p);
        let b = run_events(w, p);
        lemma_count_bound(b);
        match evs.last() {
            Interleaved::Wake => {
                lemma_pack_fields(true, true, is_new(b), count_of(b));
            },
            Interleaved::Retain => {
                lemma_pack_fields(true, is_notified(b), is_new(b), (count_of(b) + 1) as u64);
            },
            Interleaved::Release => {
                lemma_pack_fields(true, is_notified(b), is_new(b), (count_of(b) - 1) as u64);
            },
        }
        assert forall|i: int| 0 <= i < evs.len() && evs[i] is Wake implies #[trigger] wake_decision(
            run_events(w, evs.take(i)),
        ) is Delegate by {
            if i < p.len() {
                assert(p.take(i) =~= evs.take(i));
                assert(p[i] is Wake);
            }
        }
    }
}

/// When the lock is free, `wake` takes it together with the notified bit and
/// wakes the payload itself if it was ever set; once it lets go, the notified
/// bit stays, so the next `update` also wakes the payload it installs.
pub proof fn lemma_wake_with_free_lock(w: u64)
    requires
        !is_locked(w),
    ensures
        wake_decision(w) is Acquire,
        is_locked(wake_target(w)) && is_notified(wake_target(w)),
        is_new(wake_target(w)) == is_new(w),
        count_of(wake_target(w)) == count_of(w),
        !is_locked(wake_unlocked(wake_target(w))),
        update_decision(update_locked(wake_unlocked(wake_target(w)))).wake_new,
{
    lemma_count_bound(w);
    lemma_pack_fields(true, true, is_new(w), count_of(w));
    lemma_pack_fields(false, true, is_new(w), count_of(w));
}

} // verus!
