use crate::FFISafe;
use vstd::prelude::*;

verus! {

/// Capacity a dynamic array starts with.
pub const DEF_CAP: usize = 2;

/// One dynamic array block: the header words (length, capacity) followed by
/// the element slots, index 0 first.
pub struct VectorHeaderVTable<T> {
    pub len: usize,
    pub cap: usize,
    pub data: Vec<T>,
}

/// A growable array whose length and capacity live in the header of its block.
///
/// Dropping the array destroys its elements from index 0 upward, as the
/// slots' own `Vec` does: a `Drop` impl must be proved neither to unwind nor
/// to open invariants, and no operation on a `Vec` is specified that way. Call
/// `clear` first to destroy the elements from the last one down to the first.
pub struct Vector<T: FFISafe> {
    block: VectorHeaderVTable<T>,
}

/// The capacity after asking for room for `needed` elements: unchanged when
/// there is room already, else twice the old capacity or `needed`, whichever
/// is larger (twice is capped at the largest `usize`).
pub open spec fn grown_capacity(cap: usize, needed: usize) -> usize {
    if cap < needed {
        let doubled: usize = if cap <= usize::MAX / 2 {
            (2 * cap) as usize
        } else {
            usize::MAX
        };
        if doubled >= needed {
            doubled
        } else {
            needed
        }
    } else {
        cap
    }
}

impl<T: FFISafe> View for Vector<T> {
    type V = Seq<T>;

    closed spec fn view(&self) -> Seq<T> {
        self.block.data@
    }
}

impl<T: FFISafe> Vector<T> {
    /// The capacity recorded in the header.
    pub closed spec fn spec_cap(&self) -> usize {
        self.block.cap
    }

    /// The header agrees with the slots, and the length never exceeds the capacity.
    pub closed spec fn wf(&self) -> bool {
        &&& self.block.len == self.block.data@.len()
        &&& self.block.len <= self.block.cap
        &&& self.block.cap >= DEF_CAP
    }

    /// An empty array with room for two elements.
    pub fn new() -> (r: Self)
        ensures
            r.wf(),
            r@ == Seq::<T>::empty(),
            r.spec_cap() == DEF_CAP,
    {
        Vector { block: VectorHeaderVTable { len: 0, cap: DEF_CAP, data: Vec::with_capacity(DEF_CAP) } }
    }

    /// Number of live elements, read from the header.
    pub fn len(&self) -> (r: usize)
        requires
            self.wf(),
        ensures
            r == self@.len(),
    {
        self.block.len
    }

    /// Number of element slots of the block, read from the header.
    pub fn cap(&self) -> (r: usize)
        ensures
            r == self.spec_cap(),
    {
        self.block.cap
    }

    /// Makes room for `capacity` elements, growing the block as
    /// `grown_capacity` says. `known_cap`, when given, is the capacity the
    /// caller already read from the header.
    pub fn allocate(&mut self, known_cap: Option<usize>, capacity: usize)
        requires
            old(self).wf(),
            known_cap matches Some(c) ==> c == old(self).spec_cap(),
        ensures
            final(self).wf(),
            final(self)@ == old(self)@,
            final(self).spec_cap() == grown_capacity(old(self).spec_cap(), capacity),
    {
        let cap = match known_cap {
            Some(c) => c,
            None => self.block.cap,
        };
        if cap < capacity {
            let doubled = if cap <= usize::MAX / 2 {
                cap * 2
            } else {
                usize::MAX
            };
            let new_cap = if doubled >= capacity {
                doubled
            } else {
                capacity
            };
            self.block.data.reserve(new_cap - self.block.len);
            self.block.cap = new_cap;
        }
    }

    /// Appends `value` after the last element, growing the block when it is full.
    pub fn push(&mut self, value: T)
        requires
            old(self).wf(),
            old(self)@.len() < usize::MAX,
        ensures
            final(self).wf(),
            final(self)@ == old(self)@.push(value),
            final(self).spec_cap() == grown_capacity(old(self).spec_cap(), (old(self)@.len() + 1) as usize),
    {
        self.push_known(None, None, value)
    }

    /// `push` for a caller that already read the length and capacity from the
    /// header and hands them in.
    pub fn push_known(&mut self, known_len: Option<usize>, known_cap: Option<usize>, value: T)
        requires
            old(self).wf(),
            old(self)@.len() < usize::MAX,
            known_len matches Some(l) ==> l == old(self)@.len(),
            known_cap matches Some(c) ==> c == old(self).spec_cap(),
        ensures
            final(self).wf(),
            final(self)@ == old(self)@.push(value),
            final(self).spec_cap() == grown_capacity(old(self).spec_cap(), (old(self)@.len() + 1) as usize),
    {
        let len = match known_len {
            Some(l) => l,
            None => self.block.len,
        };
        self.allocate(known_cap, len + 1);
        self.block.data.push(value);
        self.block.len = len + 1;
    }

    /// Appends every element of `items`, in order, after reserving room for
    /// all of them at once.
    pub fn extend(&mut self, items: Vec<T>)
        requires
            old(self).wf(),
            old(self)@.len() + items@.len() <= usize::MAX,
        ensures
            final(self).wf(),
            final(self)@ == old(self)@ + items@,
            final(self).spec_cap() == grown_capacity(old(self).spec_cap(), (old(self)@.len() + items@.len()) as usize),
    {
        self.extend_known(None, None, items)
    }

    /// `extend` for a caller that already read the length and capacity from
    /// the header and hands them in.
    pub fn extend_known(&mut self, known_len: Option<usize>, known_cap: Option<usize>, items: Vec<T>)
        requires
            old(self).wf(),
            old(self)@.len() + items@.len() <= usize::MAX,
            known_len matches Some(l) ==> l == old(self)@.len(),
            known_cap matches Some(c) ==> c == old(self).spec_cap(),
        ensures
            final(self).wf(),
            final(self)@ == old(self)@ + items@,
            final(self).spec_cap() == grown_capacity(old(self).spec_cap(), (old(self)@.len() + items@.len()) as usize),
    {
        let ghost cap_before = self.spec_cap();
        let mut len = match known_len {
            Some(l) => l,
            None => self.block.len,
        };
        let lower = items.len();
        if lower > 0 {
            self.allocate(known_cap, len + lower);
        }
        let ghost start = self@;
        let ghost n = items@.len();
        // Take the items off the back, so that popping them again yields
        // them in the order they were given.
        let mut src = items;
        let mut rev: Vec<T> = Vec::new();
        while src.len() > 0
            invariant
                n == items@.len(),
                src@ == items@.subrange(0, src@.len() as int),
                rev@.len() == n - src@.len(),
                forall|j: int| 0 <= j < rev@.len() ==> rev@[j] == items@[n - 1 - j],
            decreases src@.len(),
        {
            match src.pop() {
                Some(v) => rev.push(v),
                None => {},
            }
            assert(src@ =~= items@.subrange(0, src@.len() as int));
        }
        let mut i: usize = 0;
        while rev.len() > 0
            invariant
                self.wf(),
                len == self@.len(),
                i <= lower,
                lower == n,
                n == items@.len(),
                rev@.len() == n - i,
                forall|j: int| 0 <= j < rev@.len() ==> rev@[j] == items@[n - 1 - j],
                self@ == start + items@.subrange(0, i as int),
                start.len() + n <= usize::MAX,
                self.spec_cap() >= start.len() + n,
                self.spec_cap() == grown_capacity(cap_before, (start.len() + n) as usize),
            decreases rev@.len(),
        {
            match rev.pop() {
                Some(v) => {
                    assert(v == items@[i as int]);
                    self.push_known(Some(len), None, v);
                    len = len + 1;
                    i = i + 1;
                    assert(self@ =~= start + items@.subrange(0, i as int));
                },
                None => {},
            }
        }
        assert(items@.subrange(0, n as int) =~= items@);
    }

    /// The element at `index`, or `None` when `index` is not below the
    /// length. `known_len`, when given, is the length the caller already read
    /// from the header.
    pub fn get_known(&self, known_len: Option<usize>, index: usize) -> (r: Option<&T>)
        requires
            self.wf(),
            known_len matches Some(l) ==> l == self@.len(),
        ensures
            index < self@.len() ==> r == Some(&self@[index as int]),
            index >= self@.len() ==> r is None,
    {
        let len = match known_len {
            Some(l) => l,
            None => self.block.len,
        };
        if index >= len {
            return None;
        }
        Some(&self.block.data[index])
    }

    /// The element at `index`, which must be below the length.
    pub fn index(&self, index: usize) -> (r: &T)
        requires
            self.wf(),
            index < self@.len(),
        ensures
            *r == self@[index as int],
    {
        &self.block.data[index]
    }

    /// The element at `index`, to be changed in place; `index` must be
    /// below the length.
    pub fn index_mut(&mut self, index: usize) -> (r: &mut T)
        requires
            old(self).wf(),
            index < old(self)@.len(),
        ensures
            *r == old(self)@[index as int],
            final(self).wf(),
            final(self).spec_cap() == old(self).spec_cap(),
            final(self)@ == old(self)@.update(index as int, *final(r)),
    {
        let slots = self.block.data.as_mut_slice();
        &mut slots[index]
    }

    /// The element at `index` to be changed in place, or `None` when
    /// `index` is not below the length. `known_len`, when given, is the
    /// length the caller already read from the header.
    pub fn get_mut_known(&mut self, known_len: Option<usize>, index: usize) -> (r: Option<&mut T>)
        requires
            old(self).wf(),
            known_len matches Some(l) ==> l == old(self)@.len(),
        ensures
            final(self).wf(),
            final(self).spec_cap() == old(self).spec_cap(),
            index >= old(self)@.len() ==> r is None && final(self)@ == old(self)@,
            index < old(self)@.len() ==> (r matches Some(e) && *e == old(self)@[index as int]
                && final(self)@ == old(self)@.update(index as int, *final(e))),
    {
        let len = match known_len {
            Some(l) => l,
            None => self.block.len,
        };
        if index >= len {
            return None;
        }
        Some(self.index_mut(index))
    }

    /// The live elements, index 0 first.
    pub fn as_slice(&self) -> (r: &[T])
        ensures
            r@ == self@,
    {
        self.block.data.as_slice()
    }

    /// Removes and returns the last element, or `None` when the array is empty.
    pub fn pop(&mut self) -> (r: Option<T>)
        requires
            old(self).wf(),
        ensures
            final(self).wf(),
            final(self).spec_cap() == old(self).spec_cap(),
            old(self)@.len() == 0 ==> r is None && final(self)@ == old(self)@,
            old(self)@.len() > 0 ==> r == Some(old(self)@.last()) && final(self)@
                == old(self)@.drop_last(),
    {
        self.pop_known(None)
    }

    /// `pop` for a caller that already read the length from the header.
    pub fn pop_known(&mut self, known_len: Option<usize>) -> (r: Option<T>)
        requires
            old(self).wf(),
            known_len matches Some(l) ==> l == old(self)@.len(),
        ensures
            final(self).wf(),
            final(self).spec_cap() == old(self).spec_cap(),
            old(self)@.len() == 0 ==> r is None && final(self)@ == old(self)@,
            old(self)@.len() > 0 ==> r == Some(old(self)@.last()) && final(self)@
                == old(self)@.drop_last(),
    {
        let len = match known_len {
            Some(l) => l,
            None => self.block.len,
        };
        if len == 0 {
            return None;
        }
        let out = self.block.data.pop();
        self.block.len = len - 1;
        assert(self.block.data@ =~= old(self)@.drop_last());
        out
    }

    /// Destroys the live elements from the last one down to the first; the
    /// block keeps its capacity.
    pub fn clear(&mut self)
        requires
            old(self).wf(),
        ensures
            final(self).wf(),
            final(self)@ == Seq::<T>::empty(),
            final(self).spec_cap() == old(self).spec_cap(),
    {
        while self.block.len > 0
            invariant
                self.wf(),
                self.spec_cap() == old(self).spec_cap(),
            decreases self.block.len,
        {
            let _ = self.pop_known(None);
        }
        assert(self@ =~= Seq::<T>::empty());
    }
}

/// In every well-formed array, which every constructor and method keeps
/// well-formed, the length never exceeds the capacity and the capacity never
/// falls below the starting two slots.
pub proof fn lemma_length_within_capacity<T: FFISafe>(v: &Vector<T>)
    requires
        v.wf(),
    ensures
        v@.len() <= v.spec_cap(),
        v.spec_cap() >= DEF_CAP,
{
}

/// One call on a dynamic array: `true` pushes an element, `false` pops one.
pub open spec fn after_calls(len: nat, cap: usize, calls: Seq<bool>) -> (nat, usize)
    decreases calls.len(),
{
    if calls.len() == 0 {
        (len, cap)
    } else {
        let (l, c) = after_calls(len, cap, calls.drop_last());
        if calls.last() {
            (l + 1, grown_capacity(c, (l + 1) as usize))
        } else if l > 0 {
            ((l - 1) as nat, c)
        } else {
            (l, c)
        }
    }
}

/// Number of pushes among `calls`.
pub open spec fn pushes(calls: Seq<bool>) -> nat
    decreases calls.len(),
{
    if calls.len() == 0 {
        0
    } else {
        pushes(calls.drop_last()) + if calls.last() {
            1nat
        } else {
            0nat
        }
    }
}

/// Number of pops among `calls` that found an element to remove; a pop on
/// an empty array returns nothing and changes nothing.
pub open spec fn removals(len: nat, cap: usize, calls: Seq<bool>) -> nat
    decreases calls.len(),
{
    if calls.len() == 0 {
        0
    } else {
        let p = calls.drop_last();
        removals(len, cap, p) + if !calls.last() && after_calls(len, cap, p).0 > 0 {
            1nat
        } else {
            0nat
        }
    }
}

/// After any sequence of pushes and pops, the length is the starting length
/// plus the pushes minus the pops that removed an element, and after every
/// call the capacity is at least the length and never below where it
/// started. One step of `after_calls` is exactly what `Vector::push` and
/// `Vector::pop` ensure of the length and capacity.
pub proof fn lemma_push_pop_length(len: nat, cap: usize, calls: Seq<bool>)
    requires
        len <= cap,
        len + calls.len() <= usize::MAX,
    ensures
        after_calls(len, cap, calls).0 == len + pushes(calls) - removals(len, cap, calls),
        after_calls(len, cap, calls).0 <= after_calls(len, cap, calls).1,
        cap <= after_calls(len, cap, calls).1,
        forall|i: int|
            0 <= i <= calls.len() ==> #[trigger] after_calls(len, cap, calls.take(i)).0
                <= after_calls(len, cap, calls.take(i)).1,
    decreases calls.len(),
{
    if calls.len() > 0 {
        let p = calls.drop_last();
        lemma_push_pop_length(len, cap, p);
        assert(pushes(p) <= p.len()) by {
            lemma_pushes_bound(p);
        }
        assert forall|i: int| 0 <= i <= calls.len() implies #[trigger] after_calls(
            len,
            cap,
            calls.take(i),
        ).0 <= after_calls(len, cap, calls.take(i)).1 by {
            if i < calls.len() {
                assert(p.take(i) =~= calls.take(i));
            } else {
                assert(calls.take(i) =~= calls);
            }
        }
    } else {
        assert forall|i: int| 0 <= i <= calls.len() implies #[trigger] after_calls(
            len,
            cap,
            calls.take(i),
        ).0 <= after_calls(len, cap, calls.take(i)).1 by {
            assert(calls.take(i) =~= calls);
        }
    }
}

proof fn lemma_pushes_bound(calls: Seq<bool>)
    ensures
        pushes(calls) <= calls.len(),
    decreases calls.len(),
{
    if calls.len() > 0 {
        lemma_pushes_bound(calls.drop_last());
    }
}

} // verus!
