//! A sequential container that stores all elements in one contiguous,
//! resizable buffer while offering linked-list-style operations: insertion
//! and removal at the front, the back, or an arbitrary position, plus indexed
//! lookup. Indexed insertion shifts the tail one slot toward the back in
//! descending index order; removal shifts it toward the front in ascending
//! order, so no element is overwritten before it has been relocated.

use vstd::prelude::*;

verus! {

/// Failure result for positional operations whose index violates the bounds
/// contract: an insertion index past the logical end, or a removal index at
/// or past it. Distinct from the `Option::None` ("absence") results that
/// read-only queries return on an empty container or an out-of-range lookup.
#[derive(Clone, Copy, Debug, PartialEq, Eq, Structural)]
pub enum ListError {
    IndexOutOfBounds,
}

/// A linked-list-style container backed by one contiguous buffer. Position 0
/// is the front, position `len - 1` the back; the element at logical position
/// `i` lives at buffer index `i`.
#[derive(Debug, Clone)]
pub struct LinkedListAsVec<T> {
    data: Vec<T>,
    len: u32,
}

impl<T> View for LinkedListAsVec<T> {
    type V = Seq<T>;

    closed spec fn view(&self) -> Seq<T> {
        self.data@
    }
}

impl<T> LinkedListAsVec<T> {
    /// Well-formedness: the logical length mirrors the number of initialized
    /// slots in the backing buffer (spare capacity is the buffer's concern).
    pub closed spec fn wf(&self) -> bool {
        self.len as int == self.data@.len()
    }
}

impl<T: Copy> LinkedListAsVec<T> {
    /// Creates an empty container.
    pub fn new() -> (r: LinkedListAsVec<T>)
        ensures
            r.wf(),
            r@ == Seq::<T>::empty(),
    {
        LinkedListAsVec { data: Vec::new(), len: 0 }
    }

    /// Appends `value` at the logical end.
    pub fn push_back(&mut self, value: T)
        requires
            old(self).wf(),
            old(self)@.len() < u32::MAX,
        ensures
            final(self).wf(),
            final(self)@ == old(self)@.push(value),
    {
        self.data.push(value);
        self.len = self.len + 1;
    }

    /// Inserts `value` at logical position 0, shifting every existing element
    /// one position toward the back, from the current back down to the front.
    pub fn push_front(&mut self, value: T)
        requires
            old(self).wf(),
            old(self)@.len() < u32::MAX,
        ensures
            final(self).wf(),
            final(self)@ == seq![value] + old(self)@,
    {
        if self.len == 0 {
            self.push_back(value);
            proof {
                assert(self@ =~= seq![value] + old(self)@);
            }
            return;
        }

        let ghost orig = self.data@;
        let n = self.len;

        // Shift the elements one position toward the back, in descending
        // index order; the back element first extends the buffer by one slot.
        let last: T = self.data[(n - 1) as usize];
        self.data.push(last);
        let mut i: u32 = n - 1;
        while i > 0
            invariant
                0 <= i <= n - 1,
                n == orig.len(),
                self.len == n,
                self.data@.len() == n + 1,
                forall|j: int| 0 <= j <= i ==> self.data@[j] == orig[j],
                forall|j: int| i < j <= n ==> self.data@[j] == orig[j - 1],
            decreases i,
        {
            let moved: T = self.data[(i - 1) as usize];
            self.data[i as usize] = moved;
            i = i - 1;
        }

        // The slot at the front is vacated; only now is the new value written.
        self.data[0] = value;
        self.len = self.len + 1;
        proof {
            assert(self.data@ =~= seq![value] + orig);
        }
    }

    /// Removes and returns the back element; yields `None` on an empty
    /// container instead of failing.
    pub fn pop_back(&mut self) -> (r: Option<T>)
        requires
            old(self).wf(),
        ensures
            final(self).wf(),
            old(self)@.len() == 0 ==> r is None && final(self)@ == old(self)@,
            old(self)@.len() > 0 ==> r == Some(old(self)@.last())
                && final(self)@ == old(self)@.drop_last(),
    {
        if self.len > 0 {
            self.len = self.len - 1;
            self.data.pop()
        } else {
            None
        }
    }

    /// Current logical length.
    pub fn len(&self) -> (r: u32)
        requires
            self.wf(),
        ensures
            r as int == self@.len(),
    {
        self.len
    }

    /// Whether the container holds no elements.
    pub fn is_empty(&self) -> (r: bool)
        requires
            self.wf(),
        ensures
            r <==> self@.len() == 0,
    {
        self.len == 0
    }

    /// Returns a reference to the element at logical position `index`, or
    /// `None` when `index` is at or past the logical end.
    pub fn get(&self, index: u32) -> (r: Option<&T>)
        requires
            self.wf(),
        ensures
            (index as int) < self@.len() ==> (r matches Some(v) && *v == self@[index as int]),
            (index as int) >= self@.len() ==> r is None,
    {
        if index < self.len {
            Some(&self.data[index as usize])
        } else {
            None
        }
    }

    /// Returns a reference to the back element, or `None` on an empty
    /// container.
    pub fn peek(&self) -> (r: Option<&T>)
        requires
            self.wf(),
        ensures
            self@.len() > 0 ==> (r matches Some(v) && *v == self@.last()),
            self@.len() == 0 ==> r is None,
    {
        if self.len == 0 {
            return None;
        }

        Some(&self.data[(self.len - 1) as usize])
    }

    /// Inserts `value` at logical position `index`, shifting the elements at
    /// `[index, len)` one slot toward the back in descending index order.
    /// Rejects an index past the logical end.
    pub fn insert_at_index(&mut self, index: u32, value: T) -> (r: Result<(), ListError>)
        requires
            old(self).wf(),
            old(self)@.len() < u32::MAX,
        ensures
            final(self).wf(),
            (index as int) <= old(self)@.len() ==> r is Ok
                && final(self)@ == old(self)@.insert(index as int, value),
            (index as int) > old(self)@.len() ==> (r matches Err(e)
                && e == ListError::IndexOutOfBounds && final(self)@ == old(self)@),
    {
        if index > self.len {
            return Err(ListError::IndexOutOfBounds);
        }

        if index == self.len {
            self.push_back(value);
            proof {
                assert(self@ =~= old(self)@.insert(index as int, value));
            }
            return Ok(());
        }

        let ghost orig = self.data@;
        let n = self.len;

        // Shift the elements at [index, n) one position toward the back, in
        // descending index order; the back element first extends the buffer.
        let last: T = self.data[(n - 1) as usize];
        self.data.push(last);
        let mut i: u32 = n - 1;
        while i > index
            invariant
                index <= i <= n - 1,
                n == orig.len(),
                self.len == n,
                self.data@.len() == n + 1,
                forall|j: int| 0 <= j <= i ==> self.data@[j] == orig[j],
                forall|j: int| i < j <= n ==> self.data@[j] == orig[j - 1],
            decreases i,
        {
            let moved: T = self.data[(i - 1) as usize];
            self.data[i as usize] = moved;
            i = i - 1;
        }

        // The slot at `index` is vacated; only now is the new value written.
        self.data[index as usize] = value;
        self.len = self.len + 1;
        proof {
            assert(self.data@ =~= orig.insert(index as int, value));
        }
        Ok(())
    }

    /// Removes and returns the element at logical position `at`, shifting the
    /// elements past it one slot toward the front in ascending index order.
    /// Rejects an index at or past the logical end.
    pub fn remove(&mut self, at: usize) -> (r: Result<T, ListError>)
        requires
            old(self).wf(),
        ensures
            final(self).wf(),
            at < old(self)@.len() ==> (r matches Ok(v) && v == old(self)@[at as int]
                && final(self)@ == old(self)@.remove(at as int)),
            at >= old(self)@.len() ==> (r matches Err(e)
                && e == ListError::IndexOutOfBounds && final(self)@ == old(self)@),
    {
        if at >= self.len as usize {
            return Err(ListError::IndexOutOfBounds);
        }

        let removed: T = self.data[at];
        let ghost orig = self.data@;
        let n = self.len as usize;

        // Shift the elements at (at, n) one position toward the front, in
        // ascending index order, then drop the duplicated back slot.
        let mut i: usize = at;
        while i + 1 < n
            invariant
                at <= i <= n - 1,
                n == orig.len(),
                self.len as usize == n,
                self.data@.len() == n,
                forall|j: int| at <= j < i ==> self.data@[j] == orig[j + 1],
                forall|j: int| (0 <= j < at || i <= j < n) ==> self.data@[j] == orig[j],
            decreases n - i,
        {
            let moved: T = self.data[i + 1];
            self.data[i] = moved;
            i = i + 1;
        }

        let _ = self.data.pop();
        self.len = self.len - 1;
        proof {
            assert(self.data@ =~= orig.remove(at as int));
        }
        Ok(removed)
    }
}

/// Law: a run of `push_back` calls starting from `init` appends the pushed
/// values in order.
pub open spec fn pushed_back<T>(init: Seq<T>, values: Seq<T>) -> Seq<T>
    decreases values.len(),
{
    if values.len() == 0 {
        init
    } else {
        pushed_back(init.push(values[0]), values.drop_first())
    }
}

proof fn lemma_pushed_back_appends<T>(init: Seq<T>, values: Seq<T>)
    ensures
        pushed_back(init, values) == init + values,
    decreases values.len(),
{
    if values.len() == 0 {
        assert(pushed_back(init, values) =~= init + values);
    } else {
        lemma_pushed_back_appends(init.push(values[0]), values.drop_first());
        assert(init.push(values[0]) + values.drop_first() =~= init + values);
    }
}

/// Law: after any sequence of `push_back` calls on an initially empty
/// container, the view is exactly the pushed values in order — the length
/// equals the call count and position `i` holds the `i`-th pushed value.
pub proof fn lemma_push_back_run<T>(values: Seq<T>)
    ensures
        pushed_back(Seq::<T>::empty(), values) == values,
        pushed_back(Seq::<T>::empty(), values).len() == values.len(),
        forall|i: int|
            0 <= i < values.len() ==> pushed_back(Seq::<T>::empty(), values)[i] == values[i],
{
    lemma_pushed_back_appends(Seq::<T>::empty(), values);
    assert(Seq::<T>::empty() + values =~= values);
}

/// Law: one `push_front` of `v` followed by one `pop_back` never changes the
/// length; when every element already equals `v` (in particular on an empty
/// container), the popped value is `v` and the round leaves the view
/// unchanged, so any number of such rounds is a no-op.
pub proof fn lemma_push_front_pop_back_round<T>(s: Seq<T>, v: T)
    ensures
        (seq![v] + s).len() == s.len() + 1,
        (seq![v] + s).drop_last().len() == s.len(),
        (forall|i: int| 0 <= i < s.len() ==> s[i] == v) ==> (seq![v] + s).last() == v
            && (seq![v] + s).drop_last() == s,
{
    if forall|i: int| 0 <= i < s.len() ==> s[i] == v {
        assert((seq![v] + s).drop_last() =~= s);
    }
}

/// Law: inserting at position `len` is `push_back`, and inserting at
/// position 0 is `push_front`.
pub proof fn lemma_insert_at_ends<T>(s: Seq<T>, v: T)
    ensures
        s.insert(s.len() as int, v) == s.push(v),
        s.insert(0, v) == seq![v] + s,
{
    assert(s.insert(s.len() as int, v) =~= s.push(v));
    assert(s.insert(0, v) =~= seq![v] + s);
}

/// Law: after removing position `i`, position `i` holds the value that
/// previously sat at `i + 1`.
pub proof fn lemma_remove_shifts_successor<T>(s: Seq<T>, i: int)
    requires
        0 <= i,
        i + 1 < s.len(),
    ensures
        s.remove(i).len() == s.len() - 1,
        s.remove(i)[i] == s[i + 1],
{
}

} // verus!
