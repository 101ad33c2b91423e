//! Equivalence harness: drives the vector-backed container and a reference
//! deque through the same front-insert / back-drain workload and checks,
//! position by position, that the two produce identical drain sequences.

use vstd::prelude::*;

use std::collections::VecDeque;

use crate::linked_list::LinkedListAsVec;

verus! {

/// Diagnostic record of the first divergence found while draining the two
/// containers: the pop round at which they differed and the value each one
/// yielded at that round (`None` when a container was already empty).
#[derive(Clone, Copy, Debug, PartialEq, Eq)]
pub struct EquivalenceMismatch {
    pub index: u32,
    pub list_value: Option<i32>,
    pub reference_value: Option<i32>,
}

/// Pushes each of `values`, in order, at the front of the container, so that
/// an initially empty container ends up holding the values in reverse order.
pub fn fill_list_front<T: Copy>(list: &mut LinkedListAsVec<T>, values: &Vec<T>)
    requires
        old(list).wf(),
        old(list)@.len() + values@.len() <= u32::MAX,
    ensures
        final(list).wf(),
        final(list)@ == values@.reverse() + old(list)@,
        old(list)@.len() == 0 ==> final(list)@ == values@.reverse(),
{
    let ghost orig = list@;
    let mut k: usize = 0;
    while k < values.len()
        invariant
            0 <= k <= values@.len(),
            list.wf(),
            orig.len() + values@.len() <= u32::MAX,
            list@ == values@.subrange(0, k as int).reverse() + orig,
        decreases values@.len() - k,
    {
        list.push_front(values[k]);
        proof {
            assert(values@.subrange(0, k + 1).reverse() =~= seq![values@[k as int]]
                + values@.subrange(0, k as int).reverse());
            assert(list@ =~= values@.subrange(0, k + 1).reverse() + orig);
        }
        k = k + 1;
    }
    proof {
        assert(values@.subrange(0, values@.len() as int) =~= values@);
        if orig.len() == 0 {
            assert(values@.reverse() + orig =~= values@.reverse());
        }
    }
}

/// Pushes each of `values`, in order, at the front of the reference deque, so
/// that an initially empty deque ends up holding the values in reverse order.
pub fn fill_deque_front<T: Copy>(deque: &mut VecDeque<T>, values: &Vec<T>)
    ensures
        final(deque)@ == values@.reverse() + old(deque)@,
        old(deque)@.len() == 0 ==> final(deque)@ == values@.reverse(),
{
    let ghost orig = deque@;
    let mut k: usize = 0;
    while k < values.len()
        invariant
            0 <= k <= values@.len(),
            deque@ == values@.subrange(0, k as int).reverse() + orig,
        decreases values@.len() - k,
    {
        deque.push_front(values[k]);
        proof {
            assert(values@.subrange(0, k + 1).reverse() =~= seq![values@[k as int]]
                + values@.subrange(0, k as int).reverse());
            assert(deque@ =~= values@.subrange(0, k + 1).reverse() + orig);
        }
        k = k + 1;
    }
    proof {
        assert(values@.subrange(0, values@.len() as int) =~= values@);
        if orig.len() == 0 {
            assert(values@.reverse() + orig =~= values@.reverse());
        }
    }
}

/// Drains the container completely by popping from the back, returning the
/// popped values in pop order: the reverse of the container's view.
pub fn drain_back_all<T: Copy>(list: &mut LinkedListAsVec<T>) -> (r: Vec<T>)
    requires
        old(list).wf(),
    ensures
        final(list).wf(),
        final(list)@.len() == 0,
        r@ == old(list)@.reverse(),
{
    let ghost orig = list@;
    let mut drained: Vec<T> = Vec::new();
    loop
        invariant
            list.wf(),
            list@ == orig.subrange(0, orig.len() - drained@.len()),
            drained@.len() <= orig.len(),
            forall|j: int| 0 <= j < drained@.len() ==> drained@[j] == orig[orig.len() - 1 - j],
        ensures
            list.wf(),
            list@.len() == 0,
            drained@.len() == orig.len(),
            forall|j: int| 0 <= j < drained@.len() ==> drained@[j] == orig[orig.len() - 1 - j],
        decreases list@.len(),
    {
        match list.pop_back() {
            Some(value) => {
                drained.push(value);
                proof {
                    assert(list@ =~= orig.subrange(0, orig.len() - drained@.len()));
                }
            },
            None => {
                proof {
                    assert(orig.subrange(0, orig.len() - drained@.len()).len() == 0);
                }
                break;
            },
        }
    }
    proof {
        assert(drained@ =~= orig.reverse());
    }
    drained
}

/// Drains both containers by popping from the back exactly `count` times and
/// compares the popped values position by position. Returns `Ok` exactly when
/// the two drain sequences agree everywhere — that is, exactly when the two
/// containers held the same sequence — and reports the first divergence
/// otherwise. On success both containers are left empty.
pub fn drain_and_compare(
    list: &mut LinkedListAsVec<i32>,
    reference: &mut VecDeque<i32>,
    count: u32,
) -> (r: Result<(), EquivalenceMismatch>)
    requires
        old(list).wf(),
        old(list)@.len() == count as int,
        old(reference)@.len() == count as int,
    ensures
        final(list).wf(),
        r is Ok <==> old(list)@ =~= old(reference)@,
        r is Ok ==> final(list)@.len() == 0 && final(reference)@.len() == 0,
        r matches Err(m) ==> (m.index as int) < count as int
            && m.list_value == Some(old(list)@[count - 1 - m.index])
            && m.reference_value == Some(old(reference)@[count - 1 - m.index])
            && old(list)@[count - 1 - m.index] != old(reference)@[count - 1 - m.index],
{
    let ghost orig_list = list@;
    let ghost orig_ref = reference@;
    let mut k: u32 = 0;
    while k < count
        invariant
            0 <= k <= count,
            list.wf(),
            orig_list == old(list)@,
            orig_ref == old(reference)@,
            orig_list.len() == count as int,
            orig_ref.len() == count as int,
            list@ == orig_list.subrange(0, count - k),
            reference@ == orig_ref.subrange(0, count - k),
            forall|j: int| count - k <= j < count ==> orig_list[j] == orig_ref[j],
        decreases count - k,
    {
        let from_list = list.pop_back();
        let from_reference = reference.pop_back();
        proof {
            assert(list@ =~= orig_list.subrange(0, count - k - 1));
            assert(reference@ =~= orig_ref.subrange(0, count - k - 1));
        }
        match (from_list, from_reference) {
            (Some(a), Some(b)) => {
                if a != b {
                    proof {
                        assert(a == orig_list[count - 1 - k]);
                        assert(b == orig_ref[count - 1 - k]);
                        assert(!(orig_list =~= orig_ref));
                    }
                    return Err(EquivalenceMismatch {
                        index: k,
                        list_value: Some(a),
                        reference_value: Some(b),
                    });
                }
            },
            (a, b) => {
                return Err(EquivalenceMismatch { index: k, list_value: a, reference_value: b });
            },
        }
        k = k + 1;
    }
    proof {
        assert(orig_list =~= orig_ref);
    }
    Ok(())
}

/// Runs the whole equivalence workload on `values`: fills an empty container
/// and an empty reference deque by front insertion, then drains both from the
/// back, comparing every popped value. Both structures receive the same
/// values, so the comparison is proven to succeed on every input.
pub fn run_equivalence(values: &Vec<i32>) -> (r: Result<(), EquivalenceMismatch>)
    requires
        values@.len() <= u32::MAX,
    ensures
        r is Ok,
{
    let mut list = LinkedListAsVec::<i32>::new();
    let mut reference: VecDeque<i32> = VecDeque::new();
    fill_list_front(&mut list, values);
    fill_deque_front(&mut reference, values);
    let count = values.len() as u32;
    drain_and_compare(&mut list, &mut reference, count)
}

/// Law: pushing values at the front of an empty container and then draining
/// it from the back yields the values in their original order — front
/// insertion followed by back removal is first-in, first-out.
pub proof fn lemma_front_insert_back_drain_fifo<T>(values: Seq<T>)
    ensures
        values.reverse().reverse() == values,
{
    assert(values.reverse().reverse() =~= values);
}

} // verus!
