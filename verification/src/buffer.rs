//! Filling fixed buffers from iterators.

use vstd::prelude::*;
use vstd::std_specs::iter::IteratorSpec;

verus! {

/// The number of items that fit when `available` items are offered to a
/// buffer of `room` places.
pub open spec fn taken(room: int, available: int) -> int {
    if available < room {
        available
    } else {
        room
    }
}

/// Copies items from `iter` into `slice`, front to back, until either runs
/// out, and returns how many were copied. Places past the count keep their
/// old content. An item is taken from the iterator before the slice is
/// asked for room, so one item is taken and dropped where the slice runs
/// out first.
pub fn collect_slice<T>(slice: &mut [T], iter: impl Iterator<Item = T>) -> (count: usize)
    ensures
        count <= old(slice)@.len(),
        final(slice)@.len() == old(slice)@.len(),
        forall|i: int| count <= i < old(slice)@.len() ==> final(slice)@[i] == old(slice)@[i],
        iter.obeys_prophetic_iter_laws() ==> {
            &&& count == taken(old(slice)@.len() as int, iter.remaining().len() as int)
            &&& forall|i: int| 0 <= i < count ==> final(slice)@[i] == iter.remaining()[i]
        },
{
    let ghost items = iter.remaining();
    let ghost lawful = iter.obeys_prophetic_iter_laws();
    let mut source = iter;
    let mut count: usize = 0;
    loop
        invariant
            count <= slice@.len(),
            slice@.len() == old(slice)@.len(),
            forall|i: int| count <= i < slice@.len() ==> slice@[i] == old(slice)@[i],
            items == iter.remaining(),
            lawful == iter.obeys_prophetic_iter_laws(),
            source.obeys_prophetic_iter_laws() == lawful,
            lawful ==> {
                &&& count <= items.len()
                &&& source.remaining() == items.subrange(count as int, items.len() as int)
                &&& forall|i: int| 0 <= i < count ==> slice@[i] == items[i]
            },
        decreases slice@.len() - count,
    {
        let item = match source.next() {
            Some(item) => item,
            None => {
                assert(lawful ==> items.subrange(count as int, items.len() as int).len() == 0);
                return count;
            },
        };
        if count == slice.len() {
            return count;
        }
        assert(lawful ==> items.subrange(count as int, items.len() as int)[0] == items[count as int]);
        slice[count] = item;
        count = count + 1;
    }
}

/// Puts `item` behind `items`.
pub fn gather<T>(items: Vec<T>, item: T) -> (longer: Vec<T>)
    ensures
        longer@ == items@.push(item),
{
    let mut longer = items;
    longer.push(item);
    longer
}

/// Whether the first `upto` items are successes and the first `upto` places
/// of `filled` hold their values.
pub open spec fn holds_values<T, E>(filled: Seq<T>, items: Seq<Result<T, E>>, upto: int) -> bool {
    forall|i: int| 0 <= i < upto ==> (#[trigger] items[i]) == Ok::<T, E>(filled[i])
}

/// Like [`collect_slice`] for items that may fail: copying stops at the
/// first failure among the items that would fit, and that failure is
/// returned. Items that would not fit are not looked at.
pub fn collect_slice_try<T, E>(slice: &mut [T], iter: impl Iterator<Item = Result<T, E>>) -> (result:
    Result<usize, E>)
    ensures
        final(slice)@.len() == old(slice)@.len(),
        result matches Ok(count) ==> {
            &&& count <= old(slice)@.len()
            &&& forall|i: int| count <= i < old(slice)@.len() ==> final(slice)@[i] == old(slice)@[i]
        },
        iter.obeys_prophetic_iter_laws() ==> match result {
            Ok(count) => {
                &&& count == taken(old(slice)@.len() as int, iter.remaining().len() as int)
                &&& holds_values(final(slice)@, iter.remaining(), count as int)
            },
            Err(e) => exists|k: int|
                {
                    &&& 0 <= k < taken(old(slice)@.len() as int, iter.remaining().len() as int)
                    &&& #[trigger] iter.remaining()[k] == Err::<T, E>(e)
                    &&& holds_values(final(slice)@, iter.remaining(), k)
                    &&& forall|i: int| k <= i < old(slice)@.len() ==> final(slice)@[i] == old(slice)@[i]
                },
        },
{
    let ghost items = iter.remaining();
    let ghost lawful = iter.obeys_prophetic_iter_laws();
    let mut source = iter;
    let mut count: usize = 0;
    loop
        invariant
            count <= slice@.len(),
            slice@.len() == old(slice)@.len(),
            forall|i: int| count <= i < slice@.len() ==> slice@[i] == old(slice)@[i],
            items == iter.remaining(),
            lawful == iter.obeys_prophetic_iter_laws(),
            source.obeys_prophetic_iter_laws() == lawful,
            lawful ==> {
                &&& count <= items.len()
                &&& source.remaining() == items.subrange(count as int, items.len() as int)
                &&& holds_values(slice@, items, count as int)
            },
        decreases slice@.len() - count,
    {
        let item = match source.next() {
            Some(item) => item,
            None => {
                assert(lawful ==> items.subrange(count as int, items.len() as int).len() == 0);
                return Ok(count);
            },
        };
        if count == slice.len() {
            return Ok(count);
        }
        assert(lawful ==> items.subrange(count as int, items.len() as int)[0] == items[count as int]);
        match item {
            Ok(value) => {
                slice[count] = value;
                count = count + 1;
            },
            Err(e) => {
                return Err(e);
            },
        }
    }
}

} // verus!
