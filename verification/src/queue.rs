//! Vectors taken from the front.

use std::collections::VecDeque;
use vstd::prelude::*;

verus! {

/// The elements of a vector as a queue, in order.
pub(crate) fn queue_of<T>(items: Vec<T>) -> (r: VecDeque<T>)
    ensures
        r@ == items@,
{
    let mut items = items;
    let mut r: VecDeque<T> = VecDeque::new();
    let ghost all = items@;
    while items.len() > 0
        invariant
            items@ + r@ == all,
        decreases items.len(),
    {
        let ghost before = items@;
        if let Some(item) = items.pop() {
            r.push_front(item);
            assert(before =~= items@.push(item));
            assert(items@ + r@ =~= all);
        }
    }
    assert(r@ =~= all);
    r
}

} // verus!
