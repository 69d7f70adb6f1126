//! Vectors taken apart in order.

use vstd::prelude::*;

verus! {

/// The elements of `items` in reverse order, so that popping hands them out
/// first to last.
pub fn reversed<T>(items: Vec<T>) -> (out: Vec<T>)
    ensures
        out@ == items@.reverse(),
{
    let ghost orig = items@;
    let mut items = items;
    let mut out: Vec<T> = Vec::new();
    while items.len() > 0
        invariant
            items@ == orig.take(items.len() as int),
            items.len() <= orig.len(),
            out.len() + items.len() == orig.len(),
            forall|j: int| 0 <= j < out.len() ==> out@[j] == orig[orig.len() - 1 - j],
        decreases items.len(),
    {
        let ghost n = items.len();
        let item = items.pop().unwrap();
        assert(item == orig[n - 1]);
        out.push(item);
        assert(items@ =~= orig.take(items.len() as int));
    }
    assert(out@ =~= orig.reverse());
    out
}

} // verus!
