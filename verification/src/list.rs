//! Lists.

use vstd::prelude::*;

verus! {

/// The list in the opposite order.
pub fn reversed<T>(list: Vec<T>) -> (r: Vec<T>)
    ensures
        r@ == list@.reverse(),
{
    let mut list = list;
    let ghost all = list@;
    let mut r: Vec<T> = Vec::new();
    while list.len() > 0
        invariant
            list@ + r@.reverse() =~= all,
        decreases list.len(),
    {
        let item = list.pop().unwrap();
        r.push(item);
    }
    r
}

} // verus!
