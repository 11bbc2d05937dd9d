//! Turning a vector round, so that taking from its end gives its items from
//! the first on.

use vstd::prelude::*;

verus! {

/// The items of `items` in the opposite order.
pub fn reversed<T>(items: Vec<T>) -> (turned: Vec<T>)
    ensures
        turned@ == items@.reverse(),
{
    let mut rest = items;
    let mut turned: Vec<T> = Vec::new();
    while rest.len() > 0
        invariant
            rest@.len() + turned@.len() == items@.len(),
            rest@ == items@.take(rest@.len() as int),
            forall|j: int|
                0 <= j < turned@.len() ==> #[trigger] turned@[j] == items@[items@.len() - 1 - j],
        decreases rest@.len(),
    {
        let item = rest.pop().unwrap();
        turned.push(item);
    }
    turned
}

} // verus!
