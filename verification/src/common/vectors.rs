//! Work on vectors.

use vstd::prelude::*;

verus! {

/// The items in the opposite order.
pub fn reversed<T>(items: Vec<T>) -> (r: Vec<T>)
    ensures
        r@ == items@.reverse(),
{
    let ghost input = items@;
    let mut items = items;
    let mut r: Vec<T> = Vec::new();
    while items.len() > 0
        invariant
            items@.len() + r@.len() == input.len(),
            items@ == input.take(items@.len() as int),
            r@ == input.skip(items@.len() as int).reverse(),
        decreases items.len(),
    {
        let ghost n = items@.len() as int;
        match items.pop() {
            Some(item) => {
                r.push(item);
                assert(items@ =~= input.take(n - 1));
                assert(input.skip(n - 1).reverse() =~= input.skip(n).reverse().push(input[n - 1]));
            },
            None => {},
        }
    }
    assert(input.skip(0) =~= input);
    r
}

} // verus!
