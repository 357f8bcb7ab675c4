//! The good items at the front of a list.
use vstd::prelude::*;

verus! {

/// How many items of a list are good before one is not.
pub open spec fn leading<A>(items: Seq<A>, good: spec_fn(A) -> bool) -> nat
    decreases items.len(),
{
    if items.len() == 0 || !good(items.first()) {
        0
    } else {
        1 + leading(items.drop_first(), good)
    }
}

/// The leading items are good, and the one after them, if there is one, is not.
pub proof fn law_leading<A>(items: Seq<A>, good: spec_fn(A) -> bool)
    ensures
        leading(items, good) <= items.len(),
        forall|i: int| 0 <= i < leading(items, good) ==> good(#[trigger] items[i]),
        leading(items, good) < items.len() ==> !good(items[leading(items, good) as int]),
    decreases items.len(),
{
    if items.len() > 0 && good(items.first()) {
        let rest = items.drop_first();
        law_leading(rest, good);
        let n = leading(items, good) as int;
        assert forall|i: int| 0 <= i < n implies good(#[trigger] items[i]) by {
            if i > 0 {
                assert(rest[i - 1] == items[i]);
            }
        }
        if n < items.len() {
            assert(rest[n - 1] == items[n]);
        }
    }
}

} // verus!
