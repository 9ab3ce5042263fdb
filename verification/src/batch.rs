//! Batches: what a run of items gives when each item gives a value, nothing,
//! or a failure, and the first failure fails the whole run.

use vstd::prelude::*;
use crate::error::ErrorView;

verus! {

/// The values that the items give, in the items' order; the failure of the
/// first item that fails, if any does.
pub open spec fn gather<T, U>(
    items: Seq<T>,
    each: spec_fn(T) -> Result<Option<U>, ErrorView>,
) -> Result<Seq<U>, ErrorView>
    decreases items.len(),
{
    if items.len() == 0 {
        Ok(Seq::<U>::empty())
    } else {
        match gather(items.drop_last(), each) {
            Err(e) => Err(e),
            Ok(found) => match each(items.last()) {
                Err(e) => Err(e),
                Ok(None) => Ok(found),
                Ok(Some(value)) => Ok(found.push(value)),
            },
        }
    }
}

/// One more item adds its value to what the items before it give.
pub proof fn lemma_gather_step<T, U>(
    items: Seq<T>,
    k: int,
    each: spec_fn(T) -> Result<Option<U>, ErrorView>,
)
    requires
        0 <= k < items.len(),
    ensures
        gather(items.take(k + 1), each) == match gather(items.take(k), each) {
            Err(e) => Err(e),
            Ok(found) => match each(items[k]) {
                Err(e) => Err(e),
                Ok(None) => Ok(found),
                Ok(Some(value)) => Ok(found.push(value)),
            },
        },
{
    let next = items.take(k + 1);
    assert(next.drop_last() =~= items.take(k));
    assert(next.last() == items[k]);
}

/// A run fails with the failure of any of its prefixes.
pub proof fn lemma_gather_prefix_error<T, U>(
    items: Seq<T>,
    k: int,
    each: spec_fn(T) -> Result<Option<U>, ErrorView>,
)
    requires
        0 <= k <= items.len(),
    ensures
        gather(items.take(k), each) matches Err(e) ==> gather(items, each) == Err::<
            Seq<U>,
            ErrorView,
        >(e),
    decreases items.len(),
{
    if k == items.len() {
        assert(items.take(k) =~= items);
    } else {
        assert(items.drop_last().take(k) =~= items.take(k));
        lemma_gather_prefix_error(items.drop_last(), k, each);
    }
}

/// The first `n` items, or all of them where there are fewer.
pub open spec fn first_n<T>(items: Seq<T>, n: nat) -> Seq<T> {
    if items.len() <= n {
        items
    } else {
        items.take(n as int)
    }
}

} // verus!
