//! Collecting the results of converting the parts of a value, one by one
//! and in order, into the result for the whole.
use vstd::prelude::*;
use crate::error::ErrorView;

verus! {

/// The outcome of converting parts in order and stopping at the first
/// failure: all the converted parts, or the failure of the earliest part
/// that has one.
pub open spec fn gather<T>(results: Seq<Result<T, ErrorView>>) -> Result<Seq<T>, ErrorView>
    decreases results.len(),
{
    if results.len() == 0 {
        Ok(Seq::empty())
    } else {
        match gather(results.drop_last()) {
            Err(e) => Err(e),
            Ok(items) => match results.last() {
                Err(e) => Err(e),
                Ok(item) => Ok(items.push(item)),
            },
        }
    }
}

/// Gathering succeeds exactly when every part does, and then yields the
/// parts in order.
pub proof fn lemma_gather_ok<T>(results: Seq<Result<T, ErrorView>>)
    ensures
        gather(results) is Ok <==> forall|i: int|
            0 <= i < results.len() ==> (#[trigger] results[i]) is Ok,
        gather(results) matches Ok(items) ==> {
            &&& items.len() == results.len()
            &&& forall|i: int|
                0 <= i < results.len() ==> results[i] == Ok::<T, ErrorView>(#[trigger] items[i])
        },
    decreases results.len(),
{
    if results.len() > 0 {
        let front = results.drop_last();
        lemma_gather_ok(front);
        assert(forall|i: int| 0 <= i < front.len() ==> front[i] == results[i]);
        if gather(results) is Ok {
            assert forall|i: int| 0 <= i < results.len() implies (#[trigger] results[i]) is Ok by {
                if i < front.len() {
                    assert(front[i] is Ok);
                }
            }
        }
    }
}

/// Gathering fails with the failure of the earliest part that fails.
pub proof fn lemma_gather_err<T>(results: Seq<Result<T, ErrorView>>, first: int)
    requires
        0 <= first < results.len(),
        results[first] is Err,
        forall|i: int| 0 <= i < first ==> (#[trigger] results[i]) is Ok,
    ensures
        gather(results) == Err::<Seq<T>, ErrorView>(results[first]->Err_0),
    decreases results.len(),
{
    let front = results.drop_last();
    assert(forall|i: int| 0 <= i < front.len() ==> front[i] == results[i]);
    if first < results.len() - 1 {
        lemma_gather_err(front, first);
    } else {
        lemma_gather_ok(front);
    }
}

/// Gathering one more part after a prefix that succeeded.
pub proof fn lemma_gather_step<T>(results: Seq<Result<T, ErrorView>>, done: int)
    requires
        0 <= done < results.len(),
        gather(results.take(done)) is Ok,
    ensures
        results[done] matches Ok(item) ==> gather(results.take(done + 1)) == Ok::<
            Seq<T>,
            ErrorView,
        >(gather(results.take(done))->Ok_0.push(item)),
        results[done] matches Err(e) ==> gather(results) == Err::<Seq<T>, ErrorView>(e),
{
    let next = results.take(done + 1);
    assert(next.drop_last() == results.take(done));
    assert(next.last() == results[done]);
    if results[done] is Err {
        lemma_gather_ok(results.take(done));
        assert forall|i: int| 0 <= i < done implies (#[trigger] results[i]) is Ok by {
            assert(results.take(done)[i] == results[i]);
        }
        lemma_gather_err(results, done);
    }
}

} // verus!
