//! The ordered join of a batch of requests: each request ends with a value
//! or an error, in any order, and the batch gives the values in the order of
//! the requests, or the error of the first request that failed.

use crate::seqs::{first_index, lemma_first_index, lemma_first_index_is};
use vstd::prelude::*;

verus! {

/// The property of a request that has failed.
pub open spec fn failed<T, E>() -> spec_fn(Result<T, E>) -> bool {
    |result: Result<T, E>| result is Err
}

/// The property of a request that has not ended with a value: it has
/// failed, or not ended yet.
pub open spec fn unready<T, E>() -> spec_fn(Option<Result<T, E>>) -> bool {
    |slot: Option<Result<T, E>>| !(slot matches Some(Ok(_)))
}

/// What a batch gives once all its requests have ended: the error of the
/// first request that failed, or else all the values, in the order of the
/// requests.
pub open spec fn joined<T, E>(results: Seq<Result<T, E>>) -> Result<Seq<T>, E> {
    let n = first_index(results, failed());
    if 0 <= n < results.len() {
        Err(results[n]->Err_0)
    } else {
        Ok(Seq::new(results.len(), |i: int| results[i]->Ok_0))
    }
}

/// What a batch gives while some of its requests may not have ended:
/// nothing while the first request without a value has not ended, its error
/// where it has failed, and all the values where there is no such request.
pub open spec fn outcome<T, E>(slots: Seq<Option<Result<T, E>>>) -> Option<Result<Seq<T>, E>> {
    let n = first_index(slots, unready());
    if 0 <= n < slots.len() {
        match slots[n] {
            Some(Err(e)) => Some(Err(e)),
            _ => None,
        }
    } else {
        Some(Ok(Seq::new(slots.len(), |i: int| slots[i]->0->Ok_0)))
    }
}

/// The slots of a batch after the requests named in `order` have ended, one
/// after the other, each with its result in `results`. A request that has
/// ended before, or that the batch does not have, changes nothing.
pub open spec fn completed<T, E>(
    slots: Seq<Option<Result<T, E>>>,
    order: Seq<int>,
    results: Seq<Result<T, E>>,
) -> Seq<Option<Result<T, E>>>
    decreases order.len(),
{
    if order.len() == 0 {
        slots
    } else {
        let before = completed(slots, order.drop_last(), results);
        let i = order.last();
        if 0 <= i < before.len() && before[i] is None {
            before.update(i, Some(results[i]))
        } else {
            before
        }
    }
}

/// The slots of a batch of `len` requests of which none has ended.
pub open spec fn pending<T, E>(len: nat) -> Seq<Option<Result<T, E>>> {
    Seq::new(len, |i: int| None)
}

/// After the requests in `order` have ended, a slot holds the result of its
/// request where `order` names it, and nothing where it does not.
pub proof fn lemma_completed<T, E>(order: Seq<int>, results: Seq<Result<T, E>>)
    ensures
        completed(pending(results.len()), order, results).len() == results.len(),
        forall|i: int|
            0 <= i < results.len() ==> #[trigger] completed(
                pending(results.len()),
                order,
                results,
            )[i] == (if order.contains(i) {
                Some(results[i])
            } else {
                None
            }),
    decreases order.len(),
{
    let start = pending::<T, E>(results.len());
    if order.len() == 0 {
    } else {
        let earlier = order.drop_last();
        lemma_completed(earlier, results);
        let before = completed(start, earlier, results);
        let after = completed(start, order, results);
        assert forall|i: int| 0 <= i < results.len() implies #[trigger] after[i] == (
        if order.contains(i) {
            Some(results[i])
        } else {
            None
        }) by {
            if earlier.contains(i) {
                let k = choose|k: int| 0 <= k < earlier.len() && earlier[k] == i;
                assert(order[k] == i);
            }
            if order.contains(i) && order.last() != i {
                let k = choose|k: int| 0 <= k < order.len() && order[k] == i;
                assert(earlier[k] == i);
            }
            if order.last() == i {
                assert(order[order.len() - 1] == i);
            }
        }
    }
}

/// Where every request has ended, the batch gives what `joined` says.
pub proof fn lemma_outcome_of_all<T, E>(results: Seq<Result<T, E>>)
    ensures
        outcome(results.map_values(|r: Result<T, E>| Some(r))) == Some(joined(results)),
{
    let slots = results.map_values(|r: Result<T, E>| Some(r));
    let n = first_index(results, failed());
    lemma_first_index(results, failed::<T, E>());
    assert forall|k: int| 0 <= k < n implies !unready::<T, E>()(#[trigger] slots[k]) by {
        assert(!failed::<T, E>()(results[k]));
    }
    if n < results.len() {
        assert(failed::<T, E>()(results[n]));
        assert(unready::<T, E>()(slots[n]));
    }
    lemma_first_index_is(slots, unready::<T, E>(), n);
    if n < results.len() {
    } else {
        assert(Seq::new(slots.len(), |i: int| slots[i]->0->Ok_0) =~= Seq::new(
            results.len(),
            |i: int| results[i]->Ok_0,
        ));
    }
}

/// The order in which the requests end does not matter: once each request
/// has ended, whatever the order, and however often it is reported, the
/// batch gives the error of the first request that failed, by the order of
/// the requests, or else the values in the order of the requests.
pub proof fn lemma_join_any_order<T, E>(results: Seq<Result<T, E>>, order: Seq<int>)
    requires
        forall|i: int| 0 <= i < results.len() ==> order.contains(i),
    ensures
        outcome(completed(pending(results.len()), order, results)) == Some(joined(results)),
        joined(results) matches Ok(values) ==> values.len() == results.len() && forall|i: int|
            0 <= i < results.len() ==> results[i] == Ok::<T, E>(#[trigger] values[i]),
        joined(results) matches Err(e) ==> exists|i: int|
            0 <= i < results.len() && results[i] == Err::<T, E>(e) && forall|k: int|
                0 <= k < i ==> (#[trigger] results[k]) is Ok,
{
    lemma_completed(order, results);
    assert(completed(pending(results.len()), order, results) =~= results.map_values(
        |r: Result<T, E>| Some(r),
    ));
    lemma_outcome_of_all(results);
    let n = first_index(results, failed());
    lemma_first_index(results, failed::<T, E>());
    if n < results.len() {
        assert(failed::<T, E>()(results[n]));
        assert forall|k: int| 0 <= k < n implies (#[trigger] results[k]) is Ok by {
            assert(!failed::<T, E>()(results[k]));
        }
    } else {
        let values = joined(results)->Ok_0;
        assert forall|i: int| 0 <= i < results.len() implies results[i] == Ok::<T, E>(
            #[trigger] values[i],
        ) by {
            assert(!failed::<T, E>()(results[i]));
        }
    }
}

/// What a batch has given, it keeps giving: a request that ends later
/// changes nothing.
pub proof fn lemma_outcome_stays<T, E>(
    slots: Seq<Option<Result<T, E>>>,
    i: int,
    result: Result<T, E>,
)
    requires
        outcome(slots) is Some,
        0 <= i < slots.len(),
        slots[i] is None,
    ensures
        outcome(slots.update(i, Some(result))) == outcome(slots),
{
    let n = first_index(slots, unready());
    lemma_first_index(slots, unready::<T, E>());
    assert(unready::<T, E>()(slots[i]));
    assert(n < slots.len());
    assert(n != i);
    assert(i > n) by {
        if i < n {
            assert(!unready::<T, E>()(slots[i]));
        }
    }
    let after = slots.update(i, Some(result));
    assert forall|k: int| 0 <= k < n implies !unready::<T, E>()(#[trigger] after[k]) by {
        assert(!unready::<T, E>()(slots[k]));
    }
    assert(unready::<T, E>()(after[n]));
    lemma_first_index_is(after, unready::<T, E>(), n);
}

/// Whether an executable answer holds what `expected` says.
pub open spec fn answers<T, E>(r: Option<Result<Vec<T>, E>>, expected: Option<Result<Seq<T>, E>>) -> bool {
    match expected {
        None => r is None,
        Some(Err(e)) => r == Some(Err::<Vec<T>, E>(e)),
        Some(Ok(values)) => r matches Some(Ok(v)) && v@ == values,
    }
}

/// A batch of requests whose results come in any order.
pub struct OrderedJoin<T, E> {
    slots: Vec<Option<Result<T, E>>>,
}

impl<T, E> OrderedJoin<T, E> {
    /// For each request, in the order of the requests, its result where it
    /// has ended.
    pub closed spec fn view(&self) -> Seq<Option<Result<T, E>>> {
        self.slots@
    }

    /// A batch of `len` requests, none of which has ended.
    pub fn new(len: usize) -> (r: Self)
        ensures
            r@ == pending::<T, E>(len as nat),
    {
        let mut slots: Vec<Option<Result<T, E>>> = Vec::new();
        let mut i: usize = 0;
        while i < len
            invariant
                0 <= i <= len,
                slots@ == pending::<T, E>(i as nat),
            decreases len - i,
        {
            slots.push(None);
            i += 1;
            assert(slots@ =~= pending::<T, E>(i as nat));
        }
        OrderedJoin { slots }
    }

    /// The number of requests.
    pub fn len(&self) -> (r: usize)
        ensures
            r == self@.len(),
    {
        self.slots.len()
    }

    /// Records that the request `index` has ended with `result`. Returns
    /// whether it was recorded: it is not where the batch has no such
    /// request, or where that request has ended before.
    pub fn complete(&mut self, index: usize, result: Result<T, E>) -> (r: bool)
        ensures
            r == (index < old(self)@.len() && old(self)@[index as int] is None),
            r ==> final(self)@ == old(self)@.update(index as int, Some(result)),
            !r ==> final(self)@ == old(self)@,
    {
        if index < self.slots.len() && self.slots[index].is_none() {
            self.slots.set(index, Some(result));
            true
        } else {
            false
        }
    }

    /// Whether the batch has an answer: all requests have ended with a
    /// value, or the first without one has failed.
    pub fn is_settled(&self) -> (r: bool)
        ensures
            r == outcome(self@) is Some,
    {
        let mut i: usize = 0;
        while i < self.slots.len()
            invariant
                0 <= i <= self.slots.len(),
                forall|k: int| 0 <= k < i ==> !unready::<T, E>()(#[trigger] self.slots@[k]),
            decreases self.slots.len() - i,
        {
            match &self.slots[i] {
                Some(Ok(_)) => {},
                Some(Err(_)) => {
                    proof {
                        lemma_first_index_is(self.slots@, unready::<T, E>(), i as int);
                    }
                    return true;
                },
                None => {
                    proof {
                        lemma_first_index_is(self.slots@, unready::<T, E>(), i as int);
                    }
                    return false;
                },
            }
            i += 1;
        }
        proof {
            lemma_first_index_is(self.slots@, unready::<T, E>(), i as int);
        }
        true
    }

    /// The answer of the batch, if it has one: the error of the first
    /// request that failed, or the values in the order of the requests.
    pub fn finish(self) -> (r: Option<Result<Vec<T>, E>>)
        ensures
            answers(r, outcome(self@)),
    {
        let ghost slots = self.slots@;
        let mut values: Vec<T> = Vec::new();
        for slot in it: self.slots
            invariant
                it.seq() == slots,
                values@ == Seq::new(it.index() as nat, |i: int| slots[i]->0->Ok_0),
                forall|k: int| 0 <= k < it.index() ==> !unready::<T, E>()(#[trigger] slots[k]),
        {
            match slot {
                Some(Ok(value)) => {
                    values.push(value);
                    assert(values@ =~= Seq::new(
                        (it.index() + 1) as nat,
                        |i: int| slots[i]->0->Ok_0,
                    ));
                },
                Some(Err(e)) => {
                    proof {
                        lemma_first_index_is(slots, unready::<T, E>(), it.index() as int);
                    }
                    return Some(Err(e));
                },
                None => {
                    proof {
                        lemma_first_index_is(slots, unready::<T, E>(), it.index() as int);
                    }
                    return None;
                },
            }
        }
        proof {
            lemma_first_index_is(slots, unready::<T, E>(), slots.len() as int);
        }
        Some(Ok(values))
    }
}

} // verus!
