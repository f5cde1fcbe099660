//! What was asked of the world outside, and how it was answered.
use vstd::prelude::*;

verus! {

/// A request to the outside, with the reason why it failed, if it did.
#[verifier::ext_equal]
pub struct Exchange<R> {
    pub request: R,
    pub failure: Option<Seq<char>>,
}

/// Why an outcome is a failure.
pub open spec fn failure_of<T>(outcome: Result<T, String>) -> Option<Seq<char>> {
    match outcome {
        Ok(_) => None,
        Err(reason) => Some(reason@),
    }
}

/// Whether requests were made in order, up to the first that failed. `failure`
/// is why it failed; where there is none, all of them were made.
pub open spec fn carried_out<R>(
    before: Seq<Exchange<R>>,
    after: Seq<Exchange<R>>,
    plan: Seq<R>,
    failure: Option<Seq<char>>,
) -> bool {
    let made = after.len() - before.len();
    &&& 0 <= made <= plan.len()
    &&& after.take(before.len() as int) == before
    &&& forall|i: int|
        0 <= i < made ==> (#[trigger] after[before.len() + i]).request == plan[i]
    &&& forall|i: int|
        0 <= i < made - 1 ==> (#[trigger] after[before.len() + i]).failure is None
    &&& match failure {
        None => made == plan.len() && (made > 0 ==> after.last().failure is None),
        Some(_) => made > 0 && after.last().failure == failure,
    }
}

/// Where a request fails, none of those behind it is made.
pub proof fn law_failure_stops<R>(
    before: Seq<Exchange<R>>,
    after: Seq<Exchange<R>>,
    plan: Seq<R>,
    failure: Option<Seq<char>>,
    i: int,
)
    requires
        carried_out(before, after, plan, failure),
        before.len() <= i < after.len(),
        after[i].failure is Some,
    ensures
        i == after.len() - 1,
        failure == after[i].failure,
{
    let k = i - before.len();
    assert(after[before.len() + k] == after[i]);
}

/// The value of an outcome, or why it is a failure.
pub open spec fn answer_of<T>(outcome: Result<T, String>) -> Result<T, Seq<char>> {
    match outcome {
        Ok(value) => Ok(value),
        Err(reason) => Err(reason@),
    }
}

/// Whether what was asked before still stands at the start of what was asked
/// since.
pub open spec fn extends<C>(before: Seq<C>, after: Seq<C>) -> bool {
    before.len() <= after.len() && after.take(before.len() as int) == before
}

/// What was asked since.
pub open spec fn since<C>(before: Seq<C>, after: Seq<C>) -> Seq<C> {
    after.skip(before.len() as int)
}

/// One call after which others may follow.
pub proof fn lemma_call<C>(before: Seq<C>, call: C, after: Seq<C>)
    requires
        extends(before.push(call), after),
    ensures
        extends(before, after),
        since(before, after).len() > 0,
        since(before, after)[0] == call,
        since(before, after).skip(1) == since(before.push(call), after),
{
    assert(after[before.len() as int] == after.take(before.len() as int + 1)[before.len() as int]);
    assert(after.take(before.len() as int) =~= after.take(before.len() as int + 1).take(
        before.len() as int,
    ));
    assert(before.push(call).take(before.len() as int) =~= before);
    assert(since(before, after).skip(1) =~= since(before.push(call), after));
}

/// The end of a run.
pub proof fn lemma_no_call<C>(calls: Seq<C>)
    ensures
        extends(calls, calls),
        since(calls, calls).len() == 0,
{
    assert(calls.take(calls.len() as int) =~= calls);
}

/// A request that was granted, with others behind it.
pub proof fn lemma_granted<R>(
    before: Seq<Exchange<R>>,
    after: Seq<Exchange<R>>,
    plan: Seq<R>,
    failure: Option<Seq<char>>,
)
    requires
        plan.len() > 0,
        carried_out(
            before.push(Exchange { request: plan[0], failure: None }),
            after,
            plan.skip(1),
            failure,
        ),
    ensures
        carried_out(before, after, plan, failure),
{
    let call = Exchange { request: plan[0], failure: None };
    let middle = before.push(call);
    assert(extends(middle, after));
    lemma_call(before, call, after);
    assert(after[before.len() as int] == call) by {
        assert(since(before, after)[0] == after[before.len() as int]);
    }
    assert forall|i: int| 0 <= i < after.len() - before.len() implies (
    #[trigger] after[before.len() + i]).request == plan[i] by {
        if i > 0 {
            assert(after[middle.len() + (i - 1)].request == plan.skip(1)[i - 1]);
        }
    }
    assert forall|i: int| 0 <= i < after.len() - before.len() - 1 implies (
    #[trigger] after[before.len() + i]).failure is None by {
        if i > 0 {
            assert(after[middle.len() + (i - 1)].failure is None);
        }
    }
}

/// A request that was refused: the end of the plan.
pub proof fn lemma_refused<R>(before: Seq<Exchange<R>>, plan: Seq<R>, failure: Seq<char>)
    requires
        plan.len() > 0,
    ensures
        carried_out(
            before,
            before.push(Exchange { request: plan[0], failure: Some(failure) }),
            plan,
            Some(failure),
        ),
{
    let after = before.push(Exchange { request: plan[0], failure: Some(failure) });
    assert(after.take(before.len() as int) =~= before);
}

/// Nothing is left to ask.
pub proof fn lemma_all_made<R>(calls: Seq<Exchange<R>>, plan: Seq<R>)
    requires
        plan.len() == 0,
    ensures
        carried_out(calls, calls, plan, None),
{
    assert(calls.take(calls.len() as int) =~= calls);
}

/// Where nothing fails, every request was made, each once and in order, behind what was
/// asked before.
pub proof fn law_all_is_asked<R>(
    before: Seq<Exchange<R>>,
    after: Seq<Exchange<R>>,
    plan: Seq<R>,
    i: int,
)
    requires
        carried_out(before, after, plan, None),
    ensures
        after.len() == before.len() + plan.len(),
        0 <= i < before.len() ==> after[i] == before[i],
        0 <= i < plan.len() ==> after[before.len() + i] == (Exchange {
            request: plan[i],
            failure: None,
        }),
{
    if 0 <= i < before.len() {
        assert(after.take(before.len() as int)[i] == after[i]);
    }
    if 0 <= i < plan.len() {
        assert(after[before.len() + i].request == plan[i]);
        if i == plan.len() - 1 {
            assert(after.last() == after[before.len() + i]);
        } else {
            assert(after[before.len() + i].failure is None);
        }
    }
}

} // verus!
