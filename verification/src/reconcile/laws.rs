//! What holds of a repair: one entry's failure stops nothing, and each entry's
//! outcome is its own.

use crate::m3u::{first_key, ItemView};
use crate::reconcile::{
    is_done, is_waiting, outcome_of, record_spec, settle, FetchResult, ReconciliationView,
    RepairOutcome,
};
use vstd::prelude::*;

verus! {

/// Giving up the entries without a key changes neither list of entries and
/// no outcome reached before; it adds `UnresolvableEntry` for entries without
/// a key only, and ends with every entry done or with one that can be
/// fetched.
pub proof fn lemma_settle(state: ReconciliationView)
    requires
        state.outcomes.len() <= state.missing.len(),
    ensures
        settle(state).present == state.present,
        settle(state).missing == state.missing,
        state.outcomes.len() <= settle(state).outcomes.len() <= state.missing.len(),
        settle(state).outcomes.take(state.outcomes.len() as int) == state.outcomes,
        forall|i: int|
            state.outcomes.len() <= i < settle(state).outcomes.len() ==> {
                &&& #[trigger] settle(state).outcomes[i] == RepairOutcome::UnresolvableEntry
                &&& first_key(state.missing[i].metadata) is None
            },
        is_done(settle(state)) || is_waiting(settle(state)),
    decreases state.missing.len() - state.outcomes.len(),
{
    if !(is_done(state) || is_waiting(state)) {
        let next = ReconciliationView {
            outcomes: state.outcomes.push(RepairOutcome::UnresolvableEntry),
            ..state
        };
        lemma_settle(next);
        let end = settle(state);
        assert forall|i: int| state.outcomes.len() <= i < end.outcomes.len() implies {
            &&& #[trigger] end.outcomes[i] == RepairOutcome::UnresolvableEntry
            &&& first_key(state.missing[i].metadata) is None
        } by {
            if i == state.outcomes.len() {
                assert(end.outcomes.take(next.outcomes.len() as int)[i] == next.outcomes[i]);
            }
        }
    }
}

/// A repair goes on whatever one fetch gave. Once the result of the fetch
/// that was asked for is recorded, be it a failure, the entry has the outcome
/// that the result stands for, every outcome reached before is as it was,
/// the lists of entries are as they were, and the repair has either reached
/// the end or asks for the next entry that can be fetched.
pub proof fn lemma_repair_goes_on(state: ReconciliationView, result: FetchResult)
    requires
        state.outcomes.len() <= state.missing.len(),
        is_waiting(state),
    ensures
        settle(record_spec(state, result)).present == state.present,
        settle(record_spec(state, result)).missing == state.missing,
        settle(record_spec(state, result)).outcomes.len() > state.outcomes.len(),
        settle(record_spec(state, result)).outcomes.take(state.outcomes.len() as int)
            == state.outcomes,
        settle(record_spec(state, result)).outcomes[state.outcomes.len() as int] == outcome_of(
            result,
        ),
        is_done(settle(record_spec(state, result))) || is_waiting(
            settle(record_spec(state, result)),
        ),
{
    let recorded = record_spec(state, result);
    lemma_settle(recorded);
    let end = settle(recorded);
    let n = state.outcomes.len() as int;
    assert(end.outcomes.take(n + 1)[n] == recorded.outcomes[n]);
}

/// The state of a repair that starts at `state` and is handed `results`, one
/// for each fetch that it asks for, in order.
pub open spec fn drive(state: ReconciliationView, results: Seq<FetchResult>) -> ReconciliationView
    decreases results.len(),
{
    if results.len() == 0 {
        settle(state)
    } else {
        drive(record_spec(settle(state), results[0]), results.skip(1))
    }
}

/// The outcomes that the entries `missing` come to when the fetches that are
/// asked for go as `results` say: an entry without a key is unresolvable and
/// uses up no result; an entry with a key has the outcome of the next result;
/// and where the results run out before such an entry, the repair waits
/// there.
pub open spec fn outcomes_for(missing: Seq<ItemView>, results: Seq<FetchResult>) -> Seq<
    RepairOutcome,
>
    decreases missing.len(),
{
    if missing.len() == 0 {
        Seq::empty()
    } else if first_key(missing[0].metadata) is None {
        seq![RepairOutcome::UnresolvableEntry] + outcomes_for(missing.skip(1), results)
    } else if results.len() == 0 {
        Seq::empty()
    } else {
        seq![outcome_of(results[0])] + outcomes_for(missing.skip(1), results.skip(1))
    }
}

/// Giving up the entries without a key adds the outcomes that
/// `outcomes_for` gives without any result.
proof fn lemma_settle_outcomes(state: ReconciliationView)
    requires
        state.outcomes.len() <= state.missing.len(),
    ensures
        settle(state).outcomes == state.outcomes + outcomes_for(
            state.missing.skip(state.outcomes.len() as int),
            Seq::empty(),
        ),
    decreases state.missing.len() - state.outcomes.len(),
{
    let rest = state.missing.skip(state.outcomes.len() as int);
    if !(is_done(state) || is_waiting(state)) {
        let next = ReconciliationView {
            outcomes: state.outcomes.push(RepairOutcome::UnresolvableEntry),
            ..state
        };
        lemma_settle_outcomes(next);
        assert(rest.skip(1) == state.missing.skip(next.outcomes.len() as int));
    }
}

/// With results at hand, the entries without a key that come first have the
/// outcomes that they have without any.
proof fn lemma_outcomes_for_settled(state: ReconciliationView, results: Seq<FetchResult>)
    requires
        state.outcomes.len() <= state.missing.len(),
    ensures
        state.outcomes + outcomes_for(state.missing.skip(state.outcomes.len() as int), results)
            == settle(state).outcomes + outcomes_for(
            state.missing.skip(settle(state).outcomes.len() as int),
            results,
        ),
    decreases state.missing.len() - state.outcomes.len(),
{
    let rest = state.missing.skip(state.outcomes.len() as int);
    if !(is_done(state) || is_waiting(state)) {
        let next = ReconciliationView {
            outcomes: state.outcomes.push(RepairOutcome::UnresolvableEntry),
            ..state
        };
        lemma_outcomes_for_settled(next, results);
        assert(rest.skip(1) == state.missing.skip(next.outcomes.len() as int));
    }
}

/// A repair gives every entry the outcome that is its own. The outcomes
/// reached before stay; each entry after them without a key is unresolvable;
/// each entry with a key has the outcome of the one result that was handed in
/// for it, whatever the results of the others were; and neither list of
/// entries changes.
pub proof fn lemma_drive(state: ReconciliationView, results: Seq<FetchResult>)
    requires
        state.outcomes.len() <= state.missing.len(),
    ensures
        drive(state, results).present == state.present,
        drive(state, results).missing == state.missing,
        drive(state, results).outcomes.len() <= state.missing.len(),
        drive(state, results).outcomes == state.outcomes + outcomes_for(
            state.missing.skip(state.outcomes.len() as int),
            results,
        ),
    decreases results.len(),
{
    lemma_settle(state);
    if results.len() == 0 {
        lemma_settle_outcomes(state);
        assert(results == Seq::<FetchResult>::empty());
    } else {
        let settled = settle(state);
        let recorded = record_spec(settled, results[0]);
        lemma_outcomes_for_settled(state, results);
        lemma_drive(recorded, results.skip(1));
        let rest = state.missing.skip(settled.outcomes.len() as int);
        if is_waiting(settled) {
            assert(rest.skip(1) == state.missing.skip(recorded.outcomes.len() as int));
        }
    }
}

} // verus!
