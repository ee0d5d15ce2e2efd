//! What holds of a whole poll, stated over the results that the components
//! hand back, in the order in which the aggregator asks for them.
use vstd::prelude::*;

use crate::machine::{Action, RoundState, finish, record_spec, round_start, settle};
use crate::{Async, Poll};

verus! {

/// The state and action after handing `results`, one by one, to an
/// aggregator in state `s`. Results that come after the aggregator has
/// settled are never asked for, and are ignored.
pub open spec fn feed<Item, Error>(s: RoundState, results: Seq<Poll<Item, Error>>) -> (
    RoundState,
    Action<Item, Error>,
)
    decreases results.len(),
{
    if results.len() == 0 {
        (s, Action::Invoke(s.position as usize))
    } else {
        let (s0, a0) = feed(s, results.drop_last());
        if a0 is Invoke {
            record_spec(s0, results.last())
        } else {
            (s0, a0)
        }
    }
}

/// Where a poll over `count` components ends when the components, invoked in
/// the order that the aggregator asks for, return `results`.
pub open spec fn poll_outcome<Item, Error>(count: nat, results: Seq<Poll<Item, Error>>) -> (
    RoundState,
    Action<Item, Error>,
) {
    let (s, a) = settle::<Item, Error>(count, 0, false, false);
    if a is Invoke {
        feed(s, results)
    } else {
        (s, a)
    }
}

/// A result that neither hands back a value nor fails.
pub open spec fn passes<Item, Error>(r: Poll<Item, Error>) -> bool {
    r is Ok && !(r->Ok_0 is Ready)
}

/// Some result in `results` is `Ok(o)`.
pub open spec fn reports<Item, Error>(results: Seq<Poll<Item, Error>>, o: Async<Item>) -> bool {
    exists|i: int| 0 <= i < results.len() && results[i] == Ok::<Async<Item>, Error>(o)
}

proof fn lemma_reports_last<Item, Error>(results: Seq<Poll<Item, Error>>, o: Async<Item>)
    requires
        results.len() > 0,
    ensures
        reports(results, o) == (reports(results.drop_last(), o) || results.last() == Ok::<
            Async<Item>,
            Error,
        >(o)),
{
    let prev = results.drop_last();
    if reports(prev, o) {
        let i = choose|i: int| 0 <= i < prev.len() && prev[i] == Ok::<Async<Item>, Error>(o);
        assert(results[i] == prev[i]);
    }
    if reports(results, o) {
        let i = choose|i: int| 0 <= i < results.len() && results[i] == Ok::<Async<Item>, Error>(o);
        if i < prev.len() {
            assert(prev[i] == results[i]);
        }
    }
}

/// Within the first round, results that pass move the aggregator on to the
/// next component and only raise the flags.
proof fn lemma_passing_prefix<Item, Error>(count: nat, results: Seq<Poll<Item, Error>>)
    requires
        0 < count <= usize::MAX,
        results.len() < count,
        forall|i: int| 0 <= i < results.len() ==> passes(#[trigger] results[i]),
    ensures
        feed(round_start(count), results) == (
            RoundState {
                count,
                position: results.len(),
                saw_not_ready: reports(results, Async::NotReady),
                saw_did_work: reports(results, Async::DidWork),
                finished: false,
            },
            Action::<Item, Error>::Invoke(results.len() as usize),
        ),
    decreases results.len(),
{
    if results.len() > 0 {
        let prev = results.drop_last();
        assert forall|i: int| 0 <= i < prev.len() implies passes(#[trigger] prev[i]) by {
            assert(prev[i] == results[i]);
        }
        lemma_passing_prefix(count, prev);
        lemma_reports_last(results, Async::<Item>::NotReady);
        lemma_reports_last(results, Async::<Item>::DidWork);
        assert(passes(results[results.len() - 1]));
    } else {
        assert(!reports(results, Async::<Item>::NotReady));
        assert(!reports(results, Async::<Item>::DidWork));
    }
}

/// A whole round of results that pass ends as its flags say.
proof fn lemma_passing_round<Item, Error>(count: nat, round: Seq<Poll<Item, Error>>)
    requires
        0 < count <= usize::MAX,
        round.len() == count,
        forall|i: int| 0 <= i < round.len() ==> passes(#[trigger] round[i]),
    ensures
        feed(round_start(count), round) == settle::<Item, Error>(
            count,
            count,
            reports(round, Async::NotReady),
            reports(round, Async::DidWork),
        ),
{
    let prev = round.drop_last();
    assert forall|i: int| 0 <= i < prev.len() implies passes(#[trigger] prev[i]) by {
        assert(prev[i] == round[i]);
    }
    lemma_passing_prefix(count, prev);
    lemma_reports_last(round, Async::<Item>::NotReady);
    lemma_reports_last(round, Async::<Item>::DidWork);
    assert(passes(round[round.len() - 1]));
}

proof fn lemma_feed_settled<Item, Error>(
    s: RoundState,
    results: Seq<Poll<Item, Error>>,
    later: Seq<Poll<Item, Error>>,
)
    requires
        !(feed(s, results).1 is Invoke),
    ensures
        feed(s, results + later) == feed(s, results),
    decreases later.len(),
{
    if later.len() == 0 {
        assert(results + later =~= results);
    } else {
        assert((results + later).drop_last() =~= results + later.drop_last());
        lemma_feed_settled(s, results, later.drop_last());
    }
}

proof fn lemma_feed_append<Item, Error>(
    s: RoundState,
    results: Seq<Poll<Item, Error>>,
    later: Seq<Poll<Item, Error>>,
)
    requires
        feed(s, results).1 == Action::<Item, Error>::Invoke(feed(s, results).0.position as usize),
    ensures
        feed(s, results + later) == feed(feed(s, results).0, later),
    decreases later.len(),
{
    if later.len() == 0 {
        assert(results + later =~= results);
    } else {
        assert((results + later).drop_last() =~= results + later.drop_last());
        assert((results + later).last() == later.last());
        lemma_feed_append(s, results, later.drop_last());
    }
}

/// Every way the first round of a poll can go: while the aggregator still
/// asks for results, all of them passed; it ends `NotReady` only after a
/// whole round with no work and some component not ready.
proof fn lemma_first_round<Item, Error>(count: nat, results: Seq<Poll<Item, Error>>)
    requires
        0 < count <= usize::MAX,
        results.len() <= count,
    ensures
        feed(round_start(count), results).1 is Invoke ==> {
            &&& forall|i: int| 0 <= i < results.len() ==> passes(#[trigger] results[i])
            &&& results.len() == count ==> reports(results, Async::DidWork)
        },
        feed(round_start(count), results).1 == Action::<Item, Error>::NotReady ==> {
            &&& results.len() == count
            &&& forall|i: int| 0 <= i < results.len() ==> passes(#[trigger] results[i])
            &&& !reports(results, Async::DidWork)
            &&& reports(results, Async::NotReady)
        },
    decreases results.len(),
{
    if results.len() > 0 {
        let prev = results.drop_last();
        lemma_first_round(count, prev);
        let (s0, a0) = feed(round_start(count), prev);
        if a0 is Invoke {
            lemma_passing_prefix(count, prev);
            lemma_reports_last(results, Async::<Item>::NotReady);
            lemma_reports_last(results, Async::<Item>::DidWork);
            assert forall|i: int| 0 <= i < prev.len() implies passes(#[trigger] results[i]) by {
                assert(prev[i] == results[i]);
            }
        }
    }
}

/// When every component of a round has nothing to do, the poll ends in the
/// `Stalled` defect, and no result after that round is asked for. With no
/// components at all, the first round is such a round.
pub proof fn lemma_nothing_to_do_stalls<Item, Error>(
    count: nat,
    round: Seq<Poll<Item, Error>>,
    later: Seq<Poll<Item, Error>>,
)
    requires
        count <= usize::MAX,
        round.len() == count,
        forall|i: int|
            0 <= i < round.len() ==> #[trigger] round[i] == Ok::<Async<Item>, Error>(
                Async::NothingToDo,
            ),
    ensures
        poll_outcome(count, round + later).1 == Action::<Item, Error>::Stalled,
        poll_outcome(count, round + later).0.finished,
{
    if count > 0 {
        assert(!reports(round, Async::<Item>::NotReady));
        assert(!reports(round, Async::<Item>::DidWork));
        lemma_passing_round(count, round);
        lemma_feed_settled(round_start(count), round, later);
    }
}

/// When a component fails, the poll ends with its error; no component after
/// it, in that round or a later one, is invoked.
pub proof fn lemma_error_ends_poll<Item, Error>(
    count: nat,
    before: Seq<Poll<Item, Error>>,
    e: Error,
    later: Seq<Poll<Item, Error>>,
)
    requires
        count <= usize::MAX,
        before.len() < count,
        forall|i: int| 0 <= i < before.len() ==> passes(#[trigger] before[i]),
    ensures
        poll_outcome(count, before.push(Err(e)) + later).1 == Action::<Item, Error>::Failed(e),
        poll_outcome(count, before.push(Err(e)) + later).0.finished,
{
    let results = before.push(Err::<Async<Item>, Error>(e));
    assert(results.drop_last() =~= before);
    lemma_passing_prefix(count, before);
    lemma_feed_settled(round_start(count), results, later);
}

/// When a component hands back a value, the poll ends with it at once; the
/// components after it in that round are not invoked.
pub proof fn lemma_ready_ends_poll<Item, Error>(
    count: nat,
    before: Seq<Poll<Item, Error>>,
    v: Item,
    later: Seq<Poll<Item, Error>>,
)
    requires
        count <= usize::MAX,
        before.len() < count,
        forall|i: int| 0 <= i < before.len() ==> passes(#[trigger] before[i]),
    ensures
        poll_outcome(count, before.push(Ok(Async::Ready(v))) + later).1 == Action::<
            Item,
            Error,
        >::Ready(v),
        poll_outcome(count, before.push(Ok(Async::Ready(v))) + later).0.finished,
{
    let results = before.push(Ok::<Async<Item>, Error>(Async::Ready(v)));
    assert(results.drop_last() =~= before);
    lemma_passing_prefix(count, before);
    lemma_feed_settled(round_start(count), results, later);
}

/// After a whole round in which some component did work and none handed
/// back a value or an error, the aggregator starts over with the first
/// component: the rest of the poll goes as a fresh poll would.
pub proof fn lemma_work_restarts_round<Item, Error>(
    count: nat,
    round: Seq<Poll<Item, Error>>,
    later: Seq<Poll<Item, Error>>,
)
    requires
        count <= usize::MAX,
        round.len() == count,
        forall|i: int| 0 <= i < round.len() ==> passes(#[trigger] round[i]),
        reports(round, Async::DidWork),
    ensures
        poll_outcome(count, round) == (round_start(count), Action::<Item, Error>::Invoke(0)),
        poll_outcome(count, round + later) == poll_outcome(count, later),
{
    lemma_passing_round(count, round);
    lemma_feed_append(round_start(count), round, later);
}

/// A round in which no component did work ends the poll: rounds repeat only
/// while components report work, so a poll asks for at most one round more
/// than there are rounds with work.
pub proof fn lemma_round_without_work_settles<Item, Error>(
    count: nat,
    round: Seq<Poll<Item, Error>>,
    later: Seq<Poll<Item, Error>>,
)
    requires
        count <= usize::MAX,
        round.len() == count,
        !reports(round, Async::DidWork),
    ensures
        !(poll_outcome(count, round).1 is Invoke),
        poll_outcome(count, round + later) == poll_outcome(count, round),
{
    if count > 0 {
        lemma_first_round(count, round);
        lemma_feed_settled(round_start(count), round, later);
    }
}

/// When no component of a round did work, handed back a value or failed,
/// and some component was not ready, the poll ends `NotReady`.
pub proof fn lemma_waiting_round_is_not_ready<Item, Error>(
    count: nat,
    round: Seq<Poll<Item, Error>>,
    later: Seq<Poll<Item, Error>>,
)
    requires
        count <= usize::MAX,
        round.len() == count,
        forall|i: int| 0 <= i < round.len() ==> passes(#[trigger] round[i]),
        !reports(round, Async::DidWork),
        reports(round, Async::NotReady),
    ensures
        poll_outcome(count, round + later).1 == Action::<Item, Error>::NotReady,
        poll_outcome(count, round + later).0.finished,
{
    lemma_passing_round(count, round);
    lemma_feed_settled(round_start(count), round, later);
}

/// A one-round poll ends `NotReady` exactly when no component did work,
/// handed back a value or failed, and some component was not ready: no
/// progress is made up, and the answer depends on those results alone. So
/// when the components are polled again with every nested operation as it
/// was, they return the same round and the poll ends `NotReady` again.
pub proof fn lemma_not_ready_only_when_waiting<Item, Error>(
    count: nat,
    round: Seq<Poll<Item, Error>>,
)
    requires
        count <= usize::MAX,
        round.len() == count,
    ensures
        poll_outcome(count, round).1 == Action::<Item, Error>::NotReady <==> {
            &&& forall|i: int| 0 <= i < round.len() ==> passes(#[trigger] round[i])
            &&& !reports(round, Async::DidWork)
            &&& reports(round, Async::NotReady)
        },
{
    if count > 0 {
        lemma_first_round(count, round);
        if {
            &&& forall|i: int| 0 <= i < round.len() ==> passes(#[trigger] round[i])
            &&& !reports(round, Async::<Item>::DidWork)
            &&& reports(round, Async::<Item>::NotReady)
        } {
            lemma_passing_round(count, round);
        }
    } else {
        assert(!reports(round, Async::<Item>::NotReady));
    }
}

} // verus!
