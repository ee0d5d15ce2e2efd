//! The round algorithm that combines the outcomes of an ordered list of
//! components into the result of one poll of the compound operation.
//!
//! The machine never calls a component itself: it names the next component
//! to invoke, is handed that component's result, and answers with the next
//! action, until it settles on a value, an error, `NotReady`, or the defect
//! of a round in which no component had anything to do.
use vstd::prelude::*;

use crate::{Async, Poll};

verus! {

/// What the driver of a poll does next.
#[derive(Clone, Debug, PartialEq, Eq)]
pub enum Action<Item, Error> {
    /// Invoke the component at this index and hand its result to `record`.
    Invoke(usize),
    /// The poll is over: hand this value back.
    Ready(Item),
    /// The poll is over: some nested operation is not ready, and no component
    /// can make progress until it is.
    NotReady,
    /// The poll is over: a component failed with this error.
    Failed(Error),
    /// Every component had nothing to do in one round. The component set has
    /// no legal next action: a defect, never a value to hand back.
    Stalled,
}

/// The mathematical state of an aggregator.
pub struct RoundState {
    /// Number of components, in their fixed order.
    pub count: nat,
    /// Index of the component that is awaited (while not finished).
    pub position: nat,
    /// Some component of the current round reported `NotReady`.
    pub saw_not_ready: bool,
    /// Some component of the current round reported `DidWork`.
    pub saw_did_work: bool,
    /// The poll has settled; no component is awaited.
    pub finished: bool,
}

impl RoundState {
    /// The position stays within the components, an unfinished poll awaits
    /// one of them, and a raised flag means some component reported.
    pub open spec fn wf(self) -> bool {
        &&& self.count <= usize::MAX
        &&& self.position <= self.count
        &&& !self.finished ==> self.position < self.count
        &&& (self.saw_did_work || self.saw_not_ready) ==> self.count > 0
    }
}

/// The state at the start of every round: first component awaited, no flags.
pub open spec fn round_start(count: nat) -> RoundState {
    RoundState {
        count,
        position: 0,
        saw_not_ready: false,
        saw_did_work: false,
        finished: false,
    }
}

/// The next action once the components before `position` have reported in
/// the current round with the given flags.
pub open spec fn settle<Item, Error>(
    count: nat,
    position: nat,
    saw_not_ready: bool,
    saw_did_work: bool,
) -> (RoundState, Action<Item, Error>) {
    if position < count {
        (
            RoundState { count, position, saw_not_ready, saw_did_work, finished: false },
            Action::Invoke(position as usize),
        )
    } else if saw_did_work {
        (round_start(count), Action::Invoke(0))
    } else if saw_not_ready {
        (
            RoundState { count, position, saw_not_ready, saw_did_work, finished: true },
            Action::NotReady,
        )
    } else {
        (
            RoundState { count, position, saw_not_ready, saw_did_work, finished: true },
            Action::Stalled,
        )
    }
}

/// `s` with no component awaited any more.
pub open spec fn finish(s: RoundState) -> RoundState {
    RoundState {
        count: s.count,
        position: s.position,
        saw_not_ready: s.saw_not_ready,
        saw_did_work: s.saw_did_work,
        finished: true,
    }
}

/// The state and action after the awaited component of `s` returned `result`.
pub open spec fn record_spec<Item, Error>(s: RoundState, result: Poll<Item, Error>) -> (
    RoundState,
    Action<Item, Error>,
) {
    match result {
        Err(e) => (finish(s), Action::Failed(e)),
        Ok(Async::Ready(v)) => (finish(s), Action::Ready(v)),
        Ok(Async::NotReady) => settle(s.count, s.position + 1, true, s.saw_did_work),
        Ok(Async::DidWork) => settle(s.count, s.position + 1, s.saw_not_ready, true),
        Ok(Async::NothingToDo) => settle(
            s.count,
            s.position + 1,
            s.saw_not_ready,
            s.saw_did_work,
        ),
    }
}

/// Drives one poll of a compound operation made of `count` components.
pub struct Aggregator {
    count: usize,
    position: usize,
    saw_not_ready: bool,
    saw_did_work: bool,
    finished: bool,
}

impl View for Aggregator {
    type V = RoundState;

    closed spec fn view(&self) -> RoundState {
        RoundState {
            count: self.count as nat,
            position: self.position as nat,
            saw_not_ready: self.saw_not_ready,
            saw_did_work: self.saw_did_work,
            finished: self.finished,
        }
    }
}

impl Aggregator {
    fn settled<Item, Error>(
        count: usize,
        position: usize,
        saw_not_ready: bool,
        saw_did_work: bool,
    ) -> (r: (Aggregator, Action<Item, Error>))
        requires
            position <= count,
            (saw_did_work || saw_not_ready) ==> count > 0,
        ensures
            r.0@.wf(),
            (r.0@, r.1) == settle::<Item, Error>(
                count as nat,
                position as nat,
                saw_not_ready,
                saw_did_work,
            ),
    {
        if position < count {
            (
                Aggregator { count, position, saw_not_ready, saw_did_work, finished: false },
                Action::Invoke(position),
            )
        } else if saw_did_work {
            (
                Aggregator {
                    count,
                    position: 0,
                    saw_not_ready: false,
                    saw_did_work: false,
                    finished: false,
                },
                Action::Invoke(0),
            )
        } else if saw_not_ready {
            (
                Aggregator { count, position, saw_not_ready, saw_did_work, finished: true },
                Action::NotReady,
            )
        } else {
            (
                Aggregator { count, position, saw_not_ready, saw_did_work, finished: true },
                Action::Stalled,
            )
        }
    }

    /// Starts a poll over `count` components: the first action is to invoke
    /// the first component, or, where there is none, `Stalled`.
    pub fn start<Item, Error>(count: usize) -> (r: (Aggregator, Action<Item, Error>))
        ensures
            r.0@.wf(),
            (r.0@, r.1) == settle::<Item, Error>(count as nat, 0, false, false),
            count > 0 ==> r.0@ == round_start(count as nat) && r.1 == Action::<Item, Error>::Invoke(0),
            count == 0 ==> r.0@.finished && r.1 == Action::<Item, Error>::Stalled,
    {
        Aggregator::settled(count, 0, false, false)
    }

    /// The poll has settled: no component is awaited.
    pub fn is_finished(&self) -> (r: bool)
        ensures
            r == self@.finished,
    {
        self.finished
    }

    /// Hands over the result of the awaited component and returns the next
    /// action.
    pub fn record<Item, Error>(&mut self, result: Poll<Item, Error>) -> (a: Action<Item, Error>)
        requires
            old(self)@.wf(),
            !old(self)@.finished,
        ensures
            final(self)@.wf(),
            (final(self)@, a) == record_spec(old(self)@, result),
    {
        let next = self.position + 1;
        let (s, a) = match result {
            Err(e) => {
                self.finished = true;
                return Action::Failed(e);
            },
            Ok(Async::Ready(v)) => {
                self.finished = true;
                return Action::Ready(v);
            },
            Ok(Async::NotReady) => Aggregator::settled(self.count, next, true, self.saw_did_work),
            Ok(Async::DidWork) => Aggregator::settled(self.count, next, self.saw_not_ready, true),
            Ok(Async::NothingToDo) => Aggregator::settled(
                self.count,
                next,
                self.saw_not_ready,
                self.saw_did_work,
            ),
        };
        *self = s;
        a
    }
}

} // verus!
