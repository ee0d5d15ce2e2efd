//! Combines an ordered list of component pollers into one poll of a
//! compound future or stream.
//!
//! Each component inspects and updates the owner's state and reports an
//! [`Async`]. An [`Aggregator`] runs the components in rounds, in their
//! declared order: it stops at the first value or error, starts a new round
//! after a round in which some component did work, answers `NotReady` after a
//! round in which some component waited and none worked, and flags as a
//! defect a round in which no component had anything to do.
use vstd::prelude::*;

pub mod laws;
pub mod machine;

pub use machine::{Action, Aggregator, RoundState};

verus! {

/// What one component accomplished in one invocation.
#[derive(Copy, Clone, Debug, PartialEq, Eq)]
pub enum Async<Item> {
    /// The compound operation has a value to hand back right now.
    Ready(Item),
    /// A nested operation was not ready; no progress was made.
    NotReady,
    /// The owner's state changed, but no value is ready yet.
    DidWork,
    /// The component had nothing to evaluate this round.
    NothingToDo,
}

/// What every component returns.
pub type Poll<Item, Error> = Result<Async<Item>, Error>;

} // verus!
