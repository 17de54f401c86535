//! The elementary operations that a chain lowers to.
//!
//! A chain becomes a list of steps over one rolling binding, `ptr`, which
//! holds a wrapper or, right after a read or a block, a bare value. Lowering
//! is a machine with two states: clean, where `ptr` holds a wrapper, and
//! dirty, where it holds a bare value that must be wrapped again before the
//! next step can navigate from it.

use crate::access::{Access, Amount, Member, OffsetType};
use crate::token::Tree;
use vstd::prelude::*;

verus! {

/// One elementary operation on the rolling binding.
pub enum Step {
    /// Wrap the bare value that the binding holds.
    Wrap,
    /// Take the address of a named field of the pointee.
    Field(Seq<char>),
    /// Take the address of a position of the pointee, a tuple.
    Position(u32),
    /// Read the pointee; the binding then holds a bare value.
    Read,
    /// Take the address of an element of the pointee, a sequence.
    Index(Seq<Tree>),
    /// Move by a number of elements or bytes.
    Offset { byte: bool, direction: OffsetType, amount: Amount },
    /// Reinterpret the pointee type.
    Cast(Seq<Tree>),
    /// Run a nested program from the current wrapper and bind its result,
    /// a bare value.
    Block(Program),
    /// Report the dot that nothing follows.
    Dangle,
}

/// How a program hands out its result.
pub enum Finish {
    /// The binding holds a wrapper: convert it back into a pointer.
    Unwrap,
    /// The binding holds a bare value: hand it out as it is.
    Value,
    /// Nothing is handed out: the program ended in a report.
    Halt,
}

/// A list of steps and the way the result is handed out.
pub struct Program {
    pub steps: Seq<Step>,
    pub finish: Finish,
}

/// The two states of lowering.
#[derive(Clone, Copy, Debug, PartialEq, Eq, Structural)]
pub enum State {
    /// The binding holds a wrapper.
    Clean,
    /// The binding holds a bare value.
    NeedsRewrap,
}

/// The steps that bring the binding back to a wrapper.
pub open spec fn rewrap(state: State) -> Seq<Step> {
    match state {
        State::Clean => Seq::empty(),
        State::NeedsRewrap => seq![Step::Wrap],
    }
}

/// How a chain that ends in `state` hands out its result.
pub open spec fn finish(state: State) -> Finish {
    match state {
        State::Clean => Finish::Unwrap,
        State::NeedsRewrap => Finish::Value,
    }
}

/// The state after an access: a dereference and a group leave a bare value.
pub open spec fn state_after(a: Access) -> State {
    match a {
        Access::Field(Member::Deref) => State::NeedsRewrap,
        Access::Group(_) => State::NeedsRewrap,
        _ => State::Clean,
    }
}

/// The program of the chain from a given state: each access in order,
/// preceded by a wrap wherever the state is dirty. A dot that nothing
/// follows ends the program at once.
pub open spec fn lower(chain: Seq<Access>, state: State) -> Program
    decreases chain,
{
    if chain.len() == 0 {
        Program { steps: Seq::empty(), finish: finish(state) }
    } else if chain[0] == Access::Field(Member::Dangling) {
        Program { steps: rewrap(state).push(Step::Dangle), finish: Finish::Halt }
    } else {
        let rest = lower(chain.drop_first(), state_after(chain[0]));
        Program {
            steps: rewrap(state).push(step(chain[0])) + rest.steps,
            finish: rest.finish,
        }
    }
}

/// The step of one access. A group becomes a block that holds the program of
/// its chain.
pub open spec fn step(a: Access) -> Step
    decreases a,
{
    match a {
        Access::Field(Member::Named(name)) => Step::Field(name),
        Access::Field(Member::Tuple(position)) => Step::Position(position),
        Access::Field(Member::Deref) => Step::Read,
        Access::Field(Member::Dangling) => Step::Dangle,
        Access::Index(expr) => Step::Index(expr),
        Access::Offset { byte, direction, amount } => Step::Offset { byte, direction, amount },
        Access::Cast { ty, arrow } => Step::Cast(ty),
        Access::Group(inner) => Step::Block(lower(inner, State::Clean)),
    }
}

} // verus!
