//! What a program computes, and what a chain means.
//!
//! The meaning of the host language's parts of a chain (the layout of its
//! types, the values of its expressions, the contents of memory) is a
//! parameter, a [`World`]. Over any world, a program of steps runs on the
//! rolling binding, and a chain navigates from a place one access after the
//! other. Addresses are integers; the arithmetic is that of the wrapper.

use crate::access::{Access, Amount, Member, OffsetType};
use crate::helper::{byte_add, byte_sub, element_add, element_sub, Flavor};
use crate::program::{Finish, Program, Step};
use crate::template::amount_tokens;
use crate::token::Tree;
use vstd::prelude::*;

verus! {

/// An address with the type of what stands there and the flavor of the
/// pointer that holds it. Types are known by a number.
pub struct Place {
    pub flavor: Flavor,
    pub addr: int,
    pub ty: int,
}

/// A value of the host language, as far as navigation can tell values apart.
pub enum Value {
    /// A pointer of one of the three flavors.
    Pointer(Place),
    /// Any other value, known by a number.
    Data(int),
}

/// What the rolling binding holds.
pub enum Held {
    /// A wrapper over a place.
    Wrapper(Place),
    /// A bare value.
    Bare(Value),
    /// Nothing: the host language rejects the program, or the program ended
    /// in a report.
    Stuck,
}

/// The meaning of the host language's parts of a chain.
pub struct World {
    /// The size of a type, in bytes.
    pub size: spec_fn(int) -> nat,
    /// The offset of a named field in a type, and the field's type.
    pub field: spec_fn(int, Seq<char>) -> (nat, int),
    /// The offset of a position in a tuple type, and the position's type.
    pub position: spec_fn(int, u32) -> (nat, int),
    /// The element type of a type that is a sequence; none for other types.
    pub element: spec_fn(int) -> Option<int>,
    /// The type that the tokens of a type name.
    pub named: spec_fn(Seq<Tree>) -> int,
    /// The value of the tokens of an expression.
    pub value: spec_fn(Seq<Tree>) -> int,
    /// The value that a read of a type at an address gives.
    pub stored: spec_fn(int, int) -> Value,
}

/// The place of a named field of the pointee.
pub open spec fn field_place(w: World, p: Place, name: Seq<char>) -> Place {
    Place { flavor: p.flavor, addr: p.addr + (w.field)(p.ty, name).0, ty: (w.field)(p.ty, name).1 }
}

/// The place of a position of the pointee, a tuple.
pub open spec fn position_place(w: World, p: Place, position: u32) -> Place {
    Place {
        flavor: p.flavor,
        addr: p.addr + (w.position)(p.ty, position).0,
        ty: (w.position)(p.ty, position).1,
    }
}

/// The place of an element of the pointee, where it is a sequence: the same
/// address taken as a pointer to the element type, advanced by the index.
pub open spec fn element_place(w: World, p: Place, index: Seq<Tree>) -> Option<Place> {
    match (w.element)(p.ty) {
        Some(element) => Some(
            Place {
                flavor: p.flavor,
                addr: element_add(p.addr, (w.value)(index), (w.size)(element)),
                ty: element,
            },
        ),
        None => None,
    }
}

/// The place reached by an offset, counted in elements of the pointee type
/// or in bytes.
pub open spec fn offset_place(
    w: World,
    p: Place,
    byte: bool,
    direction: OffsetType,
    amount: Amount,
) -> Place {
    let count = (w.value)(amount_tokens(amount));
    let addr = match (direction, byte) {
        (OffsetType::Add, false) => element_add(p.addr, count, (w.size)(p.ty)),
        (OffsetType::Sub, false) => element_sub(p.addr, count, (w.size)(p.ty)),
        (OffsetType::Add, true) => byte_add(p.addr, count),
        (OffsetType::Sub, true) => byte_sub(p.addr, count),
    };
    Place { flavor: p.flavor, addr, ty: p.ty }
}

/// The same place with the pointee taken as another type.
pub open spec fn cast_place(w: World, p: Place, ty: Seq<Tree>) -> Place {
    Place { flavor: p.flavor, addr: p.addr, ty: (w.named)(ty) }
}

/// The value read at a place.
pub open spec fn loaded(w: World, p: Place) -> Value {
    (w.stored)(p.addr, p.ty)
}

/// What one step makes of the binding. Only a wrap takes a bare value, and
/// only a pointer can be wrapped; every other step takes a wrapper.
pub open spec fn apply(w: World, s: Step, h: Held) -> Held
    decreases s,
{
    match (s, h) {
        (Step::Wrap, Held::Bare(Value::Pointer(p))) => Held::Wrapper(p),
        (Step::Field(name), Held::Wrapper(p)) => Held::Wrapper(field_place(w, p, name)),
        (Step::Position(position), Held::Wrapper(p)) => Held::Wrapper(
            position_place(w, p, position),
        ),
        (Step::Read, Held::Wrapper(p)) => Held::Bare(loaded(w, p)),
        (Step::Index(index), Held::Wrapper(p)) => match element_place(w, p, index) {
            Some(q) => Held::Wrapper(q),
            None => Held::Stuck,
        },
        (Step::Offset { byte, direction, amount }, Held::Wrapper(p)) => Held::Wrapper(
            offset_place(w, p, byte, direction, amount),
        ),
        (Step::Cast(ty), Held::Wrapper(p)) => Held::Wrapper(cast_place(w, p, ty)),
        (Step::Block(program), Held::Wrapper(p)) => match handed(
            program.finish,
            run_steps(w, program.steps, h),
        ) {
            Some(v) => Held::Bare(v),
            None => Held::Stuck,
        },
        _ => Held::Stuck,
    }
}

/// What a list of steps makes of the binding, one step after the other.
pub open spec fn run_steps(w: World, steps: Seq<Step>, h: Held) -> Held
    decreases steps,
{
    if steps.len() == 0 {
        h
    } else {
        run_steps(w, steps.drop_first(), apply(w, steps[0], h))
    }
}

/// The result that is handed out of the binding, if the binding holds what
/// the way of handing out needs.
pub open spec fn handed(f: Finish, h: Held) -> Option<Value> {
    match (f, h) {
        (Finish::Unwrap, Held::Wrapper(p)) => Some(Value::Pointer(p)),
        (Finish::Value, Held::Bare(v)) => Some(v),
        _ => None,
    }
}

/// The result of a program that starts with `h` in the binding.
pub open spec fn run(w: World, program: Program, h: Held) -> Option<Value> {
    handed(program.finish, run_steps(w, program.steps, h))
}

/// The wrapper from which navigation goes on: a wrapper as it is, and a bare
/// pointer taken as the place it points to.
pub open spec fn settle(h: Held) -> Held {
    match h {
        Held::Wrapper(p) => Held::Wrapper(p),
        Held::Bare(Value::Pointer(p)) => Held::Wrapper(p),
        _ => Held::Stuck,
    }
}

/// The value that stands for what is held: a wrapper stands for the pointer
/// it converts back into.
pub open spec fn result(h: Held) -> Option<Value> {
    match h {
        Held::Wrapper(p) => Some(Value::Pointer(p)),
        Held::Bare(v) => Some(v),
        Held::Stuck => None,
    }
}

/// What one access reaches from what is held: the elementary operation of
/// the access, applied to the place held. A group reaches what its chain
/// reaches.
pub open spec fn reach(w: World, a: Access, h: Held) -> Held
    decreases a,
{
    match (a, settle(h)) {
        (Access::Field(Member::Named(name)), Held::Wrapper(p)) => Held::Wrapper(
            field_place(w, p, name),
        ),
        (Access::Field(Member::Tuple(position)), Held::Wrapper(p)) => Held::Wrapper(
            position_place(w, p, position),
        ),
        (Access::Field(Member::Deref), Held::Wrapper(p)) => Held::Bare(loaded(w, p)),
        (Access::Index(index), Held::Wrapper(p)) => match element_place(w, p, index) {
            Some(q) => Held::Wrapper(q),
            None => Held::Stuck,
        },
        (Access::Offset { byte, direction, amount }, Held::Wrapper(p)) => Held::Wrapper(
            offset_place(w, p, byte, direction, amount),
        ),
        (Access::Cast { ty, arrow }, Held::Wrapper(p)) => Held::Wrapper(cast_place(w, p, ty)),
        (Access::Group(inner), Held::Wrapper(p)) => navigate(w, inner, Held::Wrapper(p)),
        _ => Held::Stuck,
    }
}

/// What a chain reaches from what is held: its accesses composed by hand, in
/// order.
pub open spec fn navigate(w: World, chain: Seq<Access>, h: Held) -> Held
    decreases chain,
{
    if chain.len() == 0 {
        h
    } else {
        navigate(w, chain.drop_first(), reach(w, chain[0], h))
    }
}

/// What the expansion of a chain computes from a pointer to a place: the
/// result of the chain's program, run on a fresh wrapper.
pub open spec fn evaluate(w: World, chain: Seq<Access>, p: Place) -> Option<Value> {
    run(w, crate::program::lower(chain, crate::program::State::Clean), Held::Wrapper(p))
}

} // verus!
