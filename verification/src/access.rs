//! The access chain: what a chain of navigation steps is, once parsed.
//!
//! The executable types hold `String` and `Vec`; contracts speak of their
//! models, [`Access`] and sequences of it.

use crate::token::{trees, Token, Tree};
use vstd::prelude::*;

verus! {

/// What stands after the dot of a field access.
#[derive(Debug)]
pub enum FieldAccessType {
    /// A named field.
    Named(String),
    /// A position in a tuple.
    Tuple(u32),
    /// The dereference marker `*`.
    Deref,
}

/// A dot and what follows it. A dot that nothing follows has no field.
#[derive(Debug)]
pub struct FieldAccess {
    pub field: Option<FieldAccessType>,
}

/// A bracketed index expression.
#[derive(Debug)]
pub struct IndexAccess {
    pub index: Vec<Token>,
}

/// The direction of an offset.
#[derive(Clone, Copy, Debug, PartialEq, Eq, Structural)]
pub enum OffsetType {
    Add,
    Sub,
}

/// The amount of an offset.
#[derive(Debug)]
pub enum OffsetValue {
    /// An integer literal, by its text, and whether a minus sign precedes it.
    Integer { negative: bool, literal: String },
    /// A parenthesised expression, by the tokens inside the parentheses.
    Grouped { expr: Vec<Token> },
}

/// Pointer arithmetic, in elements of the pointee type or in bytes.
#[derive(Debug)]
pub struct OffsetAccess {
    pub byte: bool,
    pub offset_type: OffsetType,
    pub value: OffsetValue,
}

/// A reinterpretation of the pointee type, and whether an arrow follows it.
#[derive(Debug)]
pub struct CastAccess {
    pub ty: Vec<Token>,
    pub arrow: bool,
}

/// A parenthesised chain.
#[derive(Debug)]
pub struct GroupAccess {
    pub inner: AccessList,
}

/// One step of a chain.
#[derive(Debug)]
pub enum ElementAccess {
    Field(FieldAccess),
    Index(IndexAccess),
    Offset(OffsetAccess),
    Cast(CastAccess),
    Group(GroupAccess),
}

/// A chain: its steps in the order in which they apply.
#[derive(Debug)]
pub struct AccessList(pub Vec<ElementAccess>);

/// The model of what stands after a dot.
pub enum Member {
    Named(Seq<char>),
    Tuple(u32),
    Deref,
    /// Nothing follows the dot.
    Dangling,
}

/// The model of an [`OffsetValue`].
pub enum Amount {
    Integer(bool, Seq<char>),
    Grouped(Seq<Tree>),
}

/// The model of an [`ElementAccess`].
pub enum Access {
    Field(Member),
    Index(Seq<Tree>),
    Offset { byte: bool, direction: OffsetType, amount: Amount },
    Cast { ty: Seq<Tree>, arrow: bool },
    Group(Seq<Access>),
}

/// The model of a field access.
pub open spec fn member(f: FieldAccess) -> Member {
    match f.field {
        Some(FieldAccessType::Named(name)) => Member::Named(name@),
        Some(FieldAccessType::Tuple(position)) => Member::Tuple(position),
        Some(FieldAccessType::Deref) => Member::Deref,
        None => Member::Dangling,
    }
}

/// The model of an offset's amount.
pub open spec fn amount(v: OffsetValue) -> Amount {
    match v {
        OffsetValue::Integer { negative, literal } => Amount::Integer(negative, literal@),
        OffsetValue::Grouped { expr } => Amount::Grouped(trees(expr@)),
    }
}

/// The model of one step.
pub open spec fn access(a: ElementAccess) -> Access
    decreases a,
{
    match a {
        ElementAccess::Field(f) => Access::Field(member(f)),
        ElementAccess::Index(i) => Access::Index(trees(i.index@)),
        ElementAccess::Offset(o) => Access::Offset {
            byte: o.byte,
            direction: o.offset_type,
            amount: amount(o.value),
        },
        ElementAccess::Cast(c) => Access::Cast { ty: trees(c.ty@), arrow: c.arrow },
        ElementAccess::Group(g) => Access::Group(accesses(g.inner.0@)),
    }
}

/// The models of a sequence of steps, in order.
pub open spec fn accesses(s: Seq<ElementAccess>) -> Seq<Access>
    decreases s,
{
    Seq::new(
        s.len(),
        |i: int|
            if 0 <= i < s.len() {
                access(s[i])
            } else {
                Access::Field(Member::Dangling)
            },
    )
}

/// Whether a step ends its chain: only a cast that no arrow follows does.
pub open spec fn is_final(a: Access) -> bool {
    a matches Access::Cast { ty, arrow } && !arrow
}

/// Whether a step must be the last of its chain: one that ends its chain, and
/// a dot that nothing follows.
pub open spec fn is_last(a: Access) -> bool {
    is_final(a) || a == Access::Field(Member::Dangling)
}

/// Whether every step that must be the last of its chain is the last, in the
/// chain itself and in every group inside it.
pub open spec fn well_formed(chain: Seq<Access>) -> bool
    decreases chain,
{
    forall|i: int|
        0 <= i < chain.len() ==> {
            &&& (is_last(#[trigger] chain[i]) ==> i == chain.len() - 1)
            &&& (chain[i] matches Access::Group(inner) ==> well_formed(inner))
        }
}

impl AccessList {
    /// The model of the chain.
    pub open spec fn view(&self) -> Seq<Access> {
        accesses(self.0@)
    }
}

impl ElementAccess {
    /// Whether this step ends its chain.
    pub fn is_final(&self) -> (r: bool)
        ensures
            r == is_final(access(*self)),
    {
        match self {
            ElementAccess::Cast(acc) => !acc.arrow,
            _ => false,
        }
    }
}

} // verus!
