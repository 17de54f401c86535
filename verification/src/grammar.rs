//! The grammar of the notation, as functions on token sequences.
//!
//! Each function reads one construct at a position of a token sequence and
//! says what it is and where the next construct begins, or why it is none.

use crate::access::{is_final, is_last, well_formed, Access, Amount, Member, OffsetType};
use crate::syntax::{expression_text, identifier_text, integer_text, tuple_index_text, type_text};
use crate::token::{trees_text, Delim, Tree};
use vstd::prelude::*;

verus! {

/// Why a token sequence is no chain.
#[derive(Clone, Copy, Debug, PartialEq, Eq, Structural)]
pub enum ParseError {
    /// No arrow separates the pointer expression from the chain.
    ExpectedArrow,
    /// The tokens where an expression must stand are not one expression.
    ExpectedExpression,
    /// No access begins with the token found.
    ExpectedAccess,
    /// What follows a dot is neither `*`, an identifier nor an integer literal.
    ExpectedMember,
    /// The integer literal after a dot has a suffix, a sign, or a value that
    /// does not fit in 32 bits.
    ExpectedTupleIndex,
    /// No `+` or `-` stands where an offset needs its sign.
    ExpectedSign,
    /// Neither an integer literal nor a parenthesised expression follows the
    /// sign of an offset.
    ExpectedAmount,
    /// No type follows `as`.
    ExpectedType,
    /// Tokens follow a step that ends its chain.
    UnexpectedTokens,
}

/// Whether a reading gave `value`.
pub open spec fn yields<T>(reading: Result<T, ParseError>, value: T) -> bool {
    reading == Ok::<T, ParseError>(value)
}

/// Whether a reading failed with `error`.
pub open spec fn fails<T>(reading: Result<T, ParseError>, error: ParseError) -> bool {
    reading == Err::<T, ParseError>(error)
}

/// Whether a token is the punctuation character `c`.
pub open spec fn is_punct(t: Tree, c: char) -> bool {
    t matches Tree::Punct(ch, _) && ch == c
}

/// Whether a token is the word `w`.
pub open spec fn is_word(t: Tree, w: Seq<char>) -> bool {
    t == Tree::Ident(w)
}

/// Whether the arrow `=>` stands at a position: an `=` joined to a `>`.
pub open spec fn arrow_at(ts: Seq<Tree>, at: int) -> bool {
    &&& 0 <= at
    &&& at + 1 < ts.len()
    &&& ts[at] == Tree::Punct('=', true)
    &&& is_punct(ts[at + 1], '>')
}

/// The position of the first arrow at or after `from`.
pub open spec fn first_arrow(ts: Seq<Tree>, from: int) -> Option<int>
    decreases ts.len() - from,
{
    if from >= ts.len() {
        None
    } else if arrow_at(ts, from) {
        Some(from)
    } else {
        first_arrow(ts, from + 1)
    }
}

/// The text of an integer literal with its sign, if it has one.
pub open spec fn signed(negative: bool, literal: Seq<char>) -> Seq<char> {
    if negative {
        "-"@ + literal
    } else {
        literal
    }
}

/// The integer literal at a position, if one stands there: a literal token
/// that is an integer, or a minus sign and a literal token that together are
/// one. The result holds whether the sign is there, and the literal's text.
pub open spec fn integer_at(ts: Seq<Tree>, at: int) -> Option<(bool, Seq<char>)> {
    if 0 <= at < ts.len() && ts[at] is Literal && integer_text(ts[at]->Literal_0) {
        Some((false, ts[at]->Literal_0))
    } else if 0 <= at && at + 1 < ts.len() && is_punct(ts[at], '-') && ts[at + 1] is Literal
        && integer_text(signed(true, ts[at + 1]->Literal_0)) {
        Some((true, ts[at + 1]->Literal_0))
    } else {
        None
    }
}

/// The number of tokens that an integer literal takes.
pub open spec fn integer_width(negative: bool) -> int {
    if negative {
        2
    } else {
        1
    }
}

/// The text of a string, if there is one.
pub open spec fn text_of(s: Option<String>) -> Option<Seq<char>> {
    match s {
        Some(text) => Some(text@),
        None => None,
    }
}

/// What follows a dot, from what was found there: whether a `*` stands
/// there; the identifier that stands there, if one does; and, if an integer
/// literal stands there, whether it has a sign and the tuple position that it
/// is, if it is one. With the member comes the number of tokens it takes.
pub open spec fn member_found(
    star: bool,
    name: Option<Seq<char>>,
    integer: Option<(bool, Option<u32>)>,
) -> Result<(Member, int), ParseError> {
    if star {
        Ok((Member::Deref, 1))
    } else if name is Some {
        Ok((Member::Named(name->0), 1))
    } else {
        match integer {
            Some((negative, Some(position))) => Ok(
                (Member::Tuple(position), integer_width(negative)),
            ),
            Some((negative, None)) => Err(ParseError::ExpectedTupleIndex),
            None => Err(ParseError::ExpectedMember),
        }
    }
}

/// The identifier at a position, if one stands there.
pub open spec fn name_at(ts: Seq<Tree>, at: int) -> Option<Seq<char>> {
    if 0 <= at < ts.len() && ts[at] is Ident && identifier_text(ts[at]->Ident_0) {
        Some(ts[at]->Ident_0)
    } else {
        None
    }
}

/// Whether the integer literal at a position has a sign, and the tuple
/// position that it is, if it is one; nothing where no integer literal
/// stands.
pub open spec fn position_at(ts: Seq<Tree>, at: int) -> Option<(bool, Option<u32>)> {
    match integer_at(ts, at) {
        Some((negative, literal)) => Some((negative, tuple_index_text(signed(negative, literal)))),
        None => None,
    }
}

/// What follows a dot, read at `at`, where a token stands.
pub open spec fn field_type(ts: Seq<Tree>, at: int) -> Result<(Member, int), ParseError> {
    match member_found(is_punct(ts[at], '*'), name_at(ts, at), position_at(ts, at)) {
        Ok((member, width)) => Ok((member, at + width)),
        Err(e) => Err(e),
    }
}

/// A field access, read at the dot at `at`. A dot at the end of the sequence
/// is an access without a field.
pub open spec fn field(ts: Seq<Tree>, at: int) -> Result<(Member, int), ParseError> {
    if at + 1 >= ts.len() {
        Ok((Member::Dangling, at + 1))
    } else {
        field_type(ts, at + 1)
    }
}

/// The tokens where an expression must stand, if they are one.
pub open spec fn expression_found(expr: Seq<Tree>, is_one: bool) -> Result<Seq<Tree>, ParseError> {
    if is_one {
        Ok(expr)
    } else {
        Err(ParseError::ExpectedExpression)
    }
}

/// An index access, read at the bracketed group at `at`.
pub open spec fn index(ts: Seq<Tree>, at: int) -> Result<(Seq<Tree>, int), ParseError> {
    let inner = ts[at]->Group_1;
    match expression_found(inner, expression_text(trees_text(inner))) {
        Ok(expr) => Ok((expr, at + 1)),
        Err(e) => Err(e),
    }
}

/// The sign of an offset, read at `at`.
pub open spec fn offset_type(ts: Seq<Tree>, at: int) -> Result<(OffsetType, int), ParseError> {
    if 0 <= at < ts.len() && is_punct(ts[at], '+') {
        Ok((OffsetType::Add, at + 1))
    } else if 0 <= at < ts.len() && is_punct(ts[at], '-') {
        Ok((OffsetType::Sub, at + 1))
    } else {
        Err(ParseError::ExpectedSign)
    }
}

/// The amount of an offset, from what was found after the sign: the tokens
/// of a parenthesised group and whether they are one expression, if a group
/// stands there; and the integer literal that stands there, if one does. With
/// the amount comes the number of tokens it takes.
pub open spec fn amount_found(
    grouped: Option<(Seq<Tree>, bool)>,
    integer: Option<(bool, Seq<char>)>,
) -> Result<(Amount, int), ParseError> {
    match grouped {
        Some((expr, true)) => Ok((Amount::Grouped(expr), 1)),
        Some((expr, false)) => Err(ParseError::ExpectedExpression),
        None => match integer {
            Some((negative, literal)) => Ok(
                (Amount::Integer(negative, literal), integer_width(negative)),
            ),
            None => Err(ParseError::ExpectedAmount),
        },
    }
}

/// The tokens of the parenthesised group at a position and whether they are
/// one expression, if such a group stands there.
pub open spec fn grouped_at(ts: Seq<Tree>, at: int) -> Option<(Seq<Tree>, bool)> {
    if 0 <= at < ts.len() && ts[at] is Group && ts[at]->Group_0 == Delim::Paren {
        Some((ts[at]->Group_1, expression_text(trees_text(ts[at]->Group_1))))
    } else {
        None
    }
}

/// The amount of an offset, read at `at`.
pub open spec fn offset_value(ts: Seq<Tree>, at: int) -> Result<(Amount, int), ParseError> {
    match amount_found(grouped_at(ts, at), integer_at(ts, at)) {
        Ok((amount, width)) => Ok((amount, at + width)),
        Err(e) => Err(e),
    }
}

/// An offset access, read at `at`, where the word `u8` or a sign stands.
pub open spec fn offset(ts: Seq<Tree>, at: int) -> Result<(Access, int), ParseError> {
    let byte = is_word(ts[at], "u8"@);
    let sign_at = if byte {
        at + 1
    } else {
        at
    };
    match offset_type(ts, sign_at) {
        Err(e) => Err(e),
        Ok((direction, value_at)) => match offset_value(ts, value_at) {
            Err(e) => Err(e),
            Ok((amount, next)) => Ok((Access::Offset { byte, direction, amount }, next)),
        },
    }
}

/// Whether the tokens from `from` up to `to` are one type.
pub open spec fn type_between(ts: Seq<Tree>, from: int, to: int) -> bool {
    type_text(trees_text(ts.subrange(from, to)))
}

/// The end of the longest run of tokens that starts at `from`, ends at or
/// before `upto`, is not empty and is one type.
pub open spec fn longest_type(ts: Seq<Tree>, from: int, upto: int) -> Option<int>
    decreases upto - from,
{
    if upto <= from {
        None
    } else if type_between(ts, from, upto) {
        Some(upto)
    } else {
        longest_type(ts, from, upto - 1)
    }
}

/// A cast, from what was found after `as`: the tokens of the type, if a type
/// stands there, and whether an arrow follows it.
pub open spec fn cast_found(ty: Option<Seq<Tree>>, arrow: bool) -> Result<Access, ParseError> {
    match ty {
        Some(ty) => Ok(Access::Cast { ty, arrow }),
        None => Err(ParseError::ExpectedType),
    }
}

/// A cast access, read at the word `as` at `at`. Its type is the longest run
/// of tokens after `as` that is one type; an arrow after the type belongs to
/// the cast.
pub open spec fn cast(ts: Seq<Tree>, at: int) -> Result<(Access, int), ParseError> {
    match longest_type(ts, at + 1, ts.len() as int) {
        None => Err(ParseError::ExpectedType),
        Some(end) => match cast_found(Some(ts.subrange(at + 1, end)), arrow_at(ts, end)) {
            Ok(access) => Ok(
                (
                    access,
                    if arrow_at(ts, end) {
                        end + 2
                    } else {
                        end
                    },
                ),
            ),
            Err(e) => Err(e),
        },
    }
}

/// One access, read at `at`, where a token stands. The first token decides
/// which access it is.
pub open spec fn element(ts: Seq<Tree>, at: int) -> Result<(Access, int), ParseError>
    decreases ts, ts.len() - at, 0int,
{
    if !(0 <= at < ts.len()) {
        Err(ParseError::ExpectedAccess)
    } else if is_punct(ts[at], '.') {
        match field(ts, at) {
            Ok((member, next)) => Ok((Access::Field(member), next)),
            Err(e) => Err(e),
        }
    } else if ts[at] is Group && ts[at]->Group_0 == Delim::Bracket {
        match index(ts, at) {
            Ok((inner, next)) => Ok((Access::Index(inner), next)),
            Err(e) => Err(e),
        }
    } else if is_word(ts[at], "u8"@) || is_punct(ts[at], '+') || is_punct(ts[at], '-') {
        offset(ts, at)
    } else if is_word(ts[at], "as"@) {
        cast(ts, at)
    } else if ts[at] is Group && ts[at]->Group_0 == Delim::Paren {
        match list(ts[at]->Group_1, 0) {
            Ok(inner) => Ok((Access::Group(inner), at + 1)),
            Err(e) => Err(e),
        }
    } else {
        Err(ParseError::ExpectedAccess)
    }
}

/// The chain that the tokens from `at` to the end of the sequence are. A step
/// that ends its chain must be the last one.
pub open spec fn list(ts: Seq<Tree>, at: int) -> Result<Seq<Access>, ParseError>
    decreases ts, ts.len() - at, 1int,
{
    if !(0 <= at < ts.len()) {
        Ok(Seq::empty())
    } else {
        match element(ts, at) {
            Err(e) => Err(e),
            Ok((access, next)) => if at < next < ts.len() {
                if is_final(access) {
                    Err(ParseError::UnexpectedTokens)
                } else {
                    match list(ts, next) {
                        Err(e) => Err(e),
                        Ok(rest) => Ok(seq![access] + rest),
                    }
                }
            } else {
                Ok(seq![access])
            },
        }
    }
}

/// The whole input: a pointer expression, an arrow and a chain. The pointer
/// expression is what stands before the first arrow.
pub open spec fn input(ts: Seq<Tree>) -> Result<(Seq<Tree>, Seq<Access>), ParseError> {
    match first_arrow(ts, 0) {
        None => Err(ParseError::ExpectedArrow),
        Some(arrow) => {
            let before = ts.subrange(0, arrow);
            match expression_found(before, expression_text(trees_text(before))) {
                Err(e) => Err(e),
                Ok(ptr) => match list(ts, arrow + 2) {
                    Err(e) => Err(e),
                    Ok(body) => Ok((ptr, body)),
                },
            }
        },
    }
}

/// The end of the longest type lies after its start and within the bound.
pub proof fn lemma_longest_type_bounds(ts: Seq<Tree>, from: int, upto: int)
    ensures
        longest_type(ts, from, upto) matches Some(end) ==> from < end <= upto && type_between(
            ts,
            from,
            end,
        ),
    decreases upto - from,
{
    if upto > from && !type_between(ts, from, upto) {
        lemma_longest_type_bounds(ts, from, upto - 1);
    }
}

/// An access takes at least one token and none beyond the end: the next
/// access begins after the position read and at or before the end.
pub proof fn law_element_advances(ts: Seq<Tree>, at: int)
    ensures
        element(ts, at) matches Ok((_, next)) ==> at < next <= ts.len(),
{
    if 0 <= at < ts.len() && is_word(ts[at], "as"@) {
        lemma_longest_type_bounds(ts, at + 1, ts.len() as int);
    }
}

/// Every chain that the grammar reads is well formed: a cast that no arrow
/// follows and a dot that nothing follows are the last step of their chain,
/// in the chain and in every group inside it.
pub proof fn lemma_list_well_formed(ts: Seq<Tree>, at: int)
    ensures
        list(ts, at) matches Ok(chain) ==> well_formed(chain),
    decreases ts, ts.len() - at,
{
    if 0 <= at < ts.len() {
        match element(ts, at) {
            Err(_) => {},
            Ok((access, next)) => {
                if let Access::Group(inner) = access {
                    assert(ts[at] is Group);
                    lemma_list_well_formed(ts[at]->Group_1, 0);
                }
                if at < next < ts.len() {
                    if !is_final(access) {
                        lemma_list_well_formed(ts, next);
                        match list(ts, next) {
                            Err(_) => {},
                            Ok(rest) => {
                                let chain = seq![access] + rest;
                                assert forall|i: int| 0 <= i < chain.len() implies {
                                    &&& (is_last(#[trigger] chain[i]) ==> i == chain.len() - 1)
                                    &&& (chain[i] matches Access::Group(inner) ==> well_formed(
                                        inner,
                                    ))
                                } by {
                                    if i > 0 {
                                        assert(chain[i] == rest[i - 1]);
                                    }
                                }
                            },
                        }
                    }
                } else {
                    let chain = seq![access];
                    assert(chain[0] == access);
                }
            },
        }
    }
}

/// Every chain that the grammar reads from a whole input is well formed.
pub proof fn law_input_well_formed(ts: Seq<Tree>)
    ensures
        input(ts) matches Ok((_, chain)) ==> well_formed(chain),
{
    match first_arrow(ts, 0) {
        Some(arrow) => {
            lemma_list_well_formed(ts, arrow + 2);
        },
        None => {},
    }
}

/// Whether every piece of the host language inside a chain is one: each
/// field name an identifier, each index and each parenthesised amount an
/// expression, each literal amount an integer literal, each cast's type a
/// type; in the chain itself and in every group inside it.
pub open spec fn accepted(chain: Seq<Access>) -> bool
    decreases chain,
{
    forall|i: int|
        0 <= i < chain.len() ==> match #[trigger] chain[i] {
            Access::Field(Member::Named(name)) => identifier_text(name),
            Access::Field(_) => true,
            Access::Index(expr) => expression_text(trees_text(expr)),
            Access::Offset { byte, direction, amount: Amount::Integer(negative, literal) } => {
                integer_text(signed(negative, literal))
            },
            Access::Offset { byte, direction, amount: Amount::Grouped(expr) } => expression_text(
                trees_text(expr),
            ),
            Access::Cast { ty, arrow } => type_text(trees_text(ty)),
            Access::Group(inner) => accepted(inner),
        }
}

/// Every chain that the grammar reads holds only pieces of the host language
/// that `syn` accepts.
pub proof fn lemma_list_accepted(ts: Seq<Tree>, at: int)
    ensures
        list(ts, at) matches Ok(chain) ==> accepted(chain),
    decreases ts, ts.len() - at,
{
    if 0 <= at < ts.len() {
        match element(ts, at) {
            Err(_) => {},
            Ok((access, next)) => {
                if let Access::Group(inner) = access {
                    assert(ts[at] is Group);
                    lemma_list_accepted(ts[at]->Group_1, 0);
                }
                if is_word(ts[at], "as"@) {
                    lemma_longest_type_bounds(ts, at + 1, ts.len() as int);
                }
                let chain = if at < next < ts.len() && !is_final(access) {
                    lemma_list_accepted(ts, next);
                    match list(ts, next) {
                        Ok(rest) => seq![access] + rest,
                        Err(_) => seq![access],
                    }
                } else {
                    seq![access]
                };
                if list(ts, at) is Ok {
                    assert(list(ts, at) == Ok::<Seq<Access>, ParseError>(chain));
                    assert forall|i: int| 0 <= i < chain.len() implies match #[trigger] chain[i] {
                        Access::Field(Member::Named(name)) => identifier_text(name),
                        Access::Field(_) => true,
                        Access::Index(expr) => expression_text(trees_text(expr)),
                        Access::Offset {
                            byte,
                            direction,
                            amount: Amount::Integer(negative, literal),
                        } => integer_text(signed(negative, literal)),
                        Access::Offset { byte, direction, amount: Amount::Grouped(expr) } => {
                            expression_text(trees_text(expr))
                        },
                        Access::Cast { ty, arrow } => type_text(trees_text(ty)),
                        Access::Group(inner) => accepted(inner),
                    } by {
                        if i > 0 {
                            let rest = list(ts, next)->Ok_0;
                            assert(chain[i] == rest[i - 1]);
                        }
                    }
                }
            },
        }
    }
}

} // verus!
