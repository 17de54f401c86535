//! The parser: from tokens to an access chain.

use crate::access::{
    access, accesses, amount, member, well_formed, Access, AccessList, CastAccess, ElementAccess,
    FieldAccess, FieldAccessType, GroupAccess, IndexAccess, OffsetAccess, OffsetType, OffsetValue,
};
use crate::grammar::{
    accepted, amount_found, arrow_at, cast, cast_found, element, expression_found, fails, field,
    field_type, first_arrow, index, input, integer_at, is_punct, is_word, lemma_list_accepted,
    lemma_list_well_formed, list, longest_type, member_found, offset, offset_type, offset_value,
    signed, text_of, yields, ParseError,
};
use crate::syntax::{is_expression, is_identifier, is_integer, is_type, tuple_index};
use crate::token::{copy_range, render, trees, Delim, Token, Tree};
use vstd::prelude::*;

verus! {

/// Whether the punctuation character `c` stands at `at`.
fn punct_at(tokens: &Vec<Token>, at: usize, c: char) -> (r: bool)
    ensures
        r == (at < tokens.len() && is_punct(trees(tokens@)[at as int], c)),
{
    if at >= tokens.len() {
        return false;
    }
    match &tokens[at] {
        Token::Punct(ch, _) => *ch == c,
        _ => false,
    }
}

/// Whether the word `w` stands at `at`.
fn word_at(tokens: &Vec<Token>, at: usize, w: &str) -> (r: bool)
    ensures
        r == (at < tokens.len() && is_word(trees(tokens@)[at as int], w@)),
{
    if at >= tokens.len() {
        return false;
    }
    match &tokens[at] {
        Token::Ident(s) => {
            let word = String::from_str(w);
            *s == word
        },
        _ => false,
    }
}

/// Whether a group with the delimiter `d` stands at `at`.
fn group_at(tokens: &Vec<Token>, at: usize, d: Delim) -> (r: bool)
    ensures
        r == (at < tokens.len() && trees(tokens@)[at as int] is Group && trees(
            tokens@,
        )[at as int]->Group_0 == d),
{
    if at >= tokens.len() {
        return false;
    }
    match &tokens[at] {
        Token::Group(delim, _) => *delim == d,
        _ => false,
    }
}

/// Whether the arrow stands at `at`.
fn is_arrow(tokens: &Vec<Token>, at: usize) -> (r: bool)
    ensures
        r == arrow_at(trees(tokens@), at as int),
{
    if at >= tokens.len() || tokens.len() - at < 2 {
        return false;
    }
    let joined = match &tokens[at] {
        Token::Punct(ch, joint) => *ch == '=' && *joint,
        _ => false,
    };
    joined && punct_at(tokens, at + 1, '>')
}

/// The position of the first arrow at or after `from`.
fn find_arrow(tokens: &Vec<Token>, from: usize) -> (r: Option<usize>)
    ensures
        match r {
            Some(at) => first_arrow(trees(tokens@), from as int) == Some(at as int) && from <= at
                && at + 2 <= tokens.len(),
            None => first_arrow(trees(tokens@), from as int) is None,
        },
{
    let mut at: usize = from;
    while at < tokens.len()
        invariant
            from <= at,
            first_arrow(trees(tokens@), from as int) == first_arrow(trees(tokens@), at as int),
        decreases tokens.len() - at,
    {
        if is_arrow(tokens, at) {
            return Some(at);
        }
        at = at + 1;
    }
    None
}

/// The integer literal at `at`, if one stands there.
fn read_integer(tokens: &Vec<Token>, at: usize) -> (r: Option<(bool, String)>)
    ensures
        match r {
            Some((negative, literal)) => integer_at(trees(tokens@), at as int) == Some(
                (negative, literal@),
            ) && at + (if negative {
                2int
            } else {
                1int
            }) <= tokens.len(),
            None => integer_at(trees(tokens@), at as int) is None,
        },
{
    if at >= tokens.len() {
        return None;
    }
    match &tokens[at] {
        Token::Literal(text) => {
            if is_integer(text.as_str()) {
                Some((false, text.clone()))
            } else {
                None
            }
        },
        Token::Punct(ch, _) => {
            if *ch != '-' || tokens.len() - at < 2 {
                return None;
            }
            match &tokens[at + 1] {
                Token::Literal(text) => {
                    let mut whole = String::from_str("-");
                    whole.append(text.as_str());
                    if is_integer(whole.as_str()) {
                        Some((true, text.clone()))
                    } else {
                        None
                    }
                },
                _ => None,
            }
        },
        _ => None,
    }
}

/// The text of an integer literal with its sign.
pub(crate) fn signed_text(negative: bool, literal: &String) -> (text: String)
    ensures
        text@ == signed(negative, literal@),
{
    if negative {
        let mut whole = String::from_str("-");
        whole.append(literal.as_str());
        whole
    } else {
        literal.clone()
    }
}

impl FieldAccessType {
    /// What follows a dot, from what was found there: whether a `*` stands
    /// there; the identifier that stands there, if one does; and, if an
    /// integer literal stands there, whether it has a sign and the tuple
    /// position that it is, if it is one. With the result comes the number
    /// of tokens it takes.
    pub fn found(star: bool, name: Option<String>, integer: Option<(bool, Option<u32>)>) -> (r:
        Result<(FieldAccessType, usize), ParseError>)
        ensures
            match r {
                Ok((f, width)) => yields(
                    member_found(star, text_of(name), integer),
                    (member(FieldAccess { field: Some(f) }), width as int),
                ),
                Err(e) => fails(member_found(star, text_of(name), integer), e),
            },
    {
        if star {
            return Ok((FieldAccessType::Deref, 1));
        }
        if let Some(name) = name {
            return Ok((FieldAccessType::Named(name), 1));
        }
        match integer {
            Some((negative, Some(position))) => {
                let width: usize = if negative {
                    2
                } else {
                    1
                };
                Ok((FieldAccessType::Tuple(position), width))
            },
            Some((_, None)) => Err(ParseError::ExpectedTupleIndex),
            None => Err(ParseError::ExpectedMember),
        }
    }

    /// Reads what follows a dot, at `at`.
    pub fn parse(tokens: &Vec<Token>, at: usize) -> (r: Result<(FieldAccessType, usize), ParseError>)
        requires
            at < tokens.len(),
        ensures
            match r {
                Ok((f, next)) => yields(
                    field_type(trees(tokens@), at as int),
                    (member(FieldAccess { field: Some(f) }), next as int),
                ) && at < next <= tokens.len(),
                Err(e) => fails(field_type(trees(tokens@), at as int), e),
            },
    {
        let star = punct_at(tokens, at, '*');
        let name = match &tokens[at] {
            Token::Ident(name) => {
                if is_identifier(name.as_str()) {
                    Some(name.clone())
                } else {
                    None
                }
            },
            _ => None,
        };
        let integer = match read_integer(tokens, at) {
            Some((negative, literal)) => {
                let text = signed_text(negative, &literal);
                Some((negative, tuple_index(text.as_str())))
            },
            None => None,
        };
        match FieldAccessType::found(star, name, integer) {
            Ok((f, width)) => Ok((f, at + width)),
            Err(e) => Err(e),
        }
    }
}

impl FieldAccess {
    /// Reads a field access at the dot at `at`.
    pub fn parse(tokens: &Vec<Token>, at: usize) -> (r: Result<(FieldAccess, usize), ParseError>)
        requires
            at < tokens.len(),
        ensures
            match r {
                Ok((f, next)) => yields(field(trees(tokens@), at as int), (member(f), next as int))
                    && at < next <= tokens.len(),
                Err(e) => fails(field(trees(tokens@), at as int), e),
            },
    {
        if at + 1 >= tokens.len() {
            Ok((FieldAccess { field: None }, at + 1))
        } else {
            match FieldAccessType::parse(tokens, at + 1) {
                Ok((f, next)) => Ok((FieldAccess { field: Some(f) }, next)),
                Err(e) => Err(e),
            }
        }
    }
}

/// The tokens where an expression must stand, if they are one.
pub fn expression(expr: Vec<Token>, is_one: bool) -> (r: Result<Vec<Token>, ParseError>)
    ensures
        match r {
            Ok(tokens) => yields(expression_found(trees(expr@), is_one), trees(tokens@)),
            Err(e) => fails(expression_found(trees(expr@), is_one), e),
        },
{
    if is_one {
        Ok(expr)
    } else {
        Err(ParseError::ExpectedExpression)
    }
}

impl IndexAccess {
    /// Reads an index access at the bracketed group at `at`.
    pub fn parse(tokens: &Vec<Token>, at: usize) -> (r: Result<(IndexAccess, usize), ParseError>)
        requires
            at < tokens.len(),
            trees(tokens@)[at as int] is Group,
        ensures
            match r {
                Ok((i, next)) => yields(
                    index(trees(tokens@), at as int),
                    (trees(i.index@), next as int),
                ) && next == at + 1,
                Err(e) => fails(index(trees(tokens@), at as int), e),
            },
    {
        match &tokens[at] {
            Token::Group(_, inner) => {
                let text = render(inner);
                let copied = copy_range(inner, 0, inner.len());
                assert(trees(inner@).subrange(0, inner@.len() as int) =~= trees(inner@));
                match expression(copied, is_expression(text.as_str())) {
                    Ok(index) => Ok((IndexAccess { index }, at + 1)),
                    Err(e) => Err(e),
                }
            },
            _ => Err(ParseError::ExpectedExpression),
        }
    }
}

impl OffsetType {
    /// Reads the sign of an offset at `at`.
    pub fn parse(tokens: &Vec<Token>, at: usize) -> (r: Result<(OffsetType, usize), ParseError>)
        ensures
            match r {
                Ok((t, next)) => yields(offset_type(trees(tokens@), at as int), (t, next as int))
                    && next == at + 1 && at < tokens.len(),
                Err(e) => fails(offset_type(trees(tokens@), at as int), e),
            },
    {
        if punct_at(tokens, at, '+') {
            Ok((OffsetType::Add, at + 1))
        } else if punct_at(tokens, at, '-') {
            Ok((OffsetType::Sub, at + 1))
        } else {
            Err(ParseError::ExpectedSign)
        }
    }
}

/// The model of a parenthesised group that was found, with whether its
/// tokens are one expression.
pub open spec fn grouped_model(grouped: Option<(Vec<Token>, bool)>) -> Option<(Seq<Tree>, bool)> {
    match grouped {
        Some((expr, is_one)) => Some((trees(expr@), is_one)),
        None => None,
    }
}

/// The model of an integer literal that was found, with whether it has a
/// sign.
pub open spec fn integer_model(integer: Option<(bool, String)>) -> Option<(bool, Seq<char>)> {
    match integer {
        Some((negative, literal)) => Some((negative, literal@)),
        None => None,
    }
}

impl OffsetValue {
    /// The amount of an offset, from what was found after the sign: the
    /// tokens of a parenthesised group and whether they are one expression,
    /// if a group stands there; and the integer literal that stands there,
    /// if one does. With the amount comes the number of tokens it takes.
    pub fn found(grouped: Option<(Vec<Token>, bool)>, integer: Option<(bool, String)>) -> (r:
        Result<(OffsetValue, usize), ParseError>)
        ensures
            match r {
                Ok((v, width)) => yields(
                    amount_found(grouped_model(grouped), integer_model(integer)),
                    (amount(v), width as int),
                ),
                Err(e) => fails(amount_found(grouped_model(grouped), integer_model(integer)), e),
            },
    {
        match grouped {
            Some((expr, true)) => Ok((OffsetValue::Grouped { expr }, 1)),
            Some((_, false)) => Err(ParseError::ExpectedExpression),
            None => match integer {
                Some((negative, literal)) => {
                    let width: usize = if negative {
                        2
                    } else {
                        1
                    };
                    Ok((OffsetValue::Integer { negative, literal }, width))
                },
                None => Err(ParseError::ExpectedAmount),
            },
        }
    }

    /// Reads the amount of an offset at `at`.
    pub fn parse(tokens: &Vec<Token>, at: usize) -> (r: Result<(OffsetValue, usize), ParseError>)
        ensures
            match r {
                Ok((v, next)) => yields(
                    offset_value(trees(tokens@), at as int),
                    (amount(v), next as int),
                ) && at < next <= tokens.len(),
                Err(e) => fails(offset_value(trees(tokens@), at as int), e),
            },
    {
        let grouped = if group_at(tokens, at, Delim::Paren) {
            match &tokens[at] {
                Token::Group(_, inner) => {
                    let text = render(inner);
                    let copied = copy_range(inner, 0, inner.len());
                    assert(trees(inner@).subrange(0, inner@.len() as int) =~= trees(inner@));
                    Some((copied, is_expression(text.as_str())))
                },
                _ => None,
            }
        } else {
            None
        };
        let integer = read_integer(tokens, at);
        match OffsetValue::found(grouped, integer) {
            Ok((v, width)) => Ok((v, at + width)),
            Err(e) => Err(e),
        }
    }
}

impl OffsetAccess {
    /// Reads an offset access at `at`.
    pub fn parse(tokens: &Vec<Token>, at: usize) -> (r: Result<(OffsetAccess, usize), ParseError>)
        requires
            at < tokens.len(),
        ensures
            match r {
                Ok((o, next)) => yields(
                    offset(trees(tokens@), at as int),
                    (access(ElementAccess::Offset(o)), next as int),
                ) && at < next <= tokens.len(),
                Err(e) => fails(offset(trees(tokens@), at as int), e),
            },
    {
        let byte = word_at(tokens, at, "u8");
        let sign_at: usize = if byte {
            at + 1
        } else {
            at
        };
        match OffsetType::parse(tokens, sign_at) {
            Err(e) => Err(e),
            Ok((offset_type, value_at)) => match OffsetValue::parse(tokens, value_at) {
                Err(e) => Err(e),
                Ok((value, next)) => Ok((OffsetAccess { byte, offset_type, value }, next)),
            },
        }
    }
}

/// The end of the longest run of tokens after `from` that is one type.
fn find_type(tokens: &Vec<Token>, from: usize) -> (r: Option<usize>)
    requires
        from <= tokens.len(),
    ensures
        match r {
            Some(end) => longest_type(trees(tokens@), from as int, tokens.len() as int) == Some(
                end as int,
            ) && from < end <= tokens.len(),
            None => longest_type(trees(tokens@), from as int, tokens.len() as int) is None,
        },
{
    let mut end: usize = tokens.len();
    while end > from
        invariant
            from <= end <= tokens.len(),
            longest_type(trees(tokens@), from as int, tokens.len() as int) == longest_type(
                trees(tokens@),
                from as int,
                end as int,
            ),
        decreases end - from,
    {
        let run = copy_range(tokens, from, end);
        let text = render(&run);
        if is_type(text.as_str()) {
            return Some(end);
        }
        end = end - 1;
    }
    None
}

/// The model of the tokens of a type that was found.
pub open spec fn type_model(ty: Option<Vec<Token>>) -> Option<Seq<Tree>> {
    match ty {
        Some(tokens) => Some(trees(tokens@)),
        None => None,
    }
}

impl CastAccess {
    /// A cast, from what was found after `as`: the tokens of the type, if a
    /// type stands there, and whether an arrow follows it.
    pub fn found(ty: Option<Vec<Token>>, arrow: bool) -> (r: Result<CastAccess, ParseError>)
        ensures
            match r {
                Ok(c) => yields(cast_found(type_model(ty), arrow), access(ElementAccess::Cast(c))),
                Err(e) => fails(cast_found(type_model(ty), arrow), e),
            },
    {
        match ty {
            Some(ty) => Ok(CastAccess { ty, arrow }),
            None => Err(ParseError::ExpectedType),
        }
    }

    /// Reads a cast access at the word `as` at `at`.
    pub fn parse(tokens: &Vec<Token>, at: usize) -> (r: Result<(CastAccess, usize), ParseError>)
        requires
            at < tokens.len(),
        ensures
            match r {
                Ok((c, next)) => yields(
                    cast(trees(tokens@), at as int),
                    (access(ElementAccess::Cast(c)), next as int),
                ) && at < next <= tokens.len(),
                Err(e) => fails(cast(trees(tokens@), at as int), e),
            },
    {
        match find_type(tokens, at + 1) {
            None => match CastAccess::found(None, false) {
                Ok(c) => Ok((c, at + 1)),
                Err(e) => Err(e),
            },
            Some(end) => {
                let ty = copy_range(tokens, at + 1, end);
                let arrow = is_arrow(tokens, end);
                let next: usize = if arrow {
                    end + 2
                } else {
                    end
                };
                match CastAccess::found(Some(ty), arrow) {
                    Ok(c) => Ok((c, next)),
                    Err(e) => Err(e),
                }
            },
        }
    }
}

impl GroupAccess {
    /// Reads a parenthesised chain at the group at `at`.
    pub fn parse(tokens: &Vec<Token>, at: usize) -> (r: Result<(GroupAccess, usize), ParseError>)
        requires
            at < tokens.len(),
            trees(tokens@)[at as int] is Group,
        ensures
            match r {
                Ok((g, next)) => yields(list(trees(tokens@)[at as int]->Group_1, 0), g.inner@)
                    && next == at + 1,
                Err(e) => fails(list(trees(tokens@)[at as int]->Group_1, 0), e),
            },
        decreases tokens, 0int, 0int,
    {
        match &tokens[at] {
            Token::Group(_, inner) => match AccessList::parse(inner, 0) {
                Ok(inner) => Ok((GroupAccess { inner }, at + 1)),
                Err(e) => Err(e),
            },
            _ => Err(ParseError::ExpectedAccess),
        }
    }
}

impl ElementAccess {
    /// Reads one access at `at`. The first token decides which access it is.
    pub fn parse(tokens: &Vec<Token>, at: usize) -> (r: Result<(ElementAccess, usize), ParseError>)
        ensures
            match r {
                Ok((a, next)) => yields(
                    element(trees(tokens@), at as int),
                    (access(a), next as int),
                ) && at < next <= tokens.len(),
                Err(e) => fails(element(trees(tokens@), at as int), e),
            },
        decreases tokens, 1int, 0int,
    {
        if at >= tokens.len() {
            Err(ParseError::ExpectedAccess)
        } else if punct_at(tokens, at, '.') {
            match FieldAccess::parse(tokens, at) {
                Ok((f, next)) => Ok((ElementAccess::Field(f), next)),
                Err(e) => Err(e),
            }
        } else if group_at(tokens, at, Delim::Bracket) {
            match IndexAccess::parse(tokens, at) {
                Ok((i, next)) => Ok((ElementAccess::Index(i), next)),
                Err(e) => Err(e),
            }
        } else if word_at(tokens, at, "u8") || punct_at(tokens, at, '+') || punct_at(
            tokens,
            at,
            '-',
        ) {
            match OffsetAccess::parse(tokens, at) {
                Ok((o, next)) => Ok((ElementAccess::Offset(o), next)),
                Err(e) => Err(e),
            }
        } else if word_at(tokens, at, "as") {
            match CastAccess::parse(tokens, at) {
                Ok((c, next)) => Ok((ElementAccess::Cast(c), next)),
                Err(e) => Err(e),
            }
        } else if group_at(tokens, at, Delim::Paren) {
            match GroupAccess::parse(tokens, at) {
                Ok((g, next)) => Ok((ElementAccess::Group(g), next)),
                Err(e) => Err(e),
            }
        } else {
            Err(ParseError::ExpectedAccess)
        }
    }
}

impl AccessList {
    /// Reads the chain that the tokens from `from` to the end are.
    pub fn parse(tokens: &Vec<Token>, from: usize) -> (r: Result<AccessList, ParseError>)
        ensures
            match r {
                Ok(chain) => yields(list(trees(tokens@), from as int), chain@) && well_formed(
                    chain@,
                ) && accepted(chain@),
                Err(e) => fails(list(trees(tokens@), from as int), e),
            },
        decreases tokens, 2int, 0int,
    {
        proof {
            lemma_list_well_formed(trees(tokens@), from as int);
            lemma_list_accepted(trees(tokens@), from as int);
        }
        let mut out: Vec<ElementAccess> = Vec::new();
        let mut at: usize = from;
        while at < tokens.len()
            invariant
                from <= at,
                match list(trees(tokens@), at as int) {
                    Ok(rest) => yields(list(trees(tokens@), from as int), accesses(out@) + rest),
                    Err(e) => fails(list(trees(tokens@), from as int), e),
                },
            decreases tokens.len() - at,
        {
            match ElementAccess::parse(tokens, at) {
                Err(e) => {
                    return Err(e);
                },
                Ok((step, next)) => {
                    if step.is_final() && next < tokens.len() {
                        return Err(ParseError::UnexpectedTokens);
                    }
                    let ghost before = out@;
                    let ghost first = access(step);
                    out.push(step);
                    proof {
                        assert(accesses(out@) =~= accesses(before).push(first));
                        if next < tokens.len() {
                            match list(trees(tokens@), next as int) {
                                Ok(rest) => {
                                    assert(accesses(before) + (seq![first] + rest) =~= accesses(
                                        out@,
                                    ) + rest);
                                },
                                Err(e) => {},
                            }
                        } else {
                            assert(accesses(before) + seq![first] =~= accesses(out@) + Seq::<
                                Access,
                            >::empty());
                        }
                    }
                    at = next;
                },
            }
        }
        assert(accesses(out@) + Seq::<Access>::empty() =~= accesses(out@));
        Ok(AccessList(out))
    }
}

/// The whole input: the pointer expression and the chain applied to it.
#[derive(Debug)]
pub struct MacroInput {
    pub ptr: Vec<Token>,
    pub body: AccessList,
}

impl MacroInput {
    /// Reads a pointer expression, an arrow and a chain.
    pub fn parse(tokens: &Vec<Token>) -> (r: Result<MacroInput, ParseError>)
        ensures
            match r {
                Ok(parsed) => yields(input(trees(tokens@)), (trees(parsed.ptr@), parsed.body@))
                    && well_formed(parsed.body@) && accepted(parsed.body@),
                Err(e) => fails(input(trees(tokens@)), e),
            },
    {
        match find_arrow(tokens, 0) {
            None => Err(ParseError::ExpectedArrow),
            Some(arrow) => {
                let before = copy_range(tokens, 0, arrow);
                let text = render(&before);
                match expression(before, is_expression(text.as_str())) {
                    Err(e) => Err(e),
                    Ok(ptr) => match AccessList::parse(tokens, arrow + 2) {
                        Err(e) => Err(e),
                        Ok(body) => Ok(MacroInput { ptr, body }),
                    },
                }
            },
        }
    }
}

} // verus!
