//! The tokens of each elementary operation.
//!
//! Every step rebinds `ptr`; the templates here say with which tokens. The
//! name under which the support library is visible is a parameter.

use crate::access::{Amount, OffsetType};
use crate::grammar::signed;
use crate::program::{Finish, Program, Step};
use crate::token::{Delim, Tree};
use vstd::prelude::*;

verus! {

/// The message reported at a dot that nothing follows.
pub open spec fn dangling_message() -> Seq<char> {
    "expected an identifier, integer literal, or `*` after this `.`"@
}

/// An identifier token.
pub open spec fn word(text: Seq<char>) -> Tree {
    Tree::Ident(text)
}

/// A punctuation token that stands alone.
pub open spec fn mark(c: char) -> Tree {
    Tree::Punct(c, false)
}

/// The path separator `::`.
pub open spec fn path_sep() -> Seq<Tree> {
    seq![Tree::Punct(':', true), Tree::Punct(':', false)]
}

/// A parenthesised group.
pub open spec fn parens(inner: Seq<Tree>) -> Tree {
    Tree::Group(Delim::Paren, inner)
}

/// A group in braces.
pub open spec fn braces(inner: Seq<Tree>) -> Tree {
    Tree::Group(Delim::Brace, inner)
}

/// The decimal digits of a number.
pub open spec fn decimal(n: nat) -> Seq<char>
    decreases n,
{
    if n < 10 {
        seq![digit(n)]
    } else {
        decimal(n / 10).push(digit(n % 10))
    }
}

/// The character of one decimal digit.
pub open spec fn digit(d: nat) -> char {
    ((48 + d) as u8) as char
}

/// A string literal that holds `message`, which needs no escapes.
pub open spec fn quoted(message: Seq<char>) -> Tree {
    Tree::Literal(seq!['"'] + message + seq!['"'])
}

/// `let ptr = <value>;`
pub open spec fn rebind(value: Seq<Tree>) -> Seq<Tree> {
    seq![word("let"@), word("ptr"@), mark('=')] + value + seq![mark(';')]
}

/// `::<base>::helper::<name>(<args>)`
pub open spec fn helper_call(base: Seq<char>, name: Seq<char>, args: Seq<Tree>) -> Seq<Tree> {
    path_sep() + seq![word(base)] + path_sep() + seq![word("helper"@)] + path_sep() + seq![
        word(name),
        parens(args),
    ]
}

/// `ptr.<name>(<args>)`
pub open spec fn method_call(name: Seq<char>, args: Seq<Tree>) -> Seq<Tree> {
    seq![word("ptr"@), mark('.'), word(name), parens(args)]
}

/// `ptr.copy_addr(::core::ptr::addr_of!((*ptr.into_const()) <selector>))`:
/// the address of a part of the pointee, taken without a reference to it.
pub open spec fn address_of(selector: Seq<Tree>) -> Seq<Tree> {
    let pointee = parens(seq![mark('*')] + method_call("into_const"@, Seq::empty()));
    let place = seq![pointee] + selector;
    let taken = path_sep() + seq![word("core"@)] + path_sep() + seq![word("ptr"@)] + path_sep()
        + seq![word("addr_of"@), mark('!'), parens(place)];
    method_call("copy_addr"@, taken)
}

/// `::core::compile_error!{ "<message>" }`
pub open spec fn diagnostic(message: Seq<char>) -> Seq<Tree> {
    path_sep() + seq![word("core"@)] + path_sep() + seq![
        word("compile_error"@),
        mark('!'),
        braces(seq![quoted(message)]),
    ]
}

/// The name of the wrapper's method for an offset.
pub open spec fn offset_method(byte: bool, direction: OffsetType) -> Seq<char> {
    match (direction, byte) {
        (OffsetType::Add, false) => "add"@,
        (OffsetType::Sub, false) => "sub"@,
        (OffsetType::Add, true) => "byte_add"@,
        (OffsetType::Sub, true) => "byte_sub"@,
    }
}

/// The tokens of an offset's amount: the literal with its sign as one token,
/// or the expression without its parentheses.
pub open spec fn amount_tokens(amount: Amount) -> Seq<Tree> {
    match amount {
        Amount::Integer(negative, literal) => seq![Tree::Literal(signed(negative, literal))],
        Amount::Grouped(expr) => expr,
    }
}

/// The tokens of one step.
pub open spec fn step_tokens(s: Step, base: Seq<char>) -> Seq<Tree>
    decreases s,
{
    match s {
        Step::Wrap => rebind(helper_call(base, "new_pointer"@, seq![word("ptr"@)])),
        Step::Field(name) => rebind(address_of(seq![mark('.'), word(name)])),
        Step::Position(position) => rebind(
            address_of(seq![mark('.'), Tree::Literal(decimal(position as nat))]),
        ),
        Step::Read => rebind(method_call("read"@, Seq::empty())),
        Step::Index(expr) => rebind(
            helper_call(base, "index"@, seq![word("ptr"@), mark(',')] + expr),
        ),
        Step::Offset { byte, direction, amount } => rebind(
            method_call(offset_method(byte, direction), amount_tokens(amount)),
        ),
        Step::Cast(ty) => rebind(
            seq![word("ptr"@), mark('.'), word("cast"@)] + path_sep() + seq![mark('<')] + ty
                + seq![mark('>'), parens(Seq::empty())],
        ),
        Step::Block(program) => rebind(seq![braces(program_tokens(program, base))]),
        Step::Dangle => rebind(address_of(seq![mark('.')])) + diagnostic(dangling_message())
            + seq![mark(';')],
    }
}

/// The tokens of a list of steps, in order.
pub open spec fn steps_tokens(steps: Seq<Step>, base: Seq<char>) -> Seq<Tree>
    decreases steps,
{
    if steps.len() == 0 {
        Seq::empty()
    } else {
        step_tokens(steps[0], base) + steps_tokens(steps.drop_first(), base)
    }
}

/// The tokens that hand out the result.
pub open spec fn finish_tokens(f: Finish) -> Seq<Tree> {
    match f {
        Finish::Unwrap => method_call("into_inner"@, Seq::empty()),
        Finish::Value => seq![word("ptr"@)],
        Finish::Halt => Seq::empty(),
    }
}

/// The tokens of a program: its steps, then the result.
pub open spec fn program_tokens(p: Program, base: Seq<char>) -> Seq<Tree>
    decreases p,
{
    steps_tokens(p.steps, base) + finish_tokens(p.finish)
}

/// The whole expansion: a block that binds the pointer expression, marks the
/// expansion as unsafe to use, and runs the program on a fresh wrapper.
pub open spec fn expansion(ptr: Seq<Tree>, p: Program, base: Seq<char>) -> Seq<Tree> {
    let body = rebind(helper_call(base, "new_pointer"@, seq![word("ptr"@)])) + program_tokens(
        p,
        base,
    );
    let attribute = seq![
        mark('#'),
        Tree::Group(
            Delim::Bracket,
            seq![word("allow"@), parens(seq![word("unused_unsafe"@)])],
        ),
    ];
    seq![
        braces(
            rebind(ptr) + helper_call(base, "element_ptr_unsafe"@, Seq::empty()) + seq![mark(';')]
                + attribute + seq![word("unsafe"@), braces(body)],
        ),
    ]
}

} // verus!
