//! The entry point: from the tokens of one use of the notation to the tokens
//! of its expansion.

use crate::emit::{
    diagnostic_tokens, helper_call_tokens, put_all, put_group, put_mark, put_rebind, put_word,
};
use crate::generate::AccessListToTokensCtx;
use crate::grammar::{fails, input, yields, ParseError};
use crate::parse::MacroInput;
use crate::program::{lower, State};
use crate::template::{
    braces, diagnostic, expansion, helper_call, mark, parens, program_tokens, rebind, word,
};
use crate::token::{copy_range, trees, Delim, Token, Tree};
use vstd::prelude::*;

verus! {

/// Where the support library was found among the dependencies of the crate
/// that uses the notation.
#[derive(Debug)]
pub enum FoundCrate {
    /// The crate that uses the notation is the support library itself.
    Itself,
    /// The support library is visible under this name.
    Name(String),
}

/// The name under which the support library is written in an expansion: the
/// name found, or the library's own name where it uses the notation itself or
/// where the lookup failed.
pub open spec fn base_name(found: Option<FoundCrate>) -> Seq<char> {
    match found {
        Some(FoundCrate::Name(name)) => name@,
        _ => "element_ptr"@,
    }
}

/// The name under which the support library is written in an expansion.
pub fn base_crate(found: Option<FoundCrate>) -> (name: String)
    ensures
        name@ == base_name(found),
{
    match found {
        Some(FoundCrate::Name(name)) => name,
        _ => String::from_str("element_ptr"),
    }
}

/// The text of the report for each failure. Tokens after a step that ends
/// its chain are reported without a text.
pub open spec fn message_text(e: ParseError) -> Seq<char> {
    match e {
        ParseError::ExpectedArrow => "expected `=>`"@,
        ParseError::ExpectedExpression => "expected an expression"@,
        ParseError::ExpectedAccess => "expected valid element access"@,
        ParseError::ExpectedMember => "expected one of: `*`, identifier, integer literal"@,
        ParseError::ExpectedTupleIndex => "expected an unsuffixed integer that fits in 32 bits"@,
        ParseError::ExpectedSign => "expected `+` or `-`"@,
        ParseError::ExpectedAmount => "expected parentheses or integer literal"@,
        ParseError::ExpectedType => "expected a type"@,
        ParseError::UnexpectedTokens => ""@,
    }
}

impl ParseError {
    /// The text of the report for this failure.
    pub fn message(&self) -> (text: &'static str)
        ensures
            text@ == message_text(*self),
    {
        match self {
            ParseError::ExpectedArrow => "expected `=>`",
            ParseError::ExpectedExpression => "expected an expression",
            ParseError::ExpectedAccess => "expected valid element access",
            ParseError::ExpectedMember => "expected one of: `*`, identifier, integer literal",
            ParseError::ExpectedTupleIndex => "expected an unsuffixed integer that fits in 32 bits",
            ParseError::ExpectedSign => "expected `+` or `-`",
            ParseError::ExpectedAmount => "expected parentheses or integer literal",
            ParseError::ExpectedType => "expected a type",
            ParseError::UnexpectedTokens => "",
        }
    }
}

/// What one use of the notation expands to: the expansion of the chain that
/// the tokens are, or the failure that shows they are none.
pub open spec fn expanded(ts: Seq<Tree>, base: Seq<char>) -> Result<Seq<Tree>, ParseError> {
    match input(ts) {
        Ok((ptr, chain)) => Ok(expansion(ptr, lower(chain, State::Clean), base)),
        Err(e) => Err(e),
    }
}

/// Expands one use of the notation, with the support library written as
/// `base`.
pub fn expand(tokens: &Vec<Token>, base: &str) -> (r: Result<Vec<Token>, ParseError>)
    ensures
        match r {
            Ok(out) => yields(expanded(trees(tokens@), base@), trees(out@)),
            Err(e) => fails(expanded(trees(tokens@), base@), e),
        },
{
    let parsed = match MacroInput::parse(tokens) {
        Ok(parsed) => parsed,
        Err(e) => {
            return Err(e);
        },
    };
    let ghost ptr = trees(parsed.ptr@);
    let ghost program = lower(parsed.body@, State::Clean);
    let mut args: Vec<Token> = Vec::new();
    assert(trees(args@) =~= Seq::<Tree>::empty());
    put_word(&mut args, "ptr");
    assert(trees(args@) =~= seq![word("ptr"@)]);
    let mut body: Vec<Token> = Vec::new();
    assert(trees(body@) =~= Seq::<Tree>::empty());
    put_rebind(&mut body, helper_call_tokens(base, "new_pointer", args));
    let ctx = AccessListToTokensCtx { list: &parsed.body, base_crate: base };
    ctx.to_tokens(&mut body);
    assert(trees(body@) =~= rebind(helper_call(base@, "new_pointer"@, seq![word("ptr"@)]))
        + program_tokens(program, base@));
    let mut allowed: Vec<Token> = Vec::new();
    assert(trees(allowed@) =~= Seq::<Tree>::empty());
    put_word(&mut allowed, "unused_unsafe");
    let mut attribute: Vec<Token> = Vec::new();
    assert(trees(attribute@) =~= Seq::<Tree>::empty());
    put_word(&mut attribute, "allow");
    put_group(&mut attribute, Delim::Paren, allowed);
    assert(trees(attribute@) =~= seq![word("allow"@), parens(seq![word("unused_unsafe"@)])]);
    let mut block: Vec<Token> = Vec::new();
    assert(trees(block@) =~= Seq::<Tree>::empty());
    let copied = copy_range(&parsed.ptr, 0, parsed.ptr.len());
    assert(trees(parsed.ptr@).subrange(0, parsed.ptr@.len() as int) =~= ptr);
    put_rebind(&mut block, copied);
    let none: Vec<Token> = Vec::new();
    assert(trees(none@) =~= Seq::<Tree>::empty());
    put_all(&mut block, helper_call_tokens(base, "element_ptr_unsafe", none));
    put_mark(&mut block, ';');
    put_mark(&mut block, '#');
    put_group(&mut block, Delim::Bracket, attribute);
    put_word(&mut block, "unsafe");
    put_group(&mut block, Delim::Brace, body);
    assert(trees(block@) =~= rebind(ptr) + helper_call(
        base@,
        "element_ptr_unsafe"@,
        Seq::empty(),
    ) + seq![mark(';')] + seq![
        mark('#'),
        Tree::Group(
            Delim::Bracket,
            seq![word("allow"@), parens(seq![word("unused_unsafe"@)])],
        ),
    ] + seq![
        word("unsafe"@),
        braces(
            rebind(helper_call(base@, "new_pointer"@, seq![word("ptr"@)])) + program_tokens(
                program,
                base@,
            ),
        ),
    ]);
    let mut out: Vec<Token> = Vec::new();
    assert(trees(out@) =~= Seq::<Tree>::empty());
    put_group(&mut out, Delim::Brace, block);
    assert(trees(out@) =~= expansion(ptr, program, base@));
    Ok(out)
}

/// What the notation's entry point hands back: the expansion, or the report
/// of the failure in its place.
pub open spec fn element_ptr_tokens(ts: Seq<Tree>, found: Option<FoundCrate>) -> Seq<Tree> {
    match expanded(ts, base_name(found)) {
        Ok(out) => out,
        Err(e) => diagnostic(message_text(e)),
    }
}

/// The notation's entry point: expands `input`, or reports why it is no
/// chain.
pub fn element_ptr(input: &Vec<Token>, found: Option<FoundCrate>) -> (out: Vec<Token>)
    ensures
        trees(out@) == element_ptr_tokens(trees(input@), found),
{
    let ghost name = base_name(found);
    let base = base_crate(found);
    match expand(input, base.as_str()) {
        Ok(out) => out,
        Err(e) => diagnostic_tokens(e.message()),
    }
}

} // verus!
