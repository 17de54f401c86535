//! Building the tokens of the templates.

use crate::template::{
    address_of, decimal, diagnostic, digit, helper_call, mark, method_call, parens, path_sep,
    quoted, rebind, word,
};
use crate::token::{push_char, tree, trees, Delim, Token, Tree};
use vstd::prelude::*;

verus! {

/// Appends one token.
pub(crate) fn put(out: &mut Vec<Token>, t: Token)
    ensures
        trees(final(out)@) == trees(old(out)@).push(tree(t)),
{
    out.push(t);
    assert(trees(out@) =~= trees(old(out)@).push(tree(t)));
}

/// Appends an identifier.
pub(crate) fn put_word(out: &mut Vec<Token>, text: &str)
    ensures
        trees(final(out)@) == trees(old(out)@).push(word(text@)),
{
    put(out, Token::Ident(String::from_str(text)));
}

/// Appends a punctuation character that stands alone.
pub(crate) fn put_mark(out: &mut Vec<Token>, c: char)
    ensures
        trees(final(out)@) == trees(old(out)@).push(mark(c)),
{
    put(out, Token::Punct(c, false));
}

/// Appends the path separator.
pub(crate) fn put_path_sep(out: &mut Vec<Token>)
    ensures
        trees(final(out)@) == trees(old(out)@) + path_sep(),
{
    put(out, Token::Punct(':', true));
    put(out, Token::Punct(':', false));
    assert(trees(out@) =~= trees(old(out)@) + path_sep());
}

/// Appends a group.
pub(crate) fn put_group(out: &mut Vec<Token>, d: Delim, inner: Vec<Token>)
    ensures
        trees(final(out)@) == trees(old(out)@).push(Tree::Group(d, trees(inner@))),
{
    put(out, Token::Group(d, inner));
}

/// Appends all the tokens of `more`.
pub(crate) fn put_all(out: &mut Vec<Token>, more: Vec<Token>)
    ensures
        trees(final(out)@) == trees(old(out)@) + trees(more@),
{
    let mut more = more;
    let ghost added = more@;
    out.append(&mut more);
    assert(trees(out@) =~= trees(old(out)@) + trees(added));
}

/// `let ptr = <value>;`
pub(crate) fn put_rebind(out: &mut Vec<Token>, value: Vec<Token>)
    ensures
        trees(final(out)@) == trees(old(out)@) + rebind(trees(value@)),
{
    put_word(out, "let");
    put_word(out, "ptr");
    put_mark(out, '=');
    put_all(out, value);
    put_mark(out, ';');
    assert(trees(out@) =~= trees(old(out)@) + rebind(trees(value@)));
}

/// `::<base>::helper::<name>(<args>)`
pub(crate) fn helper_call_tokens(base: &str, name: &str, args: Vec<Token>) -> (r: Vec<Token>)
    ensures
        trees(r@) == helper_call(base@, name@, trees(args@)),
{
    let mut r: Vec<Token> = Vec::new();
    assert(trees(r@) =~= Seq::empty());
    put_path_sep(&mut r);
    put_word(&mut r, base);
    put_path_sep(&mut r);
    put_word(&mut r, "helper");
    put_path_sep(&mut r);
    put_word(&mut r, name);
    put_group(&mut r, Delim::Paren, args);
    assert(trees(r@) =~= helper_call(base@, name@, trees(args@)));
    r
}

/// `ptr.<name>(<args>)`
pub(crate) fn method_call_tokens(name: &str, args: Vec<Token>) -> (r: Vec<Token>)
    ensures
        trees(r@) == method_call(name@, trees(args@)),
{
    let mut r: Vec<Token> = Vec::new();
    assert(trees(r@) =~= Seq::empty());
    put_word(&mut r, "ptr");
    put_mark(&mut r, '.');
    put_word(&mut r, name);
    put_group(&mut r, Delim::Paren, args);
    assert(trees(r@) =~= method_call(name@, trees(args@)));
    r
}

/// `ptr.copy_addr(::core::ptr::addr_of!((*ptr.into_const()) <selector>))`
pub(crate) fn address_of_tokens(selector: Vec<Token>) -> (r: Vec<Token>)
    ensures
        trees(r@) == address_of(trees(selector@)),
{
    let ghost chosen = trees(selector@);
    let mut pointee: Vec<Token> = Vec::new();
    assert(trees(pointee@) =~= Seq::empty());
    put_mark(&mut pointee, '*');
    let none: Vec<Token> = Vec::new();
    assert(trees(none@) =~= Seq::empty());
    put_all(&mut pointee, method_call_tokens("into_const", none));
    assert(trees(pointee@) =~= seq![mark('*')] + method_call("into_const"@, Seq::empty()));
    let mut place: Vec<Token> = Vec::new();
    assert(trees(place@) =~= Seq::empty());
    put_group(&mut place, Delim::Paren, pointee);
    put_all(&mut place, selector);
    assert(trees(place@) =~= seq![
        parens(seq![mark('*')] + method_call("into_const"@, Seq::empty())),
    ] + chosen);
    let mut taken: Vec<Token> = Vec::new();
    assert(trees(taken@) =~= Seq::empty());
    put_path_sep(&mut taken);
    put_word(&mut taken, "core");
    put_path_sep(&mut taken);
    put_word(&mut taken, "ptr");
    put_path_sep(&mut taken);
    put_word(&mut taken, "addr_of");
    put_mark(&mut taken, '!');
    put_group(&mut taken, Delim::Paren, place);
    assert(trees(taken@) =~= path_sep() + seq![word("core"@)] + path_sep() + seq![word("ptr"@)]
        + path_sep() + seq![
        word("addr_of"@),
        mark('!'),
        parens(
            seq![parens(seq![mark('*')] + method_call("into_const"@, Seq::empty()))] + chosen,
        ),
    ]);
    method_call_tokens("copy_addr", taken)
}

/// `::core::compile_error!{ "<message>" }`
pub(crate) fn diagnostic_tokens(message: &str) -> (r: Vec<Token>)
    ensures
        trees(r@) == diagnostic(message@),
{
    let mut text = String::new();
    push_char(&mut text, '"');
    text.append(message);
    push_char(&mut text, '"');
    assert(text@ =~= seq!['"'] + message@ + seq!['"']);
    let mut inner: Vec<Token> = Vec::new();
    assert(trees(inner@) =~= Seq::empty());
    put(&mut inner, Token::Literal(text));
    assert(trees(inner@) =~= seq![quoted(message@)]);
    let mut r: Vec<Token> = Vec::new();
    assert(trees(r@) =~= Seq::empty());
    put_path_sep(&mut r);
    put_word(&mut r, "core");
    put_path_sep(&mut r);
    put_word(&mut r, "compile_error");
    put_mark(&mut r, '!');
    put_group(&mut r, Delim::Brace, inner);
    assert(trees(r@) =~= diagnostic(message@));
    r
}

/// Appends the decimal digits of `n`.
fn push_decimal(n: u32, out: &mut String)
    ensures
        final(out)@ == old(out)@ + decimal(n as nat),
    decreases n,
{
    if n >= 10 {
        push_decimal(n / 10, out);
    }
    let d: u8 = (n % 10) as u8;
    let c: char = (48u8 + d) as char;
    assert(c == digit((n % 10) as nat));
    push_char(out, c);
    assert(out@ =~= old(out)@ + decimal(n as nat));
}

/// The decimal digits of `n`.
pub(crate) fn decimal_text(n: u32) -> (text: String)
    ensures
        text@ == decimal(n as nat),
{
    let mut text = String::new();
    push_decimal(n, &mut text);
    assert(text@ =~= decimal(n as nat));
    text
}

} // verus!
