//! Token trees: the notation's input and the expansion's output.
//!
//! A token is an identifier, a punctuation character, a literal, or a
//! delimited group of tokens. The executable type holds `String` and `Vec`;
//! contracts speak of its model, [`Tree`], which holds sequences.

use vstd::prelude::*;

verus! {

/// The delimiter of a group.
#[derive(Clone, Copy, Debug, PartialEq, Eq, Structural)]
pub enum Delim {
    Paren,
    Bracket,
    Brace,
}

/// One token tree.
#[derive(Debug)]
pub enum Token {
    /// An identifier or keyword, by its text.
    Ident(String),
    /// One punctuation character; the flag says that the next token is a
    /// punctuation character that follows it without a gap.
    Punct(char, bool),
    /// A literal, by its text.
    Literal(String),
    /// A delimited group and the tokens inside it.
    Group(Delim, Vec<Token>),
}

/// The model of a [`Token`].
pub enum Tree {
    Ident(Seq<char>),
    Punct(char, bool),
    Literal(Seq<char>),
    Group(Delim, Seq<Tree>),
}

/// The model of one token.
pub open spec fn tree(t: Token) -> Tree
    decreases t,
{
    match t {
        Token::Ident(s) => Tree::Ident(s@),
        Token::Punct(c, joint) => Tree::Punct(c, joint),
        Token::Literal(s) => Tree::Literal(s@),
        Token::Group(d, inner) => Tree::Group(d, trees(inner@)),
    }
}

/// The models of a sequence of tokens, in order.
pub open spec fn trees(ts: Seq<Token>) -> Seq<Tree>
    decreases ts,
{
    Seq::new(
        ts.len(),
        |i: int|
            if 0 <= i < ts.len() {
                tree(ts[i])
            } else {
                Tree::Punct(' ', false)
            },
    )
}

/// The character that opens a group.
pub open spec fn opener(d: Delim) -> char {
    match d {
        Delim::Paren => '(',
        Delim::Bracket => '[',
        Delim::Brace => '{',
    }
}

/// The character that closes a group.
pub open spec fn closer(d: Delim) -> char {
    match d {
        Delim::Paren => ')',
        Delim::Bracket => ']',
        Delim::Brace => '}',
    }
}

/// The source text of one token: its own text followed by a space, except
/// that nothing follows a punctuation character joined to the next one.
pub open spec fn tree_text(t: Tree) -> Seq<char>
    decreases t,
{
    match t {
        Tree::Ident(s) => s.push(' '),
        Tree::Punct(c, joint) => if joint {
            seq![c]
        } else {
            seq![c, ' ']
        },
        Tree::Literal(s) => s.push(' '),
        Tree::Group(d, inner) => (seq![opener(d)] + trees_text(inner)).push(closer(d)).push(' '),
    }
}

/// The source text of a sequence of tokens: their texts, in order.
pub open spec fn trees_text(ts: Seq<Tree>) -> Seq<char>
    decreases ts,
{
    if ts.len() == 0 {
        Seq::empty()
    } else {
        trees_text(ts.drop_last()) + tree_text(ts.last())
    }
}

/// A copy of one token.
pub fn copy_token(t: &Token) -> (r: Token)
    ensures
        tree(r) == tree(*t),
    decreases t,
{
    match t {
        Token::Ident(s) => Token::Ident(s.clone()),
        Token::Punct(c, joint) => Token::Punct(*c, *joint),
        Token::Literal(s) => Token::Literal(s.clone()),
        Token::Group(d, inner) => {
            let copied = copy_range(inner, 0, inner.len());
            assert(trees(inner@).subrange(0, inner@.len() as int) =~= trees(inner@));
            Token::Group(*d, copied)
        },
    }
}

/// A copy of the tokens of `ts` from position `from` up to `to`.
pub fn copy_range(ts: &Vec<Token>, from: usize, to: usize) -> (r: Vec<Token>)
    requires
        from <= to <= ts.len(),
    ensures
        trees(r@) == trees(ts@).subrange(from as int, to as int),
    decreases ts,
{
    let mut r: Vec<Token> = Vec::new();
    let mut i: usize = from;
    while i < to
        invariant
            from <= i <= to <= ts.len(),
            trees(r@) =~= trees(ts@).subrange(from as int, i as int),
        decreases to - i,
    {
        let t = copy_token(&ts[i]);
        let ghost before = r@;
        r.push(t);
        assert(trees(r@) =~= trees(before).push(tree(t)));
        i = i + 1;
    }
    r
}

/// `String::push`: appends one character to the end of the string.
#[verifier::external_body]
pub(crate) fn push_char(s: &mut String, c: char)
    ensures
        final(s)@ == old(s)@.push(c),
{
    s.push(c)
}

fn opener_of(d: Delim) -> (c: char)
    ensures
        c == opener(d),
{
    match d {
        Delim::Paren => '(',
        Delim::Bracket => '[',
        Delim::Brace => '{',
    }
}

fn closer_of(d: Delim) -> (c: char)
    ensures
        c == closer(d),
{
    match d {
        Delim::Paren => ')',
        Delim::Bracket => ']',
        Delim::Brace => '}',
    }
}

/// Appends the source text of `t` to `out`.
fn render_token(t: &Token, out: &mut String)
    ensures
        final(out)@ == old(out)@ + tree_text(tree(*t)),
    decreases t,
{
    match t {
        Token::Ident(s) => {
            out.append(s.as_str());
            push_char(out, ' ');
        },
        Token::Punct(c, joint) => {
            push_char(out, *c);
            if !*joint {
                push_char(out, ' ');
            }
        },
        Token::Literal(s) => {
            out.append(s.as_str());
            push_char(out, ' ');
        },
        Token::Group(d, inner) => {
            push_char(out, opener_of(*d));
            render_tokens(inner, out);
            push_char(out, closer_of(*d));
            push_char(out, ' ');
        },
    }
    assert(final(out)@ =~= old(out)@ + tree_text(tree(*t)));
}

/// Appends the source text of `ts` to `out`.
fn render_tokens(ts: &Vec<Token>, out: &mut String)
    ensures
        final(out)@ == old(out)@ + trees_text(trees(ts@)),
    decreases ts,
{
    let mut i: usize = 0;
    while i < ts.len()
        invariant
            i <= ts.len(),
            out@ == old(out)@ + trees_text(trees(ts@).take(i as int)),
        decreases ts.len() - i,
    {
        let ghost before = trees(ts@).take(i as int);
        let ghost after = trees(ts@).take(i + 1);
        assert(after.drop_last() =~= before);
        assert(after.last() == tree(ts[i as int]));
        render_token(&ts[i], out);
        assert(out@ =~= old(out)@ + trees_text(after));
        i = i + 1;
    }
    assert(trees(ts@).take(ts.len() as int) =~= trees(ts@));
}

/// The source text of a sequence of tokens.
pub fn render(ts: &Vec<Token>) -> (text: String)
    ensures
        text@ == trees_text(trees(ts@)),
{
    let mut text = String::new();
    render_tokens(ts, &mut text);
    assert(text@ =~= trees_text(trees(ts@)));
    text
}

} // verus!
