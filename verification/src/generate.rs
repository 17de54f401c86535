//! The generator: from an access chain to the tokens of its program.

use crate::access::{
    access, accesses, amount, Access, AccessList, ElementAccess, FieldAccess, FieldAccessType,
    Member, OffsetAccess, OffsetType, OffsetValue,
};
use crate::emit::{
    address_of_tokens, decimal_text, diagnostic_tokens, helper_call_tokens, method_call_tokens,
    put, put_all, put_group, put_mark, put_path_sep, put_rebind, put_word,
};
use crate::parse::signed_text;
use crate::program::{lower, rewrap, state_after, step, State, Step};
use crate::template::{
    amount_tokens, braces, decimal, mark, offset_method, parens, path_sep, program_tokens, rebind,
    step_tokens, steps_tokens, word,
};
use crate::token::{copy_range, trees, Delim, Token, Tree};
use vstd::prelude::*;

verus! {

/// The tokens of a list of steps are the tokens of its parts, in order.
pub proof fn lemma_steps_tokens_concat(a: Seq<Step>, b: Seq<Step>, base: Seq<char>)
    ensures
        steps_tokens(a + b, base) == steps_tokens(a, base) + steps_tokens(b, base),
    decreases a.len(),
{
    if a.len() == 0 {
        assert(a + b =~= b);
        assert(steps_tokens(a, base) + steps_tokens(b, base) =~= steps_tokens(b, base));
    } else {
        assert((a + b).drop_first() =~= a.drop_first() + b);
        lemma_steps_tokens_concat(a.drop_first(), b, base);
        assert(steps_tokens(a + b, base) =~= steps_tokens(a, base) + steps_tokens(b, base));
    }
}

/// The tokens of a chain's program, one access at a time: the wrap that the
/// state asks for, the tokens of the first access, and the tokens of the rest
/// of the chain from the state that the first access leaves.
pub proof fn lemma_program_tokens_unfold(chain: Seq<Access>, state: State, base: Seq<char>)
    requires
        chain.len() > 0,
    ensures
        program_tokens(lower(chain, state), base) == steps_tokens(rewrap(state), base) + (
        if chain[0] == Access::Field(Member::Dangling) {
            step_tokens(Step::Dangle, base)
        } else {
            step_tokens(step(chain[0]), base) + program_tokens(
                lower(chain.drop_first(), state_after(chain[0])),
                base,
            )
        }),
{
    let wrap = rewrap(state);
    if chain[0] == Access::Field(Member::Dangling) {
        lemma_steps_tokens_concat(wrap, seq![Step::Dangle], base);
        assert(wrap.push(Step::Dangle) =~= wrap + seq![Step::Dangle]);
        assert(seq![Step::Dangle].drop_first() =~= Seq::<Step>::empty());
        assert(steps_tokens(Seq::<Step>::empty(), base) =~= Seq::<Tree>::empty());
        assert(steps_tokens(seq![Step::Dangle], base) =~= step_tokens(Step::Dangle, base));
        assert(program_tokens(lower(chain, state), base) =~= steps_tokens(wrap, base)
            + step_tokens(Step::Dangle, base));
    } else {
        let first = step(chain[0]);
        let rest = lower(chain.drop_first(), state_after(chain[0]));
        assert(wrap.push(first) + rest.steps =~= wrap + (seq![first] + rest.steps));
        lemma_steps_tokens_concat(wrap, seq![first] + rest.steps, base);
        assert((seq![first] + rest.steps).drop_first() =~= rest.steps);
        assert(program_tokens(lower(chain, state), base) =~= steps_tokens(wrap, base) + (
        step_tokens(first, base) + program_tokens(rest, base)));
    }
}

/// A vector that holds no token.
fn no_tokens() -> (r: Vec<Token>)
    ensures
        trees(r@) == Seq::<Tree>::empty(),
{
    let r: Vec<Token> = Vec::new();
    assert(trees(r@) =~= Seq::<Tree>::empty());
    r
}

/// The name of the wrapper's method for an offset.
fn offset_method_name(byte: bool, direction: OffsetType) -> (name: &'static str)
    ensures
        name@ == offset_method(byte, direction),
{
    match (direction, byte) {
        (OffsetType::Add, false) => "add",
        (OffsetType::Sub, false) => "sub",
        (OffsetType::Add, true) => "byte_add",
        (OffsetType::Sub, true) => "byte_sub",
    }
}

impl OffsetValue {
    /// The tokens of the amount: the literal with its sign as one token, or
    /// the expression without its parentheses.
    pub fn to_tokens(&self, tokens: &mut Vec<Token>)
        ensures
            trees(final(tokens)@) == trees(old(tokens)@) + amount_tokens(amount(*self)),
    {
        match self {
            OffsetValue::Integer { negative, literal } => {
                put(tokens, Token::Literal(signed_text(*negative, literal)));
                assert(trees(tokens@) =~= trees(old(tokens)@) + amount_tokens(amount(*self)));
            },
            OffsetValue::Grouped { expr } => {
                let copied = copy_range(expr, 0, expr.len());
                assert(trees(expr@).subrange(0, expr@.len() as int) =~= trees(expr@));
                put_all(tokens, copied);
            },
        }
    }
}

/// The tokens of the step that takes the address of a named field.
fn field_step_tokens(name: &String, base: &str) -> (r: Vec<Token>)
    ensures
        trees(r@) == step_tokens(Step::Field(name@), base@),
{
    let mut selector = no_tokens();
    put_mark(&mut selector, '.');
    put(&mut selector, Token::Ident(name.clone()));
    assert(trees(selector@) =~= seq![mark('.'), word(name@)]);
    let mut r = no_tokens();
    put_rebind(&mut r, address_of_tokens(selector));
    assert(trees(r@) =~= step_tokens(Step::Field(name@), base@));
    r
}

/// The tokens of the step that takes the address of a tuple position.
fn position_step_tokens(position: u32, base: &str) -> (r: Vec<Token>)
    ensures
        trees(r@) == step_tokens(Step::Position(position), base@),
{
    let mut selector = no_tokens();
    put_mark(&mut selector, '.');
    put(&mut selector, Token::Literal(decimal_text(position)));
    assert(trees(selector@) =~= seq![mark('.'), Tree::Literal(decimal(position as nat))]);
    let mut r = no_tokens();
    put_rebind(&mut r, address_of_tokens(selector));
    assert(trees(r@) =~= step_tokens(Step::Position(position), base@));
    r
}

/// The tokens of the step that reads the pointee.
fn read_step_tokens(base: &str) -> (r: Vec<Token>)
    ensures
        trees(r@) == step_tokens(Step::Read, base@),
{
    let mut r = no_tokens();
    put_rebind(&mut r, method_call_tokens("read", no_tokens()));
    assert(trees(r@) =~= step_tokens(Step::Read, base@));
    r
}

/// The tokens of the step that takes the address of an element.
fn index_step_tokens(index: &Vec<Token>, base: &str) -> (r: Vec<Token>)
    ensures
        trees(r@) == step_tokens(Step::Index(trees(index@)), base@),
{
    let mut args = no_tokens();
    put_word(&mut args, "ptr");
    put_mark(&mut args, ',');
    let copied = copy_range(index, 0, index.len());
    assert(trees(index@).subrange(0, index@.len() as int) =~= trees(index@));
    put_all(&mut args, copied);
    assert(trees(args@) =~= seq![word("ptr"@), mark(',')] + trees(index@));
    let mut r = no_tokens();
    put_rebind(&mut r, helper_call_tokens(base, "index", args));
    assert(trees(r@) =~= step_tokens(Step::Index(trees(index@)), base@));
    r
}

/// The tokens of the step that moves by an amount.
fn offset_step_tokens(o: &OffsetAccess, base: &str) -> (r: Vec<Token>)
    ensures
        trees(r@) == step_tokens(
            Step::Offset { byte: o.byte, direction: o.offset_type, amount: amount(o.value) },
            base@,
        ),
{
    let mut args = no_tokens();
    o.value.to_tokens(&mut args);
    assert(trees(args@) =~= amount_tokens(amount(o.value)));
    let name = offset_method_name(o.byte, o.offset_type);
    let mut r = no_tokens();
    put_rebind(&mut r, method_call_tokens(name, args));
    assert(trees(r@) =~= step_tokens(
        Step::Offset { byte: o.byte, direction: o.offset_type, amount: amount(o.value) },
        base@,
    ));
    r
}

/// The tokens of the step that reinterprets the pointee type.
fn cast_step_tokens(ty: &Vec<Token>, base: &str) -> (r: Vec<Token>)
    ensures
        trees(r@) == step_tokens(Step::Cast(trees(ty@)), base@),
{
    let mut value = no_tokens();
    put_word(&mut value, "ptr");
    put_mark(&mut value, '.');
    put_word(&mut value, "cast");
    put_path_sep(&mut value);
    put_mark(&mut value, '<');
    let copied = copy_range(ty, 0, ty.len());
    assert(trees(ty@).subrange(0, ty@.len() as int) =~= trees(ty@));
    put_all(&mut value, copied);
    put_mark(&mut value, '>');
    put_group(&mut value, Delim::Paren, no_tokens());
    assert(trees(value@) =~= seq![word("ptr"@), mark('.'), word("cast"@)] + path_sep() + seq![
        mark('<'),
    ] + trees(ty@) + seq![mark('>'), parens(Seq::empty())]);
    let mut r = no_tokens();
    put_rebind(&mut r, value);
    assert(trees(r@) =~= step_tokens(Step::Cast(trees(ty@)), base@));
    r
}

/// The tokens of the step that wraps a bare value.
fn wrap_step_tokens(base: &str) -> (r: Vec<Token>)
    ensures
        trees(r@) == step_tokens(Step::Wrap, base@),
        trees(r@) == steps_tokens(rewrap(State::NeedsRewrap), base@),
{
    let mut args = no_tokens();
    put_word(&mut args, "ptr");
    assert(trees(args@) =~= seq![word("ptr"@)]);
    let mut r = no_tokens();
    put_rebind(&mut r, helper_call_tokens(base, "new_pointer", args));
    assert(trees(r@) =~= step_tokens(Step::Wrap, base@));
    assert(seq![Step::Wrap].drop_first() =~= Seq::<Step>::empty());
    assert(steps_tokens(Seq::<Step>::empty(), base@) =~= Seq::<Tree>::empty());
    assert(steps_tokens(seq![Step::Wrap], base@) =~= step_tokens(Step::Wrap, base@));
    r
}

/// The tokens of the step that reports a dot that nothing follows.
fn dangle_step_tokens(base: &str) -> (r: Vec<Token>)
    ensures
        trees(r@) == step_tokens(Step::Dangle, base@),
{
    let mut selector = no_tokens();
    put_mark(&mut selector, '.');
    assert(trees(selector@) =~= seq![mark('.')]);
    let mut r = no_tokens();
    put_rebind(&mut r, address_of_tokens(selector));
    put_all(
        &mut r,
        diagnostic_tokens("expected an identifier, integer literal, or `*` after this `.`"),
    );
    put_mark(&mut r, ';');
    assert(trees(r@) =~= step_tokens(Step::Dangle, base@));
    r
}

/// The tokens of the step that binds the result of a block.
fn block_step_tokens(block: Vec<Token>) -> (r: Vec<Token>)
    ensures
        trees(r@) == rebind(seq![braces(trees(block@))]),
{
    let mut value = no_tokens();
    put_group(&mut value, Delim::Brace, block);
    assert(trees(value@) =~= seq![braces(trees(block@))]);
    let mut r = no_tokens();
    put_rebind(&mut r, value);
    assert(trees(r@) =~= rebind(seq![braces(trees(block@))]));
    r
}

/// The tokens of the step of one access that is neither a group nor a dot
/// that nothing follows.
fn plain_step_tokens(a: &ElementAccess, base: &str) -> (r: Vec<Token>)
    requires
        !(access(*a) is Group),
        access(*a) != Access::Field(Member::Dangling),
    ensures
        trees(r@) == step_tokens(step(access(*a)), base@),
{
    match a {
        ElementAccess::Field(f) => match &f.field {
            Some(FieldAccessType::Named(name)) => field_step_tokens(name, base),
            Some(FieldAccessType::Tuple(position)) => position_step_tokens(*position, base),
            Some(FieldAccessType::Deref) => read_step_tokens(base),
            None => no_tokens(),
        },
        ElementAccess::Index(i) => index_step_tokens(&i.index, base),
        ElementAccess::Offset(o) => offset_step_tokens(o, base),
        ElementAccess::Cast(c) => cast_step_tokens(&c.ty, base),
        ElementAccess::Group(_) => no_tokens(),
    }
}

/// The state that an access leaves.
fn state_after_access(a: &ElementAccess) -> (r: State)
    ensures
        r == state_after(access(*a)),
{
    match a {
        ElementAccess::Field(FieldAccess { field: Some(FieldAccessType::Deref) }) => {
            State::NeedsRewrap
        },
        ElementAccess::Group(_) => State::NeedsRewrap,
        _ => State::Clean,
    }
}

/// A chain together with the name under which the support library is
/// visible: what the generator needs to write the chain's program.
pub struct AccessListToTokensCtx<'i> {
    pub list: &'i AccessList,
    pub base_crate: &'i str,
}

impl<'i> AccessListToTokensCtx<'i> {
    /// Appends the tokens of the chain's program.
    pub fn to_tokens(&self, tokens: &mut Vec<Token>)
        ensures
            trees(final(tokens)@) == trees(old(tokens)@) + program_tokens(
                lower(self.list@, State::Clean),
                self.base_crate@,
            ),
        decreases self.list,
    {
        let ghost chain = self.list@;
        let ghost base = self.base_crate@;
        let ghost goal = trees(old(tokens)@) + program_tokens(lower(chain, State::Clean), base);
        let mut state = State::Clean;
        let mut i: usize = 0;
        assert(chain.skip(0) =~= chain);
        while i < self.list.0.len()
            invariant
                i <= self.list.0.len(),
                chain == accesses(self.list.0@),
                base == self.base_crate@,
                goal == trees(old(tokens)@) + program_tokens(
                    lower(self.list@, State::Clean),
                    self.base_crate@,
                ),
                trees(tokens@) + program_tokens(lower(chain.skip(i as int), state), base) =~= goal,
            decreases self.list.0.len() - i,
        {
            let ghost rest = chain.skip(i as int);
            let ghost before = trees(tokens@);
            let ghost entry = state;
            proof {
                lemma_program_tokens_unfold(rest, state, base);
                assert(rest[0] == access(self.list.0[i as int]));
                assert(rest.drop_first() =~= chain.skip(i + 1));
                assert(steps_tokens(Seq::<Step>::empty(), base) =~= Seq::<Tree>::empty());
            }
            if state == State::NeedsRewrap {
                put_all(tokens, wrap_step_tokens(self.base_crate));
                state = State::Clean;
            }
            let ghost wrapped = trees(tokens@);
            assert(wrapped =~= before + steps_tokens(rewrap(entry), base));
            match &self.list.0[i] {
                ElementAccess::Group(g) => {
                    let nested = AccessListToTokensCtx {
                        list: &g.inner,
                        base_crate: self.base_crate,
                    };
                    let mut block = no_tokens();
                    nested.to_tokens(&mut block);
                    assert(trees(block@) =~= program_tokens(lower(g.inner@, State::Clean), base));
                    put_all(tokens, block_step_tokens(block));
                    assert(trees(tokens@) =~= wrapped + step_tokens(step(rest[0]), base));
                    state = State::NeedsRewrap;
                },
                ElementAccess::Field(FieldAccess { field: None }) => {
                    put_all(tokens, dangle_step_tokens(self.base_crate));
                    assert(trees(tokens@) =~= goal);
                    return ;
                },
                other => {
                    put_all(tokens, plain_step_tokens(other, self.base_crate));
                    state = state_after_access(other);
                },
            }
            assert(trees(tokens@) =~= wrapped + step_tokens(step(rest[0]), base));
            assert(state == state_after(rest[0]));
            assert(trees(tokens@) + program_tokens(lower(chain.skip(i + 1), state), base) =~= before
                + program_tokens(lower(rest, entry), base));
            i = i + 1;
        }
        proof {
            assert(chain.skip(i as int) =~= Seq::<Access>::empty());
            assert(steps_tokens(Seq::<Step>::empty(), base) =~= Seq::<Tree>::empty());
        }
        if state == State::NeedsRewrap {
            put_word(tokens, "ptr");
        } else {
            put_all(tokens, method_call_tokens("into_inner", no_tokens()));
        }
        assert(trees(tokens@) =~= goal);
    }
}

} // verus!
