//! What holds of every chain and every world.

use crate::access::{Access, Amount, Member, OffsetType};
use crate::program::{lower, rewrap, state_after, step, State, Step};
use crate::semantics::{
    apply, evaluate, handed, loaded, navigate, reach, result, run, run_steps, settle, Held, Place,
    Value, World,
};
use crate::token::Tree;
use vstd::prelude::*;

verus! {

/// Whether what the binding holds is what a state of lowering says it holds.
pub open spec fn fits(state: State, h: Held) -> bool {
    match state {
        State::Clean => !(h is Bare),
        State::NeedsRewrap => !(h is Wrapper),
    }
}

/// Running a list of steps is running its parts, one after the other.
pub proof fn lemma_run_steps_concat(w: World, a: Seq<Step>, b: Seq<Step>, h: Held)
    ensures
        run_steps(w, a + b, h) == run_steps(w, b, run_steps(w, a, h)),
    decreases a.len(),
{
    if a.len() == 0 {
        assert(a + b =~= b);
    } else {
        assert((a + b).drop_first() =~= a.drop_first() + b);
        lemma_run_steps_concat(w, a.drop_first(), b, apply(w, a[0], h));
    }
}

/// Navigating a chain is navigating its parts, one after the other.
pub proof fn lemma_navigate_concat(w: World, a: Seq<Access>, b: Seq<Access>, h: Held)
    ensures
        navigate(w, a + b, h) == navigate(w, b, navigate(w, a, h)),
    decreases a.len(),
{
    if a.len() == 0 {
        assert(a + b =~= b);
    } else {
        assert((a + b).drop_first() =~= a.drop_first() + b);
        lemma_navigate_concat(w, a.drop_first(), b, reach(w, a[0], h));
    }
}

/// Nothing is reached from nothing.
pub proof fn lemma_stuck_stays(w: World, chain: Seq<Access>)
    ensures
        navigate(w, chain, Held::Stuck) == Held::Stuck,
    decreases chain.len(),
{
    if chain.len() > 0 {
        assert(reach(w, chain[0], Held::Stuck) == Held::Stuck);
        lemma_stuck_stays(w, chain.drop_first());
    }
}

/// An access reaches from a bare pointer what it reaches from the wrapper
/// over it.
pub proof fn lemma_reach_settles(w: World, a: Access, h: Held)
    ensures
        reach(w, a, h) == reach(w, a, settle(h)),
{
    assert(settle(settle(h)) == settle(h));
}

/// The program of a chain computes what the chain reaches when its accesses
/// are composed by hand, from any state of lowering and any binding that
/// fits the state.
pub proof fn lemma_lowering_navigates(
    w: World,
    chain: Seq<Access>,
    state: State,
    held: Held,
    from: Held,
)
    requires
        fits(state, held),
        result(held) == result(from),
    ensures
        run(w, lower(chain, state), held) == result(navigate(w, chain, from)),
    decreases chain,
{
    let wrap = rewrap(state);
    let entered = run_steps(w, wrap, held);
    assert(entered == settle(from)) by {
        assert(run_steps(w, Seq::<Step>::empty(), held) == held);
        if state == State::NeedsRewrap {
            assert(wrap.drop_first() =~= Seq::<Step>::empty());
            assert(run_steps(w, Seq::<Step>::empty(), apply(w, Step::Wrap, held)) == apply(
                w,
                Step::Wrap,
                held,
            ));
            assert(run_steps(w, wrap, held) == apply(w, Step::Wrap, held));
        }
    }
    if chain.len() == 0 {
    } else if chain[0] == Access::Field(Member::Dangling) {
        assert(reach(w, chain[0], from) == Held::Stuck);
        lemma_stuck_stays(w, chain.drop_first());
    } else {
        let first = chain[0];
        let rest = chain.drop_first();
        let after = state_after(first);
        let tail = lower(rest, after);
        let moved = apply(w, step(first), entered);
        let reached = reach(w, first, from);
        assert(result(moved) == result(reached) && fits(after, moved)) by {
            match first {
                Access::Group(inner) => {
                    if entered is Wrapper {
                        lemma_lowering_navigates(w, inner, State::Clean, entered, entered);
                    }
                },
                _ => {},
            }
        }
        lemma_lowering_navigates(w, rest, after, moved, reached);
        assert(run_steps(w, lower(chain, state).steps, held) == run_steps(w, tail.steps, moved)) by {
            assert(lower(chain, state).steps =~= wrap + (seq![step(first)] + tail.steps));
            lemma_run_steps_concat(w, wrap, seq![step(first)] + tail.steps, held);
            assert((seq![step(first)] + tail.steps).drop_first() =~= tail.steps);
        }
    }
}

/// The expansion of a chain computes what the accesses of the chain compute
/// when they are composed by hand, in the same order, from the same pointer.
pub proof fn law_expansion_composes(w: World, chain: Seq<Access>, p: Place)
    ensures
        evaluate(w, chain, p) == result(navigate(w, chain, Held::Wrapper(p))),
{
    lemma_lowering_navigates(w, chain, State::Clean, Held::Wrapper(p), Held::Wrapper(p));
}

/// A chain that ends in a dereference hands out the value read at the place
/// that the chain without the dereference computes. Where that chain computes
/// no pointer, nothing is handed out.
pub proof fn law_dereference_reads(w: World, chain: Seq<Access>, p: Place)
    ensures
        evaluate(w, chain.push(Access::Field(Member::Deref)), p) == (match evaluate(w, chain, p) {
            Some(Value::Pointer(q)) => Some(loaded(w, q)),
            _ => None,
        }),
{
    let last = seq![Access::Field(Member::Deref)];
    let start = Held::Wrapper(p);
    let before = navigate(w, chain, start);
    law_expansion_composes(w, chain, p);
    law_expansion_composes(w, chain.push(Access::Field(Member::Deref)), p);
    assert(chain.push(Access::Field(Member::Deref)) =~= chain + last);
    lemma_navigate_concat(w, chain, last, start);
    assert(last.drop_first() =~= Seq::<Access>::empty());
    assert(navigate(w, last, before) == navigate(
        w,
        Seq::<Access>::empty(),
        reach(w, last[0], before),
    ));
}

/// Grouping changes nothing: a chain with a group computes what the chain
/// computes with the accesses of the group written in its place. The one
/// exception is an empty group at the end of a chain, after a value that is
/// no pointer: the group asks for a pointer where the chain without it hands
/// out the value.
pub proof fn law_grouping_is_transparent(
    w: World,
    before: Seq<Access>,
    inner: Seq<Access>,
    after: Seq<Access>,
    p: Place,
)
    requires
        inner.len() == 0 && after.len() == 0 ==> !(evaluate(w, before, p) matches Some(
            Value::Data(_),
        )),
    ensures
        evaluate(w, before + seq![Access::Group(inner)] + after, p) == evaluate(
            w,
            before + inner + after,
            p,
        ),
{
    let start = Held::Wrapper(p);
    let group = seq![Access::Group(inner)];
    let here = navigate(w, before, start);
    law_expansion_composes(w, before, p);
    law_expansion_composes(w, before + group + after, p);
    law_expansion_composes(w, before + inner + after, p);
    lemma_navigate_concat(w, before + group, after, start);
    lemma_navigate_concat(w, before, group, start);
    lemma_navigate_concat(w, before + inner, after, start);
    lemma_navigate_concat(w, before, inner, start);
    assert(group.drop_first() =~= Seq::<Access>::empty());
    let grouped = reach(w, group[0], here);
    assert(navigate(w, group, here) == navigate(w, Seq::<Access>::empty(), grouped));
    let flat = navigate(w, inner, here);
    assert(result(navigate(w, after, grouped)) == result(navigate(w, after, flat))) by {
        if inner.len() > 0 {
            lemma_reach_settles(w, inner[0], here);
            if settle(here) is Wrapper {
            } else {
                assert(reach(w, inner[0], here) == Held::Stuck);
                lemma_stuck_stays(w, inner.drop_first());
            }
            assert(grouped == flat);
        } else if after.len() > 0 {
            assert(grouped == settle(here));
            lemma_reach_settles(w, after[0], here);
        } else {
            assert(result(settle(here)) == result(here));
        }
    }
}

/// A cast to the type that the pointee already has changes nothing: the
/// chain that is this one cast hands out the pointer it started from.
pub proof fn law_cast_to_same_type(w: World, ty: Seq<Tree>, p: Place)
    requires
        (w.named)(ty) == p.ty,
    ensures
        evaluate(w, seq![Access::Cast { ty, arrow: false }], p) == Some(Value::Pointer(p)),
{
    let chain = seq![Access::Cast { ty, arrow: false }];
    law_expansion_composes(w, chain, p);
    assert(chain.drop_first() =~= Seq::<Access>::empty());
    assert(navigate(w, chain, Held::Wrapper(p)) == navigate(
        w,
        Seq::<Access>::empty(),
        reach(w, chain[0], Held::Wrapper(p)),
    ));
}

/// What the chain of two accesses reaches from a wrapper.
proof fn lemma_navigate_two(w: World, first: Access, second: Access, p: Place)
    ensures
        navigate(w, seq![first, second], Held::Wrapper(p)) == reach(
            w,
            second,
            reach(w, first, Held::Wrapper(p)),
        ),
{
    let chain = seq![first, second];
    let start = Held::Wrapper(p);
    assert(chain.drop_first() =~= seq![second]);
    assert(seq![second].drop_first() =~= Seq::<Access>::empty());
    assert(navigate(w, seq![second], reach(w, first, start)) == navigate(
        w,
        Seq::<Access>::empty(),
        reach(w, second, reach(w, first, start)),
    ));
}

/// What the chain of one access reaches from a wrapper.
proof fn lemma_navigate_one(w: World, only: Access, p: Place)
    ensures
        navigate(w, seq![only], Held::Wrapper(p)) == reach(w, only, Held::Wrapper(p)),
{
    let chain = seq![only];
    assert(chain.drop_first() =~= Seq::<Access>::empty());
    assert(navigate(w, chain, Held::Wrapper(p)) == navigate(
        w,
        Seq::<Access>::empty(),
        reach(w, only, Held::Wrapper(p)),
    ));
}

/// An offset forwards and the same offset backwards, both in elements or both
/// in bytes, lead back to the pointer they started from.
pub proof fn law_offset_round_trip(w: World, byte: bool, amount: Amount, p: Place)
    ensures
        evaluate(
            w,
            seq![
                Access::Offset { byte, direction: OffsetType::Add, amount },
                Access::Offset { byte, direction: OffsetType::Sub, amount },
            ],
            p,
        ) == Some(Value::Pointer(p)),
{
    let forth = Access::Offset { byte, direction: OffsetType::Add, amount };
    let back = Access::Offset { byte, direction: OffsetType::Sub, amount };
    law_expansion_composes(w, seq![forth, back], p);
    lemma_navigate_two(w, forth, back, p);
}

/// Whether a chain holds a dereference, in itself or in a group inside it.
pub open spec fn reads(chain: Seq<Access>) -> bool
    decreases chain,
{
    exists|i: int|
        0 <= i < chain.len() && (#[trigger] chain[i] == Access::Field(Member::Deref) || (
        chain[i] matches Access::Group(inner) && reads(inner)))
}

/// Whether the binding holds a wrapper of the flavor `flavor`, or nothing.
pub open spec fn keeps(h: Held, flavor: crate::helper::Flavor) -> bool {
    match h {
        Held::Wrapper(q) => q.flavor == flavor,
        Held::Bare(_) => false,
        Held::Stuck => true,
    }
}

/// A chain without a dereference reaches a wrapper of the flavor it started
/// from, if it reaches anything.
pub proof fn lemma_navigate_keeps_flavor(
    w: World,
    chain: Seq<Access>,
    h: Held,
    flavor: crate::helper::Flavor,
)
    requires
        !reads(chain),
        keeps(h, flavor),
    ensures
        keeps(navigate(w, chain, h), flavor),
    decreases chain,
{
    if chain.len() > 0 {
        let first = chain[0];
        let rest = chain.drop_first();
        assert(first != Access::Field(Member::Deref));
        assert(!reads(rest)) by {
            if reads(rest) {
                let i = choose|i: int|
                    0 <= i < rest.len() && (#[trigger] rest[i] == Access::Field(Member::Deref) || (
                    rest[i] matches Access::Group(inner) && reads(inner)));
                assert(chain[i + 1] == rest[i]);
            }
        }
        match first {
            Access::Group(inner) => {
                assert(!reads(inner));
                lemma_navigate_keeps_flavor(w, inner, settle(h), flavor);
            },
            _ => {},
        }
        lemma_navigate_keeps_flavor(w, rest, reach(w, first, h), flavor);
    }
}

/// The flavor is kept: the expansion of a chain without a dereference hands
/// out a pointer of the flavor of the pointer it started from, read-only,
/// mutable or guaranteed non-null, if it hands out anything.
pub proof fn law_flavor_is_kept(w: World, chain: Seq<Access>, p: Place)
    requires
        !reads(chain),
    ensures
        match evaluate(w, chain, p) {
            Some(Value::Pointer(q)) => q.flavor == p.flavor,
            Some(Value::Data(_)) => false,
            None => true,
        },
{
    law_expansion_composes(w, chain, p);
    lemma_navigate_keeps_flavor(w, chain, Held::Wrapper(p), p.flavor);
}

/// An index is a cast and an offset: where the pointee is a sequence of the
/// type that `ty` names, `[index]` computes what `as ty => +(index)`
/// computes.
pub proof fn law_index_is_cast_then_add(w: World, index: Seq<Tree>, ty: Seq<Tree>, p: Place)
    requires
        (w.element)(p.ty) == Some((w.named)(ty)),
    ensures
        evaluate(w, seq![Access::Index(index)], p) == evaluate(
            w,
            seq![
                Access::Cast { ty, arrow: true },
                Access::Offset {
                    byte: false,
                    direction: OffsetType::Add,
                    amount: Amount::Grouped(index),
                },
            ],
            p,
        ),
{
    let indexed = Access::Index(index);
    let recast = Access::Cast { ty, arrow: true };
    let advanced = Access::Offset {
        byte: false,
        direction: OffsetType::Add,
        amount: Amount::Grouped(index),
    };
    law_expansion_composes(w, seq![indexed], p);
    law_expansion_composes(w, seq![recast, advanced], p);
    lemma_navigate_one(w, indexed, p);
    lemma_navigate_two(w, recast, advanced, p);
}

/// Bytes and elements differ by the size of the pointee: an offset forwards
/// by as many bytes as the pointee type has computes what an offset forwards
/// by one element computes.
pub proof fn law_bytes_of_one_element(w: World, bytes: Amount, one: Amount, p: Place)
    requires
        (w.value)(crate::template::amount_tokens(bytes)) == (w.size)(p.ty),
        (w.value)(crate::template::amount_tokens(one)) == 1,
    ensures
        evaluate(
            w,
            seq![Access::Offset { byte: true, direction: OffsetType::Add, amount: bytes }],
            p,
        ) == evaluate(
            w,
            seq![Access::Offset { byte: false, direction: OffsetType::Add, amount: one }],
            p,
        ),
{
    let by_bytes = Access::Offset { byte: true, direction: OffsetType::Add, amount: bytes };
    let by_element = Access::Offset { byte: false, direction: OffsetType::Add, amount: one };
    law_expansion_composes(w, seq![by_bytes], p);
    law_expansion_composes(w, seq![by_element], p);
    lemma_navigate_one(w, by_bytes, p);
    lemma_navigate_one(w, by_element, p);
}

} // verus!
