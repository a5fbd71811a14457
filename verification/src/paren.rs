//! Parentheses are transparent: an expression in parentheses evaluates to
//! what the expression evaluates to.
//!
//! The proof is a simulation. The machine that evaluates `(e)` runs as the
//! machine that evaluates `e` does, two steps behind it and with one more
//! frame at the bottom of its stack: the frame of the parentheses, which
//! hands on the value that it receives. Sources may differ between the two:
//! no rule reads them, and a run without breakpoints does not either.

use crate::ast::{Dec, Dec_, Exp, Exp_};
use crate::model::{
    breakpoint_spec, dispatch_spec, frame_spec, init_spec, no_limits, pop_frame_spec, push_decs,
    reduce_dec, reduce_exp, resume_spec, run_spec, step_spec, taken, top_takes_pointer,
};
use crate::value::ValueView;
use crate::vm_types::{
    ContView, CoreView, FrameContView, FrameView, InterruptionView, LimitsView, SignalView,
};
use vstd::prelude::*;

verus! {

/// The number of steps that a run from `c` takes before it ends.
pub open spec fn run_len(c: CoreView, limits: LimitsView) -> nat
    decreases usize::MAX - c.step,
{
    match breakpoint_spec(c, limits) {
        Some(_) => 0,
        None => match step_spec(c, limits) {
            Ok(next) => if next.step > c.step {
                1 + run_len(next, limits)
            } else {
                0
            },
            Err(_) => 0,
        },
    }
}

/// Whether two frames differ at most in the source that they record.
pub open spec fn frame_similar(f: FrameView, g: FrameView) -> bool {
    f.env == g.env && f.cont == g.cont && f.cont_prim_type == g.cont_prim_type
}

/// Whether two continuations differ at most in the source of the
/// expression that is next.
pub open spec fn cont_similar(k: ContView, l: ContView) -> bool {
    match (k, l) {
        (ContView::Exp_(e1, d1), ContView::Exp_(e2, d2)) => e1.0 == e2.0 && d1 == d2,
        _ => k == l,
    }
}

/// Whether the stack `t` is the stack `s`, up to sources, on top of one
/// frame of parentheses.
pub open spec fn stack_under(s: Seq<FrameView>, t: Seq<FrameView>) -> bool {
    &&& t.len() == s.len() + 1
    &&& forall|i: int| 0 <= i < s.len() ==> frame_similar(#[trigger] s[i], t[i])
    &&& t[t.len() - 1].cont == FrameContView::Paren
}

/// Whether `b` is `a` inside parentheses, but for the continuation: same
/// store, environment and expected type; the stack of `a` on top of the
/// frame of the parentheses; and one more step counted.
pub open spec fn rest_under_paren(a: CoreView, b: CoreView) -> bool {
    &&& a.store == b.store
    &&& a.env == b.env
    &&& a.cont_prim_type == b.cont_prim_type
    &&& stack_under(a.stack, b.stack)
    &&& b.step == a.step + 1
}

/// Whether `b` is `a` inside parentheses.
pub open spec fn under_paren(a: CoreView, b: CoreView) -> bool {
    rest_under_paren(a, b) && cont_similar(a.cont, b.cont)
}

/// The relation of the stacks survives a push of similar frames.
proof fn lemma_stack_under_push(s: Seq<FrameView>, t: Seq<FrameView>, f: FrameView, g: FrameView)
    requires
        stack_under(s, t),
        frame_similar(f, g),
    ensures
        stack_under(seq![f] + s, seq![g] + t),
{
    let s2 = seq![f] + s;
    let t2 = seq![g] + t;
    assert forall|i: int| 0 <= i < s2.len() implies frame_similar(#[trigger] s2[i], t2[i]) by {
        if i > 0 {
            assert(s2[i] == s[i - 1]);
            assert(t2[i] == t[i - 1]);
        }
    }
    assert(t2[t2.len() - 1] == t[t.len() - 1]);
}

/// The relation of the stacks survives a pop, and the frames that leave
/// are similar.
proof fn lemma_stack_under_pop(s: Seq<FrameView>, t: Seq<FrameView>)
    requires
        stack_under(s, t),
        s.len() > 0,
    ensures
        stack_under(s.drop_first(), t.drop_first()),
        frame_similar(s[0], t[0]),
{
    let s2 = s.drop_first();
    let t2 = t.drop_first();
    assert forall|i: int| 0 <= i < s2.len() implies frame_similar(#[trigger] s2[i], t2[i]) by {
        assert(s2[i] == s[i + 1]);
        assert(t2[i] == t[i + 1]);
    }
    assert(t2[t2.len() - 1] == t[t.len() - 1]);
}

/// Whether two outcomes are either interruptions, the same if either is
/// `Done`, or states of which the second is the first inside parentheses.
pub open spec fn outcomes_under_paren(
    ra: Result<CoreView, InterruptionView>,
    rb: Result<CoreView, InterruptionView>,
) -> bool {
    match ra {
        Ok(a2) => rb is Ok && under_paren(a2, rb->Ok_0),
        Err(i) => rb == ra,
    }
}

/// Reductions of one expression, in states of which the second is the
/// first inside parentheses, give outcomes that are so related.
proof fn lemma_reduce_under(a: CoreView, b: CoreView, ea: Exp_, eb: Exp_)
    requires
        rest_under_paren(a, b),
        ea.0 == eb.0,
    ensures
        outcomes_under_paren(reduce_exp(a, ea), reduce_exp(b, eb)),
{
    match reduce_exp(a, ea) {
        Ok(a2) => {
            let b2 = reduce_exp(b, eb)->Ok_0;
            if a2.stack != a.stack {
                let f = a2.stack[0];
                let g = b2.stack[0];
                assert(a2.stack =~= seq![f] + a.stack);
                assert(b2.stack =~= seq![g] + b.stack);
                lemma_stack_under_push(a.stack, b.stack, f, g);
            }
        },
        Err(_) => {},
    }
}

/// One frame continuation, given one value in states of which the second
/// is the first inside parentheses, gives outcomes that are so related.
proof fn lemma_frame_under(a: CoreView, b: CoreView, frame_cont: FrameContView, v: ValueView)
    requires
        rest_under_paren(a, b),
    ensures
        outcomes_under_paren(frame_spec(a, frame_cont, v), frame_spec(b, frame_cont, v)),
{
    match frame_spec(a, frame_cont, v) {
        Ok(a2) => {
            let b2 = frame_spec(b, frame_cont, v)->Ok_0;
            if a2.stack != a.stack {
                let f = a2.stack[0];
                let g = b2.stack[0];
                assert(a2.stack =~= seq![f] + a.stack);
                assert(b2.stack =~= seq![g] + b.stack);
                lemma_stack_under_push(a.stack, b.stack, f, g);
            }
        },
        Err(_) => {},
    }
}

/// So does the first of a sequence of declarations.
proof fn lemma_dec_under(a: CoreView, b: CoreView, decs: Seq<Dec_>)
    requires
        rest_under_paren(a, b),
        decs.len() > 0,
    ensures
        outcomes_under_paren(reduce_dec(a, decs), reduce_dec(b, decs)),
{
    match reduce_dec(a, decs) {
        Ok(a2) => {
            let b2 = reduce_dec(b, decs)->Ok_0;
            if a2.stack != a.stack {
                let f = a2.stack[0];
                let g = b2.stack[0];
                assert(a2.stack =~= seq![f] + a.stack);
                assert(b2.stack =~= seq![g] + b.stack);
                lemma_stack_under_push(a.stack, b.stack, f, g);
            }
        },
        Err(_) => {},
    }
}

/// Whether `b` holds the value `v`, which is no pointer, with nothing
/// left on its stack.
pub open spec fn holds_result(b: CoreView, v: ValueView) -> bool {
    b.stack.len() == 0 && b.cont == ContView::Value(v) && !(v is Pointer)
}

/// One step of the simulation. Where `a` steps to a state, `b` steps to
/// that state inside parentheses. Where `a` is done with the value `v`,
/// `b` pops the frame of the parentheses and holds `v`.
pub proof fn lemma_paren_step(a: CoreView, b: CoreView)
    requires
        under_paren(a, b),
        b.step < usize::MAX,
    ensures
        match step_spec(a, no_limits()) {
            Ok(a2) => step_spec(b, no_limits()) is Ok && under_paren(
                a2,
                step_spec(b, no_limits())->Ok_0,
            ),
            Err(InterruptionView::Done(v)) => step_spec(b, no_limits()) is Ok && holds_result(
                step_spec(b, no_limits())->Ok_0,
                v,
            ) && step_spec(b, no_limits())->Ok_0.step == b.step + 1,
            Err(_) => true,
        },
{
    let a1 = CoreView { step: (a.step + 1) as usize, ..a };
    let b1 = CoreView { step: (b.step + 1) as usize, ..b };
    let ta = taken(a1);
    let tb = taken(b1);
    assert(rest_under_paren(ta, tb));
    assert(step_spec(a, no_limits()) == dispatch_spec(a1));
    assert(step_spec(b, no_limits()) == dispatch_spec(b1));
    match a.cont {
        ContView::Taken => {},
        ContView::Exp_(ea, decs) => {
            let eb = b.cont->Exp__0;
            if decs.len() == 0 {
                lemma_reduce_under(ta, tb, ea, eb);
            } else {
                let pa = push_decs(ta, decs);
                let pb = push_decs(tb, decs);
                assert(pa.stack =~= seq![pa.stack[0]] + ta.stack);
                assert(pb.stack =~= seq![pb.stack[0]] + tb.stack);
                lemma_stack_under_push(ta.stack, tb.stack, pa.stack[0], pb.stack[0]);
                lemma_reduce_under(pa, pb, ea, eb);
            }
        },
        ContView::Value(v) => {
            if a.stack.len() == 0 {
                assert(b.stack.len() == 1);
                assert(b.stack[0].cont == FrameContView::Paren);
                assert(!top_takes_pointer(b1));
                assert(!top_takes_pointer(a1));
                if !(v is Pointer) {
                    assert(dispatch_spec(b1) == resume_spec(tb, v));
                    assert(pop_frame_spec(tb).stack =~= Seq::empty());
                }
            } else {
                lemma_stack_under_pop(a.stack, b.stack);
                assert(top_takes_pointer(a1) == top_takes_pointer(b1));
                if v is Pointer && !top_takes_pointer(a1) {
                } else {
                    assert(dispatch_spec(a1) == resume_spec(ta, v));
                    assert(dispatch_spec(b1) == resume_spec(tb, v));
                    assert(rest_under_paren(pop_frame_spec(ta), pop_frame_spec(tb)));
                    lemma_frame_under(pop_frame_spec(ta), pop_frame_spec(tb), ta.stack[0].cont, v);
                }
            }
        },
        ContView::Decs(decs) => {
            if decs.len() > 0 {
                lemma_dec_under(ta, tb, decs);
            }
        },
    }
}

/// A step that succeeds counts one step.
pub proof fn lemma_step_counts(c: CoreView, limits: LimitsView)
    ensures
        step_spec(c, limits) is Ok ==> step_spec(c, limits)->Ok_0.step == c.step + 1,
{
}

/// The simulation, run to its end: where the run from `a` is done with
/// `v`, so is the run from `b`, given that the step counter has room for
/// the two steps that `b` takes more.
pub proof fn lemma_paren_run(a: CoreView, b: CoreView, v: ValueView)
    requires
        under_paren(a, b),
        run_spec(a, no_limits()) == SignalView::Done(v),
        a.step + run_len(a, no_limits()) + 2 < usize::MAX,
    ensures
        run_spec(b, no_limits()) == SignalView::Done(v),
    decreases usize::MAX - a.step,
{
    let limits = no_limits();
    assert(breakpoint_spec(a, limits) is None);
    assert(breakpoint_spec(b, limits) is None);
    lemma_paren_step(a, b);
    lemma_step_counts(a, limits);
    lemma_step_counts(b, limits);
    match step_spec(a, limits) {
        Ok(a2) => {
            let b2 = step_spec(b, limits)->Ok_0;
            assert(run_spec(a, limits) == run_spec(a2, limits));
            assert(run_len(a, limits) == 1 + run_len(a2, limits));
            lemma_paren_run(a2, b2, v);
            assert(run_spec(b, limits) == run_spec(b2, limits));
        },
        Err(InterruptionView::Done(w)) => {
            let b2 = step_spec(b, limits)->Ok_0;
            assert(run_spec(a, limits) == SignalView::Done(w));
            assert(breakpoint_spec(b2, limits) is None);
            assert(step_spec(b2, limits) == Err::<CoreView, InterruptionView>(
                InterruptionView::Done(w),
            ));
            assert(run_spec(b2, limits) == SignalView::Done(w));
            assert(run_spec(b, limits) == run_spec(b2, limits));
        },
        Err(_) => {},
    }
}

/// Parentheses are transparent. Take a program that is one expression `e`,
/// and the program that is `e` in parentheses. If evaluation of the first,
/// without limits, is done with the value `v`, then so is evaluation of the
/// second. (The second takes two steps more, for which the step counter
/// must have room.)
pub proof fn lemma_paren_transparent(e: Exp_, paren: Exp_, plain: Dec_, wrapped: Dec_, v: ValueView)
    requires
        *plain.0 == Dec::Exp(e),
        *paren.0 == Exp::Paren(e),
        *wrapped.0 == Dec::Exp(paren),
        run_spec(init_spec(seq![plain]), no_limits()) == SignalView::Done(v),
        run_len(init_spec(seq![plain]), no_limits()) + 3 < usize::MAX,
    ensures
        run_spec(init_spec(seq![wrapped]), no_limits()) == SignalView::Done(v),
{
    let limits = no_limits();
    let a0 = init_spec(seq![plain]);
    let b0 = init_spec(seq![wrapped]);
    assert(breakpoint_spec(a0, limits) is None);
    assert(breakpoint_spec(b0, limits) is None);
    assert(seq![plain].drop_first() =~= Seq::<Dec_>::empty());
    assert(seq![wrapped].drop_first() =~= Seq::<Dec_>::empty());
    let a1 = step_spec(a0, limits)->Ok_0;
    let b1 = step_spec(b0, limits)->Ok_0;
    assert(step_spec(a0, limits) is Ok);
    assert(step_spec(b0, limits) is Ok);
    assert(breakpoint_spec(b1, limits) is None);
    let b2 = step_spec(b1, limits)->Ok_0;
    assert(step_spec(b1, limits) is Ok);
    assert(b2.stack =~= seq![b2.stack[0]]);
    assert(under_paren(a1, b2));
    assert(run_spec(a0, limits) == run_spec(a1, limits));
    assert(run_len(a0, limits) == 1 + run_len(a1, limits));
    lemma_paren_run(a1, b2, v);
    assert(run_spec(b1, limits) == run_spec(b2, limits));
    assert(run_spec(b0, limits) == run_spec(b1, limits));
}

} // verus!
