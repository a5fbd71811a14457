//! What holds of the machine, proved from its model.

use crate::ast::{Case_, Exp_, Span};
use crate::model::{
    alloc_spec, breakpoint_spec, case_matches, core_wf, descend, first_match, frame_cont_wf,
    frame_spec,
    next_pointer, over_step_limit, pop_frame_spec, push_decs, reduce_dec, reduce_exp,
    resume_spec, run_spec, run_stop, stack_wf, step_spec, store_dense, store_has_room,
    switch_spec, taken, top_takes_pointer,
};
use crate::value::ValueView;
use crate::vm::store::lemma_alloc_fresh;
use crate::vm_types::{
    ContView, Core, CoreView, EnvView, FrameContView, FrameView, InterruptionView, Limits,
    LimitsView, Signal, SignalView,
};
use vstd::prelude::*;

verus! {

/// Whether the store of `after` is dense if that of `before` is dense and
/// has room.
pub open spec fn keeps_dense(before: CoreView, after: CoreView) -> bool {
    store_dense(before.store) && store_has_room(before.store) ==> store_dense(after.store)
}

/// A stack stays well formed under a push of a well-formed frame.
pub proof fn lemma_stack_wf_push(stack: Seq<FrameView>, frame: FrameView)
    requires
        stack_wf(stack),
        frame_cont_wf(frame.cont),
    ensures
        stack_wf(seq![frame] + stack),
{
    let s = seq![frame] + stack;
    assert forall|i: int| 0 <= i < s.len() implies frame_cont_wf(#[trigger] s[i].cont) by {
        if i > 0 {
            assert(s[i] == stack[i - 1]);
        }
    }
}

/// A stack stays well formed when its top frame leaves.
pub proof fn lemma_stack_wf_pop(stack: Seq<FrameView>)
    requires
        stack_wf(stack),
        stack.len() > 0,
    ensures
        stack_wf(stack.drop_first()),
        frame_cont_wf(stack[0].cont),
{
    let s = stack.drop_first();
    assert forall|i: int| 0 <= i < s.len() implies frame_cont_wf(#[trigger] s[i].cont) by {
        assert(s[i] == stack[i + 1]);
    }
}

/// A reduction of an expression leaves a state from which the machine can
/// step, and touches neither the step count nor the store.
pub proof fn lemma_reduce_exp_wf(c: CoreView, e: Exp_)
    requires
        stack_wf(c.stack),
    ensures
        reduce_exp(c, e) is Ok ==> core_wf(reduce_exp(c, e)->Ok_0),
        reduce_exp(c, e) is Ok ==> reduce_exp(c, e)->Ok_0.step == c.step,
        reduce_exp(c, e) is Ok ==> reduce_exp(c, e)->Ok_0.store == c.store,
{
    match reduce_exp(c, e) {
        Ok(n) => {
            if n.stack != c.stack {
                let f = n.stack[0];
                assert(n.stack =~= seq![f] + c.stack);
                assert(frame_cont_wf(f.cont));
                lemma_stack_wf_push(c.stack, f);
            }
        },
        Err(_) => {},
    }
}

/// What a frame continuation does leaves a state from which the machine
/// can step, counts no step, and keeps a dense store dense.
pub proof fn lemma_frame_wf(c: CoreView, frame_cont: FrameContView, v: ValueView)
    requires
        stack_wf(c.stack),
        frame_cont_wf(frame_cont),
    ensures
        frame_spec(c, frame_cont, v) is Ok ==> core_wf(frame_spec(c, frame_cont, v)->Ok_0),
        frame_spec(c, frame_cont, v) is Ok ==> frame_spec(c, frame_cont, v)->Ok_0.step == c.step,
        frame_spec(c, frame_cont, v) is Ok ==> keeps_dense(c, frame_spec(c, frame_cont, v)->Ok_0),
{
    match frame_spec(c, frame_cont, v) {
        Ok(n) => {
            if n.stack != c.stack {
                let f = n.stack[0];
                assert(n.stack =~= seq![f] + c.stack);
                assert(frame_cont_wf(f.cont));
                lemma_stack_wf_push(c.stack, f);
            }
            match frame_cont {
                FrameContView::Var(x, k) => {
                    if store_dense(c.store) {
                        lemma_alloc_fresh(c, v);
                    }
                },
                FrameContView::Assign2(p) => {
                    assert(n.store.dom() =~= c.store.dom());
                },
                _ => {},
            }
        },
        Err(_) => {},
    }
}

/// A step that succeeds leaves a state from which the machine can step
/// again, whose continuation in particular is not `Taken`. It counts one
/// step, and keeps a dense store dense.
pub proof fn lemma_step_wf(c: CoreView, limits: LimitsView)
    requires
        core_wf(c),
    ensures
        step_spec(c, limits) is Ok ==> core_wf(step_spec(c, limits)->Ok_0),
        step_spec(c, limits) is Ok ==> step_spec(c, limits)->Ok_0.step == c.step + 1,
        step_spec(c, limits) is Ok ==> keeps_dense(c, step_spec(c, limits)->Ok_0),
{
    if step_spec(c, limits) is Ok {
        let c1 = CoreView { step: (c.step + 1) as usize, ..c };
        let t = taken(c1);
        match c.cont {
            ContView::Taken => {},
            ContView::Exp_(e, decs) => {
                if decs.len() == 0 {
                    lemma_reduce_exp_wf(t, e);
                } else {
                    let p = push_decs(t, decs);
                    lemma_stack_wf_push(t.stack, p.stack[0]);
                    assert(p.stack =~= seq![p.stack[0]] + t.stack);
                    lemma_reduce_exp_wf(p, e);
                }
            },
            ContView::Value(v) => {
                if v is Pointer && !top_takes_pointer(c1) {
                } else {
                    assert(step_spec(c, limits) == resume_spec(t, v));
                    lemma_stack_wf_pop(t.stack);
                    lemma_frame_wf(pop_frame_spec(t), t.stack[0].cont, v);
                }
            },
            ContView::Decs(decs) => {
                if decs.len() > 0 {
                    match reduce_dec(t, decs) {
                        Ok(n) => {
                            if n.stack != t.stack {
                                let f = n.stack[0];
                                assert(n.stack =~= seq![f] + t.stack);
                                lemma_stack_wf_push(t.stack, f);
                            }
                        },
                        Err(_) => {},
                    }
                }
            },
        }
    }
}

/// One round of a run: a state at a breakpoint stops the run; else the
/// run is the step's interruption, or the run from the next state.
pub proof fn lemma_run_unfold(c: CoreView, limits: LimitsView)
    requires
        core_wf(c),
    ensures
        breakpoint_spec(c, limits) is None && step_spec(c, limits) is Ok ==> run_spec(c, limits)
            == run_spec(step_spec(c, limits)->Ok_0, limits),
        breakpoint_spec(c, limits) is None && step_spec(c, limits) is Ok ==> run_stop(c, limits)
            == run_stop(step_spec(c, limits)->Ok_0, limits),
{
    lemma_step_wf(c, limits);
}

/// Without breakpoints a run does not stop at one.
pub proof fn lemma_no_breakpoints(c: CoreView, limits: LimitsView)
    requires
        limits.breakpoints.len() == 0,
    ensures
        !(run_spec(c, limits) is Breakpoint),
    decreases usize::MAX - c.step,
{
    match step_spec(c, limits) {
        Ok(next) => {
            if next.step > c.step {
                lemma_no_breakpoints(next, limits);
            }
        },
        Err(_) => {},
    }
}

/// A frame gives back what it captured. After a push that descends into
/// `e`, a pop of that frame leaves the state that was there before the
/// push, source and expected type included, but for the continuation.
pub proof fn lemma_push_then_pop(c: CoreView, frame_cont: FrameContView, e: Exp_)
    requires
        !(frame_cont is Decs),
    ensures
        pop_frame_spec(descend(c, frame_cont, e)) == (CoreView {
            cont: ContView::Exp_(e, Seq::empty()),
            ..c
        }),
{
    let pushed = descend(c, frame_cont, e);
    assert(pushed.stack.drop_first() =~= c.stack);
}

/// Whether `limits` lets a core that has taken `step` steps take another.
pub open spec fn may_step(step: usize, limits: LimitsView) -> bool {
    step < usize::MAX && !over_step_limit(step, limits)
}

/// A pointer that is not on its way to the left-hand side of an
/// assignment is dereferenced: the step puts the value of its cell in
/// its place, counts itself, and changes nothing else. A pointer to no
/// cell is dangling.
pub proof fn lemma_pointer_is_dereferenced(c: CoreView, limits: LimitsView, p: usize)
    requires
        c.cont == ContView::Value(ValueView::Pointer(p)),
        !top_takes_pointer(c),
        may_step(c.step, limits),
    ensures
        c.store.contains_key(p) ==> step_spec(c, limits) == Ok::<CoreView, InterruptionView>(
            CoreView { cont: ContView::Value(c.store[p]), step: (c.step + 1) as usize, ..c },
        ),
        !c.store.contains_key(p) ==> step_spec(c, limits) == Err::<CoreView, InterruptionView>(
            InterruptionView::Dangling(p),
        ),
{
}

/// A pointer on its way to the left-hand side of an assignment stays a
/// pointer: the frame on top receives it as it is.
pub proof fn lemma_pointer_reaches_assignment(c: CoreView, limits: LimitsView, p: usize, e2: Exp_)
    requires
        c.cont == ContView::Value(ValueView::Pointer(p)),
        c.stack.len() > 0,
        c.stack[0].cont == FrameContView::Assign1(e2),
        may_step(c.step, limits),
    ensures
        step_spec(c, limits) is Ok,
        step_spec(c, limits)->Ok_0.stack[0].cont == FrameContView::Assign2(p),
        step_spec(c, limits)->Ok_0.cont == ContView::Exp_(e2, Seq::empty()),
{
}

/// A value that is no pointer goes to the frame on top of the stack; with
/// no frame left, evaluation is done, and the value is its result.
pub proof fn lemma_value_resumes_or_ends(c: CoreView, limits: LimitsView, v: ValueView)
    requires
        c.cont == ContView::Value(v),
        !(v is Pointer),
        may_step(c.step, limits),
    ensures
        c.stack.len() == 0 ==> step_spec(c, limits) == Err::<CoreView, InterruptionView>(
            InterruptionView::Done(v),
        ),
        c.stack.len() > 0 ==> step_spec(c, limits) == frame_spec(
            pop_frame_spec(taken(CoreView { step: (c.step + 1) as usize, ..c })),
            c.stack[0].cont,
            v,
        ),
{
}

/// A run from a state that stands at a breakpoint stops there, before any
/// step.
pub proof fn lemma_breakpoint_stops_the_run(c: CoreView, limits: LimitsView, span: Span)
    requires
        breakpoint_spec(c, limits) == Some(span),
    ensures
        run_spec(c, limits) == SignalView::Breakpoint(span),
        run_stop(c, limits) == c,
{
}

/// Two allocations in a row, in a dense store with room for both, give
/// two addresses of which neither was in use and the second is the higher.
pub proof fn lemma_alloc_increases(c: CoreView, v1: ValueView, v2: ValueView)
    requires
        store_dense(c.store),
        store_has_room(c.store),
    ensures
        !c.store.contains_key(next_pointer(c.store)),
        !alloc_spec(c, v1).store.contains_key(next_pointer(alloc_spec(c, v1).store)),
        next_pointer(alloc_spec(c, v1).store) > next_pointer(c.store),
        alloc_spec(c, v1).store.contains_key(next_pointer(c.store)),
{
    lemma_alloc_fresh(c, v1);
    lemma_alloc_fresh(alloc_spec(c, v1), v2);
}

/// Evaluation is deterministic: runs from equal states under equal limits
/// end with equal signals, whatever the representation of the states.
pub proof fn lemma_run_deterministic(
    core1: Core,
    limits1: Limits,
    signal1: Signal,
    core2: Core,
    limits2: Limits,
    signal2: Signal,
)
    requires
        core1@ == core2@,
        limits1@ == limits2@,
        signal1@ == run_spec(core1@, limits1@),
        signal2@ == run_spec(core2@, limits2@),
    ensures
        signal1@ == signal2@,
{
}

/// The first match at or after `from` is at `m` exactly if the case at
/// `m` matches and none between `from` and `m` does.
pub proof fn lemma_first_match_is(env: EnvView, cases: Seq<Case_>, v: ValueView, from: int, m: int)
    requires
        0 <= from <= m < cases.len(),
        case_matches(env, cases[m], v),
        forall|k: int| from <= k < m ==> !case_matches(env, cases[k], v),
    ensures
        first_match(env, cases, v, from) == Some(m),
    decreases m - from,
{
    if from < m {
        lemma_first_match_is(env, cases, v, from + 1, m);
    }
}

/// The first match, where there is one, is a case that matches and that no
/// matching case precedes; where there is none, no case matches.
pub proof fn lemma_first_match_found(env: EnvView, cases: Seq<Case_>, v: ValueView, from: int)
    requires
        0 <= from <= cases.len(),
    ensures
        match first_match(env, cases, v, from) {
            Some(m) => from <= m < cases.len() && case_matches(env, cases[m], v) && forall|k: int|
                from <= k < m ==> !case_matches(env, cases[k], v),
            None => forall|k: int| from <= k < cases.len() ==> !case_matches(env, cases[k], v),
        },
    decreases cases.len() - from,
{
    if from < cases.len() && !case_matches(env, cases[from], v) {
        lemma_first_match_found(env, cases, v, from + 1);
    }
}

/// The cases `cases` with those at `i` and `j` in each other's place.
pub open spec fn swap_cases(cases: Seq<Case_>, i: int, j: int) -> Seq<Case_> {
    cases.update(i, cases[j]).update(j, cases[i])
}

/// A switch takes the first case that matches: when a matching case
/// changes places with an earlier case that does not match, the switch
/// continues as before, unless a case between the two matches and none
/// before them does (then that case was taken, and is now preceded).
pub proof fn lemma_switch_first_match(c: CoreView, v: ValueView, cases: Seq<Case_>, i: int, j: int)
    requires
        0 <= i < j < cases.len(),
        !case_matches(c.env, cases[i], v),
        case_matches(c.env, cases[j], v),
        (exists|k: int| 0 <= k < i && case_matches(c.env, cases[k], v)) || (forall|k: int|
            i < k < j ==> !case_matches(c.env, cases[k], v)),
    ensures
        switch_spec(c, v, swap_cases(cases, i, j)) == switch_spec(c, v, cases),
{
    let swapped = swap_cases(cases, i, j);
    lemma_first_match_found(c.env, cases, v, 0);
    let m = first_match(c.env, cases, v, 0)->0;
    assert(first_match(c.env, cases, v, 0) is Some);
    assert(m <= j);
    if m < i {
        assert forall|k: int| 0 <= k < m implies !case_matches(c.env, swapped[k], v) by {
            assert(swapped[k] == cases[k]);
        }
        assert(swapped[m] == cases[m]);
        lemma_first_match_is(c.env, swapped, v, 0, m);
    } else {
        assert(m == j);
        assert forall|k: int| 0 <= k < i implies !case_matches(c.env, swapped[k], v) by {
            assert(swapped[k] == cases[k]);
        }
        assert(swapped[i] == cases[j]);
        lemma_first_match_is(c.env, swapped, v, 0, i);
    }
}

/// When a matching case moves behind another matching case, the switch
/// takes that other case.
pub proof fn lemma_switch_later_match(c: CoreView, v: ValueView, cases: Seq<Case_>, i: int, j: int)
    requires
        0 <= i < j < cases.len(),
        case_matches(c.env, cases[i], v),
        case_matches(c.env, cases[j], v),
        forall|k: int| 0 <= k < i ==> !case_matches(c.env, cases[k], v),
    ensures
        first_match(c.env, cases, v, 0) == Some(i),
        first_match(c.env, swap_cases(cases, i, j), v, 0) == Some(i),
        swap_cases(cases, i, j)[i] == cases[j],
{
    let swapped = swap_cases(cases, i, j);
    lemma_first_match_is(c.env, cases, v, 0, i);
    assert forall|k: int| 0 <= k < i implies !case_matches(c.env, swapped[k], v) by {
        assert(swapped[k] == cases[k]);
    }
    lemma_first_match_is(c.env, swapped, v, 0, i);
}

/// An assignment is read back. When the value `v` reaches the frame that
/// assigns to the cell at `p`, the step puts `v` there. In any later state
/// `d` with that store in which `x` is bound to the pointer `p`, a use of
/// `x` that is not the left-hand side of an assignment gives `v` in two
/// steps: the first finds the pointer, the second dereferences it.
pub proof fn lemma_assign_round_trip(
    c: CoreView,
    d: CoreView,
    limits: LimitsView,
    x: Exp_,
    p: usize,
    v: ValueView,
)
    requires
        c.cont == ContView::Value(v),
        !(v is Pointer),
        c.stack.len() > 0,
        c.stack[0].cont == FrameContView::Assign2(p),
        c.store.contains_key(p),
        may_step(c.step, limits),
        *x.0 is Var,
        d.cont == ContView::Exp_(x, Seq::empty()),
        d.env.contains_key((*x.0)->Var_0@),
        d.env[(*x.0)->Var_0@] == ValueView::Pointer(p),
        !top_takes_pointer(d),
        may_step(d.step, limits),
        may_step((d.step + 1) as usize, limits),
        step_spec(c, limits) is Ok ==> d.store == step_spec(c, limits)->Ok_0.store,
    ensures
        step_spec(c, limits) is Ok,
        step_spec(c, limits)->Ok_0.store == c.store.insert(p, v),
        step_spec(c, limits)->Ok_0.cont == ContView::Value(ValueView::Unit),
        step_spec(d, limits) is Ok,
        step_spec(d, limits)->Ok_0 == (CoreView {
            cont: ContView::Value(ValueView::Pointer(p)),
            step: (d.step + 1) as usize,
            ..d
        }),
        step_spec(step_spec(d, limits)->Ok_0, limits) == Ok::<CoreView, InterruptionView>(
            CoreView { cont: ContView::Value(v), step: (d.step + 2) as usize, ..d },
        ),
{
    let d1 = step_spec(d, limits)->Ok_0;
    assert(d1.stack == d.stack);
    lemma_pointer_is_dereferenced(d1, limits, p);
}

} // verus!
