//! The machine: its rules as executable transitions, the stepper that
//! dispatches on the continuation, and the runner that iterates it.

use crate::ast::{
    BinOp, Case_, Cases, Dec, Dec_, Exp, Exp_, Pat, PrimType, Prog, RelOp, Source, Type, UnOp,
};
use crate::laws::{keeps_dense, lemma_no_breakpoints, lemma_run_unfold, lemma_step_wf};
use crate::model::{
    binop_spec, breakpoint_spec, case_matches, cont_source_of, core_wf, decs_source, descend,
    first_match, frame_cont_wf, frame_spec, init_spec, no_limits, over_step_limit,
    pattern_matches_spec, pop_frame_spec, push_cont, reduce_exp, relop_spec, resume_spec,
    run_spec, run_stop, stack_wf, step_spec, store_dense, switch_spec, top_takes_pointer,
    unop_spec, Computed, Outcome,
};
use crate::num::{
    int_add, int_eq, int_from_nat, int_neg, int_sub, nat_add, nat_eq, nat_gt, nat_rem, nat_sub, Nat,
};
use crate::persist::{
    decs_back, decs_from_vec, decs_front, decs_new, decs_pop_front, decs_view, env_clone, env_get,
    env_insert, env_new, env_view, exps_from_vec, exps_pop_front, stack_front, stack_new,
    stack_pop_front, stack_push_front, store_new,
};
use crate::value::{lemma_tuple_view, values_view, Pointer, Value, ValueView};
use crate::vm_types::{
    Breakpoint, Cont, Core, CoreView, Counts, Env, EnvView, Frame, FrameCont, Interruption,
    InterruptionView, Limit, Limits, Local, Signal, SignalView, Step,
};
use vstd::prelude::*;

pub mod store;

verus! {

/// Whether `r` is what the model computes: the value with that view, or
/// the interruption with that view.
pub open spec fn computes(r: Result<Value, Interruption>, spec: Computed) -> bool {
    match spec {
        Ok(v) => r is Ok && r->Ok_0@ == v,
        Err(i) => r is Err && r->Err_0@ == i,
    }
}

/// Whether a transition did what the model says: it succeeded and left the
/// state `after`, or it was interrupted as the model says.
pub open spec fn steps_to(r: Result<Step, Interruption>, after: CoreView, spec: Outcome) -> bool {
    match spec {
        Ok(c) => r is Ok && after == c,
        Err(i) => r is Err && r->Err_0@ == i,
    }
}

/// Whether `r` is the environment that the model gives, if it gives one.
pub open spec fn env_returns(r: Option<Env>, spec: Option<EnvView>) -> bool {
    match spec {
        Some(env) => r is Some && env_view(r->0) == env,
        None => r is None,
    }
}

/// Applies a unary operator.
pub fn unop(un: UnOp, v: Value) -> (r: Result<Value, Interruption>)
    ensures
        computes(r, unop_spec(un, v@)),
{
    match (un, v) {
        (UnOp::Neg, Value::Nat(n)) => {
            let i = int_from_nat(&n);
            Ok(Value::Int(int_neg(&i)))
        },
        _ => Err(Interruption::Unimplemented),
    }
}

/// Applies a binary operator, under the expected primitive type.
pub fn binop(cont_prim_type: &Option<PrimType>, op: BinOp, v1: Value, v2: Value) -> (r: Result<
    Value,
    Interruption,
>)
    ensures
        computes(r, binop_spec(*cont_prim_type, op, v1@, v2@)),
{
    match op {
        BinOp::Add => match (v1, v2) {
            (Value::Nat(n1), Value::Nat(n2)) => Ok(Value::Nat(nat_add(&n1, &n2))),
            (Value::Int(i1), Value::Int(i2)) => Ok(Value::Int(int_add(&i1, &i2))),
            _ => Err(Interruption::Unimplemented),
        },
        BinOp::Sub => match (v1, v2) {
            (Value::Nat(n1), Value::Nat(n2)) => {
                if nat_gt(&n2, &n1) {
                    Ok(Value::Int(int_sub(&int_from_nat(&n1), &int_from_nat(&n2))))
                } else {
                    Ok(Value::Nat(nat_sub(&n1, &n2)))
                }
            },
            (Value::Int(i1), Value::Int(i2)) => Ok(Value::Int(int_sub(&i1, &i2))),
            (Value::Int(i1), Value::Nat(n2)) => Ok(Value::Int(int_sub(&i1, &int_from_nat(&n2)))),
            _ => Err(Interruption::Unimplemented),
        },
        BinOp::WAdd => match cont_prim_type {
            None => Err(Interruption::AmbiguousOperation),
            Some(t) => match (v1, v2) {
                (Value::Nat(n1), Value::Nat(n2)) => match t {
                    PrimType::Nat => Ok(Value::Nat(nat_add(&n1, &n2))),
                    PrimType::Nat8 => Ok(
                        Value::Nat(nat_rem(&nat_add(&n1, &n2), &Nat::two_fifty_six())),
                    ),
                    _ => Err(Interruption::Unimplemented),
                },
                _ => Err(Interruption::Unimplemented),
            },
        },
        _ => Err(Interruption::Unimplemented),
    }
}

/// Applies a relational operator.
pub fn relop(_cont_prim_type: &Option<PrimType>, op: RelOp, v1: Value, v2: Value) -> (r: Result<
    Value,
    Interruption,
>)
    ensures
        computes(r, relop_spec(op, v1@, v2@)),
{
    match op {
        RelOp::Eq => match (v1, v2) {
            (Value::Nat(n1), Value::Nat(n2)) => Ok(Value::Bool(nat_eq(&n1, &n2))),
            (Value::Int(i1), Value::Int(i2)) => Ok(Value::Bool(int_eq(&i1, &i2))),
            _ => Err(Interruption::Unimplemented),
        },
        RelOp::Neq => match (v1, v2) {
            (Value::Nat(n1), Value::Nat(n2)) => Ok(Value::Bool(!nat_eq(&n1, &n2))),
            (Value::Int(i1), Value::Int(i2)) => Ok(Value::Bool(!int_eq(&i1, &i2))),
            _ => Err(Interruption::Unimplemented),
        },
        _ => Err(Interruption::Unimplemented),
    }
}

/// Pushes a frame that captures the current environment and expected
/// type and records `source`, then continues with `cont` at `cont_source`.
pub fn exp_conts_(
    core: &mut Core,
    source: Source,
    frame_cont: FrameCont,
    cont: Cont,
    cont_source: Source,
) -> (r: Result<Step, Interruption>)
    ensures
        r is Ok,
        final(core)@ == push_cont(old(core)@, source, frame_cont@, cont@, cont_source),
{
    let env = env_clone(&core.env);
    let frame = Frame { env, cont: frame_cont, cont_prim_type: core.cont_prim_type, source };
    stack_push_front(&mut core.stack, frame);
    core.cont = cont;
    core.cont_source = cont_source;
    Ok(Step {  })
}

/// Pushes a frame that records the current source, and descends into the
/// expression `cont`.
pub fn exp_conts(core: &mut Core, frame_cont: FrameCont, cont: Exp_) -> (r: Result<Step, Interruption>)
    ensures
        r is Ok,
        final(core)@ == descend(old(core)@, frame_cont@, cont),
{
    let cont_source = cont.1;
    let source = core.cont_source;
    exp_conts_(core, source, frame_cont, Cont::Exp_(cont, decs_new()), cont_source)
}

/// The environment that `env` becomes when `pat` matches `v`, if it does.
pub fn pattern_matches(env: &Env, pat: &Pat, v: &Value) -> (r: Option<Env>)
    ensures
        env_returns(r, pattern_matches_spec(env_view(*env), *pat, v@)),
    decreases pat,
{
    match (pat, v) {
        (Pat::Paren(p), v) => pattern_matches(env, &*p.0, v),
        (Pat::Var(x), v) => {
            let mut env = env_clone(env);
            env_insert(&mut env, x.clone(), v.clone());
            Some(env)
        },
        (Pat::Variant(id1, None), Value::Variant(id2, None)) => {
            if *id1 != *id2 {
                return None;
            }
            Some(env_clone(env))
        },
        (Pat::Variant(id1, Some(pat_)), Value::Variant(id2, Some(v_))) => {
            if *id1 != *id2 {
                return None;
            }
            pattern_matches(env, &*pat_.0, &**v_)
        },
        _ => None,
    }
}

/// Where no case before `to` matches, the first match is the first one
/// at or after `to`.
pub proof fn lemma_first_match_skip(env: EnvView, cases: Seq<Case_>, v: ValueView, from: int, to: int)
    requires
        0 <= from <= to <= cases.len(),
        forall|j: int| from <= j < to ==> !case_matches(env, cases[j], v),
    ensures
        first_match(env, cases, v, from) == first_match(env, cases, v, to),
    decreases to - from,
{
    if from < to {
        lemma_first_match_skip(env, cases, v, from + 1, to);
    }
}

/// Tries the cases in order, and continues with the body of the first one
/// whose pattern matches `v`, in the environment that the match gives.
pub fn switch(core: &mut Core, _limits: &Limits, v: Value, cases: Cases) -> (r: Result<
    Step,
    Interruption,
>)
    ensures
        steps_to(r, final(core)@, switch_spec(old(core)@, v@, cases.vec@)),
        final(core).counts == old(core).counts,
{
    let mut i: usize = 0;
    while i < cases.vec.len()
        invariant
            i <= cases.vec.len(),
            *core == *old(core),
            forall|j: int| 0 <= j < i ==> !case_matches(core@.env, cases.vec@[j], v@),
        decreases cases.vec.len() - i,
    {
        let case = &cases.vec[i];
        match pattern_matches(&core.env, &*case.0.pat.0, &v) {
            Some(env) => {
                proof {
                    lemma_first_match_skip(core@.env, cases.vec@, v@, 0, i as int);
                }
                core.env = env;
                core.cont_source = case.0.exp.1;
                core.cont = Cont::Exp_(case.0.exp.clone(), decs_new());
                return Ok(Step {  });
            },
            None => {},
        }
        i = i + 1;
    }
    proof {
        lemma_first_match_skip(core@.env, cases.vec@, v@, 0, i as int);
    }
    Err(Interruption::NoMatchingCase)
}

/// The source that covers a sequence of declarations.
pub fn source_from_decs(decs: &im_rc::Vector<Dec_>) -> (r: Source)
    ensures
        r == decs_source(decs_view(*decs)),
{
    match decs_front(decs) {
        None => Source::Unknown,
        Some(first) => match decs_back(decs) {
            None => first.1,
            Some(back) => first.1.expand(&back.1),
        },
    }
}

/// The source that covers a continuation.
pub fn source_from_cont(cont: &Cont) -> (r: Source)
    requires
        !(cont is Taken),
    ensures
        r == cont_source_of(cont@),
{
    match cont {
        Cont::Taken => Source::Unknown,
        Cont::Decs(decs) => source_from_decs(decs),
        Cont::Exp_(exp_, decs) => match decs_back(decs) {
            None => exp_.1,
            Some(back) => exp_.1.expand(&back.1),
        },
        Cont::Value(_v) => Source::Evaluation,
    }
}

/// Reduces an expression: it produces a value, or pushes one frame and
/// descends into a part of the expression.
pub fn exp_step(core: &mut Core, exp: Exp_, _limits: &Limits) -> (r: Result<Step, Interruption>)
    ensures
        steps_to(r, final(core)@, reduce_exp(old(core)@, exp)),
        final(core).counts == old(core).counts,
{
    let source = exp.1;
    match &*exp.0 {
        Exp::Literal(l) => match Value::from_literal(l) {
            Ok(v) => {
                core.cont = Cont::Value(v);
                Ok(Step {  })
            },
            Err(_) => Err(Interruption::ParseError),
        },
        Exp::Var(x) => match env_get(&core.env, x) {
            None => Err(Interruption::UnboundIdentifier(x.clone())),
            Some(v) => {
                core.cont = Cont::Value(v);
                Ok(Step {  })
            },
        },
        Exp::Bin(e1, op, e2) => exp_conts(core, FrameCont::BinOp1(*op, e2.clone()), e1.clone()),
        Exp::Un(un, e) => exp_conts(core, FrameCont::UnOp(*un), e.clone()),
        Exp::Paren(e) => exp_conts(core, FrameCont::Paren, e.clone()),
        Exp::Variant(id, None) => {
            core.cont = Cont::Value(Value::Variant(id.clone(), None));
            Ok(Step {  })
        },
        Exp::Variant(id, Some(e)) => exp_conts(core, FrameCont::Variant(id.clone()), e.clone()),
        Exp::Switch(e1, cases) => exp_conts(core, FrameCont::Switch(cases.share()), e1.clone()),
        Exp::Block(decs) => exp_conts_(
            core,
            source,
            FrameCont::Block,
            Cont::Decs(decs_from_vec(&decs.vec)),
            source,
        ),
        Exp::Do(e) => exp_conts(core, FrameCont::Do, e.clone()),
        Exp::Assert(e) => exp_conts(core, FrameCont::Assert, e.clone()),
        Exp::Tuple(es) => {
            let mut es = exps_from_vec(&es.vec);
            match exps_pop_front(&mut es) {
                None => {
                    core.cont = Cont::Value(Value::Unit);
                    Ok(Step {  })
                },
                Some(e1) => {
                    let done: Vec<Value> = Vec::new();
                    assert(values_view(done@) =~= Seq::empty());
                    exp_conts(core, FrameCont::Tuple(done, es), e1)
                },
            }
        },
        Exp::Annot(e, t) => {
            match &*t.0 {
                Type::Prim(pt) => {
                    core.cont_prim_type = Some(*pt);
                },
                _ => {},
            };
            exp_conts(core, FrameCont::Annot(t.clone()), e.clone())
        },
        Exp::Assign(e1, e2) => exp_conts(core, FrameCont::Assign1(e2.clone()), e1.clone()),
        Exp::Proj(e1, i) => exp_conts(core, FrameCont::Proj(*i), e1.clone()),
        Exp::If(e1, e2, e3) => {
            let e3 = match e3 {
                Some(e) => Some(e.clone()),
                None => None,
            };
            exp_conts(core, FrameCont::If(e2.clone(), e3), e1.clone())
        },
        Exp::Rel(e1, op, e2) => exp_conts(core, FrameCont::RelOp1(*op, e2.clone()), e1.clone()),
        _ => Err(Interruption::Unimplemented),
    }
}

/// What [`pop_frame`] does: with no frame, nothing; else it returns what
/// the top frame does next, and the frame has left the stack.
pub open spec fn pops(r: Option<FrameCont>, before: CoreView, after: CoreView) -> bool {
    if before.stack.len() == 0 {
        r is None && after == before
    } else {
        r is Some && r->0@ == before.stack[0].cont && after == pop_frame_spec(before)
    }
}

/// Takes the top frame off the stack and makes current again what it
/// recorded: its source and its expected type, and its environment. A
/// frame that resumes a sequence of declarations leaves the environment as
/// it is: the declarations of a block extend one scope.
pub fn pop_frame(core: &mut Core) -> (r: Option<FrameCont>)
    ensures
        pops(r, old(core)@, final(core)@),
        r is Some && r->0@ is Decs ==> final(core)@.env == old(core)@.env,
        r is Some && !(r->0@ is Decs) ==> final(core)@.env == old(core)@.stack[0].env,
        final(core).counts == old(core).counts,
{
    match stack_pop_front(&mut core.stack) {
        None => None,
        Some(frame) => {
            let Frame { env, cont, cont_prim_type, source } = frame;
            match &cont {
                FrameCont::Decs(_) => {},
                _ => {
                    core.env = env;
                },
            }
            core.cont_prim_type = cont_prim_type;
            core.cont_source = source;
            Some(cont)
        },
    }
}

/// Does what a frame continuation does with the value `v`, once its frame
/// has been popped.
pub fn frame_step(core: &mut Core, limits: &Limits, frame_cont: FrameCont, v: Value) -> (r: Result<
    Step,
    Interruption,
>)
    requires
        frame_cont_wf(frame_cont@),
    ensures
        steps_to(r, final(core)@, frame_spec(old(core)@, frame_cont@, v@)),
        final(core).counts == old(core).counts,
{
    match frame_cont {
        FrameCont::UnOp(un) => {
            match unop(un, v) {
                Ok(v) => {
                    core.cont = Cont::Value(v);
                    Ok(Step {  })
                },
                Err(i) => Err(i),
            }
        },
        FrameCont::RelOp1(op, e2) => exp_conts(core, FrameCont::RelOp2(v, op), e2),
        FrameCont::RelOp2(v1, rel) => {
            match relop(&core.cont_prim_type, rel, v1, v) {
                Ok(v) => {
                    core.cont = Cont::Value(v);
                    Ok(Step {  })
                },
                Err(i) => Err(i),
            }
        },
        FrameCont::BinOp1(op, e2) => exp_conts(core, FrameCont::BinOp2(v, op), e2),
        FrameCont::BinOp2(v1, bop) => {
            match binop(&core.cont_prim_type, bop, v1, v) {
                Ok(v) => {
                    core.cont = Cont::Value(v);
                    Ok(Step {  })
                },
                Err(i) => Err(i),
            }
        },
        FrameCont::Assign1(e2) => match v {
            Value::Pointer(p) => exp_conts(core, FrameCont::Assign2(p), e2),
            _ => Err(Interruption::TypeMismatch),
        },
        FrameCont::Assign2(p) => {
            match store::mutate(core, p, v) {
                Ok(()) => {
                    core.cont = Cont::Value(Value::Unit);
                    Ok(Step {  })
                },
                Err(i) => Err(i),
            }
        },
        FrameCont::Let(pat, cont) => match &*pat.0 {
            Pat::Var(x) => {
                env_insert(&mut core.env, x.clone(), v);
                core.cont_source = source_from_cont(&cont);
                core.cont = cont;
                Ok(Step {  })
            },
            _ => Err(Interruption::Unimplemented),
        },
        FrameCont::Var(x, cont) => {
            let ptr = store::allocate(core, v);
            env_insert(&mut core.env, x, Value::Pointer(ptr));
            core.cont_source = source_from_cont(&cont);
            core.cont = cont;
            Ok(Step {  })
        },
        FrameCont::Paren => {
            core.cont = Cont::Value(v);
            Ok(Step {  })
        },
        FrameCont::Variant(i) => {
            core.cont = Cont::Value(Value::Variant(i, Some(Box::new(v))));
            Ok(Step {  })
        },
        FrameCont::Switch(cases) => switch(core, limits, v, cases),
        FrameCont::Block => {
            core.cont = Cont::Value(v);
            Ok(Step {  })
        },
        FrameCont::Decs(decs) => {
            match decs_front(&decs) {
                None => {
                    core.cont = Cont::Value(v);
                    Ok(Step {  })
                },
                Some(_) => {
                    core.cont = Cont::Decs(decs);
                    Ok(Step {  })
                },
            }
        },
        FrameCont::Do => {
            core.cont = Cont::Value(v);
            Ok(Step {  })
        },
        FrameCont::Assert => match v {
            Value::Bool(true) => {
                core.cont = Cont::Value(Value::Unit);
                Ok(Step {  })
            },
            Value::Bool(false) => Err(Interruption::AssertionFailure),
            _ => Err(Interruption::TypeMismatch),
        },
        FrameCont::Tuple(mut done, mut rest) => {
            let ghost before = values_view(done@);
            done.push(v);
            assert(values_view(done@) =~= before.push(v@));
            match exps_pop_front(&mut rest) {
                None => {
                    proof {
                        lemma_tuple_view(done);
                    }
                    core.cont = Cont::Value(Value::Tuple(done));
                    Ok(Step {  })
                },
                Some(next) => exp_conts(core, FrameCont::Tuple(done, rest), next),
            }
        },
        FrameCont::Annot(_t) => {
            core.cont = Cont::Value(v);
            Ok(Step {  })
        },
        FrameCont::Proj(i) => match v {
            Value::Tuple(vs) => {
                proof {
                    lemma_tuple_view(vs);
                }
                if i < vs.len() {
                    core.cont = Cont::Value(vs[i].clone());
                    Ok(Step {  })
                } else {
                    Err(Interruption::TypeMismatch)
                }
            },
            _ => Err(Interruption::TypeMismatch),
        },
        FrameCont::If(e2, e3) => match v {
            Value::Bool(b) => {
                core.cont = if b {
                    Cont::Exp_(e2, decs_new())
                } else {
                    match e3 {
                        Some(e3) => Cont::Exp_(e3, decs_new()),
                        None => Cont::Value(Value::Unit),
                    }
                };
                Ok(Step {  })
            },
            _ => Err(Interruption::TypeMismatch),
        },
    }
}

/// Hands the value `v` to the frame on top of the stack. With no frame
/// left, evaluation is done, and `v` is its result.
pub fn stack_cont(core: &mut Core, limits: &Limits, v: Value) -> (r: Result<Step, Interruption>)
    requires
        stack_wf(old(core)@.stack),
    ensures
        steps_to(r, final(core)@, resume_spec(old(core)@, v@)),
        final(core).counts == old(core).counts,
{
    match pop_frame(core) {
        None => Err(Interruption::Done(v)),
        Some(frame_cont) => frame_step(core, limits, frame_cont, v),
    }
}

/// Whether the frame on top of the stack takes a pointer as it is: only
/// the left-hand side of an assignment does.
pub fn top_frame_takes_pointer(core: &Core) -> (r: bool)
    ensures
        r == top_takes_pointer(core@),
{
    match stack_front(&core.stack) {
        Some(frame) => match &frame.cont {
            FrameCont::Assign1(_) => true,
            _ => false,
        },
        None => false,
    }
}

/// What a step does to the count of steps: it adds one, unless the
/// counter is at its end.
pub open spec fn counts_step(before: usize, after: usize) -> bool {
    if before < usize::MAX {
        after == before + 1
    } else {
        after == before
    }
}

/// Advances the core by one step.
///
/// The step is counted first. A count that the counter cannot hold, or
/// that is beyond the budget of `limits`, interrupts with `Limit(Step)`.
/// Else the continuation is consumed and its rule applies: the result is
/// the next state of the model, or its interruption. After an interruption
/// the core is of no further use.
pub fn core_step(core: &mut Core, limits: &Limits) -> (r: Result<Step, Interruption>)
    requires
        core_wf(old(core)@),
    ensures
        steps_to(r, final(core)@, step_spec(old(core)@, limits@)),
        r is Ok ==> core_wf(final(core)@),
        r is Ok ==> !(final(core)@.cont is Taken),
        counts_step(old(core).counts.step, final(core).counts.step),
        r is Ok ==> final(core).counts.step == old(core).counts.step + 1,
        over_step_limit(old(core).counts.step, limits@) ==> r is Err && r->Err_0@
            == InterruptionView::Limit(Limit::Step),
        r is Ok ==> keeps_dense(old(core)@, final(core)@),
{
    proof {
        lemma_step_wf(core@, limits@);
    }
    if core.counts.step == usize::MAX {
        return Err(Interruption::Limit(Limit::Step));
    }
    core.counts.step = core.counts.step + 1;
    if let Some(step_limit) = limits.step {
        if core.counts.step > step_limit {
            return Err(Interruption::Limit(Limit::Step));
        }
    }
    let mut cont = Cont::Taken;
    core::mem::swap(&mut core.cont, &mut cont);
    match cont {
        Cont::Taken => Err(Interruption::Unknown),
        Cont::Exp_(e, decs) => {
            if decs_front(&decs).is_none() {
                exp_step(core, e, limits)
            } else {
                let source = source_from_decs(&decs);
                let env = env_clone(&core.env);
                stack_push_front(
                    &mut core.stack,
                    Frame { env, cont: FrameCont::Decs(decs), source, cont_prim_type: None },
                );
                exp_step(core, e, limits)
            }
        },
        Cont::Value(Value::Pointer(p)) => {
            if top_frame_takes_pointer(core) {
                stack_cont(core, limits, Value::Pointer(p))
            } else {
                match store::deref(core, &p) {
                    Some(v) => {
                        core.cont = Cont::Value(v);
                        Ok(Step {  })
                    },
                    None => Err(Interruption::Dangling(p)),
                }
            }
        },
        Cont::Value(v) => stack_cont(core, limits, v),
        Cont::Decs(mut decs) => {
            match decs_pop_front(&mut decs) {
                None => {
                    core.cont = Cont::Value(Value::Unit);
                    core.cont_source = Source::Evaluation;
                    Ok(Step {  })
                },
                Some(dec_) => match &*dec_.0 {
                    Dec::Exp(e) => {
                        core.cont_source = dec_.1;
                        core.cont = Cont::Exp_(e.node(dec_.1), decs);
                        Ok(Step {  })
                    },
                    Dec::Let(p, e) => exp_conts(
                        core,
                        FrameCont::Let(p.clone(), Cont::Decs(decs)),
                        e.clone(),
                    ),
                    Dec::Var(p, e) => match &*p.0 {
                        Pat::Var(x) => exp_conts(
                            core,
                            FrameCont::Var(x.clone(), Cont::Decs(decs)),
                            e.clone(),
                        ),
                        _ => Err(Interruption::Unimplemented),
                    },
                    _ => Err(Interruption::Unimplemented),
                },
            }
        },
    }
}

/// The core in which evaluation of `prog` starts: nothing is allocated,
/// bound or pending, no step is taken, and the declarations of `prog`
/// are what to evaluate.
pub fn core_init(prog: Prog) -> (core: Core)
    ensures
        core@ == init_spec(prog.vec@),
        core_wf(core@),
        store_dense(core@.store),
{
    let core = Core {
        store: store_new(),
        stack: stack_new(),
        env: env_new(),
        cont: Cont::Decs(decs_from_vec(&prog.vec)),
        cont_source: Source::CoreInit,
        cont_prim_type: None,
        counts: Counts { step: 0 },
    };
    assert(core@.store.dom() =~= Set::empty());
    core
}

impl Limits {
    /// No limits.
    pub fn none() -> (r: Limits)
        ensures
            r@.breakpoints.len() == 0,
            r@.step is None,
    {
        Limits { breakpoints: Vec::new(), step: None }
    }

    /// Sets the budget of steps to `s`.
    pub fn step(&mut self, s: usize)
        ensures
            final(self)@.step == Some(s),
            final(self)@.breakpoints == old(self)@.breakpoints,
    {
        self.step = Some(s);
    }
}

impl Core {
    /// A core for the program `prog`.
    pub fn new(prog: Prog) -> (core: Self)
        ensures
            core@ == init_spec(prog.vec@),
            core_wf(core@),
            store_dense(core@.store),
    {
        core_init(prog)
    }

    /// Advances the core by one step, under `limits`. See [`core_step`].
    pub fn step(&mut self, limits: &Limits) -> (r: Result<Step, Interruption>)
        requires
            core_wf(old(self)@),
        ensures
            steps_to(r, final(self)@, step_spec(old(self)@, limits@)),
            r is Ok ==> core_wf(final(self)@),
            r is Ok ==> !(final(self)@.cont is Taken),
            counts_step(old(self).counts.step, final(self).counts.step),
            r is Ok ==> final(self).counts.step == old(self).counts.step + 1,
            over_step_limit(old(self).counts.step, limits@) ==> r is Err && r->Err_0@
                == InterruptionView::Limit(Limit::Step),
            r is Ok ==> keeps_dense(old(self)@, final(self)@),
    {
        core_step(self, limits)
    }
}

/// An evaluator for the core `active`.
pub fn local_init(active: Core) -> (local: Local)
    ensures
        local.active == active,
{
    Local { active }
}

/// The breakpoint at which the core stands, if it stands at one: the span
/// of its current source, where `limits` lists it.
pub fn check_for_breakpoint(local: &mut Local, limits: &Limits) -> (r: Option<Breakpoint>)
    ensures
        r == breakpoint_spec(old(local).active@, limits@),
        *final(local) == *old(local),
{
    match local.active.cont_source.span() {
        Some(span) => {
            let mut i: usize = 0;
            while i < limits.breakpoints.len()
                invariant
                    i <= limits.breakpoints.len(),
                    *local == *old(local),
                    crate::ast::source_span(local.active.cont_source) == Some(span),
                    forall|j: int| 0 <= j < i ==> limits.breakpoints@[j] != span,
                decreases limits.breakpoints.len() - i,
            {
                if limits.breakpoints[i].same(&span) {
                    assert(limits.breakpoints@.contains(span));
                    return Some(span);
                }
                i = i + 1;
            }
            assert(!limits.breakpoints@.contains(span));
            None
        },
        None => None,
    }
}

/// Steps the core until it stands at a breakpoint or a step is
/// interrupted. The signal is that of the model. At a breakpoint the core
/// is in the state in which the model stops, and can be run again.
pub fn local_run(local: &mut Local, limits: &Limits) -> (r: Signal)
    requires
        core_wf(old(local).active@),
    ensures
        r@ == run_spec(old(local).active@, limits@),
        r is Breakpoint ==> final(local).active@ == run_stop(old(local).active@, limits@),
        r is Breakpoint ==> core_wf(final(local).active@),
{
    loop
        invariant
            core_wf(local.active@),
            run_spec(local.active@, limits@) == run_spec(old(local).active@, limits@),
            run_stop(local.active@, limits@) == run_stop(old(local).active@, limits@),
        decreases usize::MAX - local.active.counts.step,
    {
        proof {
            lemma_run_unfold(local.active@, limits@);
        }
        if let Some(break_span) = check_for_breakpoint(local, limits) {
            return Signal::Breakpoint(break_span);
        }
        match core_step(&mut local.active, limits) {
            Ok(_step) => {},
            Err(Interruption::Done(v)) => {
                return Signal::Done(v);
            },
            Err(other_interruption) => {
                return Signal::Interruption(other_interruption);
            },
        }
    }
}

impl Local {
    /// An evaluator for the core `core`.
    pub fn new(core: Core) -> (local: Self)
        ensures
            local.active == core,
    {
        local_init(core)
    }

    /// Runs the evaluator under `limits`. See [`local_run`].
    pub fn run(&mut self, limits: &Limits) -> (r: Signal)
        requires
            core_wf(old(self).active@),
        ensures
            r@ == run_spec(old(self).active@, limits@),
            r is Breakpoint ==> final(self).active@ == run_stop(old(self).active@, limits@),
            r is Breakpoint ==> core_wf(final(self).active@),
    {
        local_run(self, limits)
    }
}

/// Whether `r` is how the model's run ended: its value where it was done,
/// its interruption where it was interrupted. A run that stopped at a
/// breakpoint has no result, and nothing here resumes it: that is
/// unimplemented.
pub open spec fn evaluates(r: Result<Value, Interruption>, signal: SignalView) -> bool {
    match signal {
        SignalView::Done(v) => r is Ok && r->Ok_0@ == v,
        SignalView::Interruption(i) => r is Err && r->Err_0@ == i,
        SignalView::Breakpoint(_) => r is Err && r->Err_0@ == InterruptionView::Unimplemented,
    }
}

/// Evaluates the program `prog` under `limits`: the result is the value
/// with which the run is done, or the interruption that ends it.
pub fn eval_limit(prog: Prog, limits: &Limits) -> (r: Result<Value, Interruption>)
    ensures
        evaluates(r, run_spec(init_spec(prog.vec@), limits@)),
{
    let mut l = Local::new(Core::new(prog));
    let s = l.run(limits);
    match s {
        Signal::Done(result) => Ok(result),
        Signal::Interruption(i) => Err(i),
        Signal::Breakpoint(_) => Err(Interruption::Unimplemented),
    }
}

/// Evaluates the program `prog` without limits. An interruption is not
/// told apart from another.
pub fn eval(prog: Prog) -> (r: Result<Value, ()>)
    ensures
        r is Ok <==> run_spec(init_spec(prog.vec@), no_limits()) is Done,
        r is Ok ==> SignalView::Done(r->Ok_0@) == run_spec(init_spec(prog.vec@), no_limits()),
{
    match eval_(prog) {
        Ok(v) => Ok(v),
        Err(_) => Err(()),
    }
}

/// Evaluates the program `prog` without limits.
pub fn eval_(prog: Prog) -> (r: Result<Value, Interruption>)
    ensures
        evaluates(r, run_spec(init_spec(prog.vec@), no_limits())),
        !(run_spec(init_spec(prog.vec@), no_limits()) is Breakpoint),
{
    let limits = Limits::none();
    proof {
        assert(limits@.breakpoints =~= Seq::empty());
        assert(limits@ == no_limits());
        lemma_no_breakpoints(init_spec(prog.vec@), limits@);
    }
    eval_limit(prog, &limits)
}

} // verus!
