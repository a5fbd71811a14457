//! The machine as a mathematical transition system.
//!
//! A state is a [`CoreView`]. [`step_spec`] is the transition function: it
//! gives the next state, or the interruption that ends evaluation. The
//! functions before it are its rules, one group per component of the
//! machine; [`run_spec`] iterates it. Every executable function of the
//! machine is proved to compute what its counterpart here says.

use crate::ast::{
    source_expand, source_span, BinOp, Case_, Dec, Dec_, Exp, Exp_, Loc, Pat, PrimType, RelOp,
    Source, Span, Type, UnOp,
};
use crate::value::{literal_value, ValueView};
use crate::vm_types::{
    ContView, CoreView, EnvView, FrameContView, FrameView, InterruptionView, Limit, LimitsView,
    SignalView, StoreView,
};
use vstd::prelude::*;

verus! {

/// What a transition gives: the next state, or why there is none.
pub type Outcome = Result<CoreView, InterruptionView>;

/// What an operator gives: a value, or why there is none.
pub type Computed = Result<ValueView, InterruptionView>;

/// The source that covers a sequence of declarations.
pub open spec fn decs_source(decs: Seq<Dec_>) -> Source {
    if decs.len() == 0 {
        Source::Unknown
    } else {
        source_expand(decs.first().1, decs.last().1)
    }
}

/// The source that covers a continuation.
pub open spec fn cont_source_of(cont: ContView) -> Source {
    match cont {
        ContView::Taken => Source::Unknown,
        ContView::Decs(decs) => decs_source(decs),
        ContView::Exp_(e, decs) => if decs.len() == 0 {
            e.1
        } else {
            source_expand(e.1, decs.last().1)
        },
        ContView::Value(_) => Source::Evaluation,
    }
}

/// The negation of a natural is an integer; nothing else is implemented.
pub open spec fn unop_spec(op: UnOp, v: ValueView) -> Computed {
    match (op, v) {
        (UnOp::Neg, ValueView::Nat(n)) => Ok(ValueView::Int(-(n as int))),
        _ => Err(InterruptionView::Unimplemented),
    }
}

/// Addition and subtraction are exact. A difference of naturals is a
/// natural unless it is negative. Wrapping addition needs the expected
/// primitive type, and wraps at 256 where that type is `Nat8`.
pub open spec fn binop_spec(hint: Option<PrimType>, op: BinOp, v1: ValueView, v2: ValueView) -> Computed {
    match op {
        BinOp::Add => match (v1, v2) {
            (ValueView::Nat(n1), ValueView::Nat(n2)) => Ok(ValueView::Nat(n1 + n2)),
            (ValueView::Int(i1), ValueView::Int(i2)) => Ok(ValueView::Int(i1 + i2)),
            _ => Err(InterruptionView::Unimplemented),
        },
        BinOp::Sub => match (v1, v2) {
            (ValueView::Nat(n1), ValueView::Nat(n2)) => if n2 > n1 {
                Ok(ValueView::Int(n1 - n2))
            } else {
                Ok(ValueView::Nat((n1 - n2) as nat))
            },
            (ValueView::Int(i1), ValueView::Int(i2)) => Ok(ValueView::Int(i1 - i2)),
            (ValueView::Int(i1), ValueView::Nat(n2)) => Ok(ValueView::Int(i1 - n2)),
            _ => Err(InterruptionView::Unimplemented),
        },
        BinOp::WAdd => match hint {
            None => Err(InterruptionView::AmbiguousOperation),
            Some(t) => match (v1, v2) {
                (ValueView::Nat(n1), ValueView::Nat(n2)) => match t {
                    PrimType::Nat => Ok(ValueView::Nat(n1 + n2)),
                    PrimType::Nat8 => Ok(ValueView::Nat((n1 + n2) % 256)),
                    _ => Err(InterruptionView::Unimplemented),
                },
                _ => Err(InterruptionView::Unimplemented),
            },
        },
        _ => Err(InterruptionView::Unimplemented),
    }
}

/// Equality and inequality of two naturals or of two integers.
pub open spec fn relop_spec(op: RelOp, v1: ValueView, v2: ValueView) -> Computed {
    match op {
        RelOp::Eq => match (v1, v2) {
            (ValueView::Nat(n1), ValueView::Nat(n2)) => Ok(ValueView::Bool(n1 == n2)),
            (ValueView::Int(i1), ValueView::Int(i2)) => Ok(ValueView::Bool(i1 == i2)),
            _ => Err(InterruptionView::Unimplemented),
        },
        RelOp::Neq => match (v1, v2) {
            (ValueView::Nat(n1), ValueView::Nat(n2)) => Ok(ValueView::Bool(n1 != n2)),
            (ValueView::Int(i1), ValueView::Int(i2)) => Ok(ValueView::Bool(i1 != i2)),
            _ => Err(InterruptionView::Unimplemented),
        },
        _ => Err(InterruptionView::Unimplemented),
    }
}

/// Whether the allocated addresses are exactly those below their number.
pub open spec fn store_dense(store: StoreView) -> bool {
    &&& store.dom().finite()
    &&& store.dom().len() <= usize::MAX
    &&& forall|p: usize| store.contains_key(p) <==> p < store.dom().len()
}

/// Whether the store has an address left to hand out.
pub open spec fn store_has_room(store: StoreView) -> bool {
    store.dom().len() < usize::MAX
}

/// The address that the next allocation gives.
pub open spec fn next_pointer(store: StoreView) -> usize {
    store.dom().len() as usize
}

/// The state `c` after `v` went into a new cell of the store.
pub open spec fn alloc_spec(c: CoreView, v: ValueView) -> CoreView {
    CoreView { store: c.store.insert(next_pointer(c.store), v), ..c }
}

/// The state `c` after `v` went into the cell at `p`.
pub open spec fn mutate_spec(c: CoreView, p: usize, v: ValueView) -> CoreView {
    CoreView { store: c.store.insert(p, v), ..c }
}

/// The value of the cell at `p`, if `p` is allocated.
pub open spec fn deref_spec(c: CoreView, p: usize) -> Option<ValueView> {
    if c.store.contains_key(p) {
        Some(c.store[p])
    } else {
        None
    }
}

/// The state `c` with `cont` as its continuation.
pub open spec fn with_cont(c: CoreView, cont: ContView) -> CoreView {
    CoreView { cont, ..c }
}

/// Pushes a frame that captures the environment and the expected type of
/// `c` and records `source`, then continues with `cont` at `cont_source`.
pub open spec fn push_cont(
    c: CoreView,
    source: Source,
    frame_cont: FrameContView,
    cont: ContView,
    cont_source: Source,
) -> CoreView {
    CoreView {
        stack: seq![
            FrameView { env: c.env, cont: frame_cont, cont_prim_type: c.cont_prim_type, source },
        ] + c.stack,
        cont,
        cont_source,
        ..c
    }
}

/// Pushes a frame that records the current source, and descends into `e`.
pub open spec fn descend(c: CoreView, frame_cont: FrameContView, e: Exp_) -> CoreView {
    push_cont(c, c.cont_source, frame_cont, ContView::Exp_(e, Seq::empty()), e.1)
}

/// One rule per form of expression: it produces a value, or pushes one
/// frame and descends into a part of the expression.
pub open spec fn reduce_exp(c: CoreView, e: Exp_) -> Outcome {
    match *e.0 {
        Exp::Literal(l) => match literal_value(l) {
            Some(v) => Ok(with_cont(c, ContView::Value(v))),
            None => Err(InterruptionView::ParseError),
        },
        Exp::Var(x) => if c.env.contains_key(x@) {
            Ok(with_cont(c, ContView::Value(c.env[x@])))
        } else {
            Err(InterruptionView::UnboundIdentifier(x@))
        },
        Exp::Bin(e1, op, e2) => Ok(descend(c, FrameContView::BinOp1(op, e2), e1)),
        Exp::Un(op, e1) => Ok(descend(c, FrameContView::UnOp(op), e1)),
        Exp::Rel(e1, op, e2) => Ok(descend(c, FrameContView::RelOp1(op, e2), e1)),
        Exp::Paren(e1) => Ok(descend(c, FrameContView::Paren, e1)),
        Exp::Variant(id, None) => Ok(with_cont(c, ContView::Value(ValueView::Variant(id@, None)))),
        Exp::Variant(id, Some(e1)) => Ok(descend(c, FrameContView::Variant(id@), e1)),
        Exp::Switch(e1, cases) => Ok(descend(c, FrameContView::Switch(cases.vec@), e1)),
        Exp::Block(decs) => Ok(push_cont(c, e.1, FrameContView::Block, ContView::Decs(decs.vec@), e.1)),
        Exp::Do(e1) => Ok(descend(c, FrameContView::Do, e1)),
        Exp::Assert(e1) => Ok(descend(c, FrameContView::Assert, e1)),
        Exp::Tuple(es) => if es.vec@.len() == 0 {
            Ok(with_cont(c, ContView::Value(ValueView::Unit)))
        } else {
            Ok(descend(c, FrameContView::Tuple(Seq::empty(), es.vec@.drop_first()), es.vec@.first()))
        },
        Exp::Annot(e1, t) => Ok(
            descend(
                CoreView { cont_prim_type: annot_hint(c.cont_prim_type, *t.0), ..c },
                FrameContView::Annot(t),
                e1,
            ),
        ),
        Exp::Assign(e1, e2) => Ok(descend(c, FrameContView::Assign1(e2), e1)),
        Exp::Proj(e1, i) => Ok(descend(c, FrameContView::Proj(i), e1)),
        Exp::If(e1, e2, e3) => Ok(descend(c, FrameContView::If(e2, e3), e1)),
        _ => Err(InterruptionView::Unimplemented),
    }
}

/// The expected primitive type under an annotation with `t`: `t` itself
/// where it is primitive, else what was expected before.
pub open spec fn annot_hint(hint: Option<PrimType>, t: Type) -> Option<PrimType> {
    match t {
        Type::Prim(pt) => Some(pt),
        _ => hint,
    }
}

/// The environment that `env` becomes when `pat` matches `v`, if it does.
/// A variable binds; a variant pattern matches a variant of the same name
/// whose payload, if any, matches; parentheses are transparent. Nothing
/// else matches.
pub open spec fn pattern_matches_spec(env: EnvView, pat: Pat, v: ValueView) -> Option<EnvView>
    decreases pat,
{
    match pat {
        Pat::Paren(p) => pattern_matches_spec(env, *p.0, v),
        Pat::Var(x) => Some(env.insert(x@, v)),
        Pat::Variant(id1, None) => match v {
            ValueView::Variant(id2, None) => if id1@ == id2 {
                Some(env)
            } else {
                None
            },
            _ => None,
        },
        Pat::Variant(id1, Some(p)) => match v {
            ValueView::Variant(id2, Some(v2)) => if id1@ == id2 {
                pattern_matches_spec(env, *p.0, *v2)
            } else {
                None
            },
            _ => None,
        },
        _ => None,
    }
}

/// Whether the pattern of `case` matches `v`.
pub open spec fn case_matches(env: EnvView, case: Case_, v: ValueView) -> bool {
    pattern_matches_spec(env, *case.0.pat.0, v) is Some
}

/// The index of the first case at or after `from` whose pattern matches
/// `v`, if there is one.
pub open spec fn first_match(env: EnvView, cases: Seq<Case_>, v: ValueView, from: int) -> Option<int>
    decreases cases.len() - from,
{
    if from < 0 || from >= cases.len() {
        None
    } else if case_matches(env, cases[from], v) {
        Some(from)
    } else {
        first_match(env, cases, v, from + 1)
    }
}

/// Continues with the body of the first case that matches `v`, in the
/// environment that the match gives.
pub open spec fn switch_spec(c: CoreView, v: ValueView, cases: Seq<Case_>) -> Outcome {
    match first_match(c.env, cases, v, 0) {
        Some(i) => Ok(
            CoreView {
                env: pattern_matches_spec(c.env, *cases[i].0.pat.0, v)->0,
                cont_source: cases[i].0.exp.1,
                cont: ContView::Exp_(cases[i].0.exp, Seq::empty()),
                ..c
            },
        ),
        None => Err(InterruptionView::NoMatchingCase),
    }
}

/// The state after the top frame has left the stack: the source and the
/// expected type that the frame recorded are current again, and so is its
/// environment, unless the frame resumes a sequence of declarations, which
/// share the environment that is current.
pub open spec fn pop_frame_spec(c: CoreView) -> CoreView
    recommends
        c.stack.len() > 0,
{
    let frame = c.stack[0];
    CoreView {
        stack: c.stack.drop_first(),
        env: if frame.cont is Decs {
            c.env
        } else {
            frame.env
        },
        cont_prim_type: frame.cont_prim_type,
        cont_source: frame.source,
        ..c
    }
}

/// What a frame continuation does with the value `v`, in the state `c`
/// from which its frame has been popped.
pub open spec fn frame_spec(c: CoreView, frame_cont: FrameContView, v: ValueView) -> Outcome {
    match frame_cont {
        FrameContView::UnOp(op) => value_outcome(c, unop_spec(op, v)),
        FrameContView::RelOp1(op, e2) => Ok(descend(c, FrameContView::RelOp2(v, op), e2)),
        FrameContView::RelOp2(v1, op) => value_outcome(c, relop_spec(op, v1, v)),
        FrameContView::BinOp1(op, e2) => Ok(descend(c, FrameContView::BinOp2(v, op), e2)),
        FrameContView::BinOp2(v1, op) => value_outcome(c, binop_spec(c.cont_prim_type, op, v1, v)),
        FrameContView::Assign1(e2) => match v {
            ValueView::Pointer(p) => Ok(descend(c, FrameContView::Assign2(p), e2)),
            _ => Err(InterruptionView::TypeMismatch),
        },
        FrameContView::Assign2(p) => if c.store.contains_key(p) {
            Ok(CoreView { store: c.store.insert(p, v), cont: ContView::Value(ValueView::Unit), ..c })
        } else {
            Err(InterruptionView::Dangling(p))
        },
        FrameContView::Let(pat, k) => match *pat.0 {
            Pat::Var(x) => Ok(
                CoreView { env: c.env.insert(x@, v), cont_source: cont_source_of(k), cont: k, ..c },
            ),
            _ => Err(InterruptionView::Unimplemented),
        },
        FrameContView::Var(x, k) => Ok(
            CoreView {
                store: c.store.insert(next_pointer(c.store), v),
                env: c.env.insert(x, ValueView::Pointer(next_pointer(c.store))),
                cont_source: cont_source_of(k),
                cont: k,
                ..c
            },
        ),
        FrameContView::Paren | FrameContView::Block | FrameContView::Do | FrameContView::Annot(_) => Ok(
            with_cont(c, ContView::Value(v)),
        ),
        FrameContView::Variant(id) => Ok(
            with_cont(c, ContView::Value(ValueView::Variant(id, Some(Box::new(v))))),
        ),
        FrameContView::Switch(cases) => switch_spec(c, v, cases),
        FrameContView::Decs(decs) => if decs.len() == 0 {
            Ok(with_cont(c, ContView::Value(v)))
        } else {
            Ok(with_cont(c, ContView::Decs(decs)))
        },
        FrameContView::Assert => match v {
            ValueView::Bool(true) => Ok(with_cont(c, ContView::Value(ValueView::Unit))),
            ValueView::Bool(false) => Err(InterruptionView::AssertionFailure),
            _ => Err(InterruptionView::TypeMismatch),
        },
        FrameContView::Tuple(done, pending) => if pending.len() == 0 {
            Ok(with_cont(c, ContView::Value(ValueView::Tuple(done.push(v)))))
        } else {
            Ok(descend(c, FrameContView::Tuple(done.push(v), pending.drop_first()), pending.first()))
        },
        FrameContView::Proj(i) => match v {
            ValueView::Tuple(vs) => if i < vs.len() {
                Ok(with_cont(c, ContView::Value(vs[i as int])))
            } else {
                Err(InterruptionView::TypeMismatch)
            },
            _ => Err(InterruptionView::TypeMismatch),
        },
        FrameContView::If(e2, e3) => match v {
            ValueView::Bool(b) => Ok(
                with_cont(
                    c,
                    if b {
                        ContView::Exp_(e2, Seq::empty())
                    } else {
                        match e3 {
                            Some(e3) => ContView::Exp_(e3, Seq::empty()),
                            None => ContView::Value(ValueView::Unit),
                        }
                    },
                ),
            ),
            _ => Err(InterruptionView::TypeMismatch),
        },
    }
}

/// Continues with a computed value, or passes its interruption on.
pub open spec fn value_outcome(c: CoreView, r: Computed) -> Outcome {
    match r {
        Ok(v) => Ok(with_cont(c, ContView::Value(v))),
        Err(i) => Err(i),
    }
}

/// Hands the value `v` to the frame on top of the stack. With no frame
/// left, evaluation is done, and `v` is its result.
pub open spec fn resume_spec(c: CoreView, v: ValueView) -> Outcome {
    if c.stack.len() == 0 {
        Err(InterruptionView::Done(v))
    } else {
        frame_spec(pop_frame_spec(c), c.stack[0].cont, v)
    }
}

/// Whether a pointer on its way to the top frame stays a pointer: only
/// the left-hand side of an assignment takes one.
pub open spec fn top_takes_pointer(c: CoreView) -> bool {
    c.stack.len() > 0 && c.stack[0].cont is Assign1
}

/// Takes the first declaration of a non-empty sequence.
pub open spec fn reduce_dec(c: CoreView, decs: Seq<Dec_>) -> Outcome
    recommends
        decs.len() > 0,
{
    let dec = decs.first();
    let rest = decs.drop_first();
    match *dec.0 {
        Dec::Exp(e) => Ok(CoreView { cont_source: dec.1, cont: ContView::Exp_(Loc(e.0, dec.1), rest), ..c }),
        Dec::Let(p, e) => Ok(descend(c, FrameContView::Let(p, ContView::Decs(rest)), e)),
        Dec::Var(p, e) => match *p.0 {
            Pat::Var(x) => Ok(descend(c, FrameContView::Var(x@, ContView::Decs(rest)), e)),
            _ => Err(InterruptionView::Unimplemented),
        },
        _ => Err(InterruptionView::Unimplemented),
    }
}

/// The state `c` with its continuation moved out.
pub open spec fn taken(c: CoreView) -> CoreView {
    CoreView { cont: ContView::Taken, ..c }
}

/// Pushes the frame that resumes the declarations `decs`, which follow
/// the expression that is about to be reduced. It captures the current
/// environment and expects no primitive type.
pub open spec fn push_decs(c: CoreView, decs: Seq<Dec_>) -> CoreView {
    CoreView {
        stack: seq![
            FrameView {
                env: c.env,
                cont: FrameContView::Decs(decs),
                cont_prim_type: None,
                source: decs_source(decs),
            },
        ] + c.stack,
        ..c
    }
}

/// What the continuation of `c` does, once the step has been counted. The
/// continuation is moved out of the state, and its rule applies to what is
/// left.
pub open spec fn dispatch_spec(c: CoreView) -> Outcome {
    match c.cont {
        ContView::Taken => Err(InterruptionView::Unknown),
        ContView::Exp_(e, decs) => if decs.len() == 0 {
            reduce_exp(taken(c), e)
        } else {
            reduce_exp(push_decs(taken(c), decs), e)
        },
        ContView::Value(ValueView::Pointer(p)) => if top_takes_pointer(c) {
            resume_spec(taken(c), ValueView::Pointer(p))
        } else if c.store.contains_key(p) {
            Ok(with_cont(c, ContView::Value(c.store[p])))
        } else {
            Err(InterruptionView::Dangling(p))
        },
        ContView::Value(v) => resume_spec(taken(c), v),
        ContView::Decs(decs) => if decs.len() == 0 {
            Ok(CoreView { cont: ContView::Value(ValueView::Unit), cont_source: Source::Evaluation, ..c })
        } else {
            reduce_dec(taken(c), decs)
        },
    }
}

/// Whether the step after `step` steps is beyond the budget of `limits`.
pub open spec fn over_step_limit(step: usize, limits: LimitsView) -> bool {
    match limits.step {
        Some(n) => step + 1 > n,
        None => false,
    }
}

/// One step of the machine. The step is counted first; a count that the
/// counter cannot hold, or that is beyond the budget, interrupts. Else the
/// continuation is consumed and its rule applies.
pub open spec fn step_spec(c: CoreView, limits: LimitsView) -> Outcome {
    if c.step == usize::MAX || over_step_limit(c.step, limits) {
        Err(InterruptionView::Limit(Limit::Step))
    } else {
        dispatch_spec(CoreView { step: (c.step + 1) as usize, ..c })
    }
}

/// The breakpoint at which `c` stands, if it stands at one: the span of
/// its current source, where `limits` lists it.
pub open spec fn breakpoint_spec(c: CoreView, limits: LimitsView) -> Option<Span> {
    match source_span(c.cont_source) {
        Some(span) => if limits.breakpoints.contains(span) {
            Some(span)
        } else {
            None
        },
        None => None,
    }
}

/// How a run from `c` ends: at the first state that stands at a
/// breakpoint, or with the first interruption, of which `Done` is the
/// regular end. A step that succeeds counts itself, so the run goes on
/// after every such step; the count is what bounds it.
pub open spec fn run_spec(c: CoreView, limits: LimitsView) -> SignalView
    decreases usize::MAX - c.step,
{
    match breakpoint_spec(c, limits) {
        Some(span) => SignalView::Breakpoint(span),
        None => match step_spec(c, limits) {
            Ok(next) => if next.step > c.step {
                run_spec(next, limits)
            } else {
                SignalView::Interruption(InterruptionView::Unknown)
            },
            Err(InterruptionView::Done(v)) => SignalView::Done(v),
            Err(i) => SignalView::Interruption(i),
        },
    }
}

/// The state in which a run from `c` stops at a breakpoint, where it does.
pub open spec fn run_stop(c: CoreView, limits: LimitsView) -> CoreView
    decreases usize::MAX - c.step,
{
    match breakpoint_spec(c, limits) {
        Some(span) => c,
        None => match step_spec(c, limits) {
            Ok(next) => if next.step > c.step {
                run_stop(next, limits)
            } else {
                c
            },
            Err(_) => c,
        },
    }
}

/// No breakpoints and no budget of steps.
pub open spec fn no_limits() -> LimitsView {
    LimitsView { breakpoints: Seq::empty(), step: None }
}

/// The state of a fresh core for the program `decs`.
pub open spec fn init_spec(decs: Seq<Dec_>) -> CoreView {
    CoreView {
        store: Map::empty(),
        stack: Seq::empty(),
        env: Map::empty(),
        cont: ContView::Decs(decs),
        cont_source: Source::CoreInit,
        cont_prim_type: None,
        step: 0,
    }
}

/// Whether a frame continuation holds a continuation that can be resumed.
pub open spec fn frame_cont_wf(frame_cont: FrameContView) -> bool {
    match frame_cont {
        FrameContView::Let(_, k) => !(k is Taken),
        FrameContView::Var(_, k) => !(k is Taken),
        _ => true,
    }
}

/// Whether every frame of `stack` that holds a continuation holds one
/// that can be resumed.
pub open spec fn stack_wf(stack: Seq<FrameView>) -> bool {
    forall|i: int| 0 <= i < stack.len() ==> frame_cont_wf(#[trigger] stack[i].cont)
}

/// Whether `c` is a state from which the machine can step: it has a
/// continuation, and so has every frame that holds one.
pub open spec fn core_wf(c: CoreView) -> bool {
    !(c.cont is Taken) && stack_wf(c.stack)
}

/// The items of `s` but the first; `s` itself where it is empty.
pub open spec fn tail<A>(s: Seq<A>) -> Seq<A> {
    if s.len() > 0 {
        s.drop_first()
    } else {
        s
    }
}

} // verus!
