//! The state of the machine, and its mathematical model.
//!
//! Every executable type here has a view: environments and the store are
//! maps, the control stack and pending declarations are sequences, values
//! are what they stand for. The contracts of the machine speak of views only.

use crate::ast::{BinOp, Case_, Cases, Dec_, Exp_, Id, Pat_, PrimType, RelOp, Source, Span, Type_, UnOp};
use crate::persist::{decs_view, env_view, exps_view, stack_view, store_view};
use crate::value::{values_view, Pointer, Value, ValueView};
use vstd::prelude::*;

verus! {

/// Maps identifiers to values. Copies share structure.
pub type Env = im_rc::HashMap<Id, Value>;

/// Maps allocated addresses to the values of their cells.
pub type Store = im_rc::HashMap<usize, Value>;

/// The control stack. Its front is the top.
pub type Stack = im_rc::Vector<Frame>;

/// A source position at which a run stops.
pub type Breakpoint = Span;

/// What to evaluate next.
#[derive(Clone, Debug)]
pub enum Cont {
    /// The continuation has been moved out during a step.
    Taken,
    /// Declarations to evaluate in order.
    Decs(im_rc::Vector<Dec_>),
    /// An expression, then the declarations that follow it in its block.
    Exp_(Exp_, im_rc::Vector<Dec_>),
    /// A value that awaits the frame on top of the stack.
    Value(Value),
}

/// What a frame does with the value that it receives.
#[derive(Clone, Debug)]
pub enum FrameCont {
    Let(Pat_, Cont),
    Var(Id, Cont),
    UnOp(UnOp),
    BinOp1(BinOp, Exp_),
    BinOp2(Value, BinOp),
    RelOp1(RelOp, Exp_),
    RelOp2(Value, RelOp),
    Assign1(Exp_),
    Assign2(Pointer),
    Paren,
    Variant(Id),
    Switch(Cases),
    Block,
    Decs(im_rc::Vector<Dec_>),
    Do,
    Assert,
    Tuple(Vec<Value>, im_rc::Vector<Exp_>),
    Annot(Type_),
    Proj(usize),
    If(Exp_, Option<Exp_>),
}

/// One entry of the control stack.
#[derive(Clone, Debug)]
pub struct Frame {
    /// The environment at the time of the push.
    pub env: Env,
    pub cont: FrameCont,
    /// The expected primitive type at the time of the push.
    pub cont_prim_type: Option<PrimType>,
    /// The source that was current at the time of the push.
    pub source: Source,
}

/// The acknowledgement of a step that was taken.
#[derive(Clone, Copy, Debug, PartialEq, Eq, Structural)]
pub struct Step {}

/// Counters of a core.
#[derive(Clone, Copy, Debug)]
pub struct Counts {
    /// How many steps were taken.
    pub step: usize,
}

/// The whole state of one evaluator.
#[derive(Debug)]
pub struct Core {
    pub store: Store,
    pub stack: Stack,
    pub env: Env,
    pub cont: Cont,
    pub cont_source: Source,
    pub cont_prim_type: Option<PrimType>,
    pub counts: Counts,
}

/// An evaluator that runs in this process.
#[derive(Debug)]
pub struct Local {
    pub active: Core,
}

/// A resource whose budget a run can exhaust.
#[derive(Clone, Copy, Debug, PartialEq, Eq, Structural)]
pub enum Limit {
    Step,
}

/// The bounds under which a core steps and runs.
#[derive(Debug)]
pub struct Limits {
    /// Spans at which a run stops before it steps.
    pub breakpoints: Vec<Breakpoint>,
    /// The number of steps that a core may take, if bounded.
    pub step: Option<usize>,
}

/// Why a step did not produce a next state.
#[derive(Debug)]
pub enum Interruption {
    /// Evaluation has ended with this value.
    Done(Value),
    Unknown,
    ParseError,
    UnboundIdentifier(Id),
    TypeMismatch,
    NoMatchingCase,
    AssertionFailure,
    AmbiguousOperation,
    Dangling(Pointer),
    Limit(Limit),
    Unimplemented,
}

/// How a run ended.
#[derive(Debug)]
pub enum Signal {
    Done(Value),
    Breakpoint(Breakpoint),
    Interruption(Interruption),
}

/// The model of a [`Cont`].
pub enum ContView {
    Taken,
    Decs(Seq<Dec_>),
    Exp_(Exp_, Seq<Dec_>),
    Value(ValueView),
}

/// The model of a [`FrameCont`].
pub enum FrameContView {
    Let(Pat_, ContView),
    Var(Seq<char>, ContView),
    UnOp(UnOp),
    BinOp1(BinOp, Exp_),
    BinOp2(ValueView, BinOp),
    RelOp1(RelOp, Exp_),
    RelOp2(ValueView, RelOp),
    Assign1(Exp_),
    Assign2(usize),
    Paren,
    Variant(Seq<char>),
    Switch(Seq<Case_>),
    Block,
    Decs(Seq<Dec_>),
    Do,
    Assert,
    Tuple(Seq<ValueView>, Seq<Exp_>),
    Annot(Type_),
    Proj(usize),
    If(Exp_, Option<Exp_>),
}

/// The model of an environment.
pub type EnvView = Map<Seq<char>, ValueView>;

/// The model of a store.
pub type StoreView = Map<usize, ValueView>;

/// The model of a [`Frame`].
pub struct FrameView {
    pub env: EnvView,
    pub cont: FrameContView,
    pub cont_prim_type: Option<PrimType>,
    pub source: Source,
}

/// The model of a [`Core`].
pub struct CoreView {
    pub store: StoreView,
    /// The control stack, top first.
    pub stack: Seq<FrameView>,
    pub env: EnvView,
    pub cont: ContView,
    pub cont_source: Source,
    pub cont_prim_type: Option<PrimType>,
    pub step: usize,
}

/// The model of [`Limits`].
pub struct LimitsView {
    pub breakpoints: Seq<Span>,
    pub step: Option<usize>,
}

/// The model of an [`Interruption`].
pub enum InterruptionView {
    Done(ValueView),
    Unknown,
    ParseError,
    UnboundIdentifier(Seq<char>),
    TypeMismatch,
    NoMatchingCase,
    AssertionFailure,
    AmbiguousOperation,
    Dangling(usize),
    Limit(Limit),
    Unimplemented,
}

/// The model of a [`Signal`].
pub enum SignalView {
    Done(ValueView),
    Breakpoint(Span),
    Interruption(InterruptionView),
}

impl View for Cont {
    type V = ContView;

    open spec fn view(&self) -> ContView {
        match self {
            Cont::Taken => ContView::Taken,
            Cont::Decs(decs) => ContView::Decs(decs_view(*decs)),
            Cont::Exp_(e, decs) => ContView::Exp_(*e, decs_view(*decs)),
            Cont::Value(v) => ContView::Value(v@),
        }
    }
}

impl View for FrameCont {
    type V = FrameContView;

    open spec fn view(&self) -> FrameContView {
        match self {
            FrameCont::Let(p, k) => FrameContView::Let(*p, k@),
            FrameCont::Var(x, k) => FrameContView::Var(x@, k@),
            FrameCont::UnOp(op) => FrameContView::UnOp(*op),
            FrameCont::BinOp1(op, e) => FrameContView::BinOp1(*op, *e),
            FrameCont::BinOp2(v, op) => FrameContView::BinOp2(v@, *op),
            FrameCont::RelOp1(op, e) => FrameContView::RelOp1(*op, *e),
            FrameCont::RelOp2(v, op) => FrameContView::RelOp2(v@, *op),
            FrameCont::Assign1(e) => FrameContView::Assign1(*e),
            FrameCont::Assign2(p) => FrameContView::Assign2(p.0),
            FrameCont::Paren => FrameContView::Paren,
            FrameCont::Variant(id) => FrameContView::Variant(id@),
            FrameCont::Switch(cases) => FrameContView::Switch(cases.vec@),
            FrameCont::Block => FrameContView::Block,
            FrameCont::Decs(decs) => FrameContView::Decs(decs_view(*decs)),
            FrameCont::Do => FrameContView::Do,
            FrameCont::Assert => FrameContView::Assert,
            FrameCont::Tuple(done, pending) => FrameContView::Tuple(
                values_view(done@),
                exps_view(*pending),
            ),
            FrameCont::Annot(t) => FrameContView::Annot(*t),
            FrameCont::Proj(i) => FrameContView::Proj(*i),
            FrameCont::If(e2, e3) => FrameContView::If(*e2, *e3),
        }
    }
}

impl View for Frame {
    type V = FrameView;

    open spec fn view(&self) -> FrameView {
        FrameView {
            env: env_view(self.env),
            cont: self.cont@,
            cont_prim_type: self.cont_prim_type,
            source: self.source,
        }
    }
}

impl View for Core {
    type V = CoreView;

    open spec fn view(&self) -> CoreView {
        CoreView {
            store: store_view(self.store),
            stack: stack_view(self.stack),
            env: env_view(self.env),
            cont: self.cont@,
            cont_source: self.cont_source,
            cont_prim_type: self.cont_prim_type,
            step: self.counts.step,
        }
    }
}

impl View for Limits {
    type V = LimitsView;

    open spec fn view(&self) -> LimitsView {
        LimitsView { breakpoints: self.breakpoints@, step: self.step }
    }
}

impl View for Interruption {
    type V = InterruptionView;

    open spec fn view(&self) -> InterruptionView {
        match self {
            Interruption::Done(v) => InterruptionView::Done(v@),
            Interruption::Unknown => InterruptionView::Unknown,
            Interruption::ParseError => InterruptionView::ParseError,
            Interruption::UnboundIdentifier(x) => InterruptionView::UnboundIdentifier(x@),
            Interruption::TypeMismatch => InterruptionView::TypeMismatch,
            Interruption::NoMatchingCase => InterruptionView::NoMatchingCase,
            Interruption::AssertionFailure => InterruptionView::AssertionFailure,
            Interruption::AmbiguousOperation => InterruptionView::AmbiguousOperation,
            Interruption::Dangling(p) => InterruptionView::Dangling(p.0),
            Interruption::Limit(l) => InterruptionView::Limit(*l),
            Interruption::Unimplemented => InterruptionView::Unimplemented,
        }
    }
}

impl From<()> for Interruption {
    /// An interruption of which nothing more is known.
    fn from(_x: ()) -> (r: Interruption) {
        Interruption::Unknown
    }
}

impl vstd::std_specs::convert::FromSpecImpl<()> for Interruption {
    open spec fn obeys_from_spec() -> bool {
        true
    }

    open spec fn from_spec(_x: ()) -> Interruption {
        Interruption::Unknown
    }
}

impl View for Signal {
    type V = SignalView;

    open spec fn view(&self) -> SignalView {
        match self {
            Signal::Done(v) => SignalView::Done(v@),
            Signal::Breakpoint(s) => SignalView::Breakpoint(*s),
            Signal::Interruption(i) => SignalView::Interruption(i@),
        }
    }
}

} // verus!
