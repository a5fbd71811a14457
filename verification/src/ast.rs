//! Syntax trees that the evaluator consumes, and the source locations
//! attached to them.

use std::rc::Rc;
use vstd::prelude::*;

verus! {

/// `Rc::clone`: another pointer to the same allocation, so the value that
/// the copy points to is the value that `a` points to.
#[verifier::external_body]
fn rc_clone<X>(a: &Rc<X>) -> (r: Rc<X>)
    ensures
        r == *a,
{
    a.clone()
}

/// An identifier.
pub type Id = String;

/// A range of source text, as byte offsets.
#[derive(Clone, Copy, Debug, PartialEq, Eq, Structural)]
pub struct Span {
    pub start: usize,
    pub end: usize,
}

/// Where a piece of syntax, or the current continuation, comes from.
#[derive(Clone, Copy, Debug, PartialEq, Eq, Structural)]
pub enum Source {
    /// A known range of the program text.
    Known { span: Span, line: usize, col: usize },
    /// No location is known.
    Unknown,
    /// A value produced by evaluation.
    Evaluation,
    /// The state of a freshly built core.
    CoreInit,
}

/// The smallest span that covers both `a` and `b`.
pub open spec fn span_union(a: Span, b: Span) -> Span {
    Span {
        start: if a.start <= b.start { a.start } else { b.start },
        end: if a.end >= b.end { a.end } else { b.end },
    }
}

/// The span of a source, where it has one.
pub open spec fn source_span(s: Source) -> Option<Span> {
    match s {
        Source::Known { span, .. } => Some(span),
        _ => None,
    }
}

/// The source that covers `a` and `b`: the union of their spans where both
/// are known (line and column are those of `a`), else whichever is known,
/// else `a`.
pub open spec fn source_expand(a: Source, b: Source) -> Source {
    match (a, b) {
        (Source::Known { span, line, col }, Source::Known { span: other, .. }) => Source::Known {
            span: span_union(span, other),
            line,
            col,
        },
        (Source::Known { .. }, _) => a,
        (_, Source::Known { .. }) => b,
        _ => a,
    }
}

impl Span {
    /// Whether two spans cover the same range.
    pub fn same(&self, other: &Span) -> (r: bool)
        ensures
            r == (*self == *other),
    {
        self.start == other.start && self.end == other.end
    }
}

impl Source {
    /// The span of this source, where it has one.
    pub fn span(&self) -> (r: Option<Span>)
        ensures
            r == source_span(*self),
    {
        match self {
            Source::Known { span, .. } => Some(*span),
            _ => None,
        }
    }

    /// The source that covers this one and `other`.
    pub fn expand(&self, other: &Source) -> (r: Source)
        ensures
            r == source_expand(*self, *other),
    {
        match (self, other) {
            (Source::Known { span, line, col }, Source::Known { span: o, .. }) => {
                let start: usize = if span.start <= o.start { span.start } else { o.start };
                let end: usize = if span.end >= o.end { span.end } else { o.end };
                Source::Known { span: Span { start, end }, line: *line, col: *col }
            },
            (Source::Known { .. }, _) => *self,
            (_, Source::Known { .. }) => *other,
            _ => *self,
        }
    }
}

/// A piece of syntax together with its source. The syntax is shared, so
/// that a copy of a node costs no copy of what is below it.
#[derive(Debug)]
pub struct Loc<X>(pub Rc<X>, pub Source);

impl<X> Clone for Loc<X> {
    fn clone(&self) -> (r: Self)
        ensures
            r == *self,
    {
        Loc(rc_clone(&self.0), self.1)
    }
}

/// A sequence of syntax items written with a separator.
#[derive(Clone, Debug)]
pub struct Delim<X> {
    pub vec: Vec<X>,
    pub has_trailing: bool,
}

/// An expression with its source.
pub type Exp_ = Loc<Exp>;

/// A declaration with its source.
pub type Dec_ = Loc<Dec>;

/// A pattern with its source.
pub type Pat_ = Loc<Pat>;

/// A type with its source.
pub type Type_ = Loc<Type>;

/// A case with its source.
pub type Case_ = Loc<Case>;

/// The declarations of a block.
pub type Decs = Delim<Dec_>;

/// The cases of a `switch`.
pub type Cases = Delim<Case_>;

/// A whole program: its top-level declarations.
pub type Prog = Decs;

/// A literal as it stands in the program text.
#[derive(Debug)]
pub enum Literal {
    Null,
    Unit,
    Bool(bool),
    /// A natural number, in decimal digits.
    Nat(String),
    Text(String),
}

/// A unary operator.
#[derive(Clone, Copy, Debug, PartialEq, Eq, Structural)]
pub enum UnOp {
    Pos,
    Neg,
    Not,
}

/// A binary operator. Those that begin with `W` wrap at the size of the
/// expected primitive type.
#[derive(Clone, Copy, Debug, PartialEq, Eq, Structural)]
pub enum BinOp {
    Add,
    Sub,
    Mul,
    Div,
    Mod,
    Pow,
    And,
    Or,
    Xor,
    ShL,
    ShR,
    RotL,
    RotR,
    WAdd,
    WSub,
    WMul,
    WPow,
    Cat,
}

/// A relational operator.
#[derive(Clone, Copy, Debug, PartialEq, Eq, Structural)]
pub enum RelOp {
    Eq,
    Neq,
    Lt,
    Gt,
    Le,
    Ge,
}

/// A primitive type.
#[derive(Clone, Copy, Debug, PartialEq, Eq, Structural)]
pub enum PrimType {
    Null,
    Unit,
    Bool,
    Nat,
    Nat8,
    Nat16,
    Nat32,
    Nat64,
    Int,
    Int8,
    Int16,
    Int32,
    Int64,
    Text,
}

/// A type, as an annotation writes it.
#[derive(Debug)]
pub enum Type {
    Prim(PrimType),
    Named(Id),
    Tuple(Delim<Type_>),
}

/// A pattern.
#[derive(Debug)]
pub enum Pat {
    Wild,
    Var(Id),
    Literal(Literal),
    Tuple(Delim<Pat_>),
    Variant(Id, Option<Pat_>),
    Annot(Pat_, Type_),
    Paren(Pat_),
}

/// One arm of a `switch`.
#[derive(Debug)]
pub struct Case {
    pub pat: Pat_,
    pub exp: Exp_,
}

/// A declaration.
#[derive(Debug)]
pub enum Dec {
    Exp(Exp_),
    Let(Pat_, Exp_),
    Var(Pat_, Exp_),
    Typ(Id, Type_),
}

/// An expression. The machine reduces the forms up to `If`; the others
/// are unimplemented.
#[derive(Debug)]
pub enum Exp {
    Literal(Literal),
    Var(Id),
    Un(UnOp, Exp_),
    Bin(Exp_, BinOp, Exp_),
    Rel(Exp_, RelOp, Exp_),
    Paren(Exp_),
    Variant(Id, Option<Exp_>),
    Switch(Exp_, Cases),
    Block(Decs),
    Do(Exp_),
    Assert(Exp_),
    Tuple(Delim<Exp_>),
    Annot(Exp_, Type_),
    Assign(Exp_, Exp_),
    Proj(Exp_, usize),
    If(Exp_, Exp_, Option<Exp_>),
    Not(Exp_),
    And(Exp_, Exp_),
    Or(Exp_, Exp_),
    While(Exp_, Exp_),
    Ignore(Exp_),
    Return(Option<Exp_>),
}

impl<X> Loc<X> {
    /// Attaches a source to a piece of syntax.
    pub fn new(x: X, source: Source) -> (r: Loc<X>)
        ensures
            r == Loc(Rc::new(x), source),
    {
        Loc(Rc::new(x), source)
    }
}

impl Loc<Exp> {
    /// The same expression, with `source` as its source.
    pub fn node(&self, source: Source) -> (r: Exp_)
        ensures
            r == Loc(self.0, source),
    {
        Loc(rc_clone(&self.0), source)
    }
}

impl<X> Delim<Loc<X>> {
    /// The same items, over syntax that is shared with `self`.
    pub fn share(&self) -> (r: Self)
        ensures
            r.vec@ == self.vec@,
            r.has_trailing == self.has_trailing,
    {
        let mut vec: Vec<Loc<X>> = Vec::new();
        let mut i: usize = 0;
        while i < self.vec.len()
            invariant
                i <= self.vec.len(),
                vec@ == self.vec@.take(i as int),
            decreases self.vec.len() - i,
        {
            vec.push(self.vec[i].clone());
            assert(self.vec@.take(i as int).push(self.vec@[i as int]) =~= self.vec@.take(i + 1));
            i = i + 1;
        }
        assert(self.vec@.take(i as int) =~= self.vec@);
        Delim { vec, has_trailing: self.has_trailing }
    }
}

impl<X> Delim<X> {
    /// The items of `vec`, with no trailing separator.
    pub fn from_vec(vec: Vec<X>) -> (r: Delim<X>)
        ensures
            r == (Delim { vec, has_trailing: false }),
    {
        Delim { vec, has_trailing: false }
    }
}

} // verus!
