//! The values that evaluation produces, and their mathematical model.

use crate::ast::{Id, Literal};
use crate::num::{decimal_value, is_decimal, int_eq, nat_eq, nat_parse, Int, Nat};
use vstd::prelude::*;
use vstd::string::*;

verus! {

/// The address of a cell of the store.
#[derive(Clone, Copy, Debug, PartialEq, Eq, Structural)]
pub struct Pointer(pub usize);

/// A value.
#[derive(Debug)]
pub enum Value {
    Null,
    Unit,
    Bool(bool),
    Nat(Nat),
    Int(Int),
    Text(String),
    Tuple(Vec<Value>),
    Variant(Id, Option<Box<Value>>),
    Pointer(Pointer),
}

/// What a [`Value`] stands for: numbers are mathematical numbers, texts and
/// tuples are sequences, a pointer is its address.
pub enum ValueView {
    Null,
    Unit,
    Bool(bool),
    Nat(nat),
    Int(int),
    Text(Seq<char>),
    Tuple(Seq<ValueView>),
    Variant(Seq<char>, Option<Box<ValueView>>),
    Pointer(usize),
}

/// What `v` stands for.
pub open spec fn value_view(v: Value) -> ValueView
    decreases v,
{
    match v {
        Value::Null => ValueView::Null,
        Value::Unit => ValueView::Unit,
        Value::Bool(b) => ValueView::Bool(b),
        Value::Nat(n) => ValueView::Nat(n@),
        Value::Int(i) => ValueView::Int(i@),
        Value::Text(s) => ValueView::Text(s@),
        Value::Tuple(vs) => ValueView::Tuple(
            Seq::new(
                vs@.len(),
                |i: int|
                    if 0 <= i < vs@.len() {
                        value_view(vs@[i])
                    } else {
                        ValueView::Unit
                    },
            ),
        ),
        Value::Variant(id, None) => ValueView::Variant(id@, None),
        Value::Variant(id, Some(p)) => ValueView::Variant(id@, Some(Box::new(value_view(*p)))),
        Value::Pointer(p) => ValueView::Pointer(p.0),
    }
}

impl View for Value {
    type V = ValueView;

    open spec fn view(&self) -> ValueView {
        value_view(*self)
    }
}

/// The views of a sequence of values, one by one.
pub open spec fn values_view(vs: Seq<Value>) -> Seq<ValueView> {
    Seq::new(vs.len(), |i: int| vs[i]@)
}

/// A tuple stands for the views of its components.
pub proof fn lemma_tuple_view(vs: Vec<Value>)
    ensures
        Value::Tuple(vs)@ == ValueView::Tuple(values_view(vs@)),
{
    assert(Value::Tuple(vs)@->Tuple_0 =~= values_view(vs@));
}

/// The value that a literal stands for, where it stands for one: a number
/// must be written in decimal digits.
pub open spec fn literal_value(l: Literal) -> Option<ValueView> {
    match l {
        Literal::Null => Some(ValueView::Null),
        Literal::Unit => Some(ValueView::Unit),
        Literal::Bool(b) => Some(ValueView::Bool(b)),
        Literal::Nat(s) => if is_decimal(s@) {
            Some(ValueView::Nat(decimal_value(s@)))
        } else {
            None
        },
        Literal::Text(s) => Some(ValueView::Text(s@)),
    }
}

/// Why a literal stands for no value.
#[derive(Clone, Copy, Debug, PartialEq, Eq, Structural)]
pub enum ValueError {
    /// A number that is not written in decimal digits.
    BadNat,
}

/// Whether `s` is a non-empty run of decimal digits.
pub fn is_decimal_text(s: &str) -> (r: bool)
    ensures
        r == is_decimal(s@),
{
    broadcast use is_ascii_spec_bytes;

    if !s.is_ascii() {
        proof {
            if is_decimal(s@) {
                assert forall|i: int| 0 <= i < s@.len() implies '\0' <= #[trigger] s@[i]
                    <= '\u{7f}' by {
                    assert('0' <= s@[i] <= '9');
                }
            }
        }
        return false;
    }
    let bytes = s.as_bytes();
    if bytes.len() == 0 {
        return false;
    }
    let mut i: usize = 0;
    while i < bytes.len()
        invariant
            i <= bytes.len(),
            is_ascii(s),
            bytes@ == s.spec_bytes(),
            bytes@.len() == s@.len(),
            forall|j: int| 0 <= j < i ==> '0' <= #[trigger] s@[j] <= '9',
        decreases bytes.len() - i,
    {
        let b: u8 = bytes[i];
        assert(b == s@[i as int] as u8);
        assert('\0' <= s@[i as int] <= '\u{7f}');
        if b < 48 || b > 57 {
            assert(!('0' <= s@[i as int] <= '9'));
            return false;
        }
        i = i + 1;
    }
    true
}

impl Clone for Value {
    fn clone(&self) -> (r: Self)
        ensures
            r@ == self@,
        decreases self,
    {
        match self {
            Value::Null => Value::Null,
            Value::Unit => Value::Unit,
            Value::Bool(b) => Value::Bool(*b),
            Value::Nat(n) => Value::Nat(n.clone()),
            Value::Int(i) => Value::Int(i.clone()),
            Value::Text(s) => Value::Text(s.clone()),
            Value::Tuple(vs) => {
                let mut out: Vec<Value> = Vec::new();
                let mut i: usize = 0;
                while i < vs.len()
                    invariant
                        i <= vs.len(),
                        out@.len() == i,
                        *self == Value::Tuple(*vs),
                        forall|j: int| 0 <= j < i ==> out@[j]@ == vs@[j]@,
                    decreases vs.len() - i,
                {
                    proof {
                        assert(decreases_to!(*self => self->Tuple_0));
                        vstd::std_specs::vec::axiom_vec_index_decreases(*vs, i as int);
                    }
                    let v = vs[i].clone();
                    out.push(v);
                    i = i + 1;
                }
                proof {
                    lemma_tuple_view(out);
                    lemma_tuple_view(*vs);
                    assert(values_view(out@) =~= values_view(vs@));
                }
                Value::Tuple(out)
            },
            Value::Variant(id, None) => Value::Variant(id.clone(), None),
            Value::Variant(id, Some(v)) => Value::Variant(id.clone(), Some(Box::new((**v).clone()))),
            Value::Pointer(p) => Value::Pointer(*p),
        }
    }
}

impl Value {
    /// The value that a literal stands for.
    pub fn from_literal(l: &Literal) -> (r: Result<Value, ValueError>)
        ensures
            match literal_value(*l) {
                Some(v) => r is Ok && r->Ok_0@ == v,
                None => r == Err::<Value, ValueError>(ValueError::BadNat),
            },
    {
        match l {
            Literal::Null => Ok(Value::Null),
            Literal::Unit => Ok(Value::Unit),
            Literal::Bool(b) => Ok(Value::Bool(*b)),
            Literal::Nat(s) => {
                if is_decimal_text(s.as_str()) {
                    match nat_parse(s.as_str()) {
                        Some(n) => Ok(Value::Nat(n)),
                        None => Err(ValueError::BadNat),
                    }
                } else {
                    Err(ValueError::BadNat)
                }
            },
            Literal::Text(s) => Ok(Value::Text(s.clone())),
        }
    }

    /// Whether two values stand for the same thing.
    pub fn same(&self, other: &Value) -> (r: bool)
        ensures
            r == (self@ == other@),
        decreases self,
    {
        match (self, other) {
            (Value::Null, Value::Null) => true,
            (Value::Unit, Value::Unit) => true,
            (Value::Bool(a), Value::Bool(b)) => *a == *b,
            (Value::Nat(a), Value::Nat(b)) => nat_eq(a, b),
            (Value::Int(a), Value::Int(b)) => int_eq(a, b),
            (Value::Text(a), Value::Text(b)) => *a == *b,
            (Value::Tuple(xs), Value::Tuple(ys)) => {
                proof {
                    lemma_tuple_view(*xs);
                    lemma_tuple_view(*ys);
                }
                if xs.len() != ys.len() {
                    assert(values_view(xs@).len() != values_view(ys@).len());
                    return false;
                }
                let mut i: usize = 0;
                while i < xs.len()
                    invariant
                        i <= xs.len(),
                        xs.len() == ys.len(),
                        *self == Value::Tuple(*xs),
                        self@ == ValueView::Tuple(values_view(xs@)),
                        other@ == ValueView::Tuple(values_view(ys@)),
                        forall|j: int| 0 <= j < i ==> xs@[j]@ == ys@[j]@,
                    decreases xs.len() - i,
                {
                    proof {
                        assert(decreases_to!(*self => self->Tuple_0));
                        vstd::std_specs::vec::axiom_vec_index_decreases(*xs, i as int);
                    }
                    if !xs[i].same(&ys[i]) {
                        assert(values_view(xs@)[i as int] != values_view(ys@)[i as int]);
                        return false;
                    }
                    i = i + 1;
                }
                assert(values_view(xs@) =~= values_view(ys@));
                true
            },
            (Value::Variant(a, None), Value::Variant(b, None)) => *a == *b,
            (Value::Variant(a, Some(x)), Value::Variant(b, Some(y))) => {
                if *a == *b {
                    (**x).same(&**y)
                } else {
                    false
                }
            },
            (Value::Pointer(p), Value::Pointer(q)) => p.0 == q.0,
            _ => false,
        }
    }
}

} // verus!
