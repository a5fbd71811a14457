//! Operators, literals, values, patterns and sources, one call at a time.

use motoko_vm::ast::{BinOp, Delim, Exp, Literal, Loc, Pat, Pat_, PrimType, RelOp, Source, Span, UnOp};
use motoko_vm::num::{Int, Nat};
use motoko_vm::value::{is_decimal_text, Pointer, Value, ValueError};
use motoko_vm::vm::{binop, pattern_matches, relop, unop};
use motoko_vm::vm_types::{Env, Interruption};

fn num(bytes: &[u8]) -> Value {
    Value::Nat(Nat { bytes: bytes.to_vec() })
}

fn signed(bytes: &[u8]) -> Value {
    Value::Int(Int { bytes: bytes.to_vec() })
}

fn known(start: usize, end: usize, line: usize, col: usize) -> Source {
    Source::Known { span: Span { start, end }, line, col }
}

#[test]
fn addition_of_naturals_carries() {
    let r = binop(&None, BinOp::Add, num(&[255]), num(&[1])).unwrap();
    assert!(r.same(&num(&[0, 1])));
    assert!(matches!(r, Value::Nat(_)));
}

#[test]
fn addition_of_integers_is_signed() {
    // -3 + 1 = -2
    let r = binop(&None, BinOp::Add, signed(&[0xfd]), signed(&[1])).unwrap();
    assert!(r.same(&signed(&[0xfe])));
    // -128 + -128 = -256
    let r = binop(&None, BinOp::Add, signed(&[0x80]), signed(&[0x80])).unwrap();
    assert!(r.same(&signed(&[0x00, 0xff])));
}

#[test]
fn addition_of_mixed_numbers_is_unimplemented() {
    assert!(matches!(
        binop(&None, BinOp::Add, num(&[1]), signed(&[1])),
        Err(Interruption::Unimplemented)
    ));
    assert!(matches!(
        binop(&None, BinOp::Add, Value::Bool(true), num(&[1])),
        Err(Interruption::Unimplemented)
    ));
}

#[test]
fn subtraction_of_naturals_is_natural_unless_negative() {
    let r = binop(&None, BinOp::Sub, num(&[5]), num(&[3])).unwrap();
    assert!(matches!(r, Value::Nat(_)));
    assert!(r.same(&num(&[2])));
    let r = binop(&None, BinOp::Sub, num(&[5]), num(&[5])).unwrap();
    assert!(matches!(r, Value::Nat(_)));
    assert!(r.same(&num(&[0])));
    let r = binop(&None, BinOp::Sub, num(&[3]), num(&[5])).unwrap();
    assert!(matches!(r, Value::Int(_)));
    assert!(r.same(&signed(&[0xfe])));
}

#[test]
fn subtraction_of_integers_and_of_a_natural_from_an_integer() {
    // 1 - 3 = -2
    let r = binop(&None, BinOp::Sub, signed(&[1]), signed(&[3])).unwrap();
    assert!(r.same(&signed(&[0xfe])));
    // -1 - 200 = -201
    let r = binop(&None, BinOp::Sub, signed(&[0xff]), num(&[200])).unwrap();
    assert!(r.same(&signed(&[0x37, 0xff])));
    assert!(matches!(
        binop(&None, BinOp::Sub, num(&[1]), signed(&[3])),
        Err(Interruption::Unimplemented)
    ));
}

#[test]
fn wrapping_addition_by_expected_type() {
    assert!(matches!(
        binop(&None, BinOp::WAdd, num(&[200]), num(&[100])),
        Err(Interruption::AmbiguousOperation)
    ));
    assert!(matches!(
        binop(&None, BinOp::WAdd, Value::Unit, Value::Unit),
        Err(Interruption::AmbiguousOperation)
    ));
    let r = binop(&Some(PrimType::Nat8), BinOp::WAdd, num(&[200]), num(&[100])).unwrap();
    assert!(r.same(&num(&[44])));
    let r = binop(&Some(PrimType::Nat8), BinOp::WAdd, num(&[255]), num(&[1])).unwrap();
    assert!(r.same(&num(&[0])));
    let r = binop(&Some(PrimType::Nat8), BinOp::WAdd, num(&[1]), num(&[2])).unwrap();
    assert!(r.same(&num(&[3])));
    let r = binop(&Some(PrimType::Nat), BinOp::WAdd, num(&[200]), num(&[100])).unwrap();
    assert!(r.same(&num(&[44, 1])));
    assert!(matches!(
        binop(&Some(PrimType::Int), BinOp::WAdd, num(&[1]), num(&[1])),
        Err(Interruption::Unimplemented)
    ));
    assert!(matches!(
        binop(&Some(PrimType::Nat8), BinOp::WAdd, signed(&[1]), signed(&[1])),
        Err(Interruption::Unimplemented)
    ));
}

#[test]
fn other_binary_operators_are_unimplemented() {
    for op in [BinOp::Mul, BinOp::Div, BinOp::Mod, BinOp::Pow, BinOp::WSub, BinOp::Cat] {
        assert!(matches!(
            binop(&Some(PrimType::Nat), op, num(&[6]), num(&[3])),
            Err(Interruption::Unimplemented)
        ));
    }
}

#[test]
fn negation() {
    assert!(unop(UnOp::Neg, num(&[3])).unwrap().same(&signed(&[0xfd])));
    assert!(unop(UnOp::Neg, num(&[0])).unwrap().same(&signed(&[0])));
    assert!(unop(UnOp::Neg, num(&[200])).unwrap().same(&signed(&[0x38, 0xff])));
    assert!(matches!(unop(UnOp::Neg, signed(&[3])), Err(Interruption::Unimplemented)));
    assert!(matches!(unop(UnOp::Not, Value::Bool(true)), Err(Interruption::Unimplemented)));
    assert!(matches!(unop(UnOp::Pos, num(&[3])), Err(Interruption::Unimplemented)));
}

#[test]
fn equality_and_inequality() {
    let eq = |a: Value, b: Value| relop(&None, RelOp::Eq, a, b);
    let neq = |a: Value, b: Value| relop(&None, RelOp::Neq, a, b);
    assert!(eq(num(&[1]), num(&[1])).unwrap().same(&Value::Bool(true)));
    assert!(eq(num(&[1]), num(&[2])).unwrap().same(&Value::Bool(false)));
    assert!(neq(num(&[1]), num(&[1])).unwrap().same(&Value::Bool(false)));
    assert!(neq(num(&[1]), num(&[2])).unwrap().same(&Value::Bool(true)));
    assert!(eq(signed(&[0xff]), signed(&[0xff])).unwrap().same(&Value::Bool(true)));
    assert!(eq(signed(&[0xff]), signed(&[1])).unwrap().same(&Value::Bool(false)));
    assert!(neq(signed(&[0xff]), signed(&[1])).unwrap().same(&Value::Bool(true)));
    assert!(matches!(eq(num(&[1]), signed(&[1])), Err(Interruption::Unimplemented)));
    assert!(matches!(
        relop(&None, RelOp::Lt, num(&[1]), num(&[2])),
        Err(Interruption::Unimplemented)
    ));
}

#[test]
fn equal_numbers_need_not_have_equal_bytes() {
    assert!(num(&[7]).same(&num(&[7, 0, 0])));
    assert!(num(&[]).same(&num(&[0])));
    assert!(signed(&[0xff]).same(&signed(&[0xff, 0xff])));
    assert!(signed(&[]).same(&signed(&[0])));
    assert!(!signed(&[0xff]).same(&signed(&[0xff, 0x00])));
    assert!(relop(&None, RelOp::Eq, num(&[7]), num(&[7, 0])).unwrap().same(&Value::Bool(true)));
}

#[test]
fn values_of_different_kinds_are_different() {
    assert!(!num(&[1]).same(&signed(&[1])));
    assert!(!Value::Unit.same(&Value::Null));
    assert!(!Value::Bool(true).same(&Value::Bool(false)));
    assert!(!Value::Pointer(Pointer(1)).same(&Value::Pointer(Pointer(2))));
    assert!(Value::Pointer(Pointer(2)).same(&Value::Pointer(Pointer(2))));
    assert!(!Value::Text("a".to_string()).same(&Value::Text("b".to_string())));
    assert!(!Value::Tuple(vec![num(&[1])]).same(&Value::Tuple(vec![num(&[1]), num(&[1])])));
    assert!(!Value::Tuple(vec![num(&[1]), num(&[2])])
        .same(&Value::Tuple(vec![num(&[1]), num(&[3])])));
    assert!(!Value::Variant("a".to_string(), None)
        .same(&Value::Variant("a".to_string(), Some(Box::new(Value::Unit)))));
    assert!(!Value::Variant("a".to_string(), None).same(&Value::Variant("b".to_string(), None)));
}

#[test]
fn clone_of_a_value_is_the_same_value() {
    let v = Value::Tuple(vec![
        num(&[1, 2, 3]),
        signed(&[0x80]),
        Value::Text("text".to_string()),
        Value::Variant("v".to_string(), Some(Box::new(Value::Tuple(vec![Value::Null])))),
        Value::Pointer(Pointer(9)),
        Value::Bool(true),
        Value::Unit,
    ]);
    assert!(v.clone().same(&v));
}

#[test]
fn literal_numbers_are_decimal() {
    let lit = |s: &str| Value::from_literal(&Literal::Nat(s.to_string()));
    assert!(lit("0").unwrap().same(&num(&[0])));
    assert!(lit("007").unwrap().same(&num(&[7])));
    assert!(lit("256").unwrap().same(&num(&[0, 1])));
    assert!(lit("65535").unwrap().same(&num(&[255, 255])));
    assert!(lit("18446744073709551616").unwrap().same(&num(&[0, 0, 0, 0, 0, 0, 0, 0, 1])));
    assert_eq!(lit("").err(), Some(ValueError::BadNat));
    assert_eq!(lit("1_000").err(), Some(ValueError::BadNat));
    assert_eq!(lit("+1").err(), Some(ValueError::BadNat));
    assert_eq!(lit("-1").err(), Some(ValueError::BadNat));
    assert_eq!(lit("0x10").err(), Some(ValueError::BadNat));
    assert_eq!(lit(" 1").err(), Some(ValueError::BadNat));
    assert_eq!(lit("١").err(), Some(ValueError::BadNat));
}

#[test]
fn decimal_text() {
    assert!(is_decimal_text("0123456789"));
    assert!(!is_decimal_text(""));
    assert!(!is_decimal_text("12/"));
    assert!(!is_decimal_text("12:"));
    assert!(!is_decimal_text("é"));
}

#[test]
fn other_literals() {
    assert!(Value::from_literal(&Literal::Null).unwrap().same(&Value::Null));
    assert!(Value::from_literal(&Literal::Unit).unwrap().same(&Value::Unit));
    assert!(Value::from_literal(&Literal::Bool(false)).unwrap().same(&Value::Bool(false)));
    assert!(Value::from_literal(&Literal::Text("x".to_string()))
        .unwrap()
        .same(&Value::Text("x".to_string())));
}

#[test]
fn small_numbers() {
    assert_eq!(Nat::from_u8(200).bytes, vec![200]);
    assert!(Value::Nat(Nat::two_fifty_six()).same(&num(&[0, 1])));
}

fn pat(p: Pat) -> Pat_ {
    Loc::new(p, Source::Unknown)
}

#[test]
fn variable_pattern_binds() {
    let env = Env::new();
    let out = pattern_matches(&env, &Pat::Var("x".to_string()), &num(&[1])).unwrap();
    assert!(out.get("x").unwrap().same(&num(&[1])));
    assert_eq!(out.len(), 1);
    // The environment that was passed in is as it was.
    assert!(env.is_empty());
}

#[test]
fn variable_pattern_shadows() {
    let mut env = Env::new();
    env.insert("x".to_string(), num(&[1]));
    env.insert("y".to_string(), num(&[2]));
    let out = pattern_matches(&env, &Pat::Var("x".to_string()), &num(&[3])).unwrap();
    assert!(out.get("x").unwrap().same(&num(&[3])));
    assert!(out.get("y").unwrap().same(&num(&[2])));
    assert!(env.get("x").unwrap().same(&num(&[1])));
}

#[test]
fn variant_pattern_matches_by_name_and_payload() {
    let env = Env::new();
    let foo = |payload: Option<Value>| Value::Variant("foo".to_string(), payload.map(Box::new));
    let p_none = Pat::Variant("foo".to_string(), None);
    let p_some = Pat::Variant("foo".to_string(), Some(pat(Pat::Var("n".to_string()))));
    assert!(pattern_matches(&env, &p_none, &foo(None)).unwrap().is_empty());
    assert!(pattern_matches(&env, &p_none, &foo(Some(Value::Unit))).is_none());
    assert!(pattern_matches(&env, &p_some, &foo(None)).is_none());
    let out = pattern_matches(&env, &p_some, &foo(Some(num(&[2])))).unwrap();
    assert!(out.get("n").unwrap().same(&num(&[2])));
    let bar = Value::Variant("bar".to_string(), Some(Box::new(num(&[2]))));
    assert!(pattern_matches(&env, &p_some, &bar).is_none());
    assert!(pattern_matches(&env, &p_none, &Value::Variant("bar".to_string(), None)).is_none());
    assert!(pattern_matches(&env, &p_none, &num(&[1])).is_none());
}

#[test]
fn nested_and_parenthesized_patterns() {
    let env = Env::new();
    let p = Pat::Paren(pat(Pat::Variant(
        "a".to_string(),
        Some(pat(Pat::Paren(pat(Pat::Variant(
            "b".to_string(),
            Some(pat(Pat::Var("x".to_string()))),
        ))))),
    )));
    let v = Value::Variant(
        "a".to_string(),
        Some(Box::new(Value::Variant("b".to_string(), Some(Box::new(num(&[5])))))),
    );
    let out = pattern_matches(&env, &p, &v).unwrap();
    assert!(out.get("x").unwrap().same(&num(&[5])));
    let w = Value::Variant(
        "a".to_string(),
        Some(Box::new(Value::Variant("c".to_string(), Some(Box::new(num(&[5])))))),
    );
    assert!(pattern_matches(&env, &p, &w).is_none());
}

#[test]
fn other_patterns_match_nothing() {
    let env = Env::new();
    assert!(pattern_matches(&env, &Pat::Wild, &Value::Unit).is_none());
    assert!(pattern_matches(&env, &Pat::Literal(Literal::Unit), &Value::Unit).is_none());
    assert!(pattern_matches(&env, &Pat::Tuple(Delim::from_vec(vec![])), &Value::Unit).is_none());
}

#[test]
fn span_of_a_source() {
    assert_eq!(known(1, 4, 2, 3).span(), Some(Span { start: 1, end: 4 }));
    assert_eq!(Source::Unknown.span(), None);
    assert_eq!(Source::Evaluation.span(), None);
    assert_eq!(Source::CoreInit.span(), None);
    assert!(Span { start: 1, end: 4 }.same(&Span { start: 1, end: 4 }));
    assert!(!Span { start: 1, end: 4 }.same(&Span { start: 1, end: 5 }));
    assert!(!Span { start: 0, end: 4 }.same(&Span { start: 1, end: 4 }));
}

#[test]
fn expansion_of_sources() {
    assert_eq!(known(1, 4, 2, 3).expand(&known(6, 9, 5, 5)), known(1, 9, 2, 3));
    assert_eq!(known(6, 9, 5, 5).expand(&known(1, 4, 2, 3)), known(1, 9, 5, 5));
    assert_eq!(known(1, 9, 2, 3).expand(&known(2, 3, 7, 7)), known(1, 9, 2, 3));
    assert_eq!(known(1, 4, 2, 3).expand(&Source::Unknown), known(1, 4, 2, 3));
    assert_eq!(Source::Unknown.expand(&known(1, 4, 2, 3)), known(1, 4, 2, 3));
    assert_eq!(Source::Evaluation.expand(&known(1, 4, 2, 3)), known(1, 4, 2, 3));
    assert_eq!(Source::Unknown.expand(&Source::Unknown), Source::Unknown);
    assert_eq!(Source::Evaluation.expand(&Source::CoreInit), Source::Evaluation);
}

#[test]
fn shared_syntax() {
    let e = Loc::new(Exp::Var("x".to_string()), known(1, 2, 1, 1));
    let copy = e.clone();
    assert!(std::rc::Rc::ptr_eq(&e.0, &copy.0));
    assert_eq!(copy.1, e.1);
    let moved = e.node(known(5, 6, 1, 5));
    assert!(std::rc::Rc::ptr_eq(&e.0, &moved.0));
    assert_eq!(moved.1, known(5, 6, 1, 5));
    let items = Delim { vec: vec![e.clone(), moved.clone()], has_trailing: true };
    let shared = items.share();
    assert_eq!(shared.vec.len(), 2);
    assert!(shared.has_trailing);
    assert!(std::rc::Rc::ptr_eq(&shared.vec[0].0, &e.0));
    assert_eq!(shared.vec[0].1, known(1, 2, 1, 1));
    assert_eq!(shared.vec[1].1, known(5, 6, 1, 5));
}
