//! The machine, step by step: what each transition leaves in the core.

use motoko_vm::ast::{
    BinOp, Dec, Dec_, Delim, Exp, Exp_, Literal, Loc, Pat, PrimType, Prog, Source, Span, Type,
};
use motoko_vm::num::Nat;
use motoko_vm::value::{Pointer, Value};
use motoko_vm::vm::{
    check_for_breakpoint, core_init, core_step, exp_conts, exp_conts_, exp_step, frame_step,
    local_init, local_run, pop_frame, source_from_cont, source_from_decs, stack_cont, switch,
    top_frame_takes_pointer,
};
use motoko_vm::vm_types::{
    Cont, Core, Env, Frame, FrameCont, Interruption, Limit, Limits, Local, Signal,
};

fn at(n: usize) -> Source {
    Source::Known { span: Span { start: n, end: n + 1 }, line: 1, col: n }
}

fn num(digits: &str, n: usize) -> Exp_ {
    Loc::new(Exp::Literal(Literal::Nat(digits.to_string())), at(n))
}

fn name(x: &str, n: usize) -> Exp_ {
    Loc::new(Exp::Var(x.to_string()), at(n))
}

fn dec(e: Exp_, n: usize) -> Dec_ {
    Loc::new(Dec::Exp(e), at(n))
}

fn prog(decs: Vec<Dec_>) -> Prog {
    Delim::from_vec(decs)
}

fn small(n: u8) -> Value {
    Value::Nat(Nat::from_u8(n))
}

fn frame(cont: FrameCont, source: Source) -> Frame {
    Frame { env: Env::new(), cont, cont_prim_type: None, source }
}

fn value_of(cont: &Cont) -> &Value {
    match cont {
        Cont::Value(v) => v,
        other => panic!("expected a value, got {:?}", other),
    }
}

#[test]
fn fresh_core() {
    let core = core_init(prog(vec![dec(num("1", 0), 0)]));
    assert!(core.store.is_empty());
    assert!(core.stack.is_empty());
    assert!(core.env.is_empty());
    assert!(matches!(&core.cont, Cont::Decs(d) if d.len() == 1));
    assert_eq!(core.cont_source, Source::CoreInit);
    assert_eq!(core.cont_prim_type, None);
    assert_eq!(core.counts.step, 0);
    let same = Core::new(prog(vec![dec(num("1", 0), 0)]));
    assert!(matches!(&same.cont, Cont::Decs(d) if d.len() == 1));
    assert_eq!(same.counts.step, 0);
}

#[test]
fn continuation_is_never_taken_after_a_step() {
    let mut core = Core::new(prog(vec![
        Loc::new(
            Dec::Var(
                Loc::new(Pat::Var("x".to_string()), at(0)),
                Loc::new(Exp::Bin(num("1", 1), BinOp::Add, num("2", 2)), at(3)),
            ),
            at(4),
        ),
        dec(Loc::new(Exp::Assign(name("x", 5), num("7", 6)), at(7)), 8),
        dec(Loc::new(Exp::Tuple(Delim::from_vec(vec![name("x", 9), num("1", 10)])), at(11)), 12),
    ]));
    let limits = Limits::none();
    let mut steps: usize = 0;
    loop {
        match core.step(&limits) {
            Ok(_) => {
                steps += 1;
                assert!(!matches!(core.cont, Cont::Taken));
                assert_eq!(core.counts.step, steps);
            }
            Err(Interruption::Done(v)) => {
                assert!(v.same(&Value::Tuple(vec![small(7), small(1)])));
                break;
            }
            Err(other) => panic!("interrupted: {:?}", other),
        }
    }
    assert!(steps > 10);
    assert_eq!(core.counts.step, steps + 1);
}

#[test]
fn empty_declarations_become_unit() {
    let mut core = Core::new(prog(vec![]));
    assert!(core_step(&mut core, &Limits::none()).is_ok());
    assert!(value_of(&core.cont).same(&Value::Unit));
    assert_eq!(core.cont_source, Source::Evaluation);
    assert_eq!(core.counts.step, 1);
    assert!(matches!(core_step(&mut core, &Limits::none()), Err(Interruption::Done(Value::Unit))));
    assert_eq!(core.counts.step, 2);
}

#[test]
fn expression_declaration_takes_the_source_of_its_declaration() {
    let mut core = Core::new(prog(vec![dec(num("1", 3), 5), dec(num("2", 4), 6)]));
    assert!(core.step(&Limits::none()).is_ok());
    assert_eq!(core.cont_source, at(5));
    match &core.cont {
        Cont::Exp_(e, rest) => {
            assert_eq!(e.1, at(5));
            assert_eq!(rest.len(), 1);
            assert_eq!(rest.front().unwrap().1, at(6));
        }
        other => panic!("expected an expression, got {:?}", other),
    }
    assert!(core.stack.is_empty());
}

#[test]
fn pending_declarations_go_to_a_frame_without_expected_type() {
    let mut core = Core::new(prog(vec![dec(num("1", 3), 5), dec(num("2", 4), 6), dec(num("3", 4), 8)]));
    core.cont_prim_type = Some(PrimType::Nat8);
    assert!(core.step(&Limits::none()).is_ok());
    assert!(core.step(&Limits::none()).is_ok());
    assert!(value_of(&core.cont).same(&small(1)));
    assert_eq!(core.stack.len(), 1);
    let top = core.stack.front().unwrap();
    assert!(matches!(&top.cont, FrameCont::Decs(d) if d.len() == 2));
    assert_eq!(top.cont_prim_type, None);
    assert_eq!(
        top.source,
        Source::Known { span: Span { start: 6, end: 9 }, line: 1, col: 6 }
    );
    // The frame resumes the declarations and drops the value.
    assert!(core.step(&Limits::none()).is_ok());
    assert!(matches!(&core.cont, Cont::Decs(d) if d.len() == 2));
    assert_eq!(core.cont_prim_type, None);
    assert!(core.stack.is_empty());
}

#[test]
fn let_pushes_a_frame_that_records_the_current_source() {
    let mut core = Core::new(prog(vec![
        Loc::new(Dec::Let(Loc::new(Pat::Var("x".to_string()), at(0)), num("1", 2)), at(4)),
        dec(name("x", 6), 8),
    ]));
    assert!(core.step(&Limits::none()).is_ok());
    assert_eq!(core.stack.len(), 1);
    let top = core.stack.front().unwrap();
    assert_eq!(top.source, Source::CoreInit);
    assert!(matches!(&top.cont, FrameCont::Let(_, Cont::Decs(d)) if d.len() == 1));
    assert_eq!(core.cont_source, at(2));
    assert!(matches!(&core.cont, Cont::Exp_(e, d) if e.1 == at(2) && d.is_empty()));
    assert!(core.step(&Limits::none()).is_ok());
    assert!(core.step(&Limits::none()).is_ok());
    // The binding is made, and the rest of the block is current.
    assert!(core.env.get("x").unwrap().same(&small(1)));
    assert!(matches!(&core.cont, Cont::Decs(d) if d.len() == 1));
    assert_eq!(core.cont_source, at(8));
    assert!(core.stack.is_empty());
}

#[test]
fn var_allocates_a_cell_and_binds_its_pointer() {
    let mut core = Core::new(prog(vec![Loc::new(
        Dec::Var(Loc::new(Pat::Var("x".to_string()), at(0)), num("9", 2)),
        at(4),
    )]));
    for _ in 0..3 {
        assert!(core.step(&Limits::none()).is_ok());
    }
    assert!(core.env.get("x").unwrap().same(&Value::Pointer(Pointer(0))));
    assert!(core.store.get(&0).unwrap().same(&small(9)));
    assert_eq!(core.store.len(), 1);
    assert!(matches!(&core.cont, Cont::Decs(d) if d.is_empty()));
    assert_eq!(core.cont_source, Source::Unknown);
}

#[test]
fn pointer_is_replaced_by_the_value_of_its_cell() {
    let mut core = Core::new(prog(vec![]));
    core.store.insert(0, small(5));
    core.env.insert("x".to_string(), Value::Pointer(Pointer(0)));
    core.stack.push_front(frame(FrameCont::Paren, at(1)));
    core.cont = Cont::Value(Value::Pointer(Pointer(0)));
    core.cont_source = at(2);
    core.cont_prim_type = Some(PrimType::Nat);
    assert!(core.step(&Limits::none()).is_ok());
    assert!(value_of(&core.cont).same(&small(5)));
    // Nothing else has moved.
    assert_eq!(core.stack.len(), 1);
    assert_eq!(core.cont_source, at(2));
    assert_eq!(core.cont_prim_type, Some(PrimType::Nat));
    assert_eq!(core.env.len(), 1);
    assert_eq!(core.store.len(), 1);
    assert_eq!(core.counts.step, 1);
}

#[test]
fn pointer_without_frame_is_dereferenced_too() {
    let mut core = Core::new(prog(vec![]));
    core.store.insert(0, small(5));
    core.cont = Cont::Value(Value::Pointer(Pointer(0)));
    assert!(core.step(&Limits::none()).is_ok());
    assert!(value_of(&core.cont).same(&small(5)));
    assert!(matches!(core.step(&Limits::none()), Err(Interruption::Done(_))));
}

#[test]
fn pointer_to_no_cell_is_dangling() {
    let mut core = Core::new(prog(vec![]));
    core.cont = Cont::Value(Value::Pointer(Pointer(4)));
    match core.step(&Limits::none()) {
        Err(Interruption::Dangling(p)) => assert_eq!(p, Pointer(4)),
        other => panic!("expected a dangling pointer, got {:?}", other),
    }
}

#[test]
fn pointer_reaches_the_left_hand_side_of_an_assignment() {
    let mut core = Core::new(prog(vec![]));
    core.store.insert(0, small(5));
    core.stack.push_front(frame(FrameCont::Assign1(num("7", 3)), at(1)));
    core.cont = Cont::Value(Value::Pointer(Pointer(0)));
    assert!(top_frame_takes_pointer(&core));
    assert!(core.step(&Limits::none()).is_ok());
    assert_eq!(core.stack.len(), 1);
    assert!(matches!(&core.stack.front().unwrap().cont, FrameCont::Assign2(Pointer(0))));
    assert!(matches!(&core.cont, Cont::Exp_(e, _) if e.1 == at(3)));
    assert!(!top_frame_takes_pointer(&core));
    assert!(core.step(&Limits::none()).is_ok());
    assert!(core.step(&Limits::none()).is_ok());
    assert!(core.store.get(&0).unwrap().same(&small(7)));
    assert!(value_of(&core.cont).same(&Value::Unit));
}

#[test]
fn assignment_to_a_freed_address_is_dangling() {
    let mut core = Core::new(prog(vec![]));
    core.stack.push_front(frame(FrameCont::Assign2(Pointer(2)), at(1)));
    core.cont = Cont::Value(small(1));
    match core.step(&Limits::none()) {
        Err(Interruption::Dangling(p)) => assert_eq!(p, Pointer(2)),
        other => panic!("expected a dangling pointer, got {:?}", other),
    }
}

#[test]
fn popping_restores_environment_type_and_source() {
    let mut saved = Env::new();
    saved.insert("old".to_string(), small(1));
    let mut core = Core::new(prog(vec![]));
    core.env.insert("new".to_string(), small(2));
    core.cont_prim_type = Some(PrimType::Nat8);
    core.cont_source = at(9);
    core.stack.push_front(Frame {
        env: saved,
        cont: FrameCont::Paren,
        cont_prim_type: Some(PrimType::Int),
        source: at(3),
    });
    let popped = pop_frame(&mut core).unwrap();
    assert!(matches!(popped, FrameCont::Paren));
    assert!(core.env.contains_key("old"));
    assert!(!core.env.contains_key("new"));
    assert_eq!(core.cont_prim_type, Some(PrimType::Int));
    assert_eq!(core.cont_source, at(3));
    assert!(core.stack.is_empty());
    assert!(pop_frame(&mut core).is_none());
    assert!(core.env.contains_key("old"));
}

#[test]
fn popping_a_declarations_frame_keeps_the_environment() {
    let mut saved = Env::new();
    saved.insert("old".to_string(), small(1));
    let mut core = Core::new(prog(vec![]));
    core.env.insert("new".to_string(), small(2));
    core.cont_prim_type = Some(PrimType::Nat8);
    core.stack.push_front(Frame {
        env: saved,
        cont: FrameCont::Decs(im_rc::Vector::new()),
        cont_prim_type: None,
        source: at(3),
    });
    assert!(matches!(pop_frame(&mut core), Some(FrameCont::Decs(_))));
    assert!(core.env.contains_key("new"));
    assert!(!core.env.contains_key("old"));
    assert_eq!(core.cont_prim_type, None);
    assert_eq!(core.cont_source, at(3));
}

#[test]
fn declarations_frame_without_declarations_passes_the_value_on() {
    let mut core = Core::new(prog(vec![]));
    core.stack.push_front(frame(FrameCont::Decs(im_rc::Vector::new()), at(3)));
    assert!(stack_cont(&mut core, &Limits::none(), small(4)).is_ok());
    assert!(value_of(&core.cont).same(&small(4)));
}

#[test]
fn pass_through_frames() {
    let t = Loc::new(Type::Prim(PrimType::Nat), at(0));
    for cont in [FrameCont::Paren, FrameCont::Block, FrameCont::Do, FrameCont::Annot(t)] {
        let mut core = Core::new(prog(vec![]));
        assert!(frame_step(&mut core, &Limits::none(), cont, small(4)).is_ok());
        assert!(value_of(&core.cont).same(&small(4)));
    }
}

#[test]
fn done_when_no_frame_is_left() {
    let mut core = Core::new(prog(vec![]));
    match stack_cont(&mut core, &Limits::none(), small(4)) {
        Err(Interruption::Done(v)) => assert!(v.same(&small(4))),
        other => panic!("expected the end, got {:?}", other),
    }
}

#[test]
fn binary_operator_frames_keep_the_left_operand() {
    let mut core = Core::new(prog(vec![]));
    core.cont_source = at(1);
    let sum = Loc::new(Exp::Bin(num("40", 2), BinOp::Add, num("2", 3)), at(4));
    assert!(exp_step(&mut core, sum, &Limits::none()).is_ok());
    assert!(matches!(&core.stack.front().unwrap().cont, FrameCont::BinOp1(BinOp::Add, e) if e.1 == at(3)));
    assert_eq!(core.stack.front().unwrap().source, at(1));
    assert_eq!(core.cont_source, at(2));
    core.cont = Cont::Taken;
    assert!(stack_cont(&mut core, &Limits::none(), small(40)).is_ok());
    assert!(matches!(&core.stack.front().unwrap().cont, FrameCont::BinOp2(v, BinOp::Add) if v.same(&small(40))));
    assert_eq!(core.cont_source, at(3));
    core.cont = Cont::Taken;
    assert!(stack_cont(&mut core, &Limits::none(), small(2)).is_ok());
    assert!(value_of(&core.cont).same(&small(42)));
    assert!(core.stack.is_empty());
}

#[test]
fn annotation_sets_the_expected_type_before_it_pushes() {
    let mut core = Core::new(prog(vec![]));
    let annotated = |t: Type| Loc::new(Exp::Annot(num("1", 2), Loc::new(t, at(3))), at(4));
    assert!(exp_step(&mut core, annotated(Type::Prim(PrimType::Nat8)), &Limits::none()).is_ok());
    assert_eq!(core.cont_prim_type, Some(PrimType::Nat8));
    assert_eq!(core.stack.front().unwrap().cont_prim_type, Some(PrimType::Nat8));
    assert!(exp_step(&mut core, annotated(Type::Named("T".to_string())), &Limits::none()).is_ok());
    assert_eq!(core.cont_prim_type, Some(PrimType::Nat8));
    assert_eq!(core.stack.len(), 2);
}

#[test]
fn block_records_its_own_source() {
    let mut core = Core::new(prog(vec![]));
    core.cont_source = at(1);
    let block = Loc::new(Exp::Block(Delim::from_vec(vec![dec(num("1", 2), 3)])), at(7));
    assert!(exp_step(&mut core, block, &Limits::none()).is_ok());
    assert!(matches!(&core.stack.front().unwrap().cont, FrameCont::Block));
    assert_eq!(core.stack.front().unwrap().source, at(7));
    assert_eq!(core.cont_source, at(7));
    assert!(matches!(&core.cont, Cont::Decs(d) if d.len() == 1));
}

#[test]
fn pushes_capture_the_environment() {
    let mut core = Core::new(prog(vec![]));
    core.env.insert("x".to_string(), small(1));
    core.cont_prim_type = Some(PrimType::Nat);
    assert!(exp_conts_(
        &mut core,
        at(1),
        FrameCont::Do,
        Cont::Value(Value::Unit),
        at(2)
    )
    .is_ok());
    core.env.insert("y".to_string(), small(2));
    let top = core.stack.front().unwrap();
    assert_eq!(top.env.len(), 1);
    assert!(top.env.contains_key("x"));
    assert_eq!(top.cont_prim_type, Some(PrimType::Nat));
    assert_eq!(top.source, at(1));
    assert_eq!(core.cont_source, at(2));
    core.cont_source = at(5);
    assert!(exp_conts(&mut core, FrameCont::Assert, num("1", 8)).is_ok());
    assert_eq!(core.stack.len(), 2);
    assert_eq!(core.stack.front().unwrap().source, at(5));
    assert_eq!(core.cont_source, at(8));
}

#[test]
fn switch_installs_the_environment_of_the_match() {
    let mut core = Core::new(prog(vec![]));
    core.env.insert("x".to_string(), small(1));
    let case = Loc::new(
        motoko_vm::ast::Case {
            pat: Loc::new(Pat::Var("n".to_string()), at(0)),
            exp: name("n", 6),
        },
        at(1),
    );
    assert!(switch(&mut core, &Limits::none(), small(3), Delim::from_vec(vec![case])).is_ok());
    assert!(core.env.get("n").unwrap().same(&small(3)));
    assert!(core.env.contains_key("x"));
    assert_eq!(core.cont_source, at(6));
    assert!(matches!(&core.cont, Cont::Exp_(e, d) if e.1 == at(6) && d.is_empty()));
    let mut core = Core::new(prog(vec![]));
    assert!(matches!(
        switch(&mut core, &Limits::none(), small(3), Delim::from_vec(vec![])),
        Err(Interruption::NoMatchingCase)
    ));
}

#[test]
fn sources_of_continuations() {
    let decs: im_rc::Vector<Dec_> =
        vec![dec(num("1", 0), 2), dec(num("2", 0), 5), dec(num("3", 0), 9)].into();
    let whole = Source::Known { span: Span { start: 2, end: 10 }, line: 1, col: 2 };
    assert_eq!(source_from_decs(&decs), whole);
    assert_eq!(source_from_decs(&im_rc::Vector::new()), Source::Unknown);
    assert_eq!(source_from_cont(&Cont::Decs(decs.clone())), whole);
    assert_eq!(source_from_cont(&Cont::Value(Value::Unit)), Source::Evaluation);
    assert_eq!(source_from_cont(&Cont::Exp_(num("1", 4), im_rc::Vector::new())), at(4));
    assert_eq!(
        source_from_cont(&Cont::Exp_(num("1", 1), decs)),
        Source::Known { span: Span { start: 1, end: 10 }, line: 1, col: 1 }
    );
}

#[test]
fn breakpoints_are_spans_of_the_current_source() {
    let mut local = local_init(Core::new(prog(vec![])));
    let mut limits = Limits::none();
    limits.breakpoints.push(Span { start: 3, end: 4 });
    assert_eq!(check_for_breakpoint(&mut local, &limits), None);
    local.active.cont_source = at(3);
    assert_eq!(check_for_breakpoint(&mut local, &limits), Some(Span { start: 3, end: 4 }));
    assert_eq!(check_for_breakpoint(&mut local, &Limits::none()), None);
    local.active.cont_source = at(4);
    assert_eq!(check_for_breakpoint(&mut local, &limits), None);
    assert!(matches!(local_run(&mut local, &Limits::none()), Signal::Done(Value::Unit)));
    let other = Local::new(Core::new(prog(vec![])));
    assert_eq!(other.active.counts.step, 0);
}

#[test]
fn limits() {
    let mut limits = Limits::none();
    assert!(limits.breakpoints.is_empty());
    assert_eq!(limits.step, None);
    limits.step(5);
    assert_eq!(limits.step, Some(5));
    assert!(limits.breakpoints.is_empty());
}

#[test]
fn counter_at_its_end_is_a_step_limit() {
    let mut core = Core::new(prog(vec![]));
    core.counts.step = usize::MAX;
    assert!(matches!(core.step(&Limits::none()), Err(Interruption::Limit(Limit::Step))));
    assert_eq!(core.counts.step, usize::MAX);
    let mut local = Local::new(core);
    assert!(matches!(
        local.run(&Limits::none()),
        Signal::Interruption(Interruption::Limit(Limit::Step))
    ));
}

#[test]
fn unknown_interruption_from_unit() {
    assert!(matches!(Interruption::from(()), Interruption::Unknown));
}
