use motoko_vm::ast::Delim;
use motoko_vm::num::Nat;
use motoko_vm::value::{Pointer, Value};
use motoko_vm::vm::store::{allocate, deref, mutate};
use motoko_vm::vm_types::{Core, Interruption};

fn nat_value(n: u8) -> Value {
    Value::Nat(Nat::from_u8(n))
}

#[test]
fn allocate_hands_out_increasing_addresses() {
    let mut core = Core::new(Delim::from_vec(vec![]));
    let p0 = allocate(&mut core, nat_value(10));
    let p1 = allocate(&mut core, nat_value(11));
    let p2 = allocate(&mut core, nat_value(12));
    assert_eq!(p0, Pointer(0));
    assert_eq!(p1, Pointer(1));
    assert_eq!(p2, Pointer(2));
    assert!(deref(&mut core, &p1).unwrap().same(&nat_value(11)));
}

#[test]
fn deref_of_unallocated_pointer_is_none() {
    let mut core = Core::new(Delim::from_vec(vec![]));
    assert!(deref(&mut core, &Pointer(0)).is_none());
    allocate(&mut core, nat_value(1));
    assert!(deref(&mut core, &Pointer(0)).is_some());
    assert!(deref(&mut core, &Pointer(1)).is_none());
}

#[test]
fn mutate_replaces_an_allocated_cell() {
    let mut core = Core::new(Delim::from_vec(vec![]));
    let p = allocate(&mut core, nat_value(1));
    assert!(mutate(&mut core, p, nat_value(7)).is_ok());
    assert!(deref(&mut core, &p).unwrap().same(&nat_value(7)));
}

#[test]
fn mutate_of_unallocated_pointer_is_dangling() {
    let mut core = Core::new(Delim::from_vec(vec![]));
    match mutate(&mut core, Pointer(3), nat_value(7)) {
        Err(Interruption::Dangling(p)) => assert_eq!(p, Pointer(3)),
        other => panic!("expected a dangling pointer, got {:?}", other),
    }
    assert!(deref(&mut core, &Pointer(3)).is_none());
}
