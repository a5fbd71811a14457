//! The store: cells addressed by pointers. Addresses are handed out in
//! increasing order and never taken back.

use crate::model::{
    alloc_spec, deref_spec, mutate_spec, next_pointer, store_dense, store_has_room,
};
use crate::persist::{store_get, store_insert, store_len};
use crate::value::{Pointer, Value};
use crate::vm_types::{Core, Interruption};
use vstd::prelude::*;

verus! {

/// What [`deref`] returns.
pub open spec fn deref_returns(r: Option<Value>, spec: Option<crate::value::ValueView>) -> bool {
    match spec {
        Some(v) => r is Some && r->0@ == v,
        None => r is None,
    }
}

/// What [`mutate`] does: it fills the cell at `p`, which must be allocated.
pub open spec fn mutate_returns(
    r: Result<(), Interruption>,
    before: crate::vm_types::CoreView,
    after: crate::vm_types::CoreView,
    p: usize,
    v: crate::value::ValueView,
) -> bool {
    if before.store.contains_key(p) {
        r is Ok && after == mutate_spec(before, p, v)
    } else {
        r is Err && r->Err_0@ == crate::vm_types::InterruptionView::Dangling(p) && after == before
    }
}

/// In a dense store the next address is not in use. Where the store has
/// room, it is dense again once a value is there, and the address after
/// the next is one higher.
pub proof fn lemma_alloc_fresh(c: crate::vm_types::CoreView, v: crate::value::ValueView)
    requires
        store_dense(c.store),
    ensures
        !c.store.contains_key(next_pointer(c.store)),
        store_has_room(c.store) ==> store_dense(alloc_spec(c, v).store),
        store_has_room(c.store) ==> next_pointer(alloc_spec(c, v).store) == next_pointer(c.store) + 1,
{
    let n = c.store.dom().len();
    let p = next_pointer(c.store);
    assert(p == n);
    assert(!c.store.contains_key(p));
    let after = alloc_spec(c, v).store;
    assert(after.dom() =~= c.store.dom().insert(p));
    assert(after.dom().len() == n + 1);
    if store_has_room(c.store) {
        assert forall|q: usize| after.contains_key(q) <==> q < after.dom().len() by {
            if q != p {
                assert(after.contains_key(q) == c.store.contains_key(q));
            }
        }
    }
}

/// Puts `v` into a new cell and returns its address: the number of cells
/// that there were. In a dense store that address was not in use.
pub fn allocate(core: &mut Core, v: Value) -> (ptr: Pointer)
    ensures
        ptr.0 == next_pointer(old(core)@.store),
        final(core)@ == alloc_spec(old(core)@, v@),
        store_dense(old(core)@.store) ==> !old(core)@.store.contains_key(ptr.0),
        store_dense(old(core)@.store) && store_has_room(old(core)@.store) ==> store_dense(
            final(core)@.store,
        ),
{
    let ptr: usize = store_len(&core.store);
    proof {
        if store_dense(core@.store) {
            lemma_alloc_fresh(core@, v@);
        }
    }
    store_insert(&mut core.store, ptr, v);
    Pointer(ptr)
}

/// A copy of the value in the cell at `p`, if `p` is allocated. The core
/// stays as it is.
pub fn deref(core: &mut Core, p: &Pointer) -> (r: Option<Value>)
    ensures
        deref_returns(r, deref_spec(old(core)@, p.0)),
        final(core)@ == old(core)@,
{
    store_get(&core.store, p.0)
}

/// Puts `v` into the cell at `p`. A pointer that was never allocated is
/// dangling, and the core stays as it is.
pub fn mutate(core: &mut Core, p: Pointer, v: Value) -> (r: Result<(), Interruption>)
    ensures
        mutate_returns(r, old(core)@, final(core)@, p.0, v@),
{
    match store_get(&core.store, p.0) {
        None => {
            return Err(Interruption::Dangling(p));
        },
        Some(_) => (),
    };
    store_insert(&mut core.store, p.0, v);
    Ok(())
}

} // verus!
