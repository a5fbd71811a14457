//! The persistent collections of `im_rc` that hold the machine's state.
//!
//! Verus sees nothing inside these collections. Each kind of collection
//! that the machine uses gets a name for what it holds, and each method
//! that the machine calls gets a function here whose contract says, over
//! that name, what the method does. None of these contracts is proved.

use crate::ast::{Dec_, Exp_, Id};
use crate::model::tail;
use crate::value::{Value, ValueView};
use crate::vm_types::{Env, EnvView, Frame, FrameView, Stack, Store, StoreView};
use vstd::prelude::*;

verus! {

/// `im_rc::Vector`, a persistent sequence.
#[verifier::external_type_specification]
#[verifier::external_body]
#[verifier::reject_recursive_types(A)]
pub struct ExVector<A>(im_rc::Vector<A>);

/// `im_rc::HashMap`, a persistent map.
#[verifier::external_type_specification]
#[verifier::external_body]
#[verifier::reject_recursive_types(K)]
#[verifier::reject_recursive_types(V)]
#[verifier::reject_recursive_types(S)]
pub struct ExHashMap<K, V, S>(im_rc::HashMap<K, V, S>);

/// `Vector::clone`, which the derived `Clone` of the machine's types calls.
/// Nothing is claimed of it here.
pub assume_specification<A>[ <im_rc::Vector<A> as Clone>::clone ](
    v: &im_rc::Vector<A>,
) -> im_rc::Vector<A> where A: Clone
;

/// `HashMap::clone`, which the derived `Clone` of the machine's types
/// calls. Nothing is claimed of it here; what a copy of an environment
/// holds is stated at [`env_clone`].
pub assume_specification<K, V, S>[ <im_rc::HashMap<K, V, S> as Clone>::clone ](
    m: &im_rc::HashMap<K, V, S>,
) -> im_rc::HashMap<K, V, S> where K: Clone, V: Clone
;

/// What an environment holds: for each identifier bound in it, what the
/// bound value stands for.
pub uninterp spec fn env_view(env: im_rc::HashMap<String, Value>) -> Map<Seq<char>, ValueView>;

/// What a store holds: for each allocated address, what the value of its
/// cell stands for.
pub uninterp spec fn store_view(store: im_rc::HashMap<usize, Value>) -> Map<usize, ValueView>;

/// The frames of a control stack, front first, each by its view.
pub uninterp spec fn stack_view(stack: im_rc::Vector<Frame>) -> Seq<FrameView>;

/// The declarations that a vector holds, front first.
pub uninterp spec fn decs_view(decs: im_rc::Vector<Dec_>) -> Seq<Dec_>;

/// The expressions that a vector holds, front first.
pub uninterp spec fn exps_view(exps: im_rc::Vector<Exp_>) -> Seq<Exp_>;

/// Whether `m` has exactly `n` keys.
pub open spec fn has_len(m: Map<usize, ValueView>, n: nat) -> bool {
    m.dom().finite() && m.dom().len() == n
}

/// `HashMap::new`: a map that holds nothing.
#[verifier::external_body]
pub(crate) fn env_new() -> (r: Env)
    ensures
        env_view(r) == EnvView::empty(),
{
    im_rc::HashMap::new()
}

/// `HashMap::get`: a copy of the value bound to `x`, if `x` is bound.
#[verifier::external_body]
pub(crate) fn env_get(env: &Env, x: &Id) -> (r: Option<Value>)
    ensures
        r is Some <==> env_view(*env).contains_key(x@),
        r is Some ==> r->0@ == env_view(*env)[x@],
{
    env.get(x).cloned()
}

/// `HashMap::insert`: binds `x` to `v`, in place of what `x` was bound to.
#[verifier::external_body]
pub(crate) fn env_insert(env: &mut Env, x: Id, v: Value)
    ensures
        env_view(*final(env)) == env_view(*old(env)).insert(x@, v@),
{
    env.insert(x, v);
}

/// `HashMap::clone`: a map that holds the same bindings.
#[verifier::external_body]
pub(crate) fn env_clone(env: &Env) -> (r: Env)
    ensures
        env_view(r) == env_view(*env),
{
    env.clone()
}

/// `HashMap::new`: a map that holds nothing.
#[verifier::external_body]
pub(crate) fn store_new() -> (r: Store)
    ensures
        store_view(r) == StoreView::empty(),
{
    im_rc::HashMap::new()
}

/// `HashMap::len`: the number of keys, of which there are finitely many.
#[verifier::external_body]
pub(crate) fn store_len(store: &Store) -> (r: usize)
    ensures
        has_len(store_view(*store), r as nat),
{
    store.len()
}

/// `HashMap::get`: a copy of the value at address `p`, if `p` is a key.
#[verifier::external_body]
pub(crate) fn store_get(store: &Store, p: usize) -> (r: Option<Value>)
    ensures
        r is Some <==> store_view(*store).contains_key(p),
        r is Some ==> r->0@ == store_view(*store)[p],
{
    store.get(&p).cloned()
}

/// `HashMap::insert`: puts `v` at address `p`, in place of what was there.
#[verifier::external_body]
pub(crate) fn store_insert(store: &mut Store, p: usize, v: Value)
    ensures
        store_view(*final(store)) == store_view(*old(store)).insert(p, v@),
{
    store.insert(p, v);
}

/// `Vector::new`: a vector that holds nothing.
#[verifier::external_body]
pub(crate) fn stack_new() -> (r: Stack)
    ensures
        stack_view(r) == Seq::<FrameView>::empty(),
{
    im_rc::Vector::new()
}

/// `Vector::push_front`: `frame` becomes the first item, before the others.
#[verifier::external_body]
pub(crate) fn stack_push_front(stack: &mut Stack, frame: Frame)
    ensures
        stack_view(*final(stack)) == seq![frame@] + stack_view(*old(stack)),
{
    stack.push_front(frame);
}

/// `Vector::pop_front`: removes the first item and returns it; `None`, and
/// no change, on an empty vector.
#[verifier::external_body]
pub(crate) fn stack_pop_front(stack: &mut Stack) -> (r: Option<Frame>)
    ensures
        r is Some <==> stack_view(*old(stack)).len() > 0,
        r is Some ==> r->0@ == stack_view(*old(stack))[0],
        stack_view(*final(stack)) == tail(stack_view(*old(stack))),
{
    stack.pop_front()
}

/// `Vector::front`: the first item, if there is one.
#[verifier::external_body]
pub(crate) fn stack_front(stack: &Stack) -> (r: Option<&Frame>)
    ensures
        r is Some <==> stack_view(*stack).len() > 0,
        r is Some ==> r->0@ == stack_view(*stack)[0],
{
    stack.front()
}

/// `Vector::new`: a vector that holds nothing.
#[verifier::external_body]
pub(crate) fn decs_new() -> (r: im_rc::Vector<Dec_>)
    ensures
        decs_view(r) == Seq::<Dec_>::empty(),
{
    im_rc::Vector::new()
}

/// `Vector::from` on a `Vec`: the same items in the same order.
#[verifier::external_body]
pub(crate) fn decs_from_vec(decs: &Vec<Dec_>) -> (r: im_rc::Vector<Dec_>)
    ensures
        decs_view(r) == decs@,
{
    im_rc::Vector::from(decs)
}

/// `Vector::pop_front`: removes the first item and returns it; `None`, and
/// no change, on an empty vector.
#[verifier::external_body]
pub(crate) fn decs_pop_front(decs: &mut im_rc::Vector<Dec_>) -> (r: Option<Dec_>)
    ensures
        r is Some <==> decs_view(*old(decs)).len() > 0,
        r is Some ==> r->0 == decs_view(*old(decs))[0],
        decs_view(*final(decs)) == tail(decs_view(*old(decs))),
{
    decs.pop_front()
}

/// `Vector::front`: the first item, if there is one.
#[verifier::external_body]
pub(crate) fn decs_front(decs: &im_rc::Vector<Dec_>) -> (r: Option<&Dec_>)
    ensures
        r is Some <==> decs_view(*decs).len() > 0,
        r is Some ==> *r->0 == decs_view(*decs).first(),
{
    decs.front()
}

/// `Vector::back`: the last item, if there is one.
#[verifier::external_body]
pub(crate) fn decs_back(decs: &im_rc::Vector<Dec_>) -> (r: Option<&Dec_>)
    ensures
        r is Some <==> decs_view(*decs).len() > 0,
        r is Some ==> *r->0 == decs_view(*decs).last(),
{
    decs.back()
}

/// `Vector::from` on a `Vec`: the same items in the same order.
#[verifier::external_body]
pub(crate) fn exps_from_vec(exps: &Vec<Exp_>) -> (r: im_rc::Vector<Exp_>)
    ensures
        exps_view(r) == exps@,
{
    im_rc::Vector::from(exps)
}

/// `Vector::pop_front`: removes the first item and returns it; `None`, and
/// no change, on an empty vector.
#[verifier::external_body]
pub(crate) fn exps_pop_front(exps: &mut im_rc::Vector<Exp_>) -> (r: Option<Exp_>)
    ensures
        r is Some <==> exps_view(*old(exps)).len() > 0,
        r is Some ==> r->0 == exps_view(*old(exps))[0],
        exps_view(*final(exps)) == tail(exps_view(*old(exps))),
{
    exps.pop_front()
}

} // verus!
