//! The stack of held states: a vector of fixed capacity from `heapless`, so that
//! holding keys never allocates.

use vstd::prelude::*;
use crate::layout::State;

verus! {

/// Most states held at once; further pushes are dropped.
pub const MAX_STATES: usize = 64;

#[verifier::external_type_specification]
#[verifier::external_body]
#[verifier::reject_recursive_types(T)]
pub struct ExHeaplessVec<T, const N: usize>(heapless::Vec<T, N>);

/// The states that a stack holds, bottom first.
pub uninterp spec fn held_states(v: heapless::Vec<State, 64>) -> Seq<State>;

/// Relies on `heapless::Vec::new`: the new vector is empty.
#[verifier::external_body]
pub(crate) fn stack_new() -> (r: heapless::Vec<State, 64>)
    ensures
        held_states(r) == Seq::<State>::empty(),
{
    heapless::Vec::new()
}

/// Relies on `heapless::Vec::push`: below the capacity the item goes on top and
/// `Ok` comes back; at the capacity the vector is unchanged and the item comes back.
#[verifier::external_body]
pub(crate) fn stack_push(v: &mut heapless::Vec<State, 64>, s: State) -> (r: Result<(), State>)
    ensures
        r is Ok <==> held_states(*old(v)).len() < MAX_STATES,
        r is Ok ==> held_states(*final(v)) == held_states(*old(v)).push(s),
        r is Err ==> r->Err_0 == s,
        r is Err ==> held_states(*final(v)) == held_states(*old(v)),
{
    v.push(s)
}

/// Relies on `heapless::Vec::as_slice`: the held items, in order.
#[verifier::external_body]
pub(crate) fn stack_slice(v: &heapless::Vec<State, 64>) -> (r: &[State])
    ensures
        r@ == held_states(*v),
{
    v.as_slice()
}

} // verus!
