//! The arena that interfaces live in.

use generational_arena::Arena;
use vstd::prelude::*;

use crate::interface::interfaces::Interface;

verus! {

/// An arena of the `generational_arena` crate.
#[verifier::external_type_specification]
#[verifier::external_body]
#[verifier::reject_recursive_types(T)]
pub struct ExArena<T>(Arena<T>);

/// Identifies an interface of the arena: its slot, and the generation that the
/// slot was filled in.
#[derive(Clone, Copy, Debug, PartialEq, Eq, Structural)]
pub struct Index {
    pub slot: usize,
    pub generation: u64,
}

/// The interfaces that an arena holds.
pub uninterp spec fn arena_contents(arena: Arena<Interface>) -> Map<Index, Interface>;

/// Calls `Arena::new`: the arena is empty.
#[verifier::external_body]
pub(crate) fn arena_new() -> (arena: Arena<Interface>)
    ensures
        arena_contents(arena).dom() == Set::<Index>::empty(),
{
    Arena::new()
}

/// Calls `Arena::insert`: the interface is kept under an index that was not in
/// use.
#[verifier::external_body]
pub(crate) fn arena_insert(arena: &mut Arena<Interface>, iface: Interface) -> (idx: Index)
    ensures
        !arena_contents(*old(arena)).contains_key(idx),
        arena_contents(*final(arena)) == arena_contents(*old(arena)).insert(idx, iface),
{
    let (slot, generation) = arena.insert(iface).into_raw_parts();
    Index { slot, generation }
}

/// Calls `Arena::get`: the interface under that index, if there is one.
#[verifier::external_body]
pub(crate) fn arena_get(arena: &Arena<Interface>, idx: Index) -> (r: Option<&Interface>)
    ensures
        r is Some == arena_contents(*arena).contains_key(idx),
        r is Some ==> *r->0 == arena_contents(*arena)[idx],
{
    arena.get(generational_arena::Index::from_raw_parts(idx.slot, idx.generation))
}

/// Calls `Arena::get_mut`: the interface under that index, if there is one. What
/// is written to it is in the arena, and nothing else changes.
#[verifier::external_body]
pub(crate) fn arena_get_mut(arena: &mut Arena<Interface>, idx: Index) -> (r: Option<&mut Interface>)
    ensures
        match r {
            Some(iface) => {
                &&& arena_contents(*old(arena)).contains_key(idx)
                &&& *iface == arena_contents(*old(arena))[idx]
                &&& arena_contents(*final(arena)) == arena_contents(*old(arena)).insert(idx, *final(iface))
            },
            None => {
                &&& !arena_contents(*old(arena)).contains_key(idx)
                &&& arena_contents(*final(arena)) == arena_contents(*old(arena))
            },
        },
{
    arena.get_mut(generational_arena::Index::from_raw_parts(idx.slot, idx.generation))
}

/// Calls `Arena::remove`: nothing is kept under that index any more.
#[verifier::external_body]
pub(crate) fn arena_remove(arena: &mut Arena<Interface>, idx: Index) -> (r: Option<Interface>)
    ensures
        arena_contents(*final(arena)) == arena_contents(*old(arena)).remove(idx),
        r is Some == arena_contents(*old(arena)).contains_key(idx),
        r is Some ==> r->0 == arena_contents(*old(arena))[idx],
{
    arena.remove(generational_arena::Index::from_raw_parts(idx.slot, idx.generation))
}

} // verus!
