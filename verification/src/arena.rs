//! The pools of a context, and what is taken on trust about them.
//!
//! Each pool is a `generational_arena::Arena`.  The verifier does not read that
//! crate: what this library relies on is stated here, one pool at a time, over
//! two things that stand for a pool.  The first is a map from handles to
//! entries: what the pool holds.  A handle is the slot number and the
//! generation of an index of the pool.  The second says whether the pool can
//! take another entry: whether its list of free slots is in order.
//!
//! Four functions of the pool are used: `Arena::new`, `Arena::insert`,
//! `Arena::get` and, for the pools whose entries change, `Arena::index_mut`.
//! What is said of each is the same for every pool.
//!
//! The pools are open to everyone who has the context.  A pool on which
//! `Arena::reserve` was called with zero has a list of free slots that begins
//! behind the last slot, and `Arena::insert` panics on it.  Such a pool is not
//! ready, and nothing here is to be called on it that adds an entry.

use vstd::prelude::*;
use generational_arena::Arena;
use generational_arena::Index;
use crate::block::BlockContent;
use crate::function::FunctionContent;
use crate::handle::Handle;
use crate::irtype::TypeContent;
use crate::pointer::PointerContent;
use crate::value::ValueContent;

verus! {

/// `generational_arena::Arena`, taken as it is: nothing is known of a pool
/// but what the functions below say.
#[verifier::external_type_specification]
#[verifier::external_body]
#[verifier::reject_recursive_types(T)]
pub struct ExArena<T>(Arena<T>);

/// What a pool of functions holds: the entry of each occupied slot, under the
/// slot number and the generation that the slot has.
pub uninterp spec fn function_entries(arena: Arena<FunctionContent>) -> Map<Handle, FunctionContent>;

/// Whether a pool of functions can take another entry: the list of its free
/// slots is in order, which is to say that its head and every link in it is the
/// number of a free slot of the pool.
pub uninterp spec fn function_pool_ready(arena: Arena<FunctionContent>) -> bool;

/// What a pool of blocks holds: the entry of each occupied slot, under the
/// slot number and the generation that the slot has.
pub uninterp spec fn block_entries(arena: Arena<BlockContent>) -> Map<Handle, BlockContent>;

/// Whether a pool of blocks can take another entry: the list of its free
/// slots is in order, which is to say that its head and every link in it is the
/// number of a free slot of the pool.
pub uninterp spec fn block_pool_ready(arena: Arena<BlockContent>) -> bool;

/// What a pool of values holds: the entry of each occupied slot, under the
/// slot number and the generation that the slot has.
pub uninterp spec fn value_entries(arena: Arena<ValueContent>) -> Map<Handle, ValueContent>;

/// Whether a pool of values can take another entry: the list of its free
/// slots is in order, which is to say that its head and every link in it is the
/// number of a free slot of the pool.
pub uninterp spec fn value_pool_ready(arena: Arena<ValueContent>) -> bool;

/// What a pool of types holds: the entry of each occupied slot, under the
/// slot number and the generation that the slot has.
pub uninterp spec fn type_entries(arena: Arena<TypeContent>) -> Map<Handle, TypeContent>;

/// Whether a pool of types can take another entry: the list of its free
/// slots is in order, which is to say that its head and every link in it is the
/// number of a free slot of the pool.
pub uninterp spec fn type_pool_ready(arena: Arena<TypeContent>) -> bool;

/// What a pool of pointers holds: the entry of each occupied slot, under the
/// slot number and the generation that the slot has.
pub uninterp spec fn pointer_entries(arena: Arena<PointerContent>) -> Map<Handle, PointerContent>;

/// Whether a pool of pointers can take another entry: the list of its free
/// slots is in order, which is to say that its head and every link in it is the
/// number of a free slot of the pool.
pub uninterp spec fn pointer_pool_ready(arena: Arena<PointerContent>) -> bool;

/// `Arena::new` for functions: the pool it makes has no occupied slot and is
/// ready to take entries.
#[verifier::external_body]
pub(crate) fn new_function_arena() -> (arena: Arena<FunctionContent>)
    ensures
        forall|key: Handle| !function_entries(arena).contains_key(key),
        function_pool_ready(arena),
{
    Arena::new()
}

/// `Arena::insert` for functions, on a pool that is ready: the entry goes to a
/// slot that was free, under the index that is returned, no other slot
/// changes, and the pool is ready again.  On such a pool the call fails only
/// where memory runs out, as `Vec::push` does.  On a pool that is not ready it
/// panics, so such a pool must not be handed in.
#[verifier::external_body]
pub(crate) fn insert_function(arena: &mut Arena<FunctionContent>, content: FunctionContent) -> (key: Handle)
    requires
        function_pool_ready(*old(arena)),
    ensures
        !function_entries(*old(arena)).contains_key(key),
        function_entries(*final(arena)) == function_entries(*old(arena)).insert(key, content),
        function_pool_ready(*final(arena)),
{
    let (slot, generation) = arena.insert(content).into_raw_parts();
    Handle { slot, generation }
}

/// `Arena::get` for functions: the entry of the slot, if the slot is occupied
/// and has the generation asked for.  Any two numbers may be asked for.
#[verifier::external_body]
pub(crate) fn get_function(arena: &Arena<FunctionContent>, key: Handle) -> (found: Option<&FunctionContent>)
    ensures
        found.is_some() == function_entries(*arena).contains_key(key),
        found.is_some() ==> *found.unwrap() == function_entries(*arena)[key],
{
    arena.get(Index::from_raw_parts(key.slot, key.generation))
}

/// `Arena::index_mut` for functions: exclusive access to the entry of an occupied
/// slot.  What is written through it is what the slot holds afterwards, no
/// other slot changes, and the list of free slots is not touched.  The call
/// panics on the index of a slot that is free or of another generation, so
/// such an index must not be handed in.
#[verifier::external_body]
pub(crate) fn get_function_mut(arena: &mut Arena<FunctionContent>, key: Handle) -> (content: &mut FunctionContent)
    requires
        function_entries(*old(arena)).contains_key(key),
    ensures
        *content == function_entries(*old(arena))[key],
        function_entries(*final(arena)) == function_entries(*old(arena)).insert(key, *final(content)),
        function_pool_ready(*final(arena)) == function_pool_ready(*old(arena)),
{
    &mut arena[Index::from_raw_parts(key.slot, key.generation)]
}

/// `Arena::new` for blocks: the pool it makes has no occupied slot and is
/// ready to take entries.
#[verifier::external_body]
pub(crate) fn new_block_arena() -> (arena: Arena<BlockContent>)
    ensures
        forall|key: Handle| !block_entries(arena).contains_key(key),
        block_pool_ready(arena),
{
    Arena::new()
}

/// `Arena::insert` for blocks, on a pool that is ready: the entry goes to a
/// slot that was free, under the index that is returned, no other slot
/// changes, and the pool is ready again.  On such a pool the call fails only
/// where memory runs out, as `Vec::push` does.  On a pool that is not ready it
/// panics, so such a pool must not be handed in.
#[verifier::external_body]
pub(crate) fn insert_block(arena: &mut Arena<BlockContent>, content: BlockContent) -> (key: Handle)
    requires
        block_pool_ready(*old(arena)),
    ensures
        !block_entries(*old(arena)).contains_key(key),
        block_entries(*final(arena)) == block_entries(*old(arena)).insert(key, content),
        block_pool_ready(*final(arena)),
{
    let (slot, generation) = arena.insert(content).into_raw_parts();
    Handle { slot, generation }
}

/// `Arena::get` for blocks: the entry of the slot, if the slot is occupied
/// and has the generation asked for.  Any two numbers may be asked for.
#[verifier::external_body]
pub(crate) fn get_block(arena: &Arena<BlockContent>, key: Handle) -> (found: Option<&BlockContent>)
    ensures
        found.is_some() == block_entries(*arena).contains_key(key),
        found.is_some() ==> *found.unwrap() == block_entries(*arena)[key],
{
    arena.get(Index::from_raw_parts(key.slot, key.generation))
}

/// `Arena::index_mut` for blocks: exclusive access to the entry of an occupied
/// slot.  What is written through it is what the slot holds afterwards, no
/// other slot changes, and the list of free slots is not touched.  The call
/// panics on the index of a slot that is free or of another generation, so
/// such an index must not be handed in.
#[verifier::external_body]
pub(crate) fn get_block_mut(arena: &mut Arena<BlockContent>, key: Handle) -> (content: &mut BlockContent)
    requires
        block_entries(*old(arena)).contains_key(key),
    ensures
        *content == block_entries(*old(arena))[key],
        block_entries(*final(arena)) == block_entries(*old(arena)).insert(key, *final(content)),
        block_pool_ready(*final(arena)) == block_pool_ready(*old(arena)),
{
    &mut arena[Index::from_raw_parts(key.slot, key.generation)]
}

/// `Arena::new` for values: the pool it makes has no occupied slot and is
/// ready to take entries.
#[verifier::external_body]
pub(crate) fn new_value_arena() -> (arena: Arena<ValueContent>)
    ensures
        forall|key: Handle| !value_entries(arena).contains_key(key),
        value_pool_ready(arena),
{
    Arena::new()
}

/// `Arena::insert` for values, on a pool that is ready: the entry goes to a
/// slot that was free, under the index that is returned, no other slot
/// changes, and the pool is ready again.  On such a pool the call fails only
/// where memory runs out, as `Vec::push` does.  On a pool that is not ready it
/// panics, so such a pool must not be handed in.
#[verifier::external_body]
pub(crate) fn insert_value(arena: &mut Arena<ValueContent>, content: ValueContent) -> (key: Handle)
    requires
        value_pool_ready(*old(arena)),
    ensures
        !value_entries(*old(arena)).contains_key(key),
        value_entries(*final(arena)) == value_entries(*old(arena)).insert(key, content),
        value_pool_ready(*final(arena)),
{
    let (slot, generation) = arena.insert(content).into_raw_parts();
    Handle { slot, generation }
}

/// `Arena::get` for values: the entry of the slot, if the slot is occupied
/// and has the generation asked for.  Any two numbers may be asked for.
#[verifier::external_body]
pub(crate) fn get_value(arena: &Arena<ValueContent>, key: Handle) -> (found: Option<&ValueContent>)
    ensures
        found.is_some() == value_entries(*arena).contains_key(key),
        found.is_some() ==> *found.unwrap() == value_entries(*arena)[key],
{
    arena.get(Index::from_raw_parts(key.slot, key.generation))
}

/// `Arena::index_mut` for values: exclusive access to the entry of an occupied
/// slot.  What is written through it is what the slot holds afterwards, no
/// other slot changes, and the list of free slots is not touched.  The call
/// panics on the index of a slot that is free or of another generation, so
/// such an index must not be handed in.
#[verifier::external_body]
pub(crate) fn get_value_mut(arena: &mut Arena<ValueContent>, key: Handle) -> (content: &mut ValueContent)
    requires
        value_entries(*old(arena)).contains_key(key),
    ensures
        *content == value_entries(*old(arena))[key],
        value_entries(*final(arena)) == value_entries(*old(arena)).insert(key, *final(content)),
        value_pool_ready(*final(arena)) == value_pool_ready(*old(arena)),
{
    &mut arena[Index::from_raw_parts(key.slot, key.generation)]
}

/// `Arena::new` for types: the pool it makes has no occupied slot and is
/// ready to take entries.
#[verifier::external_body]
pub(crate) fn new_type_arena() -> (arena: Arena<TypeContent>)
    ensures
        forall|key: Handle| !type_entries(arena).contains_key(key),
        type_pool_ready(arena),
{
    Arena::new()
}

/// `Arena::insert` for types, on a pool that is ready: the entry goes to a
/// slot that was free, under the index that is returned, no other slot
/// changes, and the pool is ready again.  On such a pool the call fails only
/// where memory runs out, as `Vec::push` does.  On a pool that is not ready it
/// panics, so such a pool must not be handed in.
#[verifier::external_body]
pub(crate) fn insert_type(arena: &mut Arena<TypeContent>, content: TypeContent) -> (key: Handle)
    requires
        type_pool_ready(*old(arena)),
    ensures
        !type_entries(*old(arena)).contains_key(key),
        type_entries(*final(arena)) == type_entries(*old(arena)).insert(key, content),
        type_pool_ready(*final(arena)),
{
    let (slot, generation) = arena.insert(content).into_raw_parts();
    Handle { slot, generation }
}

/// `Arena::get` for types: the entry of the slot, if the slot is occupied
/// and has the generation asked for.  Any two numbers may be asked for.
#[verifier::external_body]
pub(crate) fn get_type_content(arena: &Arena<TypeContent>, key: Handle) -> (found: Option<&TypeContent>)
    ensures
        found.is_some() == type_entries(*arena).contains_key(key),
        found.is_some() ==> *found.unwrap() == type_entries(*arena)[key],
{
    arena.get(Index::from_raw_parts(key.slot, key.generation))
}

/// `Arena::new` for pointers: the pool it makes has no occupied slot and is
/// ready to take entries.
#[verifier::external_body]
pub(crate) fn new_pointer_arena() -> (arena: Arena<PointerContent>)
    ensures
        forall|key: Handle| !pointer_entries(arena).contains_key(key),
        pointer_pool_ready(arena),
{
    Arena::new()
}

/// `Arena::insert` for pointers, on a pool that is ready: the entry goes to a
/// slot that was free, under the index that is returned, no other slot
/// changes, and the pool is ready again.  On such a pool the call fails only
/// where memory runs out, as `Vec::push` does.  On a pool that is not ready it
/// panics, so such a pool must not be handed in.
#[verifier::external_body]
pub(crate) fn insert_pointer(arena: &mut Arena<PointerContent>, content: PointerContent) -> (key: Handle)
    requires
        pointer_pool_ready(*old(arena)),
    ensures
        !pointer_entries(*old(arena)).contains_key(key),
        pointer_entries(*final(arena)) == pointer_entries(*old(arena)).insert(key, content),
        pointer_pool_ready(*final(arena)),
{
    let (slot, generation) = arena.insert(content).into_raw_parts();
    Handle { slot, generation }
}

/// `Arena::get` for pointers: the entry of the slot, if the slot is occupied
/// and has the generation asked for.  Any two numbers may be asked for.
#[verifier::external_body]
pub(crate) fn get_pointer_content(arena: &Arena<PointerContent>, key: Handle) -> (found: Option<&PointerContent>)
    ensures
        found.is_some() == pointer_entries(*arena).contains_key(key),
        found.is_some() ==> *found.unwrap() == pointer_entries(*arena)[key],
{
    arena.get(Index::from_raw_parts(key.slot, key.generation))
}

} // verus!
