//! The context: the owner of every entity of a program.

use vstd::prelude::*;
use generational_arena::Arena;
use crate::arena::block_entries;
use crate::arena::block_pool_ready;
use crate::arena::function_entries;
use crate::arena::function_pool_ready;
use crate::arena::get_block;
use crate::arena::get_block_mut;
use crate::arena::get_function;
use crate::arena::get_function_mut;
use crate::arena::get_pointer_content;
use crate::arena::get_type_content;
use crate::arena::get_value;
use crate::arena::get_value_mut;
use crate::arena::new_block_arena;
use crate::arena::new_function_arena;
use crate::arena::new_pointer_arena;
use crate::arena::new_type_arena;
use crate::arena::new_value_arena;
use crate::arena::pointer_entries;
use crate::arena::pointer_pool_ready;
use crate::arena::type_entries;
use crate::arena::type_pool_ready;
use crate::arena::value_entries;
use crate::arena::value_pool_ready;
use crate::block::Block;
use crate::block::BlockContent;
use crate::function::Function;
use crate::function::FunctionContent;
use crate::handle::Handle;
use crate::irtype::Type;
use crate::irtype::TypeContent;
use crate::irtype::TypeContentView;
use crate::pointer::Pointer;
use crate::pointer::PointerContent;
use crate::value::Value;
use crate::value::ValueContent;
use crate::value::ValueDatum;

verus! {

/// The pools of functions, blocks, values, types and pointers.  Entries are
/// added and changed in place, never taken out, so a handle stays good for as
/// long as the context lives.
///
/// The pools are open, and the pool type offers more than this library uses.
/// Whoever calls `reserve` with zero on a pool leaves it unable to take
/// another entry: see [`Context::ready`].
pub struct Context {
    pub functions: Arena<FunctionContent>,
    pub blocks: Arena<BlockContent>,
    pub values: Arena<ValueContent>,
    pub types: Arena<TypeContent>,
    pub pointers: Arena<PointerContent>,
    /// The handle of every stored type descriptor, in the order in which they
    /// were stored.
    pub type_list: Vec<Handle>,
}

/// Whether there are unsigned integers of this width in bits.
pub open spec fn is_uint_width(width: u16) -> bool {
    width == 8 || width == 16 || width == 32 || width == 64 || width == 256
}

/// Whether this is the structure of a plain pointer type: immutable and without
/// initial value.
pub open spec fn is_plain_pointer(shape: TypeContentView) -> bool {
    shape matches TypeContentView::Pointer { pointee: _, is_mutable, initializer } && !is_mutable
        && initializer is None
}

/// Whether a descriptor of this structure may be stored.  An unsigned integer
/// of a width that is not provided for may not; nor may a plain pointer, which
/// has its name from its pointee and needs no descriptor.
pub open spec fn allowed_shape(shape: TypeContentView) -> bool {
    &&& shape matches TypeContentView::Uint(width) ==> is_uint_width(width)
    &&& !is_plain_pointer(shape)
}

/// The structure of the plain pointer type to `pointee`.
pub open spec fn plain_pointer_shape(pointee: Type) -> TypeContentView {
    TypeContentView::Pointer { pointee, is_mutable: false, initializer: None }
}

/// The name of the plain pointer type to `pointee`.
pub open spec fn pointer_name(pointee: Type) -> Type {
    Type { base: pointee.base, pointers: (pointee.pointers + 1) as u32 }
}

/// Whether `t` names a type over `entries`: the descriptor it rests on is there.
pub open spec fn type_known(entries: Map<Handle, TypeContent>, t: Type) -> bool {
    entries.contains_key(t.base)
}

/// The structure of the type that `t` names over `entries`: that of the stored
/// descriptor, or, where `t` has plain pointers on top, a plain pointer to
/// the type with one fewer.
pub open spec fn shape_in(entries: Map<Handle, TypeContent>, t: Type) -> TypeContentView {
    if t.pointers == 0 {
        entries[t.base]@
    } else {
        TypeContentView::Pointer {
            pointee: Type { base: t.base, pointers: (t.pointers - 1) as u32 },
            is_mutable: false,
            initializer: None,
        }
    }
}

/// A name that a type of the given structure has over `entries`.
pub open spec fn type_named(entries: Map<Handle, TypeContent>, shape: TypeContentView) -> Type {
    choose|t: Type| #[trigger] type_known(entries, t) && shape_in(entries, t) == shape
}

/// Whether a type of the given structure has a name over `entries`.
pub open spec fn interned_in(entries: Map<Handle, TypeContent>, shape: TypeContentView) -> bool {
    exists|t: Type| #[trigger] type_known(entries, t) && shape_in(entries, t) == shape
}

/// No structure is held twice by `entries`, every structure is one that may be
/// stored, and `list` names every entry.
pub open spec fn consistent_types(entries: Map<Handle, TypeContent>, list: Seq<Handle>) -> bool {
    &&& forall|h: Handle|
        #![trigger entries.contains_key(h)]
        #![trigger list.contains(h)]
        entries.contains_key(h) <==> list.contains(h)
    &&& forall|h: Handle| #[trigger] entries.contains_key(h) ==> allowed_shape(entries[h]@)
    &&& forall|a: Handle, b: Handle|
        #![trigger entries[a], entries[b]]
        entries.contains_key(a) && entries.contains_key(b) && entries[a]@ == entries[b]@ ==> a
            == b
}

/// Whether this is the structure of one of the types that every context
/// starts with: unit, boolean, an unsigned integer of 8, 16, 32, 64 or 256
/// bits, or a 256-bit word.
pub open spec fn is_basic_type(shape: TypeContentView) -> bool {
    ||| shape == TypeContentView::Unit
    ||| shape == TypeContentView::Bool
    ||| shape == TypeContentView::Uint(8)
    ||| shape == TypeContentView::Uint(16)
    ||| shape == TypeContentView::Uint(32)
    ||| shape == TypeContentView::Uint(64)
    ||| shape == TypeContentView::Uint(256)
    ||| shape == TypeContentView::B256
}

/// The types that every context starts with are among `entries`.
pub open spec fn basic_types_in(entries: Map<Handle, TypeContent>) -> bool {
    &&& interned_in(entries, TypeContentView::Unit)
    &&& interned_in(entries, TypeContentView::Bool)
    &&& interned_in(entries, TypeContentView::Uint(8))
    &&& interned_in(entries, TypeContentView::Uint(16))
    &&& interned_in(entries, TypeContentView::Uint(32))
    &&& interned_in(entries, TypeContentView::Uint(64))
    &&& interned_in(entries, TypeContentView::Uint(256))
    &&& interned_in(entries, TypeContentView::B256)
}

impl Context {
    /// Whether `f` names a function of this context.
    pub open spec fn has_function(&self, f: Function) -> bool {
        function_entries(self.functions).contains_key(f.0)
    }

    /// What is recorded of `f`.
    pub open spec fn function_content(&self, f: Function) -> FunctionContent {
        function_entries(self.functions)[f.0]
    }

    /// Whether `b` names a block of this context.
    pub open spec fn has_block(&self, b: Block) -> bool {
        block_entries(self.blocks).contains_key(b.0)
    }

    /// What is recorded of `b`.
    pub open spec fn block_content(&self, b: Block) -> BlockContent {
        block_entries(self.blocks)[b.0]
    }

    /// Whether `v` names a value of this context.
    pub open spec fn has_value(&self, v: Value) -> bool {
        value_entries(self.values).contains_key(v.0)
    }

    /// What is recorded of `v`.
    pub open spec fn value_content(&self, v: Value) -> ValueContent {
        value_entries(self.values)[v.0]
    }

    /// How `v` came to be.
    pub open spec fn datum(&self, v: Value) -> ValueDatum {
        self.value_content(v).value
    }

    /// Whether `t` names a type of this context.
    pub open spec fn has_type(&self, t: Type) -> bool {
        type_known(type_entries(self.types), t)
    }

    /// The descriptor that `t` rests on.  It is the descriptor of `t` itself
    /// where `t` has no plain pointer on top.
    pub open spec fn type_content(&self, t: Type) -> TypeContent {
        type_entries(self.types)[t.base]
    }

    /// The structure of the type that `t` names.
    pub open spec fn type_shape(&self, t: Type) -> TypeContentView {
        shape_in(type_entries(self.types), t)
    }

    /// Whether `p` names a storage location of this context.
    pub open spec fn has_pointer(&self, p: Pointer) -> bool {
        pointer_entries(self.pointers).contains_key(p.0)
    }

    /// What is recorded of `p`.
    pub open spec fn pointer_content(&self, p: Pointer) -> PointerContent {
        pointer_entries(self.pointers)[p.0]
    }

    /// Whether the context has a type of this structure: one whose descriptor
    /// is stored, or a plain pointer to a type that it has.
    pub open spec fn interned(&self, shape: TypeContentView) -> bool {
        interned_in(type_entries(self.types), shape)
    }

    /// The name of the type of this structure.
    pub open spec fn type_for(&self, shape: TypeContentView) -> Type {
        type_named(type_entries(self.types), shape)
    }

    /// No structure is stored twice, every stored structure is one that may be
    /// stored, and the list of handles is complete.
    pub open spec fn types_consistent(&self) -> bool {
        consistent_types(type_entries(self.types), self.type_list@)
    }

    /// The types that every context starts with are there.
    pub open spec fn has_basic_types(&self) -> bool {
        basic_types_in(type_entries(self.types))
    }

    /// Every pool can take another entry.  A new context is ready, and no
    /// operation of this library makes a ready context unready.
    pub open spec fn ready(&self) -> bool {
        &&& function_pool_ready(self.functions)
        &&& block_pool_ready(self.blocks)
        &&& value_pool_ready(self.values)
        &&& type_pool_ready(self.types)
        &&& pointer_pool_ready(self.pointers)
    }

    /// Each pool that could take another entry in `old` can take one now.
    pub open spec fn keeps_ready(&self, old: &Context) -> bool {
        &&& function_pool_ready(old.functions) ==> function_pool_ready(self.functions)
        &&& block_pool_ready(old.blocks) ==> block_pool_ready(self.blocks)
        &&& value_pool_ready(old.values) ==> value_pool_ready(self.values)
        &&& type_pool_ready(old.types) ==> type_pool_ready(self.types)
        &&& pointer_pool_ready(old.pointers) ==> pointer_pool_ready(self.pointers)
    }

    /// The types are in order: they are consistent and the basic types are
    /// among them.  This is what a question about types asks of a context.
    pub open spec fn types_valid(&self) -> bool {
        self.types_consistent() && self.has_basic_types()
    }

    /// What every operation of this library keeps true of a context: the types
    /// are in order and the pools are ready.
    pub open spec fn valid(&self) -> bool {
        self.types_valid() && self.ready()
    }

    /// The two contexts hold the same types under the same names.
    pub open spec fn same_types_as(&self, other: &Context) -> bool {
        &&& type_entries(self.types) == type_entries(other.types)
        &&& self.type_list@ == other.type_list@
    }

    /// Two names of types of one structure are one name.
    pub proof fn names_are_unique(&self, a: Type, b: Type)
        requires
            self.types_consistent(),
            self.has_type(a),
            self.has_type(b),
            self.type_shape(a) == self.type_shape(b),
        ensures
            a == b,
    {
        let entries = type_entries(self.types);
        assert(entries.contains_key(a.base) && entries.contains_key(b.base));
        if a.pointers == 0 && b.pointers == 0 {
            assert(entries[a.base]@ == entries[b.base]@);
        } else if a.pointers == 0 {
            assert(allowed_shape(entries[a.base]@));
        } else if b.pointers == 0 {
            assert(allowed_shape(entries[b.base]@));
        } else {
            assert(self.type_shape(a)->pointee == self.type_shape(b)->pointee);
        }
    }

    /// A type is the one that `type_for` names for its structure.
    pub proof fn type_for_is_unique(&self, t: Type)
        requires
            self.types_consistent(),
            self.has_type(t),
        ensures
            self.interned(self.type_shape(t)),
            self.type_for(self.type_shape(t)) == t,
    {
        let entries = type_entries(self.types);
        assert(type_known(entries, t) && shape_in(entries, t) == self.type_shape(t));
        let u = self.type_for(self.type_shape(t));
        self.names_are_unique(t, u);
    }

    /// The plain pointer type to a type of the context is a type of the
    /// context, under the name that it has from its pointee, as long as the
    /// number of pointers on top fits the name.
    pub proof fn plain_pointer_is_there(&self, pointee: Type)
        requires
            self.types_consistent(),
        ensures
            self.interned(plain_pointer_shape(pointee)) <==> self.has_type(pointee)
                && pointee.pointers < u32::MAX,
            self.has_type(pointee) && pointee.pointers < u32::MAX ==> self.type_for(
                plain_pointer_shape(pointee),
            ) == pointer_name(pointee),
    {
        let entries = type_entries(self.types);
        let shape = plain_pointer_shape(pointee);
        if self.has_type(pointee) && pointee.pointers < u32::MAX {
            let t = pointer_name(pointee);
            assert(type_known(entries, t) && shape_in(entries, t) == shape);
            self.type_for_is_unique(t);
        }
        if self.interned(shape) {
            let t = choose|t: Type| #[trigger] type_known(entries, t) && shape_in(entries, t) == shape;
            if t.pointers == 0 {
                assert(allowed_shape(entries[t.base]@));
            }
        }
    }

    /// A context with no function, block, value or pointer, and with the unit,
    /// boolean, unsigned integer (8, 16, 32, 64 and 256 bits) and 256-bit word types.
    pub fn new() -> (context: Context)
        ensures
            context.valid(),
            forall|f: Function| !context.has_function(f),
            forall|b: Block| !context.has_block(b),
            forall|v: Value| !context.has_value(v),
            forall|p: Pointer| !context.has_pointer(p),
            forall|t: Type|
                #[trigger] context.has_type(t) && t.pointers == 0 ==> is_basic_type(
                    context.type_shape(t),
                ),
            context.type_list@.len() == 8,
    {
        let mut context = Context {
            functions: new_function_arena(),
            blocks: new_block_arena(),
            values: new_value_arena(),
            types: new_type_arena(),
            pointers: new_pointer_arena(),
            type_list: Vec::new(),
        };
        Type::intern(&mut context, TypeContent::Unit);
        Type::intern(&mut context, TypeContent::Bool);
        Type::intern(&mut context, TypeContent::Uint(8));
        Type::intern(&mut context, TypeContent::Uint(16));
        Type::intern(&mut context, TypeContent::Uint(32));
        Type::intern(&mut context, TypeContent::Uint(64));
        Type::intern(&mut context, TypeContent::Uint(256));
        Type::intern(&mut context, TypeContent::B256);
        context
    }

    /// The function named `f`, if there is one.
    pub fn function(&self, f: Function) -> (found: Option<&FunctionContent>)
        ensures
            found.is_some() == self.has_function(f),
            found.is_some() ==> *found.unwrap() == self.function_content(f),
    {
        get_function(&self.functions, f.0)
    }

    /// The block named `b`, if there is one.
    pub fn block(&self, b: Block) -> (found: Option<&BlockContent>)
        ensures
            found.is_some() == self.has_block(b),
            found.is_some() ==> *found.unwrap() == self.block_content(b),
    {
        get_block(&self.blocks, b.0)
    }

    /// The value named `v`, if there is one.
    pub fn value(&self, v: Value) -> (found: Option<&ValueContent>)
        ensures
            found.is_some() == self.has_value(v),
            found.is_some() ==> *found.unwrap() == self.value_content(v),
    {
        get_value(&self.values, v.0)
    }

    /// Exclusive access to what is recorded of the function named `f`.  What is
    /// written through it is what the context records afterwards; nothing else
    /// changes.
    pub fn function_mut(&mut self, f: Function) -> (content: &mut FunctionContent)
        requires
            old(self).has_function(f),
        ensures
            *content == old(self).function_content(f),
            function_entries(final(self).functions) == function_entries(old(self).functions).insert(
                f.0,
                *final(content),
            ),
            final(self).blocks == old(self).blocks,
            final(self).values == old(self).values,
            final(self).types == old(self).types,
            final(self).pointers == old(self).pointers,
            final(self).type_list == old(self).type_list,
            function_pool_ready(final(self).functions) == function_pool_ready(old(self).functions),
    {
        get_function_mut(&mut self.functions, f.0)
    }

    /// Exclusive access to what is recorded of the block named `b`.  What is
    /// written through it is what the context records afterwards; nothing else
    /// changes.
    pub fn block_mut(&mut self, b: Block) -> (content: &mut BlockContent)
        requires
            old(self).has_block(b),
        ensures
            *content == old(self).block_content(b),
            block_entries(final(self).blocks) == block_entries(old(self).blocks).insert(
                b.0,
                *final(content),
            ),
            final(self).functions == old(self).functions,
            final(self).values == old(self).values,
            final(self).types == old(self).types,
            final(self).pointers == old(self).pointers,
            final(self).type_list == old(self).type_list,
            block_pool_ready(final(self).blocks) == block_pool_ready(old(self).blocks),
    {
        get_block_mut(&mut self.blocks, b.0)
    }

    /// Exclusive access to what is recorded of the value named `v`.  What is
    /// written through it is what the context records afterwards; nothing else
    /// changes.
    pub fn value_mut(&mut self, v: Value) -> (content: &mut ValueContent)
        requires
            old(self).has_value(v),
        ensures
            *content == old(self).value_content(v),
            value_entries(final(self).values) == value_entries(old(self).values).insert(
                v.0,
                *final(content),
            ),
            final(self).functions == old(self).functions,
            final(self).blocks == old(self).blocks,
            final(self).types == old(self).types,
            final(self).pointers == old(self).pointers,
            final(self).type_list == old(self).type_list,
            value_pool_ready(final(self).values) == value_pool_ready(old(self).values),
    {
        get_value_mut(&mut self.values, v.0)
    }

    /// The descriptor of the type named `t`, if it has one: a plain pointer
    /// type has none, and a type that the context does not know has none.
    pub fn ty(&self, t: Type) -> (found: Option<&TypeContent>)
        ensures
            found.is_some() == (self.has_type(t) && t.pointers == 0),
            found.is_some() ==> *found.unwrap() == self.type_content(t),
    {
        if t.pointers == 0 {
            get_type_content(&self.types, t.base)
        } else {
            None
        }
    }

    /// Whether `t` names a type of this context.
    pub fn knows_type(&self, t: Type) -> (known: bool)
        ensures
            known == self.has_type(t),
    {
        get_type_content(&self.types, t.base).is_some()
    }

    /// The storage location named `p`, if there is one.
    pub fn pointer(&self, p: Pointer) -> (found: Option<&PointerContent>)
        ensures
            found.is_some() == self.has_pointer(p),
            found.is_some() ==> *found.unwrap() == self.pointer_content(p),
    {
        get_pointer_content(&self.pointers, p.0)
    }
}

} // verus!
