//! Types: structural descriptors, stored once each, and the plain pointers
//! to them, which are named without being stored.

use vstd::prelude::*;
use crate::arena::insert_type;
use crate::context::allowed_shape;
use crate::context::is_plain_pointer;
use crate::context::plain_pointer_shape;
use crate::context::pointer_name;
use crate::context::shape_in;
use crate::context::type_known;
use crate::context::is_uint_width;
use crate::arena::type_entries;
use crate::arena::type_pool_ready;
use crate::constant::Constant;
use crate::constant::ConstantValue;
use crate::constant::ConstantView;
use crate::context::Context;
use crate::handle::Handle;
use crate::value::Value;
use crate::value::ValueDatum;

verus! {

/// The name of a type.  Within one context two names are equal exactly when the
/// types they stand for have the same structure.
///
/// A name is the handle of a stored descriptor and a number of plain pointers
/// on top of it.  The plain pointer type to a type, immutable and without
/// initial value, has its name from the name of its pointee and needs no
/// descriptor, so that it can be named where nothing can be stored.
#[derive(Clone, Copy, Debug, PartialEq, Eq, Hash, Structural)]
pub struct Type {
    pub base: Handle,
    pub pointers: u32,
}

/// The structure of a type.  Component types are given by name.
#[derive(Debug, PartialEq, Eq)]
pub enum TypeContent {
    Unit,
    Bool,
    /// An unsigned integer of the given width in bits.
    Uint(u16),
    B256,
    /// A string of the given length in bytes.
    String(u64),
    /// An array of the given element type and length.
    Array(Type, u64),
    /// A struct with the given field types, in order.
    Struct(Vec<Type>),
    /// An address of a location of type `pointee`.  Mutability and initial value
    /// belong to the type: pointers that differ in either have different types.
    /// A descriptor of this kind is stored for the pointers that are mutable or
    /// have an initial value; it only describes the others.
    Pointer { pointee: Type, is_mutable: bool, initializer: Option<Constant> },
}

/// What a [`TypeContent`] stands for.
pub enum TypeContentView {
    Unit,
    Bool,
    Uint(u16),
    B256,
    String(u64),
    Array(Type, u64),
    Struct(Seq<Type>),
    Pointer { pointee: Type, is_mutable: bool, initializer: Option<ConstantView> },
}

impl View for TypeContent {
    type V = TypeContentView;

    open spec fn view(&self) -> TypeContentView {
        match *self {
            TypeContent::Unit => TypeContentView::Unit,
            TypeContent::Bool => TypeContentView::Bool,
            TypeContent::Uint(width) => TypeContentView::Uint(width),
            TypeContent::B256 => TypeContentView::B256,
            TypeContent::String(len) => TypeContentView::String(len),
            TypeContent::Array(elem, len) => TypeContentView::Array(elem, len),
            TypeContent::Struct(fields) => TypeContentView::Struct(fields@),
            TypeContent::Pointer { pointee, is_mutable, initializer } => TypeContentView::Pointer {
                pointee,
                is_mutable,
                initializer: match initializer {
                    Some(c) => Some(c@),
                    None => None,
                },
            },
        }
    }
}

/// Whether two lists of type names agree position by position.
fn same_types(a: &Vec<Type>, b: &Vec<Type>) -> (same: bool)
    ensures
        same == (a@ == b@),
{
    if a.len() != b.len() {
        return false;
    }
    let mut i: usize = 0;
    while i < a.len()
        invariant
            i <= a@.len(),
            a@.len() == b@.len(),
            forall|k: int| 0 <= k < i ==> a@[k] == b@[k],
        decreases a@.len() - i,
    {
        if a[i] != b[i] {
            return false;
        }
        i += 1;
    }
    assert(a@ =~= b@);
    true
}

impl TypeContent {
    /// Whether two descriptors have the same structure.
    pub fn same_as(&self, other: &TypeContent) -> (same: bool)
        ensures
            same == (self@ == other@),
    {
        match (self, other) {
            (TypeContent::Unit, TypeContent::Unit) => true,
            (TypeContent::Bool, TypeContent::Bool) => true,
            (TypeContent::Uint(a), TypeContent::Uint(b)) => *a == *b,
            (TypeContent::B256, TypeContent::B256) => true,
            (TypeContent::String(a), TypeContent::String(b)) => *a == *b,
            (TypeContent::Array(a, n), TypeContent::Array(b, m)) => *a == *b && *n == *m,
            (TypeContent::Struct(a), TypeContent::Struct(b)) => same_types(a, b),
            (
                TypeContent::Pointer { pointee: a, is_mutable: am, initializer: ai },
                TypeContent::Pointer { pointee: b, is_mutable: bm, initializer: bi },
            ) => {
                if *a != *b || *am != *bm {
                    return false;
                }
                match (ai, bi) {
                    (Some(x), Some(y)) => x.same_as(y),
                    (None, None) => true,
                    _ => false,
                }
            },
            _ => false,
        }
    }
}

impl Context {
    /// Nothing but types was added since `old`: the other pools are as they
    /// were, and every type of `old` is still there, unchanged.
    pub open spec fn grows_types_of(&self, old: &Context) -> bool {
        &&& self.functions == old.functions
        &&& self.blocks == old.blocks
        &&& self.values == old.values
        &&& self.pointers == old.pointers
        &&& forall|u: Type| #[trigger]
            old.has_type(u) ==> self.has_type(u) && self.type_content(u) == old.type_content(u)
    }

    /// This context is `old` after the type of the given structure was asked
    /// for and `t` was the answer.  If `old` had such a type, `t` names it and
    /// nothing has changed.  If not, `t` is a new name under which `content` is
    /// stored, at the end of the list of handles, and nothing else has changed.
    pub open spec fn interns(&self, old: &Context, t: Type, content: TypeContent) -> bool {
        &&& self.types_consistent()
        &&& self.grows_types_of(old)
        &&& self.has_type(t)
        &&& self.type_shape(t) == content@
        &&& t == self.type_for(content@)
        &&& if old.interned(content@) {
            self.same_types_as(old)
        } else {
            &&& !old.has_type(t)
            &&& t.pointers == 0
            &&& type_entries(self.types) == type_entries(old.types).insert(t.base, content)
            &&& self.type_list@ == old.type_list@.push(t.base)
        }
        &&& old.has_basic_types() ==> self.has_basic_types()
        &&& self.keeps_ready(old)
    }

    /// Whether `t` names an array type.
    pub open spec fn is_array_type(&self, t: Type) -> bool {
        self.has_type(t) && self.type_shape(t) is Array
    }

    /// Whether `t` names a struct type.
    pub open spec fn is_struct_type(&self, t: Type) -> bool {
        self.has_type(t) && self.type_shape(t) is Struct
    }

    /// Whether `t` names a pointer type: a plain pointer by its name, or a
    /// type of this context whose descriptor is that of a pointer.
    pub open spec fn is_pointer_type(&self, t: Type) -> bool {
        t.pointers > 0 || (self.has_type(t) && self.type_shape(t) is Pointer)
    }

    /// The pointee of a pointer type; any other type as it is.
    pub open spec fn stripped(&self, t: Type) -> Type {
        if self.is_pointer_type(t) {
            self.type_shape(t)->pointee
        } else {
            t
        }
    }

    /// The type of member `idx` of an aggregate: of a struct its field of that
    /// number, of an array its element type where `idx` is below the length.
    pub open spec fn field_type(&self, t: Type, idx: u64) -> Option<Type> {
        if !self.has_type(t) {
            None
        } else {
            match self.type_shape(t) {
                TypeContentView::Struct(fields) => if idx < fields.len() {
                    Some(fields[idx as int])
                } else {
                    None
                },
                TypeContentView::Array(elem, len) => if idx < len {
                    Some(elem)
                } else {
                    None
                },
                _ => None,
            }
        }
    }

    /// The number that `v` stands for, where it is an unsigned integer constant.
    pub open spec fn constant_index(&self, v: Value) -> Option<u64> {
        if !self.has_value(v) {
            None
        } else {
            match self.datum(v) {
                ValueDatum::Constant(c) => match c.value {
                    ConstantValue::Uint(n) => Some(n),
                    _ => None,
                },
                _ => None,
            }
        }
    }

    /// Where a walk from `t` ends that takes one member per index, in order.
    /// It fails at the first index that is no integer constant or names no member.
    pub open spec fn walk(&self, t: Type, indices: Seq<Value>) -> Option<Type>
        decreases indices.len(),
    {
        if indices.len() == 0 {
            Some(t)
        } else {
            match self.walk(t, indices.drop_last()) {
                None => None,
                Some(at) => match self.constant_index(indices.last()) {
                    None => None,
                    Some(idx) => self.field_type(at, idx),
                },
            }
        }
    }

    /// The type reached from `t` by a walk along `indices`.  There is none for
    /// an empty list of indices.
    pub open spec fn indexed_type(&self, t: Type, indices: Seq<Value>) -> Option<Type> {
        if indices.len() == 0 {
            None
        } else {
            self.walk(t, indices)
        }
    }

    /// Where a walk from `t` ends that takes the member of the given number at
    /// each step.  It fails at the first number that names no member.
    pub open spec fn walk_numbers(&self, t: Type, numbers: Seq<u64>) -> Option<Type>
        decreases numbers.len(),
    {
        if numbers.len() == 0 {
            Some(t)
        } else {
            match self.walk_numbers(t, numbers.drop_last()) {
                None => None,
                Some(at) => self.field_type(at, numbers.last()),
            }
        }
    }

    /// The type reached from `t` by a walk along `numbers`.  There is none for
    /// an empty list.
    pub open spec fn numbered_type(&self, t: Type, numbers: Seq<u64>) -> Option<Type> {
        if numbers.len() == 0 {
            None
        } else {
            self.walk_numbers(t, numbers)
        }
    }

    /// A walk along constants is the walk along the numbers they stand for.
    pub proof fn walk_along_constants(&self, t: Type, indices: Seq<Value>, numbers: Seq<u64>)
        requires
            indices.len() == numbers.len(),
            forall|k: int|
                0 <= k < indices.len() ==> self.constant_index(#[trigger] indices[k]) == Some(
                    numbers[k],
                ),
        ensures
            self.walk(t, indices) == self.walk_numbers(t, numbers),
            self.indexed_type(t, indices) == self.numbered_type(t, numbers),
        decreases indices.len(),
    {
        if indices.len() > 0 {
            self.walk_along_constants(t, indices.drop_last(), numbers.drop_last());
            assert(self.constant_index(indices[indices.len() - 1]) == Some(numbers[numbers.len() - 1]));
        }
    }

    /// A walk along numbers depends on the types alone.
    pub proof fn numbers_walk_by_types(&self, old: &Context, t: Type, numbers: Seq<u64>)
        requires
            self.same_types_as(old),
        ensures
            self.walk_numbers(t, numbers) == old.walk_numbers(t, numbers),
            self.numbered_type(t, numbers) == old.numbered_type(t, numbers),
        decreases numbers.len(),
    {
        if numbers.len() > 0 {
            self.numbers_walk_by_types(old, t, numbers.drop_last());
        }
    }

    /// The structure of a pointer type that has nothing but a pointee.
    pub open spec fn plain_pointer(pointee: Type) -> TypeContentView {
        plain_pointer_shape(pointee)
    }

    /// Two names of types of the context are equal exactly when the types have
    /// the same structure.
    pub proof fn equal_structure_is_equal_name(&self, a: Type, b: Type)
        requires
            self.types_consistent(),
            self.has_type(a),
            self.has_type(b),
        ensures
            a == b <==> self.type_shape(a) == self.type_shape(b),
    {
        if self.type_shape(a) == self.type_shape(b) {
            self.names_are_unique(a, b);
        }
    }

    /// Types keep their names when types are added.
    pub proof fn grown_types_keep_names(&self, old: &Context, shape: TypeContentView)
        requires
            self.grows_types_of(old),
            self.types_consistent(),
            old.interned(shape),
        ensures
            self.interned(shape),
            self.type_for(shape) == old.type_for(shape),
    {
        let u = old.type_for(shape);
        assert(old.has_type(u) && old.type_shape(u) == shape);
        assert(self.has_type(u) && self.type_shape(u) == shape);
        self.type_for_is_unique(u);
    }
}

impl Type {
    /// The type of this structure, if the context has one: a plain pointer to
    /// a type of the context, or a type whose descriptor is stored.
    pub fn get_type(context: &Context, content: &TypeContent) -> (found: Option<Type>)
        requires
            context.types_consistent(),
        ensures
            found.is_some() == context.interned(content@),
            found.is_some() ==> found.unwrap() == context.type_for(content@),
            found.is_some() ==> context.has_type(found.unwrap()) && context.type_shape(
                found.unwrap(),
            ) == content@,
    {
        match content {
            TypeContent::Pointer { pointee, is_mutable, initializer } => {
                if !*is_mutable && initializer.is_none() {
                    proof {
                        context.plain_pointer_is_there(*pointee);
                    }
                    if pointee.pointers < u32::MAX && context.knows_type(*pointee) {
                        let t = Type { base: pointee.base, pointers: pointee.pointers + 1 };
                        proof {
                            context.type_for_is_unique(t);
                        }
                        return Some(t);
                    } else {
                        return None;
                    }
                }
            },
            _ => {},
        }
        let mut i: usize = 0;
        while i < context.type_list.len()
            invariant
                context.types_consistent(),
                !is_plain_pointer(content@),
                i <= context.type_list@.len(),
                forall|k: int|
                    0 <= k < i ==> type_entries(context.types)[#[trigger] context.type_list@[k]]@
                        != content@,
            decreases context.type_list@.len() - i,
        {
            let h = context.type_list[i];
            let t = Type { base: h, pointers: 0 };
            assert(context.type_list@.contains(h));
            match context.ty(t) {
                Some(stored) => {
                    if stored.same_as(content) {
                        proof {
                            context.type_for_is_unique(t);
                        }
                        return Some(t);
                    }
                },
                None => {},
            }
            i += 1;
        }
        proof {
            let entries = type_entries(context.types);
            assert forall|t: Type| #[trigger] type_known(entries, t) implies shape_in(entries, t)
                != content@ by {
                if t.pointers == 0 {
                    assert(context.type_list@.contains(t.base));
                    let k = choose|k: int|
                        0 <= k < context.type_list@.len() && context.type_list@[k] == t.base;
                    assert(entries[context.type_list@[k]]@ != content@);
                }
            }
        }
        None
    }

    /// The type of this structure: the one that the context has if it has one,
    /// else a new one, whose descriptor is stored.  The pool of types must be
    /// ready.  The descriptor must be one that may be stored: for a plain
    /// pointer there is `get_pointer`, and `new_pointer` takes every pointer.
    pub fn intern(context: &mut Context, content: TypeContent) -> (t: Type)
        requires
            old(context).types_consistent(),
            type_pool_ready(old(context).types),
            allowed_shape(content@),
        ensures
            final(context).interns(old(context), t, content),
    {
        match Type::get_type(context, &content) {
            Some(t) => {
                proof {
                    context.type_for_is_unique(t);
                }
                t
            },
            None => {
                let ghost before = *context;
                let h = insert_type(&mut context.types, content);
                let t = Type { base: h, pointers: 0 };
                context.type_list.push(h);
                proof {
                    let entries = type_entries(context.types);
                    let list = context.type_list@;
                    let was = type_entries(before.types);
                    assert forall|u: Handle|
                        #![trigger entries.contains_key(u)]
                        #![trigger list.contains(u)]
                        entries.contains_key(u) <==> list.contains(u) by {
                        if u == h {
                            assert(list[before.type_list@.len() as int] == h);
                        } else {
                            assert(was.contains_key(u) <==> before.type_list@.contains(u));
                            if before.type_list@.contains(u) {
                                let k = choose|k: int|
                                    0 <= k < before.type_list@.len() && before.type_list@[k] == u;
                                assert(list[k] == u);
                            }
                        }
                    }
                    assert forall|a: Handle, b: Handle|
                        #![trigger entries[a], entries[b]]
                        entries.contains_key(a) && entries.contains_key(b) && entries[a]@
                            == entries[b]@ implies a == b by {
                        if a != h && b != h {
                            assert(was[a]@ == was[b]@);
                        } else if a != h {
                            let known = Type { base: a, pointers: 0 };
                            assert(type_known(was, known) && shape_in(was, known) == content@);
                        } else if b != h {
                            let known = Type { base: b, pointers: 0 };
                            assert(type_known(was, known) && shape_in(was, known) == content@);
                        }
                    }
                    assert forall|u: Handle| #[trigger] entries.contains_key(u) implies allowed_shape(
                        entries[u]@,
                    ) by {
                        if u != h {
                            assert(was.contains_key(u));
                        }
                    }
                    assert forall|u: Type| #[trigger] before.has_type(u) implies context.has_type(u)
                        && context.type_content(u) == before.type_content(u) by {
                        assert(was.contains_key(u.base));
                    }
                    context.type_for_is_unique(t);
                    if before.has_basic_types() {
                        context.grown_types_keep_names(&before, TypeContentView::Unit);
                        context.grown_types_keep_names(&before, TypeContentView::Bool);
                        context.grown_types_keep_names(&before, TypeContentView::Uint(8));
                        context.grown_types_keep_names(&before, TypeContentView::Uint(16));
                        context.grown_types_keep_names(&before, TypeContentView::Uint(32));
                        context.grown_types_keep_names(&before, TypeContentView::Uint(64));
                        context.grown_types_keep_names(&before, TypeContentView::Uint(256));
                        context.grown_types_keep_names(&before, TypeContentView::B256);
                    }
                }
                t
            },
        }
    }

    /// The unit type.
    pub fn get_unit(context: &Context) -> (t: Type)
        requires
            context.types_valid(),
        ensures
            t == context.type_for(TypeContentView::Unit),
            context.has_type(t),
            context.type_shape(t) == TypeContentView::Unit,
            t.pointers == 0,
    {
        Type::get_type(context, &TypeContent::Unit).unwrap()
    }

    /// The boolean type.
    pub fn get_bool(context: &Context) -> (t: Type)
        requires
            context.types_valid(),
        ensures
            t == context.type_for(TypeContentView::Bool),
            context.has_type(t),
            context.type_shape(t) == TypeContentView::Bool,
            t.pointers == 0,
    {
        Type::get_type(context, &TypeContent::Bool).unwrap()
    }

    /// The unsigned integer type of the given width in bits, which must be 8,
    /// 16, 32, 64 or 256.
    pub fn get_uint(context: &Context, width: u16) -> (t: Type)
        requires
            context.types_valid(),
            is_uint_width(width),
        ensures
            t == context.type_for(TypeContentView::Uint(width)),
            context.has_type(t),
            context.type_shape(t) == TypeContentView::Uint(width),
            t.pointers == 0,
    {
        Type::get_type(context, &TypeContent::Uint(width)).unwrap()
    }

    /// The type of 256-bit words.
    pub fn get_b256(context: &Context) -> (t: Type)
        requires
            context.types_valid(),
        ensures
            t == context.type_for(TypeContentView::B256),
            context.has_type(t),
            context.type_shape(t) == TypeContentView::B256,
            t.pointers == 0,
    {
        Type::get_type(context, &TypeContent::B256).unwrap()
    }

    /// The type of addresses of locations of type `pointee`, immutable and
    /// without initial value.  Nothing is stored for it: its name is the name
    /// of the pointee with one more pointer on top, which the name must have
    /// room for.  It is a type of the context if the pointee is.
    pub fn get_pointer(context: &Context, pointee: Type) -> (t: Type)
        requires
            pointee.pointers < u32::MAX,
        ensures
            t == pointer_name(pointee),
            context.type_shape(t) == Context::plain_pointer(pointee),
            context.has_type(t) == context.has_type(pointee),
            context.types_consistent() && context.has_type(pointee) ==> t == context.type_for(
                Context::plain_pointer(pointee),
            ),
    {
        proof {
            if context.types_consistent() {
                context.plain_pointer_is_there(pointee);
            }
        }
        Type { base: pointee.base, pointers: pointee.pointers + 1 }
    }

    /// The type of strings of `len` bytes, stored if it was not.
    pub fn new_string(context: &mut Context, len: u64) -> (t: Type)
        requires
            old(context).types_consistent(),
            type_pool_ready(old(context).types),
        ensures
            final(context).interns(old(context), t, TypeContent::String(len)),
    {
        Type::intern(context, TypeContent::String(len))
    }

    /// The type of arrays of `len` elements of type `elem`, stored if it was not.
    pub fn new_array(context: &mut Context, elem: Type, len: u64) -> (t: Type)
        requires
            old(context).types_consistent(),
            type_pool_ready(old(context).types),
        ensures
            final(context).interns(old(context), t, TypeContent::Array(elem, len)),
    {
        Type::intern(context, TypeContent::Array(elem, len))
    }

    /// The type of structs with these field types, stored if it was not.
    pub fn new_struct(context: &mut Context, fields: Vec<Type>) -> (t: Type)
        requires
            old(context).types_consistent(),
            type_pool_ready(old(context).types),
        ensures
            final(context).interns(old(context), t, TypeContent::Struct(fields)),
    {
        Type::intern(context, TypeContent::Struct(fields))
    }

    /// The type of addresses of locations of type `pointee` with the given
    /// mutability and initial value.  For a mutable pointer and for one with
    /// an initial value a descriptor is stored if none was.  A plain pointer
    /// has its name from its pointee, which must be a type of the context whose
    /// name has room for one more pointer.
    pub fn new_pointer(
        context: &mut Context,
        pointee: Type,
        is_mutable: bool,
        initializer: Option<Constant>,
    ) -> (t: Type)
        requires
            old(context).types_consistent(),
            type_pool_ready(old(context).types),
            !is_mutable && initializer is None ==> old(context).has_type(pointee) && pointee.pointers
                < u32::MAX,
        ensures
            final(context).interns(
                old(context),
                t,
                (TypeContent::Pointer { pointee, is_mutable, initializer }),
            ),
    {
        if !is_mutable && initializer.is_none() {
            proof {
                context.plain_pointer_is_there(pointee);
            }
            Type::get_pointer(context, pointee)
        } else {
            Type::intern(context, TypeContent::Pointer { pointee, is_mutable, initializer })
        }
    }

    /// The descriptor of this type, if it has one: a plain pointer type has
    /// none, and a type that the context does not know has none.
    pub fn get_content<'a>(&self, context: &'a Context) -> (found: Option<&'a TypeContent>)
        ensures
            found.is_some() == (context.has_type(*self) && self.pointers == 0),
            found.is_some() ==> *found.unwrap() == context.type_content(*self),
    {
        context.ty(*self)
    }

    /// Whether this is an array type.
    pub fn is_array(&self, context: &Context) -> (yes: bool)
        ensures
            yes == context.is_array_type(*self),
    {
        match context.ty(*self) {
            Some(TypeContent::Array(_, _)) => true,
            _ => false,
        }
    }

    /// Whether this is a struct type.
    pub fn is_struct(&self, context: &Context) -> (yes: bool)
        ensures
            yes == context.is_struct_type(*self),
    {
        match context.ty(*self) {
            Some(TypeContent::Struct(_)) => true,
            _ => false,
        }
    }

    /// Whether this is a pointer type.
    pub fn is_pointer(&self, context: &Context) -> (yes: bool)
        ensures
            yes == context.is_pointer_type(*self),
    {
        if self.pointers > 0 {
            return true;
        }
        match context.ty(*self) {
            Some(TypeContent::Pointer { .. }) => true,
            _ => false,
        }
    }

    /// The pointee if this is a pointer type, else the type itself.
    pub fn strip_ptr_type(&self, context: &Context) -> (t: Type)
        ensures
            t == context.stripped(*self),
    {
        if self.pointers > 0 {
            return Type { base: self.base, pointers: self.pointers - 1 };
        }
        match context.ty(*self) {
            Some(TypeContent::Pointer { pointee, .. }) => *pointee,
            _ => *self,
        }
    }

    /// The type of member `idx` of this aggregate, if it has such a member.
    pub fn get_field_type(&self, context: &Context, idx: u64) -> (found: Option<Type>)
        ensures
            found == context.field_type(*self, idx),
    {
        match context.ty(*self) {
            Some(TypeContent::Struct(fields)) => {
                if idx < fields.len() as u64 {
                    Some(fields[idx as usize])
                } else {
                    None
                }
            },
            Some(TypeContent::Array(elem, len)) => {
                if idx < *len {
                    Some(*elem)
                } else {
                    None
                }
            },
            _ => None,
        }
    }

    /// The type reached from this one by taking, for each index in turn, the
    /// member that the index names.  Each index must be an unsigned integer
    /// constant; there is no result for an empty list.
    pub fn get_indexed_type(&self, context: &Context, indices: &[Value]) -> (found: Option<Type>)
        ensures
            found == context.indexed_type(*self, indices@),
    {
        if indices.len() == 0 {
            return None;
        }
        let mut at: Option<Type> = Some(*self);
        let mut i: usize = 0;
        while i < indices.len()
            invariant
                i <= indices@.len(),
                at == context.walk(*self, indices@.take(i as int)),
            decreases indices@.len() - i,
        {
            proof {
                assert(indices@.take(i + 1).drop_last() =~= indices@.take(i as int));
            }
            at = match at {
                None => None,
                Some(t) => match constant_index_of(context, indices[i]) {
                    None => None,
                    Some(idx) => t.get_field_type(context, idx),
                },
            };
            i += 1;
        }
        proof {
            assert(indices@.take(i as int) =~= indices@);
        }
        at
    }
}

/// The number that `v` stands for, where it is an unsigned integer constant.
fn constant_index_of(context: &Context, v: Value) -> (found: Option<u64>)
    ensures
        found == context.constant_index(v),
{
    match context.value(v) {
        Some(content) => match &content.value {
            ValueDatum::Constant(c) => match &c.value {
                ConstantValue::Uint(n) => Some(*n),
                _ => None,
            },
            _ => None,
        },
        None => None,
    }
}

} // verus!
