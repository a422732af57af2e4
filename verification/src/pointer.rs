//! Storage locations.

use vstd::prelude::*;
use crate::arena::insert_pointer;
use crate::arena::pointer_entries;
use crate::arena::pointer_pool_ready;
use crate::constant::Constant;
use crate::context::Context;
use crate::handle::Handle;
use crate::irtype::Type;

verus! {

/// The name of a storage location.  It is not a value: an instruction that
/// yields the address of the location is.
#[derive(Clone, Copy, Debug, PartialEq, Eq, Hash, Structural)]
pub struct Pointer(pub Handle);

/// What is recorded of a storage location.
#[derive(Debug, PartialEq, Eq)]
pub struct PointerContent {
    /// The type of what the location holds.
    pub ty: Type,
    pub is_mutable: bool,
    /// The value the location starts with, if it is a global.
    pub initializer: Option<Constant>,
}

impl Context {
    /// The type of what the location `p` holds, if `p` names a location.
    pub open spec fn pointee_of(&self, p: Pointer) -> Option<Type> {
        if self.has_pointer(p) {
            Some(self.pointer_content(p).ty)
        } else {
            None
        }
    }
}

impl Pointer {
    /// A new storage location.  The pool of pointers must be ready.
    pub fn new(context: &mut Context, ty: Type, is_mutable: bool, initializer: Option<Constant>) -> (p:
        Pointer)
        requires
            pointer_pool_ready(old(context).pointers),
        ensures
            !old(context).has_pointer(p),
            pointer_entries(final(context).pointers) == pointer_entries(old(context).pointers).insert(
                p.0,
                PointerContent { ty, is_mutable, initializer },
            ),
            final(context).functions == old(context).functions,
            final(context).blocks == old(context).blocks,
            final(context).values == old(context).values,
            final(context).types == old(context).types,
            final(context).type_list == old(context).type_list,
            final(context).keeps_ready(old(context)),
    {
        let content = PointerContent { ty, is_mutable, initializer };
        Pointer(insert_pointer(&mut context.pointers, content))
    }

    /// The type of what the location holds, if the context has the location.
    pub fn get_type(&self, context: &Context) -> (ty: Option<Type>)
        ensures
            ty == context.pointee_of(*self),
    {
        match context.pointer(*self) {
            Some(content) => Some(content.ty),
            None => None,
        }
    }

    /// Whether the location may be written to, if the context has the location.
    pub fn is_mutable(&self, context: &Context) -> (mutable: Option<bool>)
        ensures
            mutable == (if context.has_pointer(*self) {
                Some(context.pointer_content(*self).is_mutable)
            } else {
                None
            }),
    {
        match context.pointer(*self) {
            Some(content) => Some(content.is_mutable),
            None => None,
        }
    }

    /// The value that the location starts with, if it has one.
    pub fn get_initializer<'a>(&self, context: &'a Context) -> (found: Option<&'a Constant>)
        ensures
            found.is_some() == (context.has_pointer(*self) && context.pointer_content(
                *self,
            ).initializer.is_some()),
            found.is_some() ==> *found.unwrap() == context.pointer_content(*self).initializer.unwrap(),
    {
        match context.pointer(*self) {
            Some(content) => content.initializer.as_ref(),
            None => None,
        }
    }
}

} // verus!
