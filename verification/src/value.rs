//! Values: everything an instruction can read has a name of this kind.

use vstd::prelude::*;
use crate::arena::insert_value;
use crate::arena::value_entries;
use crate::arena::value_pool_ready;
use crate::constant::Constant;
use crate::context::Context;
use crate::handle::Handle;
use crate::instruction::Instruction;
use crate::irtype::Type;

verus! {

/// The name of a value.
#[derive(Clone, Copy, Debug, PartialEq, Eq, Hash, Structural)]
pub struct Value(pub Handle);

/// What is recorded of a value.
#[derive(Debug, PartialEq, Eq)]
pub struct ValueContent {
    pub value: ValueDatum,
}

/// The three ways a value comes to be.
#[derive(Debug, PartialEq, Eq)]
pub enum ValueDatum {
    /// A formal parameter of a block, with its declared type.
    Argument(Type),
    Constant(Constant),
    Instruction(Instruction),
}

impl Context {
    /// This context is `old` with one more value, `v`, which came to be as
    /// `datum` says.  Nothing else differs.
    pub open spec fn adds_value(&self, old: &Context, v: Value, datum: ValueDatum) -> bool {
        &&& !old.has_value(v)
        &&& value_entries(self.values) == value_entries(old.values).insert(
            v.0,
            ValueContent { value: datum },
        )
        &&& self.functions == old.functions
        &&& self.blocks == old.blocks
        &&& self.types == old.types
        &&& self.pointers == old.pointers
        &&& self.type_list == old.type_list
        &&& self.keeps_ready(old)
    }

    /// The constant that `v` stands for, if it is one.
    pub open spec fn constant_of(&self, v: Value) -> Option<Constant> {
        if self.has_value(v) && self.datum(v) is Constant {
            Some(self.datum(v)->Constant_0)
        } else {
            None
        }
    }

    /// The instruction that yields `v`, if one does.
    pub open spec fn instruction_of(&self, v: Value) -> Option<Instruction> {
        if self.has_value(v) && self.datum(v) is Instruction {
            Some(self.datum(v)->Instruction_0)
        } else {
            None
        }
    }

    /// Whether `v` is yielded by an instruction that ends its block.
    pub open spec fn is_terminator_value(&self, v: Value) -> bool {
        self.instruction_of(v) is Some && self.instruction_of(v)->0.ends_block()
    }
}

impl Value {
    /// A new formal parameter of the given type.  The pool of values must be
    /// ready, as it is in every context that only this library has changed.
    pub fn new_argument(context: &mut Context, ty: Type) -> (v: Value)
        requires
            value_pool_ready(old(context).values),
        ensures
            final(context).adds_value(old(context), v, ValueDatum::Argument(ty)),
    {
        let content = ValueContent { value: ValueDatum::Argument(ty) };
        Value(insert_value(&mut context.values, content))
    }

    /// A new value that stands for a constant.
    pub fn new_constant(context: &mut Context, constant: Constant) -> (v: Value)
        requires
            value_pool_ready(old(context).values),
        ensures
            final(context).adds_value(old(context), v, ValueDatum::Constant(constant)),
    {
        let content = ValueContent { value: ValueDatum::Constant(constant) };
        Value(insert_value(&mut context.values, content))
    }

    /// A new value that an instruction yields.  The instruction is in no block yet.
    pub fn new_instruction(context: &mut Context, instruction: Instruction) -> (v: Value)
        requires
            value_pool_ready(old(context).values),
        ensures
            final(context).adds_value(old(context), v, ValueDatum::Instruction(instruction)),
    {
        let content = ValueContent { value: ValueDatum::Instruction(instruction) };
        Value(insert_value(&mut context.values, content))
    }

    /// The constant that this value stands for, if it is one.
    pub fn get_constant<'a>(&self, context: &'a Context) -> (found: Option<&'a Constant>)
        ensures
            found.is_some() == context.constant_of(*self).is_some(),
            found.is_some() ==> *found.unwrap() == context.constant_of(*self).unwrap(),
    {
        match context.value(*self) {
            Some(content) => match &content.value {
                ValueDatum::Constant(c) => Some(c),
                _ => None,
            },
            None => None,
        }
    }

    /// The instruction that yields this value, if one does.
    pub fn get_instruction<'a>(&self, context: &'a Context) -> (found: Option<&'a Instruction>)
        ensures
            found.is_some() == context.instruction_of(*self).is_some(),
            found.is_some() ==> *found.unwrap() == context.instruction_of(*self).unwrap(),
    {
        match context.value(*self) {
            Some(content) => match &content.value {
                ValueDatum::Instruction(i) => Some(i),
                _ => None,
            },
            None => None,
        }
    }

    /// Whether this value is yielded by an instruction that ends its block.
    pub fn is_terminator(&self, context: &Context) -> (is: bool)
        ensures
            is == context.is_terminator_value(*self),
    {
        match self.get_instruction(context) {
            Some(i) => i.is_terminator(),
            None => false,
        }
    }

    /// The type of this value, or `None` if an instruction without a type
    /// yields it.
    ///
    /// The value must be typable: the context knows it and whatever its type
    /// is taken from.  Whoever is not sure asks `try_get_type` first.
    pub fn get_type(&self, context: &Context) -> (ty: Option<Type>)
        requires
            context.types_valid(),
            context.value_typable(*self),
        ensures
            ty == context.value_type_of(*self),
    {
        let ghost depth = choose|depth: nat| context.value_type_within(*self, depth) is Some;
        self.type_query(context, None, Ghost(depth)).unwrap()
    }

    /// The answer to a type query that looks into at most `depth`
    /// instructions: `None` where there is no answer within that depth,
    /// `Some(None)` where the value has no type, `Some(Some(t))` where it has
    /// type `t`.  An answer shows that the value is typable and what `get_type`
    /// returns for it.
    pub fn try_get_type(&self, context: &Context, depth: usize) -> (found: Option<Option<Type>>)
        requires
            context.types_valid(),
        ensures
            found == context.value_type_within(*self, depth as nat),
            found is Some ==> context.value_typable(*self) && context.value_type_of(*self)
                == found->0,
    {
        let found = self.type_query(context, Some(depth), Ghost(depth as nat));
        proof {
            if found is Some {
                context.value_type_found(*self, depth as nat);
            }
        }
        found
    }

    /// The answer to a type query within `depth`.  With a bound, `depth` is the
    /// bound; without one, the query is known to have an answer within `depth`.
    pub(crate) fn type_query(
        &self,
        context: &Context,
        bound: Option<usize>,
        Ghost(depth): Ghost<nat>,
    ) -> (found: Option<Option<Type>>)
        requires
            context.types_valid(),
            match bound {
                Some(limit) => depth == limit,
                None => context.value_type_within(*self, depth) is Some,
            },
        ensures
            found == context.value_type_within(*self, depth),
        decreases depth, 0nat,
    {
        match context.value(*self) {
            Some(content) => match &content.value {
                ValueDatum::Argument(ty) => Some(Some(*ty)),
                ValueDatum::Constant(c) => Some(Some(c.ty)),
                ValueDatum::Instruction(i) => match bound {
                    Some(limit) => {
                        if limit == 0 {
                            None
                        } else {
                            i.type_query(context, Some(limit - 1), Ghost((depth - 1) as nat))
                        }
                    },
                    None => i.type_query(context, None, Ghost((depth - 1) as nat)),
                },
            },
            None => None,
        }
    }
}

} // verus!
