//! What type a value has.
//!
//! The type of an instruction may be the type of one of its operands, which may
//! be an instruction in turn.  A type query follows such a chain until it comes
//! to an instruction that has its type by itself, to a parameter or to a
//! constant.  The chain must end and every name on the way must be known to the
//! context: a query on anything else has no answer.

use vstd::prelude::*;
use crate::context::pointer_name;
use crate::context::Context;
use crate::function::Function;
use crate::pointer::Pointer;
use crate::instruction::Instruction;
use crate::irtype::Type;
use crate::irtype::TypeContentView;
use crate::value::Value;
use crate::value::ValueDatum;

verus! {

impl Context {
    /// The answer to a type query on `v` that may look into at most `depth`
    /// instructions: `None` where the query has no answer within that depth,
    /// `Some(None)` where `v` has no type, `Some(Some(t))` where it has type `t`.
    pub open spec fn value_type_within(&self, v: Value, depth: nat) -> Option<Option<Type>>
        decreases depth, 0nat,
    {
        if !self.has_value(v) {
            None
        } else {
            match self.datum(v) {
                ValueDatum::Argument(ty) => Some(Some(ty)),
                ValueDatum::Constant(c) => Some(Some(c.ty)),
                ValueDatum::Instruction(i) => if depth == 0 {
                    None
                } else {
                    self.instruction_type_within(i, (depth - 1) as nat)
                },
            }
        }
    }

    /// The answer to a type query on `i` that may look into at most `depth`
    /// further instructions, read as for a value.
    pub open spec fn instruction_type_within(&self, i: Instruction, depth: nat) -> Option<
        Option<Type>,
    >
        decreases depth, 1nat,
    {
        match i {
            Instruction::AddrOf(_) => Some(Some(self.type_for(TypeContentView::Uint(64)))),
            Instruction::AsmBlock(body, _) => Some(Some(body.return_type)),
            Instruction::BinaryOp { op: _, arg1, arg2: _ } => self.value_type_within(arg1, depth),
            Instruction::BitCast(_, ty) => Some(Some(ty)),
            Instruction::Call(function, _) => if self.has_function(function) {
                Some(Some(self.function_content(function).return_type))
            } else {
                None
            },
            Instruction::Cmp(..) => Some(Some(self.type_for(TypeContentView::Bool))),
            Instruction::ContractCall { return_type, .. } => Some(Some(return_type)),
            Instruction::GetStorageKey => Some(Some(self.type_for(TypeContentView::B256))),
            Instruction::Gtf { .. } => Some(Some(self.type_for(TypeContentView::Uint(64)))),
            Instruction::Load(ptr) => match self.value_type_within(ptr, depth) {
                None => None,
                Some(None) => Some(None),
                Some(Some(ty)) => Some(Some(self.stripped(ty))),
            },
            Instruction::Log { .. } => Some(Some(self.type_for(TypeContentView::Unit))),
            Instruction::ReadRegister(_) => Some(Some(self.type_for(TypeContentView::Uint(64)))),
            Instruction::StateLoadWord(_) => Some(Some(self.type_for(TypeContentView::Uint(64)))),
            Instruction::GetPointer { base_ptr: _, ptr_ty, offset: _ } => match self.pointee_of(
                ptr_ty,
            ) {
                None => None,
                Some(pointee) => self.pointer_to(pointee),
            },
            Instruction::GetElmPtr { ptr: _, pointee_ty, indices } => match self.indexed_type(
                pointee_ty,
                indices@,
            ) {
                None => None,
                Some(element) => self.pointer_to(element),
            },
            Instruction::IntToPtr(_, ty) => Some(Some(ty)),
            Instruction::Branch(_) => Some(None),
            Instruction::ConditionalBranch { .. } => Some(None),
            Instruction::Ret(..) => Some(None),
            Instruction::Revert(..) => Some(None),
            Instruction::MemCopy { .. } => Some(Some(self.type_for(TypeContentView::Unit))),
            Instruction::StateLoadQuadWord { .. } => Some(Some(self.type_for(TypeContentView::Unit))),
            Instruction::StateStoreQuadWord { .. } => Some(
                Some(self.type_for(TypeContentView::Unit)),
            ),
            Instruction::StateStoreWord { .. } => Some(Some(self.type_for(TypeContentView::Unit))),
            Instruction::Store { .. } => Some(Some(self.type_for(TypeContentView::Unit))),
            Instruction::Nop => Some(None),
        }
    }

    /// The answer of a query for the plain pointer type to `pointee`: its
    /// name, where the name of the pointee has room for one more pointer.
    pub open spec fn pointer_to(&self, pointee: Type) -> Option<Option<Type>> {
        if pointee.pointers < u32::MAX {
            Some(Some(pointer_name(pointee)))
        } else {
            None
        }
    }

    /// A type query on `v` has an answer.
    pub open spec fn value_typable(&self, v: Value) -> bool {
        exists|depth: nat| self.value_type_within(v, depth) is Some
    }

    /// The type of `v`, or `None` where `v` is yielded by an instruction that
    /// has no type.  It means something only where `v` is typable.
    pub open spec fn value_type_of(&self, v: Value) -> Option<Type> {
        self.value_type_within(v, choose|depth: nat| self.value_type_within(v, depth) is Some)->0
    }

    /// A type query on `i` has an answer.
    pub open spec fn typable(&self, i: Instruction) -> bool {
        exists|depth: nat| self.instruction_type_within(i, depth) is Some
    }

    /// The type of what `i` yields, or `None` where it yields nothing.  It
    /// means something only where `i` is typable.
    pub open spec fn type_of(&self, i: Instruction) -> Option<Type> {
        self.instruction_type_within(
            i,
            choose|depth: nat| self.instruction_type_within(i, depth) is Some,
        )->0
    }

    /// An answer does not depend on the depth it was found within.
    pub proof fn value_type_is_stable(&self, v: Value, a: nat, b: nat)
        requires
            self.value_type_within(v, a) is Some,
            self.value_type_within(v, b) is Some,
        ensures
            self.value_type_within(v, a) == self.value_type_within(v, b),
        decreases a, 0nat,
    {
        if self.datum(v) is Instruction {
            self.instruction_type_is_stable(
                self.datum(v)->Instruction_0,
                (a - 1) as nat,
                (b - 1) as nat,
            );
        }
    }

    /// An answer does not depend on the depth it was found within.
    pub proof fn instruction_type_is_stable(&self, i: Instruction, a: nat, b: nat)
        requires
            self.instruction_type_within(i, a) is Some,
            self.instruction_type_within(i, b) is Some,
        ensures
            self.instruction_type_within(i, a) == self.instruction_type_within(i, b),
        decreases a, 1nat,
    {
        match i {
            Instruction::BinaryOp { op: _, arg1, arg2: _ } => {
                self.value_type_is_stable(arg1, a, b);
            },
            Instruction::Load(ptr) => {
                self.value_type_is_stable(ptr, a, b);
            },
            _ => {},
        }
    }

    /// An answer found within some depth is the type.
    pub proof fn value_type_found(&self, v: Value, depth: nat)
        requires
            self.value_type_within(v, depth) is Some,
        ensures
            self.value_typable(v),
            self.value_type_of(v) == self.value_type_within(v, depth)->0,
    {
        let chosen = choose|d: nat| self.value_type_within(v, d) is Some;
        self.value_type_is_stable(v, depth, chosen);
    }

    /// An answer found within some depth is the type.
    pub proof fn instruction_type_found(&self, i: Instruction, depth: nat)
        requires
            self.instruction_type_within(i, depth) is Some,
        ensures
            self.typable(i),
            self.type_of(i) == self.instruction_type_within(i, depth)->0,
    {
        let chosen = choose|d: nat| self.instruction_type_within(i, d) is Some;
        self.instruction_type_is_stable(i, depth, chosen);
    }

    /// A typable instruction has no type exactly if it is a jump, a return, a
    /// revert or a no-op.  Arithmetic and loads take their type from their
    /// first operand and must not be asked about one that has none.
    pub proof fn typeless_kinds(&self, i: Instruction)
        requires
            self.typable(i),
            i matches Instruction::BinaryOp { op: _, arg1, arg2: _ } ==> self.value_type_of(arg1)
                is Some,
            i matches Instruction::Load(ptr) ==> self.value_type_of(ptr) is Some,
        ensures
            self.type_of(i) is None <==> (i is Branch || i is ConditionalBranch || i is Ret || i
                is Revert || i is Nop),
    {
        let depth = choose|d: nat| self.instruction_type_within(i, d) is Some;
        match i {
            Instruction::BinaryOp { op: _, arg1, arg2: _ } => {
                self.value_type_found(arg1, depth);
            },
            Instruction::Load(ptr) => {
                self.value_type_found(ptr, depth);
            },
            _ => {},
        }
    }

    /// The type of arithmetic is the type of its first operand, and the type of
    /// a load is the type of its operand with one pointer taken off.
    pub proof fn type_from_operand(&self, i: Instruction)
        requires
            self.typable(i),
        ensures
            i matches Instruction::BinaryOp { op: _, arg1, arg2: _ } ==> self.value_typable(arg1)
                && self.type_of(i) == self.value_type_of(arg1),
            i matches Instruction::Load(ptr) ==> self.value_typable(ptr) && self.type_of(i)
                == match self.value_type_of(ptr) {
                Some(ty) => Some(self.stripped(ty)),
                None => None,
            },
    {
        let depth = choose|d: nat| self.instruction_type_within(i, d) is Some;
        match i {
            Instruction::BinaryOp { op: _, arg1, arg2: _ } => {
                self.value_type_found(arg1, depth);
            },
            Instruction::Load(ptr) => {
                self.value_type_found(ptr, depth);
            },
            _ => {},
        }
    }

    /// This context has the types of `old` and no others, and every value,
    /// function and storage location that `old` has, unchanged.  It may have
    /// more of these.
    pub open spec fn extends(&self, old: &Context) -> bool {
        &&& self.same_types_as(old)
        &&& forall|v: Value| #[trigger]
            old.has_value(v) ==> self.has_value(v) && self.value_content(v) == old.value_content(v)
        &&& forall|f: Function| #[trigger]
            old.has_function(f) ==> self.has_function(f) && self.function_content(f).return_type
                == old.function_content(f).return_type
        &&& forall|p: Pointer| #[trigger]
            old.has_pointer(p) ==> self.has_pointer(p) && self.pointer_content(p).ty
                == old.pointer_content(p).ty
    }

    /// A walk from a type along indices ends where it ended before the
    /// context was extended.
    pub proof fn walk_survives(&self, old: &Context, t: Type, indices: Seq<Value>)
        requires
            self.extends(old),
            old.walk(t, indices) is Some,
        ensures
            self.walk(t, indices) == old.walk(t, indices),
        decreases indices.len(),
    {
        if indices.len() > 0 {
            self.walk_survives(old, t, indices.drop_last());
            assert(old.has_value(indices.last()));
        }
    }

    /// The type of a value is what it was before the context was extended.
    pub proof fn value_type_survives(&self, old: &Context, v: Value, depth: nat)
        requires
            self.extends(old),
            old.value_type_within(v, depth) is Some,
        ensures
            self.value_type_within(v, depth) == old.value_type_within(v, depth),
        decreases depth, 0nat,
    {
        assert(old.has_value(v));
        if old.datum(v) is Instruction {
            self.instruction_type_survives(old, old.datum(v)->Instruction_0, (depth - 1) as nat);
        }
    }

    /// The type of an instruction is what it was before the context was extended.
    pub proof fn instruction_type_survives(&self, old: &Context, i: Instruction, depth: nat)
        requires
            self.extends(old),
            old.instruction_type_within(i, depth) is Some,
        ensures
            self.instruction_type_within(i, depth) == old.instruction_type_within(i, depth),
        decreases depth, 1nat,
    {
        match i {
            Instruction::BinaryOp { op: _, arg1, arg2: _ } => {
                self.value_type_survives(old, arg1, depth);
            },
            Instruction::Load(ptr) => {
                self.value_type_survives(old, ptr, depth);
            },
            Instruction::Call(function, _) => {
                assert(old.has_function(function));
            },
            Instruction::GetPointer { base_ptr: _, ptr_ty, offset: _ } => {
                assert(old.has_pointer(ptr_ty));
            },
            Instruction::GetElmPtr { ptr: _, pointee_ty, indices } => {
                self.walk_survives(old, pointee_ty, indices@);
            },
            _ => {},
        }
    }

    /// What was typable stays typable, with the same type, when the context
    /// is extended.
    pub proof fn typing_survives(&self, old: &Context, i: Instruction)
        requires
            self.extends(old),
            old.typable(i),
        ensures
            self.typable(i),
            self.type_of(i) == old.type_of(i),
    {
        let depth = choose|depth: nat| old.instruction_type_within(i, depth) is Some;
        self.instruction_type_survives(old, i, depth);
        self.instruction_type_found(i, depth);
    }
}

} // verus!
