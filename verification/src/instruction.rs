//! Instructions for data manipulation and control flow.

use vstd::prelude::*;
use rustc_hash::FxHashMap;
use crate::assembly::AsmArg;
use crate::assembly::AsmBlock;
use crate::block::Block;
use crate::context::Context;
use crate::function::Function;
use crate::irtype::Type;
use crate::pointer::Pointer;
use crate::substitution::empty_map_replaces_nothing;
use crate::substitution::ends_within;
use crate::substitution::try_resolve;
use crate::substitution::resolve;
use crate::substitution::resolved;
use crate::substitution::resolved_unfolds;
use crate::substitution::settles;
use crate::substitution::single_entry_is_acyclic;
use crate::value::Value;

verus! {

/// A branch target with the values handed to its formal parameters.
#[derive(Debug, Clone, PartialEq, Eq)]
pub struct BranchToWithArgs {
    pub block: Block,
    pub args: Vec<Value>,
}

/// The operations of the representation.  An instruction is always the
/// content of a value: that value is what the instruction yields.
#[derive(Debug, Clone, PartialEq, Eq)]
pub enum Instruction {
    /// Address of a non-copy (memory) value.
    AddrOf(Value),
    /// An opaque list of assembly lines passed on as it is.
    AsmBlock(AsmBlock, Vec<AsmArg>),
    /// Binary arithmetic.
    BinaryOp { op: BinaryOpKind, arg1: Value, arg2: Value },
    /// Reinterpret a value as another type without changing its bits.
    BitCast(Value, Type),
    /// An unconditional jump.
    Branch(BranchToWithArgs),
    /// A function call with a list of arguments.
    Call(Function, Vec<Value>),
    /// Comparison of two values, yielding a boolean.
    Cmp(Predicate, Value, Value),
    /// A jump to one of two targets, chosen by a boolean value.
    ConditionalBranch {
        cond_value: Value,
        true_block: BranchToWithArgs,
        false_block: BranchToWithArgs,
    },
    /// A call into another contract.
    ContractCall {
        return_type: Type,
        name: String,
        params: Value,
        coins: Value,
        asset_id: Value,
        gas: Value,
    },
    /// Generate a unique storage key.
    GetStorageKey,
    /// Read a field of the transaction.
    Gtf { index: Value, tx_field_id: u64 },
    /// The address of a storage location.
    GetPointer { base_ptr: Pointer, ptr_ty: Pointer, offset: u64 },
    /// The address of an element of an aggregate.
    GetElmPtr { ptr: Value, pointee_ty: Type, indices: Vec<Value> },
    /// Reinterpret an integer as a pointer of some type.
    IntToPtr(Value, Type),
    /// Read a value from a memory pointer.
    Load(Value),
    /// Log a value along with an identifier.
    Log { log_val: Value, log_ty: Type, log_id: Value },
    /// Copy a number of bytes between pointers.
    MemCopy { dst_val: Value, src_val: Value, byte_len: u64 },
    /// Does nothing; handy as a placeholder.
    Nop,
    /// Read a special register of the machine.
    ReadRegister(Register),
    /// Return from a function.
    Ret(Value, Type),
    /// Stop the machine and undo the transaction.
    Revert(Value),
    /// Read four words from a storage slot into memory.
    StateLoadQuadWord { load_val: Value, key: Value },
    /// Read a single word from a storage slot.
    StateLoadWord(Value),
    /// Write four words from memory to a storage slot.
    StateStoreQuadWord { stored_val: Value, key: Value },
    /// Write a single word to a storage slot.
    StateStoreWord { stored_val: Value, key: Value },
    /// Write a value to a memory pointer.
    Store { dst_val: Value, stored_val: Value },
}

/// The comparisons of [`Instruction::Cmp`].
#[derive(Debug, Clone, Copy, PartialEq, Eq, Structural)]
pub enum Predicate {
    Equal,
}

/// The operations of [`Instruction::BinaryOp`].
#[derive(Debug, Clone, Copy, PartialEq, Eq, Structural)]
pub enum BinaryOpKind {
    Add,
    Sub,
    Mul,
    Div,
}

/// Special registers of the machine.
#[derive(Debug, Clone, Copy, PartialEq, Eq, Structural)]
pub enum Register {
    /// Overflow or underflow of addition, subtraction and multiplication.
    Of,
    /// The program counter: the address of the current instruction.
    Pc,
    /// Address of the bottom of the current writable stack area.
    Ssp,
    /// Address of the top of the current writable stack area.
    Sp,
    /// Address of the beginning of the current call frame.
    Fp,
    /// Address below the current bottom of the heap.
    Hp,
    /// Error codes of particular operations.
    Error,
    /// Remaining gas globally.
    Ggas,
    /// Remaining gas in the context.
    Cgas,
    /// Received balance for this context.
    Bal,
    /// Start of the code that is running.
    Is,
    /// Return value or pointer.
    Ret,
    /// Return value length in bytes.
    Retl,
    /// Flags register.
    Flag,
}

/// The initial values of the registers that have one, in the order of the registers.
pub open spec fn initializers(args: Seq<AsmArg>) -> Seq<Value>
    decreases args.len(),
{
    if args.len() == 0 {
        Seq::empty()
    } else {
        let before = initializers(args.drop_last());
        match args.last().initializer {
            Some(v) => before.push(v),
            None => before,
        }
    }
}

/// A copy of a list of values.
pub(crate) fn copy_values(values: &Vec<Value>) -> (copy: Vec<Value>)
    ensures
        copy@ == values@,
{
    let mut copy: Vec<Value> = Vec::new();
    let mut i: usize = 0;
    while i < values.len()
        invariant
            i <= values@.len(),
            copy@ == values@.take(i as int),
        decreases values@.len() - i,
    {
        copy.push(values[i]);
        proof {
            assert(values@.take(i + 1) =~= values@.take(i as int).push(values@[i as int]));
        }
        i += 1;
    }
    proof {
        assert(values@.take(i as int) =~= values@);
    }
    copy
}

/// Appends a list of values to another.
fn append_values(to: &mut Vec<Value>, values: &Vec<Value>)
    ensures
        final(to)@ == old(to)@ + values@,
{
    let mut i: usize = 0;
    while i < values.len()
        invariant
            i <= values@.len(),
            to@ == old(to)@ + values@.take(i as int),
        decreases values@.len() - i,
    {
        to.push(values[i]);
        proof {
            assert(values@.take(i + 1) =~= values@.take(i as int).push(values@[i as int]));
            assert(to@ =~= old(to)@ + values@.take(i + 1));
        }
        i += 1;
    }
    proof {
        assert(values@.take(i as int) =~= values@);
    }
}

/// The registers `after` are the registers `before` with each initial value
/// replaced by the end of its chain in `m`.
pub open spec fn initializers_rewritten(
    m: Map<Value, Value>,
    before: Seq<AsmArg>,
    after: Seq<AsmArg>,
) -> bool {
    &&& after.len() == before.len()
    &&& forall|k: int|
        0 <= k < before.len() ==> (#[trigger] after[k]).name == before[k].name && after[k].initializer
            == match before[k].initializer {
            Some(v) => Some(resolved(m, v)),
            None => None,
        }
}

/// The two lists of registers have the same names and the same initial values,
/// place by place.
pub open spec fn registers_agree(a: Seq<AsmArg>, b: Seq<AsmArg>) -> bool {
    &&& a.len() == b.len()
    &&& forall|k: int|
        0 <= k < a.len() ==> (#[trigger] b[k]).name == a[k].name && b[k].initializer
            == a[k].initializer
}

/// Every initial value of a register is among the initial values of the list.
pub proof fn initializers_cover(args: Seq<AsmArg>, k: int)
    requires
        0 <= k < args.len(),
        args[k].initializer is Some,
    ensures
        initializers(args).contains(args[k].initializer->0),
    decreases args.len(),
{
    let before = initializers(args.drop_last());
    if k == args.len() - 1 {
        assert(before.push(args[k].initializer->0).last() == args[k].initializer->0);
    } else {
        initializers_cover(args.drop_last(), k);
        let v = args[k].initializer->0;
        let at = choose|j: int| 0 <= j < before.len() && before[j] == v;
        if args.last().initializer is Some {
            assert(before.push(args.last().initializer->0)[at] == v);
        }
    }
}

/// Puts the end of its chain of replacements in the place of a value.
fn replace_value(v: &mut Value, map: &FxHashMap<Value, Value>)
    requires
        settles(map@, *old(v)),
    ensures
        *final(v) == resolved(map@, *old(v)),
{
    *v = resolve(map, *v);
}

/// Puts the end of its chain of replacements in the place of each value of a list.
fn replace_all(values: &mut Vec<Value>, map: &FxHashMap<Value, Value>)
    requires
        forall|k: int| 0 <= k < old(values)@.len() ==> settles(map@, #[trigger] old(values)@[k]),
    ensures
        final(values)@ == old(values)@.map_values(|v: Value| resolved(map@, v)),
{
    let mut i: usize = 0;
    while i < values.len()
        invariant
            i <= values@.len(),
            values@.len() == old(values)@.len(),
            forall|k: int| 0 <= k < i ==> values@[k] == resolved(map@, old(values)@[k]),
            forall|k: int| i <= k < values@.len() ==> values@[k] == old(values)@[k],
            forall|k: int| 0 <= k < old(values)@.len() ==> settles(map@, #[trigger] old(values)@[k]),
        decreases values@.len() - i,
    {
        let end = resolve(map, values[i]);
        values[i] = end;
        i += 1;
    }
    proof {
        assert(values@ =~= old(values)@.map_values(|v: Value| resolved(map@, v)));
    }
}

/// Puts the end of its chain of replacements in the place of each initial
/// value of a list of registers.
fn replace_initializers(args: &mut Vec<AsmArg>, map: &FxHashMap<Value, Value>)
    requires
        forall|k: int|
            0 <= k < old(args)@.len() && (#[trigger] old(args)@[k]).initializer is Some ==> settles(
                map@,
                old(args)@[k].initializer->0,
            ),
    ensures
        initializers_rewritten(map@, old(args)@, final(args)@),
{
    let mut i: usize = 0;
    while i < args.len()
        invariant
            i <= args@.len(),
            args@.len() == old(args)@.len(),
            initializers_rewritten(map@, old(args)@.take(i as int), args@.take(i as int)),
            forall|k: int| i <= k < args@.len() ==> args@[k] == old(args)@[k],
            forall|k: int|
                0 <= k < old(args)@.len() && (#[trigger] old(args)@[k]).initializer is Some
                    ==> settles(map@, old(args)@[k].initializer->0),
        decreases args@.len() - i,
    {
        let ghost before = args@;
        match args[i].initializer {
            Some(v) => {
                let end = resolve(map, v);
                args[i].initializer = Some(end);
            },
            None => {},
        }
        proof {
            assert forall|k: int| 0 <= k < i + 1 implies (#[trigger] args@.take(i + 1)[k]).name
                == old(args)@.take(i + 1)[k].name && args@.take(i + 1)[k].initializer
                == match old(args)@.take(i + 1)[k].initializer {
                Some(v) => Some(resolved(map@, v)),
                None => None,
            } by {
                if k < i {
                    assert(args@.take(i + 1)[k] == before.take(i as int)[k]);
                }
            }
        }
        i += 1;
    }
    proof {
        assert(args@.take(i as int) =~= args@);
        assert(old(args)@.take(i as int) =~= old(args)@);
    }
}

impl Instruction {
    /// The values that the instruction reads, in order.  Of an assembly block
    /// these are the initial values of its registers; of a conditional branch
    /// the condition, then what goes to the first target, then what goes to the
    /// second.  The index values of an element address and the storage
    /// locations of a pointer instruction are not among them.
    pub open spec fn operands(&self) -> Seq<Value> {
        match *self {
            Instruction::AddrOf(v) => seq![v],
            Instruction::AsmBlock(_, args) => initializers(args@),
            Instruction::BinaryOp { op: _, arg1, arg2 } => seq![arg1, arg2],
            Instruction::BitCast(v, _) => seq![v],
            Instruction::Branch(to) => to.args@,
            Instruction::Call(_, args) => args@,
            Instruction::Cmp(_, lhs, rhs) => seq![lhs, rhs],
            Instruction::ConditionalBranch { cond_value, true_block, false_block } => seq![
                cond_value,
            ] + true_block.args@ + false_block.args@,
            Instruction::ContractCall {
                return_type: _,
                name: _,
                params,
                coins,
                asset_id,
                gas,
            } => seq![params, coins, asset_id, gas],
            Instruction::GetStorageKey => Seq::empty(),
            Instruction::Gtf { index, tx_field_id: _ } => seq![index],
            Instruction::GetPointer { base_ptr: _, ptr_ty: _, offset: _ } => Seq::empty(),
            Instruction::GetElmPtr { ptr, pointee_ty: _, indices: _ } => seq![ptr],
            Instruction::IntToPtr(v, _) => seq![v],
            Instruction::Load(v) => seq![v],
            Instruction::Log { log_val, log_ty: _, log_id } => seq![log_val, log_id],
            Instruction::MemCopy { dst_val, src_val, byte_len: _ } => seq![dst_val, src_val],
            Instruction::Nop => Seq::empty(),
            Instruction::ReadRegister(_) => Seq::empty(),
            Instruction::Ret(v, _) => seq![v],
            Instruction::Revert(v) => seq![v],
            Instruction::StateLoadQuadWord { load_val, key } => seq![load_val, key],
            Instruction::StateLoadWord(key) => seq![key],
            Instruction::StateStoreQuadWord { stored_val, key } => seq![stored_val, key],
            Instruction::StateStoreWord { stored_val, key } => seq![stored_val, key],
            Instruction::Store { dst_val, stored_val } => seq![dst_val, stored_val],
        }
    }

    /// The instruction ends its block: it jumps, returns or reverts.
    pub open spec fn ends_block(&self) -> bool {
        self is Branch || self is ConditionalBranch || self is Ret || self is Revert
    }

    /// The instruction may change something besides the value it yields:
    /// memory, storage, the log, or whatever assembly or a callee changes.
    pub open spec fn has_side_effect(&self) -> bool {
        ||| self is AsmBlock
        ||| self is Call
        ||| self is ContractCall
        ||| self is Log
        ||| self is MemCopy
        ||| self is StateLoadQuadWord
        ||| self is StateStoreQuadWord
        ||| self is StateStoreWord
        ||| self is Store
    }

    /// The type that an element address points to, where the instruction is one
    /// and its indices name an element.
    pub open spec fn element_type(&self, context: &Context) -> Option<Type> {
        match *self {
            Instruction::GetElmPtr { ptr: _, pointee_ty, indices } => context.indexed_type(
                pointee_ty,
                indices@,
            ),
            _ => None,
        }
    }

    /// The array or struct type that the instruction deals with: the type that
    /// a called function returns, the type of the location that a pointer
    /// instruction names, or the type of the element that an element address
    /// points to, where that type is an array or a struct.
    pub open spec fn aggregate(&self, context: &Context) -> Option<Type> {
        let ty = match *self {
            Instruction::Call(function, _) => if context.has_function(function) {
                Some(context.function_content(function).return_type)
            } else {
                None
            },
            Instruction::GetPointer { base_ptr: _, ptr_ty, offset: _ } => context.pointee_of(ptr_ty),
            Instruction::GetElmPtr { .. } => self.element_type(context),
            _ => None,
        };
        match ty {
            Some(t) => if context.is_array_type(t) || context.is_struct_type(t) {
                Some(t)
            } else {
                None
            },
            None => None,
        }
    }

    /// The type of what the instruction yields, or `None` where it yields
    /// nothing: a jump, a return, a revert and a no-op have no type.
    ///
    /// The instruction must be typable.  It is not where a name that the type
    /// depends on is unknown to the context, where the indices of an element
    /// address name no element, or where an address is of something whose type
    /// has more pointers on top than a name has room for.  Whoever is not sure
    /// asks `try_get_type` first.
    pub fn get_type(&self, context: &Context) -> (ty: Option<Type>)
        requires
            context.types_valid(),
            context.typable(*self),
        ensures
            ty == context.type_of(*self),
    {
        let ghost depth = choose|depth: nat| context.instruction_type_within(*self, depth) is Some;
        self.type_query(context, None, Ghost(depth)).unwrap()
    }

    /// The answer to a type query that looks into at most `depth` further
    /// instructions: `None` where there is no answer within that depth,
    /// `Some(None)` where the instruction yields nothing, `Some(Some(t))` where
    /// it yields a value of type `t`.  An answer shows that the instruction is
    /// typable and what `get_type` returns for it.
    pub fn try_get_type(&self, context: &Context, depth: usize) -> (found: Option<Option<Type>>)
        requires
            context.types_valid(),
        ensures
            found == context.instruction_type_within(*self, depth as nat),
            found is Some ==> context.typable(*self) && context.type_of(*self) == found->0,
    {
        let found = self.type_query(context, Some(depth), Ghost(depth as nat));
        proof {
            if found is Some {
                context.instruction_type_found(*self, depth as nat);
            }
        }
        found
    }

    /// The answer to a type query within `depth`.  With a bound, `depth` is the
    /// bound; without one, the query is known to have an answer within `depth`.
    pub(crate) fn type_query(
        &self,
        context: &Context,
        bound: Option<usize>,
        Ghost(depth): Ghost<nat>,
    ) -> (found: Option<Option<Type>>)
        requires
            context.types_valid(),
            match bound {
                Some(limit) => depth == limit,
                None => context.instruction_type_within(*self, depth) is Some,
            },
        ensures
            found == context.instruction_type_within(*self, depth),
        decreases depth, 1nat,
    {
        match self {
            Instruction::AddrOf(_) => Some(Some(Type::get_uint(context, 64))),
            Instruction::AsmBlock(body, _) => Some(Some(body.return_type)),
            Instruction::BinaryOp { arg1, .. } => arg1.type_query(context, bound, Ghost(depth)),
            Instruction::BitCast(_, ty) => Some(Some(*ty)),
            Instruction::Call(function, _) => match context.function(*function) {
                Some(content) => Some(Some(content.return_type)),
                None => None,
            },
            Instruction::Cmp(..) => Some(Some(Type::get_bool(context))),
            Instruction::ContractCall { return_type, .. } => Some(Some(*return_type)),
            Instruction::GetStorageKey => Some(Some(Type::get_b256(context))),
            Instruction::Gtf { .. } => Some(Some(Type::get_uint(context, 64))),
            Instruction::Load(ptr_val) => match ptr_val.type_query(context, bound, Ghost(depth)) {
                Some(Some(ty)) => Some(Some(ty.strip_ptr_type(context))),
                Some(None) => Some(None),
                None => None,
            },
            Instruction::Log { .. } => Some(Some(Type::get_unit(context))),
            Instruction::ReadRegister(_) => Some(Some(Type::get_uint(context, 64))),
            Instruction::StateLoadWord(_) => Some(Some(Type::get_uint(context, 64))),
            Instruction::GetPointer { ptr_ty, .. } => match ptr_ty.get_type(context) {
                Some(pointee) => {
                    if pointee.pointers < u32::MAX {
                        Some(Some(Type::get_pointer(context, pointee)))
                    } else {
                        None
                    }
                },
                None => None,
            },
            Instruction::GetElmPtr { ptr: _, pointee_ty, indices } => {
                match pointee_ty.get_indexed_type(context, indices.as_slice()) {
                    Some(element) => {
                        if element.pointers < u32::MAX {
                            Some(Some(Type::get_pointer(context, element)))
                        } else {
                            None
                        }
                    },
                    None => None,
                }
            },
            Instruction::IntToPtr(_, ty) => Some(Some(*ty)),
            Instruction::Branch(_) => Some(None),
            Instruction::ConditionalBranch { .. } => Some(None),
            Instruction::Ret(..) => Some(None),
            Instruction::Revert(..) => Some(None),
            Instruction::MemCopy { .. } => Some(Some(Type::get_unit(context))),
            Instruction::StateLoadQuadWord { .. } => Some(Some(Type::get_unit(context))),
            Instruction::StateStoreQuadWord { .. } => Some(Some(Type::get_unit(context))),
            Instruction::StateStoreWord { .. } => Some(Some(Type::get_unit(context))),
            Instruction::Store { .. } => Some(Some(Type::get_unit(context))),
            Instruction::Nop => Some(None),
        }
    }

    /// The array or struct type that the instruction deals with, if there is one.
    pub fn get_aggregate(&self, context: &Context) -> (found: Option<Type>)
        ensures
            found == self.aggregate(context),
    {
        let ty = match self {
            Instruction::Call(func, _args) => match context.function(*func) {
                Some(content) => Some(content.return_type),
                None => None,
            },
            Instruction::GetPointer { ptr_ty, .. } => ptr_ty.get_type(context),
            Instruction::GetElmPtr { .. } => self.gep_indexed_type(context),
            _otherwise => None,
        };
        match ty {
            Some(ty) => {
                if ty.is_array(context) || ty.is_struct(context) {
                    Some(ty)
                } else {
                    None
                }
            },
            None => None,
        }
    }

    /// The type that an element address points to, if the instruction is one
    /// and its indices name an element.
    pub fn gep_indexed_type(&self, context: &Context) -> (found: Option<Type>)
        ensures
            found == self.element_type(context),
    {
        match self {
            Instruction::GetElmPtr { ptr: _, pointee_ty, indices } => pointee_ty.get_indexed_type(
                context,
                indices.as_slice(),
            ),
            _ => None,
        }
    }

    /// The operands that a replacement rewrites: all of them, but for a load,
    /// whose operand stays.
    pub open spec fn rewritten_operands(&self) -> Seq<Value> {
        if self is Load {
            Seq::empty()
        } else {
            self.operands()
        }
    }

    /// `after` is this instruction with the end of its chain in `m` in the
    /// place of every operand that a replacement rewrites, and with everything
    /// else as it was: kind, types, names, lengths, field numbers, storage
    /// locations, registers, and the index values of an element address.
    pub open spec fn rewritten_by(&self, m: Map<Value, Value>, after: Instruction) -> bool {
        match *self {
            Instruction::AddrOf(v) => after == Instruction::AddrOf(resolved(m, v)),
            Instruction::AsmBlock(body, args) => {
                &&& after matches Instruction::AsmBlock(body2, args2)
                &&& body2 == body
                &&& initializers_rewritten(m, args@, args2@)
            },
            Instruction::BinaryOp { op, arg1, arg2 } => after == (Instruction::BinaryOp {
                op,
                arg1: resolved(m, arg1),
                arg2: resolved(m, arg2),
            }),
            Instruction::BitCast(v, ty) => after == Instruction::BitCast(resolved(m, v), ty),
            Instruction::Branch(to) => {
                &&& after matches Instruction::Branch(to2)
                &&& to2.block == to.block
                &&& to2.args@ == to.args@.map_values(|v: Value| resolved(m, v))
            },
            Instruction::Call(function, args) => {
                &&& after matches Instruction::Call(function2, args2)
                &&& function2 == function
                &&& args2@ == args@.map_values(|v: Value| resolved(m, v))
            },
            Instruction::Cmp(pred, lhs, rhs) => after == Instruction::Cmp(
                pred,
                resolved(m, lhs),
                resolved(m, rhs),
            ),
            Instruction::ConditionalBranch { cond_value, true_block, false_block } => {
                &&& after matches Instruction::ConditionalBranch {
                    cond_value: cond2,
                    true_block: true2,
                    false_block: false2,
                }
                &&& cond2 == resolved(m, cond_value)
                &&& true2.block == true_block.block
                &&& true2.args@ == true_block.args@.map_values(|v: Value| resolved(m, v))
                &&& false2.block == false_block.block
                &&& false2.args@ == false_block.args@.map_values(|v: Value| resolved(m, v))
            },
            Instruction::ContractCall { return_type, name, params, coins, asset_id, gas } => after
                == (Instruction::ContractCall {
                return_type,
                name,
                params: resolved(m, params),
                coins: resolved(m, coins),
                asset_id: resolved(m, asset_id),
                gas: resolved(m, gas),
            }),
            Instruction::GetStorageKey => after == *self,
            Instruction::Gtf { index, tx_field_id } => after == (Instruction::Gtf {
                index: resolved(m, index),
                tx_field_id,
            }),
            Instruction::GetPointer { .. } => after == *self,
            Instruction::GetElmPtr { ptr, pointee_ty, indices } => after == (Instruction::GetElmPtr {
                ptr: resolved(m, ptr),
                pointee_ty,
                indices,
            }),
            Instruction::IntToPtr(v, ty) => after == Instruction::IntToPtr(resolved(m, v), ty),
            Instruction::Load(_) => after == *self,
            Instruction::Log { log_val, log_ty, log_id } => after == (Instruction::Log {
                log_val: resolved(m, log_val),
                log_ty,
                log_id: resolved(m, log_id),
            }),
            Instruction::MemCopy { dst_val, src_val, byte_len } => after == (Instruction::MemCopy {
                dst_val: resolved(m, dst_val),
                src_val: resolved(m, src_val),
                byte_len,
            }),
            Instruction::Nop => after == *self,
            Instruction::ReadRegister(_) => after == *self,
            Instruction::Ret(v, ty) => after == Instruction::Ret(resolved(m, v), ty),
            Instruction::Revert(v) => after == Instruction::Revert(resolved(m, v)),
            Instruction::StateLoadQuadWord { load_val, key } => after
                == (Instruction::StateLoadQuadWord {
                load_val: resolved(m, load_val),
                key: resolved(m, key),
            }),
            Instruction::StateLoadWord(key) => after == Instruction::StateLoadWord(resolved(m, key)),
            Instruction::StateStoreQuadWord { stored_val, key } => after
                == (Instruction::StateStoreQuadWord {
                stored_val: resolved(m, stored_val),
                key: resolved(m, key),
            }),
            Instruction::StateStoreWord { stored_val, key } => after
                == (Instruction::StateStoreWord {
                stored_val: resolved(m, stored_val),
                key: resolved(m, key),
            }),
            Instruction::Store { dst_val, stored_val } => after == (Instruction::Store {
                dst_val: resolved(m, dst_val),
                stored_val: resolved(m, stored_val),
            }),
        }
    }

    /// Rewrites the operands by a replacement map: each is replaced by the end
    /// of its chain of replacements.  The operand of a load is left as it is.
    ///
    /// The chains of the operands that are rewritten must end.  Whoever is not
    /// sure that they do calls `try_replace_values`.
    pub fn replace_values(&mut self, replace_map: &FxHashMap<Value, Value>)
        requires
            forall|k: int|
                0 <= k < old(self).rewritten_operands().len() ==> settles(
                    replace_map@,
                    #[trigger] old(self).rewritten_operands()[k],
                ),
        ensures
            old(self).rewritten_by(replace_map@, *final(self)),
    {
        let ghost slots = self.rewritten_operands();
        match self {
            Instruction::AddrOf(arg) => {
                assert(slots[0] == *arg);
                replace_value(arg, replace_map)
            },
            Instruction::AsmBlock(_, args) => {
                proof {
                    assert forall|k: int|
                        0 <= k < args@.len() && (#[trigger] args@[k]).initializer is Some implies settles(
                        replace_map@,
                        args@[k].initializer->0,
                    ) by {
                        initializers_cover(args@, k);
                    }
                }
                replace_initializers(args, replace_map)
            },
            Instruction::BitCast(value, _) => {
                assert(slots[0] == *value);
                replace_value(value, replace_map)
            },
            Instruction::BinaryOp { op: _, arg1, arg2 } => {
                assert(slots[0] == *arg1 && slots[1] == *arg2);
                replace_value(arg1, replace_map);
                replace_value(arg2, replace_map);
            },
            Instruction::Branch(block) => {
                replace_all(&mut block.args, replace_map);
            },
            Instruction::Call(_, args) => replace_all(args, replace_map),
            Instruction::Cmp(_, lhs_val, rhs_val) => {
                assert(slots[0] == *lhs_val && slots[1] == *rhs_val);
                replace_value(lhs_val, replace_map);
                replace_value(rhs_val, replace_map);
            },
            Instruction::ConditionalBranch { cond_value, true_block, false_block } => {
                proof {
                    assert(slots[0] == *cond_value);
                    assert forall|k: int| 0 <= k < true_block.args@.len() implies settles(
                        replace_map@,
                        #[trigger] true_block.args@[k],
                    ) by {
                        assert(slots[k + 1] == true_block.args@[k]);
                    }
                    assert forall|k: int| 0 <= k < false_block.args@.len() implies settles(
                        replace_map@,
                        #[trigger] false_block.args@[k],
                    ) by {
                        assert(slots[k + 1 + true_block.args@.len()] == false_block.args@[k]);
                    }
                }
                replace_value(cond_value, replace_map);
                replace_all(&mut true_block.args, replace_map);
                replace_all(&mut false_block.args, replace_map);
            },
            Instruction::ContractCall { params, coins, asset_id, gas, .. } => {
                assert(slots[0] == *params && slots[1] == *coins && slots[2] == *asset_id && slots[3]
                    == *gas);
                replace_value(params, replace_map);
                replace_value(coins, replace_map);
                replace_value(asset_id, replace_map);
                replace_value(gas, replace_map);
            },
            Instruction::GetPointer { .. } => (),
            Instruction::GetStorageKey => (),
            Instruction::Gtf { index, .. } => {
                assert(slots[0] == *index);
                replace_value(index, replace_map)
            },
            Instruction::IntToPtr(value, _) => {
                assert(slots[0] == *value);
                replace_value(value, replace_map)
            },
            Instruction::Load(_) => (),
            Instruction::Log { log_val, log_id, .. } => {
                assert(slots[0] == *log_val && slots[1] == *log_id);
                replace_value(log_val, replace_map);
                replace_value(log_id, replace_map);
            },
            Instruction::MemCopy { dst_val, src_val, .. } => {
                assert(slots[0] == *dst_val && slots[1] == *src_val);
                replace_value(dst_val, replace_map);
                replace_value(src_val, replace_map);
            },
            Instruction::Nop => (),
            Instruction::ReadRegister { .. } => (),
            Instruction::Ret(ret_val, _) => {
                assert(slots[0] == *ret_val);
                replace_value(ret_val, replace_map)
            },
            Instruction::Revert(revert_val) => {
                assert(slots[0] == *revert_val);
                replace_value(revert_val, replace_map)
            },
            Instruction::StateLoadQuadWord { load_val, key } => {
                assert(slots[0] == *load_val && slots[1] == *key);
                replace_value(load_val, replace_map);
                replace_value(key, replace_map);
            },
            Instruction::StateLoadWord(key) => {
                assert(slots[0] == *key);
                replace_value(key, replace_map);
            },
            Instruction::StateStoreQuadWord { stored_val, key } => {
                assert(slots[0] == *stored_val && slots[1] == *key);
                replace_value(key, replace_map);
                replace_value(stored_val, replace_map);
            },
            Instruction::StateStoreWord { stored_val, key } => {
                assert(slots[0] == *stored_val && slots[1] == *key);
                replace_value(key, replace_map);
                replace_value(stored_val, replace_map);
            },
            Instruction::Store { dst_val, stored_val } => {
                assert(slots[0] == *dst_val && slots[1] == *stored_val);
                replace_value(dst_val, replace_map);
                replace_value(stored_val, replace_map);
            },
            Instruction::GetElmPtr { ptr, pointee_ty: _, indices: _ } => {
                assert(slots[0] == *ptr);
                replace_value(ptr, replace_map);
            },
        }
    }

    /// The chain of every operand that a replacement rewrites ends after at
    /// most `steps` steps.
    pub open spec fn rewrite_ends_within(&self, m: Map<Value, Value>, steps: nat) -> bool {
        forall|k: int|
            0 <= k < self.rewritten_operands().len() ==> ends_within(
                m,
                #[trigger] self.rewritten_operands()[k],
                steps,
            )
    }

    /// Rewrites the operands as `replace_values` does, if the chain of every
    /// operand that is rewritten ends after at most `bound` steps, and says
    /// whether it did.  If one does not, the instruction is left as it is: the
    /// map may run in a circle there.  With the number of entries of the map
    /// for a bound, it does.
    pub fn try_replace_values(&mut self, replace_map: &FxHashMap<Value, Value>, bound: usize) -> (done:
        bool)
        ensures
            done == old(self).rewrite_ends_within(replace_map@, bound as nat),
            done ==> old(self).rewritten_by(replace_map@, *final(self)),
            !done ==> *final(self) == *old(self),
    {
        let is_load = matches!(self, Instruction::Load(_));
        if !is_load {
            let operands = self.get_operands();
            let mut i: usize = 0;
            while i < operands.len()
                invariant
                    i <= operands@.len(),
                    operands@ == self.rewritten_operands(),
                    forall|k: int|
                        0 <= k < i ==> ends_within(replace_map@, #[trigger] operands@[k], bound as nat),
                decreases operands@.len() - i,
            {
                if try_resolve(replace_map, operands[i], bound).is_none() {
                    return false;
                }
                i += 1;
            }
        }
        self.replace_values(replace_map);
        true
    }

    /// The values that the instruction reads, in order.
    pub fn get_operands(&self) -> (operands: Vec<Value>)
        ensures
            operands@ == self.operands(),
    {
        match self {
            Instruction::AddrOf(v) => vec![*v],
            Instruction::AsmBlock(_, args) => {
                let mut found: Vec<Value> = Vec::new();
                let mut i: usize = 0;
                while i < args.len()
                    invariant
                        i <= args@.len(),
                        found@ == initializers(args@.take(i as int)),
                    decreases args@.len() - i,
                {
                    proof {
                        assert(args@.take(i + 1).drop_last() =~= args@.take(i as int));
                    }
                    match args[i].initializer {
                        Some(v) => {
                            found.push(v);
                        },
                        None => {},
                    }
                    i += 1;
                }
                proof {
                    assert(args@.take(i as int) =~= args@);
                }
                found
            },
            Instruction::BitCast(v, _) => vec![*v],
            Instruction::BinaryOp { op: _, arg1, arg2 } => vec![*arg1, *arg2],
            Instruction::Branch(to) => copy_values(&to.args),
            Instruction::Call(_, args) => copy_values(args),
            Instruction::Cmp(_, lhs, rhs) => vec![*lhs, *rhs],
            Instruction::ConditionalBranch { cond_value, true_block, false_block } => {
                let mut v = vec![*cond_value];
                append_values(&mut v, &true_block.args);
                append_values(&mut v, &false_block.args);
                v
            },
            Instruction::MemCopy { dst_val, src_val, byte_len: _ } => vec![*dst_val, *src_val],
            Instruction::ContractCall {
                return_type: _,
                name: _,
                params,
                coins,
                asset_id,
                gas,
            } => vec![*params, *coins, *asset_id, *gas],
            Instruction::GetStorageKey => Vec::new(),
            Instruction::Gtf { index, tx_field_id: _ } => vec![*index],
            Instruction::GetPointer { base_ptr: _, ptr_ty: _, offset: _ } => Vec::new(),
            Instruction::IntToPtr(v, _) => vec![*v],
            Instruction::Load(v) => vec![*v],
            Instruction::Log { log_val, log_id, .. } => vec![*log_val, *log_id],
            Instruction::Nop => Vec::new(),
            Instruction::ReadRegister(_) => Vec::new(),
            Instruction::Ret(v, _) => vec![*v],
            Instruction::Revert(v) => vec![*v],
            Instruction::StateLoadQuadWord { load_val, key } => vec![*load_val, *key],
            Instruction::StateLoadWord(key) => vec![*key],
            Instruction::StateStoreQuadWord { stored_val, key } => vec![*stored_val, *key],
            Instruction::StateStoreWord { stored_val, key } => vec![*stored_val, *key],
            Instruction::Store { dst_val, stored_val } => vec![*dst_val, *stored_val],
            Instruction::GetElmPtr { ptr, pointee_ty: _, indices: _ } => vec![*ptr],
        }
    }

    /// Whether the instruction may change something besides the value it yields.
    pub fn may_have_side_effect(&self) -> (may: bool)
        ensures
            may == self.has_side_effect(),
    {
        match self {
            Instruction::AsmBlock(_, _)
            | Instruction::Call(..)
            | Instruction::ContractCall { .. }
            | Instruction::Log { .. }
            | Instruction::MemCopy { .. }
            | Instruction::StateLoadQuadWord { .. }
            | Instruction::StateStoreQuadWord { .. }
            | Instruction::StateStoreWord { .. }
            | Instruction::Store { .. } => true,
            Instruction::AddrOf(_)
            | Instruction::BitCast(..)
            | Instruction::BinaryOp { .. }
            | Instruction::Cmp(..)
            | Instruction::GetElmPtr { .. }
            | Instruction::GetStorageKey
            | Instruction::Gtf { .. }
            | Instruction::Load(_)
            | Instruction::ReadRegister(_)
            | Instruction::StateLoadWord(_)
            | Instruction::GetPointer { .. }
            | Instruction::IntToPtr(..)
            | Instruction::Branch(_)
            | Instruction::ConditionalBranch { .. }
            | Instruction::Ret(..)
            | Instruction::Revert(..)
            | Instruction::Nop => false,
        }
    }

    /// Whether the instruction ends its block.
    pub fn is_terminator(&self) -> (is: bool)
        ensures
            is == self.ends_block(),
    {
        matches!(
            self,
            Instruction::Branch(_) | Instruction::ConditionalBranch { .. } | Instruction::Ret(..)
                | Instruction::Revert(..)
        )
    }
}

/// The initial values of rewritten registers are the rewritten initial values.
pub proof fn initializers_of_rewritten(
    m: Map<Value, Value>,
    before: Seq<AsmArg>,
    after: Seq<AsmArg>,
)
    requires
        initializers_rewritten(m, before, after),
    ensures
        initializers(after) == initializers(before).map_values(|v: Value| resolved(m, v)),
    decreases before.len(),
{
    let r = |v: Value| resolved(m, v);
    if before.len() == 0 {
        assert(initializers(after) =~= initializers(before).map_values(r));
    } else {
        let b = before.drop_last();
        let a = after.drop_last();
        assert(initializers_rewritten(m, b, a)) by {
            assert forall|k: int| 0 <= k < b.len() implies (#[trigger] a[k]).name == b[k].name
                && a[k].initializer == match b[k].initializer {
                Some(v) => Some(resolved(m, v)),
                None => None,
            } by {
                assert(a[k] == after[k]);
                assert(b[k] == before[k]);
            }
        }
        initializers_of_rewritten(m, b, a);
        assert(after.last() == after[after.len() - 1]);
        assert(before.last() == before[before.len() - 1]);
        match before.last().initializer {
            Some(v) => {
                assert(initializers(after) =~= initializers(before).map_values(r));
            },
            None => {},
        }
    }
}

impl Instruction {
    /// The two instructions are of one kind and agree in every field.  Lists of
    /// values and of registers and the name of a callee are compared by what
    /// they hold; an assembly block is compared as a whole.
    pub open spec fn agrees_with(&self, other: Instruction) -> bool {
        match *self {
            Instruction::AsmBlock(body, args) => {
                &&& other matches Instruction::AsmBlock(body2, args2)
                &&& body2 == body
                &&& registers_agree(args@, args2@)
            },
            Instruction::Branch(to) => {
                &&& other matches Instruction::Branch(to2)
                &&& to2.block == to.block
                &&& to2.args@ == to.args@
            },
            Instruction::Call(function, args) => {
                &&& other matches Instruction::Call(function2, args2)
                &&& function2 == function
                &&& args2@ == args@
            },
            Instruction::ConditionalBranch { cond_value, true_block, false_block } => {
                &&& other matches Instruction::ConditionalBranch {
                    cond_value: cond2,
                    true_block: true2,
                    false_block: false2,
                }
                &&& cond2 == cond_value
                &&& true2.block == true_block.block
                &&& true2.args@ == true_block.args@
                &&& false2.block == false_block.block
                &&& false2.args@ == false_block.args@
            },
            Instruction::ContractCall { return_type, name, params, coins, asset_id, gas } => {
                &&& other matches Instruction::ContractCall {
                    return_type: return_type2,
                    name: name2,
                    params: params2,
                    coins: coins2,
                    asset_id: asset_id2,
                    gas: gas2,
                }
                &&& return_type2 == return_type
                &&& name2@ == name@
                &&& params2 == params
                &&& coins2 == coins
                &&& asset_id2 == asset_id
                &&& gas2 == gas
            },
            Instruction::GetElmPtr { ptr, pointee_ty, indices } => {
                &&& other matches Instruction::GetElmPtr {
                    ptr: ptr2,
                    pointee_ty: pointee_ty2,
                    indices: indices2,
                }
                &&& ptr2 == ptr
                &&& pointee_ty2 == pointee_ty
                &&& indices2@ == indices@
            },
            _ => other == *self,
        }
    }

    /// What a rewritten instruction reads: the ends of the chains of what it
    /// read before, but for a load, which reads what it read.
    pub proof fn rewritten_reads_resolved(self, m: Map<Value, Value>, after: Instruction)
        requires
            self.rewritten_by(m, after),
        ensures
            self is Load ==> after.operands() == self.operands(),
            !(self is Load) ==> after.operands() == self.operands().map_values(
                |v: Value| resolved(m, v),
            ),
    {
        let r = |v: Value| resolved(m, v);
        match self {
            Instruction::AsmBlock(_, args) => {
                initializers_of_rewritten(m, args@, after->AsmBlock_1@);
            },
            Instruction::ConditionalBranch { cond_value, true_block, false_block } => {
                assert(after.operands() =~= self.operands().map_values(r));
            },
            Instruction::Load(_) => {},
            _ => {
                assert(after.operands() =~= self.operands().map_values(r));
            },
        }
    }

    /// After a rewrite no operand is one that the map replaces, but for the
    /// operand of a load.
    pub proof fn rewritten_reads_no_key(self, m: Map<Value, Value>, after: Instruction, k: int)
        requires
            self.rewritten_by(m, after),
            forall|j: int|
                0 <= j < self.rewritten_operands().len() ==> settles(
                    m,
                    #[trigger] self.rewritten_operands()[j],
                ),
            !(self is Load),
            0 <= k < after.operands().len(),
        ensures
            !m.contains_key(after.operands()[k]),
    {
        self.rewritten_reads_resolved(m, after);
        let before = self.operands()[k];
        assert(self.rewritten_operands()[k] == before);
        resolved_unfolds(m, before);
    }

    /// After `a` was replaced by another value `b`, no operand is `a`, but for
    /// the operand of a load.
    pub proof fn replaced_value_is_gone(self, a: Value, b: Value, after: Instruction, k: int)
        requires
            a != b,
            self.rewritten_by(map![a => b], after),
            !(self is Load),
            0 <= k < after.operands().len(),
        ensures
            after.operands()[k] != a,
    {
        single_entry_is_acyclic(a, b);
        self.rewritten_reads_no_key(map![a => b], after, k);
    }

    /// A rewrite by a map without entries changes nothing.
    pub proof fn empty_map_changes_nothing(self, m: Map<Value, Value>, after: Instruction)
        requires
            forall|v: Value| !m.contains_key(v),
            self.rewritten_by(m, after),
        ensures
            self.agrees_with(after),
            after.operands() == self.operands(),
    {
        self.rewritten_reads_resolved(m, after);
        assert forall|v: Value| #[trigger] resolved(m, v) == v by {
            empty_map_replaces_nothing(m, v);
        }
        if !(self is Load) {
            assert(self.operands().map_values(|v: Value| resolved(m, v)) =~= self.operands());
        }
        match self {
            Instruction::Branch(to) => {
                assert(to.args@.map_values(|v: Value| resolved(m, v)) =~= to.args@);
            },
            Instruction::Call(_, args) => {
                assert(args@.map_values(|v: Value| resolved(m, v)) =~= args@);
            },
            Instruction::ConditionalBranch { cond_value: _, true_block, false_block } => {
                assert(true_block.args@.map_values(|v: Value| resolved(m, v)) =~= true_block.args@);
                assert(false_block.args@.map_values(|v: Value| resolved(m, v))
                    =~= false_block.args@);
            },
            _ => {},
        }
    }

    /// Replacing `a` by another value `b` a second time changes nothing.
    pub proof fn replacing_one_value_twice(
        self,
        a: Value,
        b: Value,
        once: Instruction,
        twice: Instruction,
    )
        requires
            a != b,
            self.rewritten_by(map![a => b], once),
            once.rewritten_by(map![a => b], twice),
        ensures
            self.rewritten_by(map![a => b], twice),
            once.agrees_with(twice),
    {
        single_entry_is_acyclic(a, b);
        self.rewriting_twice_is_rewriting_once(map![a => b], once, twice);
    }

    /// A second rewrite by the same map changes nothing: what it yields agrees
    /// with what the first yielded, and is a rewrite of what was there at first.
    pub proof fn rewriting_twice_is_rewriting_once(
        self,
        m: Map<Value, Value>,
        once: Instruction,
        twice: Instruction,
    )
        requires
            forall|j: int|
                0 <= j < self.rewritten_operands().len() ==> settles(
                    m,
                    #[trigger] self.rewritten_operands()[j],
                ),
            self.rewritten_by(m, once),
            once.rewritten_by(m, twice),
        ensures
            forall|j: int|
                0 <= j < once.rewritten_operands().len() ==> settles(
                    m,
                    #[trigger] once.rewritten_operands()[j],
                ),
            self.rewritten_by(m, twice),
            once.agrees_with(twice),
    {
        let r = |v: Value| resolved(m, v);
        self.rewritten_reads_resolved(m, once);
        assert forall|j: int| 0 <= j < self.rewritten_operands().len() implies resolved(
            m,
            resolved(m, #[trigger] self.rewritten_operands()[j]),
        ) == resolved(m, self.rewritten_operands()[j]) && settles(
            m,
            resolved(m, self.rewritten_operands()[j]),
        ) by {
            resolved_unfolds(m, self.rewritten_operands()[j]);
        }
        match self {
            Instruction::AsmBlock(_, args) => {
                let regs_once = once->AsmBlock_1@;
                let regs_twice = twice->AsmBlock_1@;
                assert forall|k: int| 0 <= k < args@.len() && (#[trigger] args@[k]).initializer is Some implies resolved(
                    m,
                    resolved(m, args@[k].initializer->0),
                ) == resolved(m, args@[k].initializer->0) by {
                    initializers_cover(args@, k);
                    let v = args@[k].initializer->0;
                    let at = choose|j: int|
                        0 <= j < initializers(args@).len() && initializers(args@)[j] == v;
                    assert(self.rewritten_operands()[at] == v);
                }
                assert(initializers_rewritten(m, args@, regs_twice)) by {
                    assert forall|k: int| 0 <= k < args@.len() implies (#[trigger] regs_twice[k]).name
                        == args@[k].name && regs_twice[k].initializer == match args@[k].initializer {
                        Some(v) => Some(resolved(m, v)),
                        None => None,
                    } by {
                        assert(regs_once[k].name == args@[k].name);
                    }
                }
                assert(registers_agree(regs_once, regs_twice)) by {
                    assert forall|k: int| 0 <= k < regs_once.len() implies (#[trigger] regs_twice[k]).name
                        == regs_once[k].name && regs_twice[k].initializer == regs_once[k].initializer by {
                        assert(regs_once[k].name == args@[k].name);
                    }
                }
            },
            Instruction::Branch(to) => {
                let first = once->Branch_0.args@;
                let second = twice->Branch_0.args@;
                assert forall|k: int| 0 <= k < to.args@.len() implies #[trigger] second[k] == first[k] by {
                    assert(self.rewritten_operands()[k] == to.args@[k]);
                }
                assert(second =~= to.args@.map_values(r));
                assert(second =~= first);
            },
            Instruction::Call(_, args) => {
                let first = once->Call_1@;
                let second = twice->Call_1@;
                assert forall|k: int| 0 <= k < args@.len() implies #[trigger] second[k] == first[k] by {
                    assert(self.rewritten_operands()[k] == args@[k]);
                }
                assert(second =~= args@.map_values(r));
                assert(second =~= first);
            },
            Instruction::ConditionalBranch { cond_value, true_block, false_block } => {
                let true_once = once->ConditionalBranch_true_block.args@;
                let true_twice = twice->ConditionalBranch_true_block.args@;
                let false_once = once->ConditionalBranch_false_block.args@;
                let false_twice = twice->ConditionalBranch_false_block.args@;
                assert(self.rewritten_operands()[0] == cond_value);
                assert forall|k: int| 0 <= k < true_block.args@.len() implies #[trigger] true_twice[k]
                    == true_once[k] by {
                    assert(self.rewritten_operands()[k + 1] == true_block.args@[k]);
                }
                assert forall|k: int| 0 <= k < false_block.args@.len() implies #[trigger] false_twice[k]
                    == false_once[k] by {
                    assert(self.rewritten_operands()[k + 1 + true_block.args@.len()]
                        == false_block.args@[k]);
                }
                assert(true_twice =~= true_block.args@.map_values(r));
                assert(true_twice =~= true_once);
                assert(false_twice =~= false_block.args@.map_values(r));
                assert(false_twice =~= false_once);
            },
            Instruction::Load(_) => {},
            Instruction::GetStorageKey => {},
            Instruction::GetPointer { .. } => {},
            Instruction::Nop => {},
            Instruction::ReadRegister(_) => {},
            Instruction::ContractCall { .. } => {
                assert(self.rewritten_operands()[0] == self.operands()[0]);
                assert(self.rewritten_operands()[1] == self.operands()[1]);
                assert(self.rewritten_operands()[2] == self.operands()[2]);
                assert(self.rewritten_operands()[3] == self.operands()[3]);
            },
            Instruction::AddrOf(_)
            | Instruction::BitCast(..)
            | Instruction::Gtf { .. }
            | Instruction::GetElmPtr { .. }
            | Instruction::IntToPtr(..)
            | Instruction::Ret(..)
            | Instruction::Revert(_)
            | Instruction::StateLoadWord(_) => {
                assert(self.rewritten_operands()[0] == self.operands()[0]);
            },
            _ => {
                assert(self.rewritten_operands()[0] == self.operands()[0]);
                assert(self.rewritten_operands()[1] == self.operands()[1]);
            },
        }
        assert forall|j: int| 0 <= j < once.rewritten_operands().len() implies settles(
            m,
            #[trigger] once.rewritten_operands()[j],
        ) by {
            assert(once.rewritten_operands()[j] == resolved(m, self.rewritten_operands()[j]));
        }
    }
}

} // verus!
