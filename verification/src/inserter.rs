//! Appending instructions to a block.

use vstd::prelude::*;
use vstd::slice::slice_to_vec;
use crate::arena::get_block_mut;
use crate::arena::pointer_entries;
use crate::arena::pointer_pool_ready;
use crate::arena::value_entries;
use crate::arena::value_pool_ready;
use crate::assembly::AsmArg;
use crate::assembly::AsmBlock;
use crate::assembly::AsmInstruction;
use crate::assembly::Ident;
use crate::block::with_pred;
use crate::block::with_pred_is_idempotent;
use crate::block::Block;
use crate::constant::Constant;
use crate::context::pointer_name;
use crate::context::Context;
use crate::function::Function;
use crate::instruction::BinaryOpKind;
use crate::instruction::BranchToWithArgs;
use crate::instruction::Instruction;
use crate::instruction::Predicate;
use crate::instruction::Register;
use crate::irtype::Type;
use crate::irtype::TypeContentView;
use crate::pointer::Pointer;
use crate::pointer::PointerContent;
use crate::value::Value;
use crate::value::ValueContent;
use crate::value::ValueDatum;

verus! {

/// The names of a list of registers, in order.
pub open spec fn register_names(args: Seq<AsmArg>) -> Seq<Ident> {
    args.map_values(|arg: AsmArg| arg.name)
}

impl Context {
    /// This context is `old` with one more value, `v`, which `instruction`
    /// yields, at the end of `block`.  No other value or block, no function and
    /// no type differs.
    pub open spec fn inserted(
        &self,
        old: &Context,
        block: Block,
        v: Value,
        instruction: Instruction,
    ) -> bool {
        &&& !old.has_value(v)
        &&& value_entries(self.values) == value_entries(old.values).insert(
            v.0,
            ValueContent { value: ValueDatum::Instruction(instruction) },
        )
        &&& self.only_block_changed(old, block)
        &&& self.block_is(
            old,
            block,
            old.params_of(block),
            old.instructions_of(block).push(v),
            old.preds_of(block),
        )
        &&& self.functions == old.functions
        &&& self.types == old.types
        &&& self.type_list == old.type_list
        &&& self.keeps_ready(old)
    }

    /// This context is `old` with `instruction` appended to `block`, where it
    /// yields the new value `v`.  Nothing else differs.
    pub open spec fn appended(
        &self,
        old: &Context,
        block: Block,
        v: Value,
        instruction: Instruction,
    ) -> bool {
        self.inserted(old, block, v, instruction) && self.pointers == old.pointers
    }

    /// This context is `old` with the jump `instruction` appended to `from`,
    /// where it yields the new value `v`, and with `from` among the
    /// predecessors of each block in `targets`.  Every block has the label,
    /// owner and parameters it had, and nothing else differs.
    pub open spec fn branched(
        &self,
        old: &Context,
        from: Block,
        v: Value,
        instruction: Instruction,
        targets: Set<Block>,
    ) -> bool {
        &&& !old.has_value(v)
        &&& value_entries(self.values) == value_entries(old.values).insert(
            v.0,
            ValueContent { value: ValueDatum::Instruction(instruction) },
        )
        &&& forall|b: Block| #[trigger] self.has_block(b) == old.has_block(b)
        &&& forall|b: Block|
            #![trigger old.has_block(b)]
            #![trigger self.block_content(b)]
            old.has_block(b) ==> self.block_is(
                old,
                b,
                old.params_of(b),
                if b == from {
                    old.instructions_of(b).push(v)
                } else {
                    old.instructions_of(b)
                },
                if targets.contains(b) {
                    with_pred(old.preds_of(b), from)
                } else {
                    old.preds_of(b)
                },
            )
        &&& self.functions == old.functions
        &&& self.types == old.types
        &&& self.pointers == old.pointers
        &&& self.type_list == old.type_list
        &&& self.keeps_ready(old)
    }

    /// The values of `old` are values of this context, unchanged; the others
    /// are `added`; and `constants`, which are among them, stand for the given
    /// numbers in order, each a 64-bit unsigned constant.
    pub open spec fn adds_index_constants(
        &self,
        old: &Context,
        added: Seq<Value>,
        constants: Seq<Value>,
        numbers: Seq<u64>,
    ) -> bool {
        &&& constants.len() == numbers.len()
        &&& added.no_duplicates()
        &&& forall|u: Value| #[trigger]
            self.has_value(u) <==> old.has_value(u) || added.contains(u)
        &&& forall|u: Value| #[trigger]
            old.has_value(u) ==> self.value_content(u) == old.value_content(u)
        &&& forall|k: int| 0 <= k < added.len() ==> !old.has_value(#[trigger] added[k])
        &&& forall|k: int|
            0 <= k < constants.len() ==> self.constant_index(#[trigger] constants[k]) == Some(
                numbers[k],
            ) && self.constant_of(constants[k]).unwrap().ty == old.type_for(TypeContentView::Uint(64))
    }

    /// This context is `old` with new constants for the given numbers, each
    /// a 64-bit unsigned integer, and with one more instruction at the end of
    /// `block`, which yields the new value `v`.  Nothing else differs.
    pub open spec fn appended_with_constants(
        &self,
        old: &Context,
        block: Block,
        v: Value,
        constants: Seq<Value>,
        numbers: Seq<u64>,
    ) -> bool {
        &&& self.adds_index_constants(old, constants.push(v), constants, numbers)
        &&& self.datum(v) is Instruction
        &&& self.only_block_changed(old, block)
        &&& self.block_is(
            old,
            block,
            old.params_of(block),
            old.instructions_of(block).push(v),
            old.preds_of(block),
        )
        &&& self.functions == old.functions
        &&& self.types == old.types
        &&& self.pointers == old.pointers
        &&& self.type_list == old.type_list
        &&& self.keeps_ready(old)
    }
}

/// A place to append instructions: a block of a context.
///
/// Every method that appends asks that the context has the block and that its
/// pool of values is ready, as it is in every context that only this library
/// has changed.
pub struct InstructionInserter<'a> {
    pub context: &'a mut Context,
    pub block: Block,
}

impl<'a> InstructionInserter<'a> {
    /// A place to append instructions to `block`.
    pub fn new(context: &'a mut Context, block: Block) -> (inserter: InstructionInserter<'a>)
        ensures
            inserter.block == block,
            *inserter.context == *old(context),
            *final(inserter.context) == *final(context),
    {
        InstructionInserter { context, block }
    }

    /// Makes a value of the instruction and puts it at the end of the block.
    fn append(self, instruction: Instruction) -> (v: Value)
        requires
            old(self.context).has_block(self.block),
            value_pool_ready(old(self.context).values),
        ensures
            final(self.context).appended(
                old(self.context),
                self.block,
                v,
                instruction,
            ),
    {
        let v = Value::new_instruction(self.context, instruction);
        let content = get_block_mut(&mut self.context.blocks, self.block.0);
        content.instructions.push(v);
        v
    }

    /// Appends an assembly block made of registers and lines.  The block lists
    /// the registers by name, in the order of `args`.
    pub fn asm_block(
        self,
        args: Vec<AsmArg>,
        body: Vec<AsmInstruction>,
        return_type: Type,
        return_name: Option<Ident>,
    ) -> (v: Value)
        requires
            old(self.context).has_block(self.block),
            value_pool_ready(old(self.context).values),
        ensures
            final(self.context).appended(
                old(self.context),
                self.block,
                v,
                final(self.context).instruction_of(v).unwrap(),
            ),
            final(self.context).instruction_of(v).unwrap() matches Instruction::AsmBlock(made, regs)
                && regs == args && made.body == body && made.return_type == return_type
                && made.return_name == return_name && made.args_names@ == register_names(args@),
    {
        let mut names: Vec<Ident> = Vec::new();
        let mut i: usize = 0;
        while i < args.len()
            invariant
                i <= args@.len(),
                names@ == register_names(args@.take(i as int)),
            decreases args@.len() - i,
        {
            names.push(Ident { name: args[i].name.name.clone() });
            proof {
                assert(names@ =~= register_names(args@.take(i + 1)));
            }
            i += 1;
        }
        proof {
            assert(args@.take(i as int) =~= args@);
        }
        let made = AsmBlock::new(names, body, return_type, return_name);
        self.asm_block_from_asm(made, args)
    }

    /// Appends an assembly block with its registers.
    pub fn asm_block_from_asm(self, asm_block: AsmBlock, args: Vec<AsmArg>) -> (v: Value)
        requires
            old(self.context).has_block(self.block),
            value_pool_ready(old(self.context).values),
        ensures
            final(self.context).appended(
                old(self.context),
                self.block,
                v,
                Instruction::AsmBlock(asm_block, args),
            ),
    {
        self.append(Instruction::AsmBlock(asm_block, args))
    }

    /// Appends the taking of the address of a value.
    pub fn addr_of(self, value: Value) -> (v: Value)
        requires
            old(self.context).has_block(self.block),
            value_pool_ready(old(self.context).values),
        ensures
            final(self.context).appended(
                old(self.context),
                self.block,
                v,
                Instruction::AddrOf(value),
            ),
    {
        self.append(Instruction::AddrOf(value))
    }

    /// Appends a reinterpretation of a value in another type.
    pub fn bitcast(self, value: Value, ty: Type) -> (v: Value)
        requires
            old(self.context).has_block(self.block),
            value_pool_ready(old(self.context).values),
        ensures
            final(self.context).appended(
                old(self.context),
                self.block,
                v,
                Instruction::BitCast(value, ty),
            ),
    {
        self.append(Instruction::BitCast(value, ty))
    }

    /// Appends a binary arithmetic operation.
    pub fn binary_op(self, op: BinaryOpKind, arg1: Value, arg2: Value) -> (v: Value)
        requires
            old(self.context).has_block(self.block),
            value_pool_ready(old(self.context).values),
        ensures
            final(self.context).appended(
                old(self.context),
                self.block,
                v,
                (Instruction::BinaryOp { op, arg1, arg2 }),
            ),
    {
        self.append(Instruction::BinaryOp { op, arg1, arg2 })
    }

    /// Appends a reinterpretation of an integer in a pointer type.
    pub fn int_to_ptr(self, value: Value, ty: Type) -> (v: Value)
        requires
            old(self.context).has_block(self.block),
            value_pool_ready(old(self.context).values),
        ensures
            final(self.context).appended(
                old(self.context),
                self.block,
                v,
                Instruction::IntToPtr(value, ty),
            ),
    {
        self.append(Instruction::IntToPtr(value, ty))
    }

    /// Appends a jump to `to_block` that hands `dest_params` to its formal
    /// parameters, and records this block among the predecessors of `to_block`.
    pub fn branch(self, to_block: Block, dest_params: Vec<Value>) -> (v: Value)
        requires
            old(self.context).has_block(self.block),
            value_pool_ready(old(self.context).values),
            old(self.context).has_block(to_block),
        ensures
            final(self.context).branched(
                old(self.context),
                self.block,
                v,
                Instruction::Branch(BranchToWithArgs { block: to_block, args: dest_params }),
                set![to_block],
            ),
    {
        let br_val = Value::new_instruction(
            self.context,
            Instruction::Branch(BranchToWithArgs { block: to_block, args: dest_params }),
        );
        to_block.add_pred(self.context, &self.block);
        let content = get_block_mut(&mut self.context.blocks, self.block.0);
        content.instructions.push(br_val);
        br_val
    }

    /// Appends a call of `function` with a copy of `args`.
    pub fn call(self, function: Function, args: &[Value]) -> (v: Value)
        requires
            old(self.context).has_block(self.block),
            value_pool_ready(old(self.context).values),
        ensures
            final(self.context).appended(
                old(self.context),
                self.block,
                v,
                final(self.context).instruction_of(v).unwrap(),
            ),
            final(self.context).instruction_of(v).unwrap() matches Instruction::Call(callee, passed)
                && callee == function && passed@ == args@,
    {
        self.append(Instruction::Call(function, slice_to_vec(args)))
    }

    /// Appends a comparison of two values.
    pub fn cmp(self, pred: Predicate, lhs_value: Value, rhs_value: Value) -> (v: Value)
        requires
            old(self.context).has_block(self.block),
            value_pool_ready(old(self.context).values),
        ensures
            final(self.context).appended(
                old(self.context),
                self.block,
                v,
                Instruction::Cmp(pred, lhs_value, rhs_value),
            ),
    {
        self.append(Instruction::Cmp(pred, lhs_value, rhs_value))
    }

    /// Appends a jump to `true_block` or to `false_block`, chosen by
    /// `cond_value`, with what is handed to the formal parameters of each, and
    /// records this block among the predecessors of both.
    pub fn conditional_branch(
        self,
        cond_value: Value,
        true_block: Block,
        false_block: Block,
        true_dest_params: Vec<Value>,
        false_dest_params: Vec<Value>,
    ) -> (v: Value)
        requires
            old(self.context).has_block(self.block),
            value_pool_ready(old(self.context).values),
            old(self.context).has_block(true_block),
            old(self.context).has_block(false_block),
        ensures
            final(self.context).branched(
                old(self.context),
                self.block,
                v,
                Instruction::ConditionalBranch {
                    cond_value,
                    true_block: BranchToWithArgs { block: true_block, args: true_dest_params },
                    false_block: BranchToWithArgs { block: false_block, args: false_dest_params },
                },
                set![true_block, false_block],
            ),
    {
        let cbr_val = Value::new_instruction(
            self.context,
            Instruction::ConditionalBranch {
                cond_value,
                true_block: BranchToWithArgs { block: true_block, args: true_dest_params },
                false_block: BranchToWithArgs { block: false_block, args: false_dest_params },
            },
        );
        true_block.add_pred(self.context, &self.block);
        false_block.add_pred(self.context, &self.block);
        proof {
            with_pred_is_idempotent(old(self.context).preds_of(true_block), self.block);
        }
        let content = get_block_mut(&mut self.context.blocks, self.block.0);
        content.instructions.push(cbr_val);
        cbr_val
    }

    /// Appends a call into another contract: `coins` is the amount to forward, `asset_id`
    /// the asset that is forwarded, `gas` the gas to forward.
    pub fn contract_call(
        self,
        return_type: Type,
        name: String,
        params: Value,
        coins: Value,
        asset_id: Value,
        gas: Value,
    ) -> (v: Value)
        requires
            old(self.context).has_block(self.block),
            value_pool_ready(old(self.context).values),
        ensures
            final(self.context).appended(
                old(self.context),
                self.block,
                v,
                (Instruction::ContractCall { return_type, name, params, coins, asset_id, gas }),
            ),
    {
        self.append(Instruction::ContractCall { return_type, name, params, coins, asset_id, gas })
    }

    /// Appends the taking of the address of an element of an aggregate, the
    /// element being given by numbers.  For each number a new 64-bit unsigned
    /// constant is made, and these are the indices of the instruction.  Where
    /// the numbers name an element, what is appended has a type at once: the
    /// plain pointer to the type of the element.
    pub fn get_elm_ptr_from_int_idx(
        self,
        ptr: Value,
        pointee_ty: Type,
        indices: Vec<u64>,
    ) -> (v: Value)
        requires
            old(self.context).has_block(self.block),
            value_pool_ready(old(self.context).values),
            old(self.context).types_valid(),
        ensures
            final(self.context).instruction_of(v).unwrap() matches Instruction::GetElmPtr {
                ptr: base,
                pointee_ty: ty,
                indices: made,
            } && base == ptr && ty == pointee_ty && final(self.context).appended_with_constants(
                old(self.context),
                self.block,
                v,
                made@,
                indices@,
            ),
            old(self.context).numbered_type(pointee_ty, indices@) matches Some(element) ==> element.pointers
                < u32::MAX ==> final(self.context).typable(
                final(self.context).instruction_of(v).unwrap(),
            ) && final(self.context).type_of(final(self.context).instruction_of(v).unwrap())
                == Some(pointer_name(element)),
    {
        let ghost start = *self.context;
        let ghost block = self.block;
        let ghost end = *final(self.context);
        let mut made: Vec<Value> = Vec::new();
        let mut i: usize = 0;
        while i < indices.len()
            invariant
                self.block == block,
                *final(self.context) == end,
                i <= indices@.len(),
                self.context.adds_index_constants(&start, made@, made@, indices@.take(i as int)),
                self.context.functions == start.functions,
                self.context.blocks == start.blocks,
                self.context.types == start.types,
                self.context.pointers == start.pointers,
                self.context.type_list == start.type_list,
                start.types_valid(),
                start.has_block(self.block),
                value_pool_ready(self.context.values),
                self.context.keeps_ready(&start),
            decreases indices@.len() - i,
        {
            let ghost before = *self.context;
            let ghost was = made@;
            let constant = Constant::new_uint(self.context, 64, indices[i]);
            let made_value = Value::new_constant(self.context, constant);
            made.push(made_value);
            proof {
                let now = made@;
                assert(indices@.take(i + 1) =~= indices@.take(i as int).push(indices@[i as int]));
                assert(!was.contains(made_value)) by {
                    if was.contains(made_value) {
                        let k = choose|k: int| 0 <= k < was.len() && was[k] == made_value;
                        assert(before.has_value(was[k]));
                    }
                }
                assert forall|u: Value| #[trigger]
                    self.context.has_value(u) <==> start.has_value(u) || now.contains(u) by {
                    assert(before.has_value(u) <==> start.has_value(u) || was.contains(u));
                    if was.contains(u) {
                        let k = choose|k: int| 0 <= k < was.len() && was[k] == u;
                        assert(now[k] == u);
                    }
                    if u == made_value {
                        assert(now[was.len() as int] == made_value);
                    }
                }
                assert forall|k: int| 0 <= k < now.len() implies self.context.constant_index(
                    #[trigger] now[k],
                ) == Some(indices@.take(i + 1)[k]) && self.context.constant_of(now[k]).unwrap().ty
                    == start.type_for(TypeContentView::Uint(64)) by {
                    if k < was.len() {
                        assert(now[k] == was[k]);
                        assert(before.has_value(was[k]));
                        assert(before.constant_index(was[k]) == Some(indices@.take(i as int)[k]));
                    }
                }
            }
            i += 1;
        }
        proof {
            assert(indices@.take(i as int) =~= indices@);
        }
        let ghost middle = *self.context;
        let ghost instruction = Instruction::GetElmPtr { ptr, pointee_ty, indices: made };
        let ghost made_values = made@;
        let v = self.get_elm_ptr(ptr, pointee_ty, made);
        proof {
            let made = made_values;
            let after = *final(self.context);
            let all = made.push(v);
            assert(after.appended(&middle, block, v, instruction));
            assert(after.has_value(v));
            assert(after.datum(v) == ValueDatum::Instruction(instruction));
            assert(after.instruction_of(v) == Some(instruction));
            assert(!made.contains(v)) by {
                if made.contains(v) {
                    let k = choose|k: int| 0 <= k < made.len() && made[k] == v;
                    assert(middle.has_value(made[k]));
                }
            }
            assert forall|u: Value| #[trigger]
                after.has_value(u) <==> start.has_value(u) || all.contains(u) by {
                assert(middle.has_value(u) <==> start.has_value(u) || made.contains(u));
                if made.contains(u) {
                    let k = choose|k: int| 0 <= k < made.len() && made[k] == u;
                    assert(all[k] == u);
                }
                if u == v {
                    assert(all[made.len() as int] == v);
                }
            }
            assert forall|k: int| 0 <= k < made.len() implies after.constant_index(
                #[trigger] made[k],
            ) == Some(indices@[k]) && after.constant_of(made[k]).unwrap().ty == start.type_for(
                TypeContentView::Uint(64),
            ) by {
                assert(middle.has_value(made[k]));
            }
            assert forall|u: Value| #[trigger] start.has_value(u) implies after.value_content(u)
                == start.value_content(u) by {
                assert(middle.has_value(u));
            }
            middle.walk_along_constants(pointee_ty, made, indices@);
            assert(middle.numbered_type(pointee_ty, indices@) == start.numbered_type(
                pointee_ty,
                indices@,
            )) by {
                middle.numbers_walk_by_types(&start, pointee_ty, indices@);
            }
        }
        v
    }

    /// Appends the taking of the address of an element of an aggregate.  Where
    /// the indices name an element, what is appended has a type at once: the
    /// plain pointer to the type of the element.
    pub fn get_elm_ptr(self, ptr: Value, pointee_ty: Type, indices: Vec<Value>) -> (v: Value)
        requires
            old(self.context).has_block(self.block),
            value_pool_ready(old(self.context).values),
        ensures
            final(self.context).appended(
                old(self.context),
                self.block,
                v,
                (Instruction::GetElmPtr { ptr, pointee_ty, indices }),
            ),
            old(self.context).indexed_type(pointee_ty, indices@) matches Some(element) ==> element.pointers
                < u32::MAX ==> final(self.context).typable(
                (Instruction::GetElmPtr { ptr, pointee_ty, indices }),
            ) && final(self.context).type_of((Instruction::GetElmPtr { ptr, pointee_ty, indices }))
                == Some(pointer_name(element)),
    {
        let ghost before = *self.context;
        let ghost instruction = Instruction::GetElmPtr { ptr, pointee_ty, indices };
        let v = self.append(Instruction::GetElmPtr { ptr, pointee_ty, indices });
        proof {
            let after = *final(self.context);
            if before.indexed_type(pointee_ty, instruction->GetElmPtr_indices@) matches Some(element)
                && element.pointers < u32::MAX {
                before.instruction_type_found(instruction, 0);
                assert(after.extends(&before));
                after.typing_survives(&before, instruction);
            }
        }
        v
    }

    /// Appends the making of a storage key.
    pub fn get_storage_key(self) -> (v: Value)
        requires
            old(self.context).has_block(self.block),
            value_pool_ready(old(self.context).values),
        ensures
            final(self.context).appended(
                old(self.context),
                self.block,
                v,
                Instruction::GetStorageKey,
            ),
    {
        self.append(Instruction::GetStorageKey)
    }

    /// Appends the reading of a field of the transaction.
    pub fn gtf(self, index: Value, tx_field_id: u64) -> (v: Value)
        requires
            old(self.context).has_block(self.block),
            value_pool_ready(old(self.context).values),
        ensures
            final(self.context).appended(
                old(self.context),
                self.block,
                v,
                (Instruction::Gtf { index, tx_field_id }),
            ),
    {
        self.append(Instruction::Gtf { index, tx_field_id })
    }

    /// Appends the taking of the address of a storage location.  A new
    /// location of type `ptr_ty`, immutable and without initial value, is made
    /// to stand for the type of the address; the pool of pointers must be
    /// ready for it.  What is appended has a type at once: the plain pointer to
    /// `ptr_ty`, as long as the name of `ptr_ty` has room for one more pointer.
    pub fn get_ptr(self, base_ptr: Pointer, ptr_ty: Type, offset: u64) -> (v: Value)
        requires
            old(self.context).has_block(self.block),
            value_pool_ready(old(self.context).values),
            pointer_pool_ready(old(self.context).pointers),
        ensures
            final(self.context).instruction_of(v).unwrap() matches Instruction::GetPointer {
                base_ptr: base,
                ptr_ty: made,
                offset: at,
            } && base == base_ptr && at == offset && !old(self.context).has_pointer(made)
                && pointer_entries(final(self.context).pointers) == pointer_entries(
                old(self.context).pointers,
            ).insert(made.0, PointerContent { ty: ptr_ty, is_mutable: false, initializer: None }),
            final(self.context).inserted(
                old(self.context),
                self.block,
                v,
                final(self.context).instruction_of(v).unwrap(),
            ),
            final(self.context).instruction_of(v).unwrap().operands().len() == 0,
            ptr_ty.pointers < u32::MAX ==> final(self.context).typable(
                final(self.context).instruction_of(v).unwrap(),
            ) && final(self.context).type_of(final(self.context).instruction_of(v).unwrap())
                == Some(pointer_name(ptr_ty)),
    {
        let ptr = Pointer::new(self.context, ptr_ty, false, None);
        let ghost instruction = Instruction::GetPointer { base_ptr, ptr_ty: ptr, offset };
        let v = self.append(Instruction::GetPointer { base_ptr, ptr_ty: ptr, offset });
        proof {
            let after = *final(self.context);
            assert(after.instruction_of(v) == Some(instruction));
            assert(after.has_pointer(ptr));
            assert(after.pointee_of(ptr) == Some(ptr_ty));
            if ptr_ty.pointers < u32::MAX {
                after.instruction_type_found(instruction, 0);
            }
        }
        v
    }

    /// Appends a load from a pointer.
    pub fn load(self, src_val: Value) -> (v: Value)
        requires
            old(self.context).has_block(self.block),
            value_pool_ready(old(self.context).values),
        ensures
            final(self.context).appended(
                old(self.context),
                self.block,
                v,
                Instruction::Load(src_val),
            ),
    {
        self.append(Instruction::Load(src_val))
    }

    /// Appends the logging of a value.
    pub fn log(self, log_val: Value, log_ty: Type, log_id: Value) -> (v: Value)
        requires
            old(self.context).has_block(self.block),
            value_pool_ready(old(self.context).values),
        ensures
            final(self.context).appended(
                old(self.context),
                self.block,
                v,
                (Instruction::Log { log_val, log_ty, log_id }),
            ),
    {
        self.append(Instruction::Log { log_val, log_ty, log_id })
    }

    /// Appends a copy of bytes between pointers.
    pub fn mem_copy(self, dst_val: Value, src_val: Value, byte_len: u64) -> (v: Value)
        requires
            old(self.context).has_block(self.block),
            value_pool_ready(old(self.context).values),
        ensures
            final(self.context).appended(
                old(self.context),
                self.block,
                v,
                (Instruction::MemCopy { dst_val, src_val, byte_len }),
            ),
    {
        self.append(Instruction::MemCopy { dst_val, src_val, byte_len })
    }

    /// Appends an instruction that does nothing.
    pub fn nop(self) -> (v: Value)
        requires
            old(self.context).has_block(self.block),
            value_pool_ready(old(self.context).values),
        ensures
            final(self.context).appended(
                old(self.context),
                self.block,
                v,
                Instruction::Nop,
            ),
    {
        self.append(Instruction::Nop)
    }

    /// Appends the reading of a special register.
    pub fn read_register(self, reg: Register) -> (v: Value)
        requires
            old(self.context).has_block(self.block),
            value_pool_ready(old(self.context).values),
        ensures
            final(self.context).appended(
                old(self.context),
                self.block,
                v,
                Instruction::ReadRegister(reg),
            ),
    {
        self.append(Instruction::ReadRegister(reg))
    }

    /// Appends a return from the function.  Nothing is checked: whether the block
    /// has ended already is for the caller to know.
    pub fn ret(self, value: Value, ty: Type) -> (v: Value)
        requires
            old(self.context).has_block(self.block),
            value_pool_ready(old(self.context).values),
        ensures
            final(self.context).appended(
                old(self.context),
                self.block,
                v,
                Instruction::Ret(value, ty),
            ),
    {
        self.append(Instruction::Ret(value, ty))
    }

    /// Appends a revert.  It ends the block and leads to no other block.
    pub fn revert(self, value: Value) -> (v: Value)
        requires
            old(self.context).has_block(self.block),
            value_pool_ready(old(self.context).values),
        ensures
            final(self.context).appended(
                old(self.context),
                self.block,
                v,
                Instruction::Revert(value),
            ),
    {
        self.append(Instruction::Revert(value))
    }

    /// Appends the reading of four words from a storage slot.
    pub fn state_load_quad_word(self, load_val: Value, key: Value) -> (v: Value)
        requires
            old(self.context).has_block(self.block),
            value_pool_ready(old(self.context).values),
        ensures
            final(self.context).appended(
                old(self.context),
                self.block,
                v,
                (Instruction::StateLoadQuadWord { load_val, key }),
            ),
    {
        self.append(Instruction::StateLoadQuadWord { load_val, key })
    }

    /// Appends the reading of one word from a storage slot.
    pub fn state_load_word(self, key: Value) -> (v: Value)
        requires
            old(self.context).has_block(self.block),
            value_pool_ready(old(self.context).values),
        ensures
            final(self.context).appended(
                old(self.context),
                self.block,
                v,
                Instruction::StateLoadWord(key),
            ),
    {
        self.append(Instruction::StateLoadWord(key))
    }

    /// Appends the writing of four words to a storage slot.
    pub fn state_store_quad_word(self, stored_val: Value, key: Value) -> (v: Value)
        requires
            old(self.context).has_block(self.block),
            value_pool_ready(old(self.context).values),
        ensures
            final(self.context).appended(
                old(self.context),
                self.block,
                v,
                (Instruction::StateStoreQuadWord { stored_val, key }),
            ),
    {
        self.append(Instruction::StateStoreQuadWord { stored_val, key })
    }

    /// Appends the writing of one word to a storage slot.
    pub fn state_store_word(self, stored_val: Value, key: Value) -> (v: Value)
        requires
            old(self.context).has_block(self.block),
            value_pool_ready(old(self.context).values),
        ensures
            final(self.context).appended(
                old(self.context),
                self.block,
                v,
                (Instruction::StateStoreWord { stored_val, key }),
            ),
    {
        self.append(Instruction::StateStoreWord { stored_val, key })
    }

    /// Appends a store to a pointer.
    pub fn store(self, dst_val: Value, stored_val: Value) -> (v: Value)
        requires
            old(self.context).has_block(self.block),
            value_pool_ready(old(self.context).values),
        ensures
            final(self.context).appended(
                old(self.context),
                self.block,
                v,
                (Instruction::Store { dst_val, stored_val }),
            ),
    {
        self.append(Instruction::Store { dst_val, stored_val })
    }
}

} // verus!
