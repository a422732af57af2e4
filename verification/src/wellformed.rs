//! What makes a program well formed, and how appending instructions gets there.
//!
//! Nothing here is checked when an instruction is appended: that a block is
//! ended once, that branches agree with their targets and that operands are
//! values is for the builder of a program to see to.  This module says what
//! that means and which steps keep it.

use vstd::prelude::*;
use crate::arena::value_entries;
use crate::block::with_pred;
use crate::block::with_pred_is_idempotent;
use crate::block::with_pred_keeps_distinct;
use crate::block::Block;
use crate::context::Context;
use crate::function::Function;
use crate::instruction::BranchToWithArgs;
use crate::instruction::Instruction;
use crate::module::Module;
use crate::value::Value;
use crate::value::ValueContent;
use crate::value::ValueDatum;

verus! {

/// The targets of a jump, each with what it is handed; of any other
/// instruction, none.
pub open spec fn arms_of(i: Instruction) -> Seq<BranchToWithArgs> {
    match i {
        Instruction::Branch(to) => seq![to],
        Instruction::ConditionalBranch { cond_value: _, true_block, false_block } => seq![
            true_block,
            false_block,
        ],
        _ => Seq::empty(),
    }
}

/// The operand that the instruction takes its type from: the first operand of
/// arithmetic and the operand of a load.  The others have their type by
/// themselves.
pub open spec fn type_source(i: Instruction) -> Option<Value> {
    match i {
        Instruction::BinaryOp { op: _, arg1, arg2: _ } => Some(arg1),
        Instruction::Load(ptr) => Some(ptr),
        _ => None,
    }
}

impl Context {
    /// No instruction of `b` ends a block: `b` can take more instructions.
    pub open spec fn is_open(&self, b: Block) -> bool {
        forall|k: int|
            0 <= k < self.instructions_of(b).len() ==> !self.is_terminator_value(
                #[trigger] self.instructions_of(b)[k],
            )
    }

    /// If `b` has instructions, the last ends the block.
    pub open spec fn ends_with_terminator(&self, b: Block) -> bool {
        self.instructions_of(b).len() > 0 ==> self.is_terminator_value(
            self.instructions_of(b).last(),
        )
    }

    /// No two instructions of `b` end a block.
    pub open spec fn has_one_terminator_at_most(&self, b: Block) -> bool {
        forall|i: int, j: int|
            #![trigger self.instructions_of(b)[i], self.instructions_of(b)[j]]
            0 <= i < j < self.instructions_of(b).len() ==> !(self.is_terminator_value(
                self.instructions_of(b)[i],
            ) && self.is_terminator_value(self.instructions_of(b)[j]))
    }

    /// The two values are typable and of one type.
    pub open spec fn same_type(&self, a: Value, b: Value) -> bool {
        self.value_typable(a) && self.value_typable(b) && self.value_type_of(a)
            == self.value_type_of(b)
    }

    /// A jump from `from` along `arm` is in order: the target is a block that
    /// lists `from` among its predecessors, and it is handed one value for
    /// each of its formal parameters, of the type of the parameter.
    pub open spec fn arm_matches(&self, from: Block, arm: BranchToWithArgs) -> bool {
        &&& self.has_block(arm.block)
        &&& self.pred_set(arm.block).contains(from)
        &&& arm.args@.len() == self.params_of(arm.block).len()
        &&& forall|k: int|
            0 <= k < arm.args@.len() ==> self.same_type(
                #[trigger] arm.args@[k],
                self.params_of(arm.block)[k],
            )
    }

    /// Every entry of the instruction list of `b` is a value that an
    /// instruction yields.
    pub open spec fn holds_instructions(&self, b: Block) -> bool {
        forall|k: int|
            0 <= k < self.instructions_of(b).len() ==> self.instruction_of(
                #[trigger] self.instructions_of(b)[k],
            ) is Some
    }

    /// Every jump of `b` is in order.
    pub open spec fn arms_match(&self, b: Block) -> bool {
        forall|k: int, a: int|
            #![trigger arms_of(self.instruction_of(self.instructions_of(b)[k])->0)[a]]
            0 <= k < self.instructions_of(b).len() && 0 <= a < arms_of(
                self.instruction_of(self.instructions_of(b)[k])->0,
            ).len() ==> self.arm_matches(
                b,
                arms_of(self.instruction_of(self.instructions_of(b)[k])->0)[a],
            )
    }

    /// Every operand of every instruction of `b` is a value of this context.
    pub open spec fn operands_are_values(&self, b: Block) -> bool {
        forall|k: int, o: int|
            #![trigger self.instruction_of(self.instructions_of(b)[k])->0.operands()[o]]
            0 <= k < self.instructions_of(b).len() && 0 <= o < self.instruction_of(
                self.instructions_of(b)[k],
            )->0.operands().len() ==> self.has_value(
                self.instruction_of(self.instructions_of(b)[k])->0.operands()[o],
            )
    }

    /// Instruction `i` can be asked for its type, and where it takes its type
    /// from an operand, that operand has one.
    pub open spec fn well_typed(&self, i: Instruction) -> bool {
        &&& self.typable(i)
        &&& type_source(i) matches Some(v) ==> self.value_type_of(v) is Some
    }

    /// Every instruction of `b` is well typed.
    pub open spec fn instructions_well_typed(&self, b: Block) -> bool {
        forall|k: int|
            0 <= k < self.instructions_of(b).len() ==> self.well_typed(
                #[trigger] self.instruction_of(self.instructions_of(b)[k])->0,
            )
    }

    /// Block `b` is well formed: it is ended by its last instruction and by no
    /// other, its jumps are in order, what its instructions read exists, each
    /// of its instructions is well typed, and no block is listed twice among
    /// its predecessors.
    pub open spec fn block_well_formed(&self, b: Block) -> bool {
        &&& self.has_block(b)
        &&& self.holds_instructions(b)
        &&& self.ends_with_terminator(b)
        &&& self.has_one_terminator_at_most(b)
        &&& self.arms_match(b)
        &&& self.operands_are_values(b)
        &&& self.instructions_well_typed(b)
        &&& self.preds_of(b).no_duplicates()
    }

    /// Function `f` is well formed: it has an entry block, which is entered
    /// from blocks of `f` alone, and each of its blocks is well formed and
    /// names `f` as its owner.
    pub open spec fn function_well_formed(&self, f: Function) -> bool {
        &&& self.has_function(f)
        &&& self.function_content(f).blocks@.len() > 0
        &&& forall|p: Block|
            #[trigger] self.pred_set(self.function_content(f).blocks@[0]).contains(p)
                ==> self.has_block(p) && self.block_content(p).function == f
        &&& forall|k: int|
            0 <= k < self.function_content(f).blocks@.len() ==> self.block_well_formed(
                #[trigger] self.function_content(f).blocks@[k],
            ) && self.block_content(self.function_content(f).blocks@[k]).function == f
    }

    /// Module `m` is well formed: the types of the context are in order and
    /// every function of the module is well formed.
    pub open spec fn module_well_formed(&self, m: Module) -> bool {
        &&& self.types_valid()
        &&& forall|k: int|
            0 <= k < m.functions@.len() ==> self.function_well_formed(#[trigger] m.functions@[k])
    }

    /// Block `b` belongs to a function of module `m`.
    pub open spec fn in_module(&self, m: Module, b: Block) -> bool {
        exists|f: int, k: int|
            0 <= f < m.functions@.len() && 0 <= k < self.function_content(
                m.functions@[f],
            ).blocks@.len() && #[trigger] self.function_content(m.functions@[f]).blocks@[k] == b
    }

    /// The blocks of a well-formed module are well formed.
    pub proof fn module_blocks_are_well_formed(&self, m: Module, b: Block)
        requires
            self.module_well_formed(m),
            self.in_module(m, b),
        ensures
            self.block_well_formed(b),
    {
        let (f, k) = choose|f: int, k: int|
            0 <= f < m.functions@.len() && 0 <= k < self.function_content(
                m.functions@[f],
            ).blocks@.len() && #[trigger] self.function_content(m.functions@[f]).blocks@[k] == b;
        assert(self.function_well_formed(m.functions@[f]));
    }

    /// In a well-formed module the last instruction of a block that has
    /// instructions ends the block, and no earlier one does.
    pub proof fn terminator_is_last(&self, m: Module, b: Block, k: int)
        requires
            self.module_well_formed(m),
            self.in_module(m, b),
            0 <= k < self.instructions_of(b).len(),
        ensures
            self.is_terminator_value(self.instructions_of(b).last()),
            self.is_terminator_value(self.instructions_of(b)[k]) <==> k == self.instructions_of(
                b,
            ).len() - 1,
    {
        self.module_blocks_are_well_formed(m, b);
        let s = self.instructions_of(b);
        let last = s.len() - 1;
        if k < last {
            assert(!(self.is_terminator_value(s[k]) && self.is_terminator_value(s[last])));
        }
    }

    /// In a well-formed module every instruction can be asked for its type,
    /// and it has one exactly if it is no jump, return, revert or no-op.
    pub proof fn types_are_present(&self, m: Module, b: Block, k: int)
        requires
            self.module_well_formed(m),
            self.in_module(m, b),
            0 <= k < self.instructions_of(b).len(),
        ensures
            self.types_valid(),
            self.typable(self.instruction_of(self.instructions_of(b)[k])->0),
            self.type_of(self.instruction_of(self.instructions_of(b)[k])->0) is None <==> ({
                let i = self.instruction_of(self.instructions_of(b)[k])->0;
                i is Branch || i is ConditionalBranch || i is Ret || i is Revert || i is Nop
            }),
    {
        self.module_blocks_are_well_formed(m, b);
        let i = self.instruction_of(self.instructions_of(b)[k])->0;
        assert(self.well_typed(i));
        self.typeless_kinds(i);
    }

    /// In a well-formed module the number of predecessors of a block is the
    /// size of the set of its predecessors.
    pub proof fn predecessors_are_counted_once(&self, m: Module, b: Block)
        requires
            self.module_well_formed(m),
            self.in_module(m, b),
        ensures
            self.pred_set(b).finite(),
            self.pred_set(b).len() == self.preds_of(b).len(),
    {
        self.module_blocks_are_well_formed(m, b);
        self.distinct_preds_are_counted_once(b);
    }

    /// In a well-formed module every jump goes to a block whose formal
    /// parameters have, one by one, the types of what is handed over, and which
    /// lists the jumping block among its predecessors.
    pub proof fn branches_match_targets(&self, m: Module, b: Block, k: int, arm: BranchToWithArgs)
        requires
            self.module_well_formed(m),
            self.in_module(m, b),
            0 <= k < self.instructions_of(b).len(),
            self.instruction_of(self.instructions_of(b)[k]) matches Some(i) && (i
                == Instruction::Branch(arm) || (i matches Instruction::ConditionalBranch {
                cond_value: _,
                true_block,
                false_block,
            } && (true_block == arm || false_block == arm))),
        ensures
            self.pred_set(arm.block).contains(b),
            arm.args@.len() == self.params_of(arm.block).len(),
            forall|p: int|
                0 <= p < arm.args@.len() ==> self.value_type_of(#[trigger] arm.args@[p])
                    == self.value_type_of(self.params_of(arm.block)[p]),
    {
        self.module_blocks_are_well_formed(m, b);
        let i = self.instruction_of(self.instructions_of(b)[k])->0;
        if i is Branch {
            assert(arms_of(i)[0] == arm);
        } else if i->ConditionalBranch_true_block == arm {
            assert(arms_of(i)[0] == arm);
        } else {
            assert(arms_of(i)[1] == arm);
        }
        assert(self.arm_matches(b, arm));
        assert forall|p: int| 0 <= p < arm.args@.len() implies self.value_type_of(
            #[trigger] arm.args@[p],
        ) == self.value_type_of(self.params_of(arm.block)[p]) by {
            assert(self.same_type(arm.args@[p], self.params_of(arm.block)[p]));
        }
    }

    /// In a well-formed module every operand of every instruction is a value
    /// of the context.
    pub proof fn operands_exist(&self, m: Module, b: Block, k: int, o: int)
        requires
            self.module_well_formed(m),
            self.in_module(m, b),
            0 <= k < self.instructions_of(b).len(),
            0 <= o < self.instruction_of(self.instructions_of(b)[k])->0.operands().len(),
        ensures
            self.instruction_of(self.instructions_of(b)[k]) is Some,
            self.has_value(self.instruction_of(self.instructions_of(b)[k])->0.operands()[o]),
    {
        self.module_blocks_are_well_formed(m, b);
        assert(self.has_value(self.instruction_of(self.instructions_of(b)[k])->0.operands()[o]));
    }

    /// This context has the values of `old` and one more, `v`, which
    /// `instruction` yields, and `b` has the instructions it had in `old` and
    /// then `v`.
    pub open spec fn gained_instruction(
        &self,
        old: &Context,
        b: Block,
        v: Value,
        instruction: Instruction,
    ) -> bool {
        &&& !old.has_value(v)
        &&& value_entries(self.values) == value_entries(old.values).insert(
            v.0,
            ValueContent { value: ValueDatum::Instruction(instruction) },
        )
        &&& self.instructions_of(b) == old.instructions_of(b).push(v)
    }

    /// An open block that gains an instruction which does not end it stays
    /// open; one that gains an instruction which ends it is ended by its last
    /// instruction and by no other.
    pub proof fn gaining_an_instruction(
        &self,
        old: &Context,
        b: Block,
        v: Value,
        instruction: Instruction,
    )
        requires
            self.gained_instruction(old, b, v, instruction),
            old.is_open(b),
            old.holds_instructions(b),
        ensures
            self.holds_instructions(b),
            !instruction.ends_block() ==> self.is_open(b),
            instruction.ends_block() ==> self.ends_with_terminator(b)
                && self.has_one_terminator_at_most(b),
    {
        let before = old.instructions_of(b);
        let now = self.instructions_of(b);
        assert(self.instruction_of(v) == Some(instruction));
        assert forall|k: int| 0 <= k < before.len() implies self.instruction_of(#[trigger] now[k])
            == old.instruction_of(before[k]) && !self.is_terminator_value(now[k]) by {
            assert(now[k] == before[k]);
            assert(old.instruction_of(before[k]) is Some);
            assert(!old.is_terminator_value(before[k]));
        }
        assert(now.last() == v);
        assert forall|k: int| 0 <= k < now.len() implies self.instruction_of(#[trigger] now[k])
            is Some by {
            if k < before.len() {
                assert(self.instruction_of(now[k]) == old.instruction_of(before[k]));
            }
        }
    }

    /// After a jump was appended, each of its targets lists the jumping block
    /// among its predecessors.
    pub proof fn jump_is_recorded(
        &self,
        old: &Context,
        from: Block,
        v: Value,
        instruction: Instruction,
        targets: Set<Block>,
        target: Block,
    )
        requires
            self.branched(old, from, v, instruction, targets),
            targets.contains(target),
            old.has_block(target),
        ensures
            self.pred_set(target).contains(from),
            forall|p: Block| old.pred_set(target).contains(p) ==> self.pred_set(target).contains(p),
            self.gained_instruction(old, from, v, instruction) || !old.has_block(from),
    {
        with_pred_is_idempotent(old.preds_of(target), from);
        assert(self.block_is(
            old,
            target,
            old.params_of(target),
            if target == from {
                old.instructions_of(target).push(v)
            } else {
                old.instructions_of(target)
            },
            with_pred(old.preds_of(target), from),
        ));
        assert forall|p: Block| old.pred_set(target).contains(p) implies self.pred_set(
            target,
        ).contains(p) by {
            let preds = old.preds_of(target);
            let at = choose|k: int| 0 <= k < preds.len() && preds[k] == p;
            if !preds.contains(from) {
                assert(preds.push(from)[at] == p);
            }
        }
        if old.has_block(from) {
            assert(self.block_is(
                old,
                from,
                old.params_of(from),
                old.instructions_of(from).push(v),
                if targets.contains(from) {
                    with_pred(old.preds_of(from), from)
                } else {
                    old.preds_of(from)
                },
            ));
        }
    }

    /// After a jump was appended, a block that held no block twice among its
    /// predecessors still holds none twice.
    pub proof fn jump_keeps_predecessors_distinct(
        &self,
        old: &Context,
        from: Block,
        v: Value,
        instruction: Instruction,
        targets: Set<Block>,
        b: Block,
    )
        requires
            self.branched(old, from, v, instruction, targets),
            old.has_block(b),
            old.preds_of(b).no_duplicates(),
        ensures
            self.preds_of(b).no_duplicates(),
    {
        with_pred_keeps_distinct(old.preds_of(b), from);
        assert(self.block_is(
            old,
            b,
            old.params_of(b),
            if b == from {
                old.instructions_of(b).push(v)
            } else {
                old.instructions_of(b)
            },
            if targets.contains(b) {
                with_pred(old.preds_of(b), from)
            } else {
                old.preds_of(b)
            },
        ));
    }

    /// Appending an instruction extends the context: what was typable stays
    /// typable, with the type it had.
    pub proof fn appending_extends(
        &self,
        old: &Context,
        block: Block,
        v: Value,
        instruction: Instruction,
        targets: Set<Block>,
        i: Instruction,
    )
        requires
            self.appended(old, block, v, instruction) || self.branched(
                old,
                block,
                v,
                instruction,
                targets,
            ),
            old.typable(i),
        ensures
            self.extends(old),
            self.typable(i),
            self.type_of(i) == old.type_of(i),
    {
        assert(self.extends(old));
        self.typing_survives(old, i);
    }

    /// Value `v` stands at place `k` of the instruction list of block `b`.
    pub open spec fn listed_at(&self, b: Block, k: int, v: Value) -> bool {
        self.has_block(b) && 0 <= k < self.instructions_of(b).len() && self.instructions_of(b)[k]
            == v
    }

    /// Every value that an instruction yields stands in the instruction list
    /// of one block, at one place, and the lists hold nothing else.
    pub open spec fn instructions_in_one_place(&self) -> bool {
        &&& forall|b: Block| #[trigger] self.has_block(b) ==> self.holds_instructions(b)
        &&& forall|v: Value| #[trigger]
            self.instruction_of(v) is Some ==> exists|b: Block, k: int| self.listed_at(b, k, v)
        &&& forall|v: Value, b: Block, k: int, c: Block, j: int|
            #![trigger self.listed_at(b, k, v), self.listed_at(c, j, v)]
            self.listed_at(b, k, v) && self.listed_at(c, j, v) ==> b == c && k == j
    }

    /// Every operand of every instruction of every block is a value of this context.
    pub open spec fn every_operand_is_a_value(&self) -> bool {
        forall|b: Block| #[trigger] self.has_block(b) ==> self.operands_are_values(b)
    }

    /// This context is `old` with one more instruction, which yields the new
    /// value `v` and stands at the end of `block`.  The blocks are the same
    /// and have the instructions they had; the values of `old` are values
    /// still and are yielded by the instructions that yielded them; and what
    /// else is new is yielded by no instruction.
    pub open spec fn appends_one(&self, old: &Context, block: Block, v: Value) -> bool {
        &&& !old.has_value(v)
        &&& self.instruction_of(v) is Some
        &&& forall|u: Value| #[trigger] old.has_value(u) ==> self.has_value(u)
        &&& forall|u: Value| u != v ==> #[trigger] self.instruction_of(u) == old.instruction_of(u)
        &&& forall|b: Block| #[trigger] self.has_block(b) == old.has_block(b)
        &&& forall|b: Block| #[trigger]
            old.has_block(b) ==> self.instructions_of(b) == if b == block {
                old.instructions_of(b).push(v)
            } else {
                old.instructions_of(b)
            }
    }

    /// Appending an instruction with `nop`, `load`, `store` and the like is
    /// appending one instruction.
    pub proof fn appended_appends_one(
        &self,
        old: &Context,
        block: Block,
        v: Value,
        instruction: Instruction,
    )
        requires
            old.has_block(block),
            self.appended(old, block, v, instruction) || self.inserted(old, block, v, instruction),
        ensures
            self.appends_one(old, block, v),
            self.instruction_of(v) == Some(instruction),
    {
    }

    /// Appending a jump is appending one instruction.
    pub proof fn branched_appends_one(
        &self,
        old: &Context,
        from: Block,
        v: Value,
        instruction: Instruction,
        targets: Set<Block>,
    )
        requires
            old.has_block(from),
            self.branched(old, from, v, instruction, targets),
        ensures
            self.appends_one(old, from, v),
            self.instruction_of(v) == Some(instruction),
    {
    }

    /// Appending an element address whose indices are made from numbers is
    /// appending one instruction.
    pub proof fn appended_with_constants_appends_one(
        &self,
        old: &Context,
        block: Block,
        v: Value,
        constants: Seq<Value>,
        numbers: Seq<u64>,
    )
        requires
            old.has_block(block),
            self.appended_with_constants(old, block, v, constants, numbers),
        ensures
            self.appends_one(old, block, v),
    {
        let added = constants.push(v);
        assert(added[constants.len() as int] == v);
        assert forall|u: Value| u != v implies #[trigger] self.instruction_of(u)
            == old.instruction_of(u) by {
            if old.has_value(u) {
            } else if self.has_value(u) {
                assert(added.contains(u));
                let k = choose|k: int| 0 <= k < added.len() && added[k] == u;
                assert(constants[k] == u);
                assert(self.constant_index(constants[k]) is Some);
            }
        }
    }

    /// Where every instruction stood in one place, appending one keeps it so.
    pub proof fn one_place_is_kept(&self, old: &Context, block: Block, v: Value)
        requires
            old.instructions_in_one_place(),
            old.has_block(block),
            self.appends_one(old, block, v),
        ensures
            self.instructions_in_one_place(),
    {
        let end = old.instructions_of(block).len() as int;
        assert forall|b: Block, k: int|
            old.has_block(b) && 0 <= k < old.instructions_of(b).len() implies #[trigger]
            self.instructions_of(b)[k] == old.instructions_of(b)[k] && old.instructions_of(b)[k]
            != v by {
            assert(old.holds_instructions(b));
            assert(old.instruction_of(old.instructions_of(b)[k]) is Some);
        }
        assert forall|b: Block| #[trigger] self.has_block(b) implies self.holds_instructions(b) by {
            assert(old.has_block(b));
            assert(old.holds_instructions(b));
            assert forall|k: int| 0 <= k < self.instructions_of(b).len() implies self.instruction_of(
                #[trigger] self.instructions_of(b)[k],
            ) is Some by {
                if k < old.instructions_of(b).len() {
                    assert(self.instructions_of(b)[k] == old.instructions_of(b)[k]);
                    assert(old.instruction_of(old.instructions_of(b)[k]) is Some);
                }
            }
        }
        assert forall|u: Value| #[trigger] self.instruction_of(u) is Some implies exists|
            b: Block,
            k: int,
        | self.listed_at(b, k, u) by {
            if u == v {
                assert(self.has_block(block) == old.has_block(block));
                assert(self.listed_at(block, end, v));
            } else {
                assert(old.instruction_of(u) is Some);
                let (b, k) = choose|b: Block, k: int| old.listed_at(b, k, u);
                assert(self.has_block(b) == old.has_block(b));
                assert(self.instructions_of(b)[k] == old.instructions_of(b)[k]);
                assert(self.listed_at(b, k, u));
            }
        }
        assert forall|u: Value, b: Block, k: int, c: Block, j: int|
            #![trigger self.listed_at(b, k, u), self.listed_at(c, j, u)]
            self.listed_at(b, k, u) && self.listed_at(c, j, u) implies b == c && k == j by {
            assert(self.has_block(b) == old.has_block(b));
            assert(self.has_block(c) == old.has_block(c));
            let in_old_b = k < old.instructions_of(b).len();
            let in_old_c = j < old.instructions_of(c).len();
            if in_old_b {
                assert(self.instructions_of(b)[k] == old.instructions_of(b)[k]);
            }
            if in_old_c {
                assert(self.instructions_of(c)[j] == old.instructions_of(c)[j]);
            }
            if in_old_b && in_old_c {
                assert(old.listed_at(b, k, u) && old.listed_at(c, j, u));
            }
        }
    }

    /// Where every operand was a value, appending an instruction whose
    /// operands are values keeps it so.
    pub proof fn operands_stay_values(&self, old: &Context, block: Block, v: Value)
        requires
            old.every_operand_is_a_value(),
            forall|b: Block| #[trigger] old.has_block(b) ==> old.holds_instructions(b),
            old.has_block(block),
            self.appends_one(old, block, v),
            forall|o: int|
                0 <= o < self.instruction_of(v)->0.operands().len() ==> self.has_value(
                    #[trigger] self.instruction_of(v)->0.operands()[o],
                ),
        ensures
            self.every_operand_is_a_value(),
    {
        assert forall|b: Block| #[trigger] self.has_block(b) implies self.operands_are_values(b) by {
            assert(old.has_block(b));
            assert(old.operands_are_values(b));
            assert(old.holds_instructions(b));
            assert forall|k: int, o: int|
                #![trigger self.instruction_of(self.instructions_of(b)[k])->0.operands()[o]]
                0 <= k < self.instructions_of(b).len() && 0 <= o < self.instruction_of(
                    self.instructions_of(b)[k],
                )->0.operands().len() implies self.has_value(
                self.instruction_of(self.instructions_of(b)[k])->0.operands()[o],
            ) by {
                if k < old.instructions_of(b).len() {
                    let u = old.instructions_of(b)[k];
                    assert(self.instructions_of(b)[k] == u);
                    assert(old.instruction_of(u) is Some);
                    assert(self.instruction_of(u) == old.instruction_of(u));
                    assert(old.has_value(old.instruction_of(old.instructions_of(b)[k])->0.operands()[o]));
                } else {
                    assert(self.instructions_of(b)[k] == v);
                }
            }
        }
    }
}

} // verus!
