//! Basic blocks.

use vstd::prelude::*;
use crate::arena::block_entries;
use crate::arena::block_pool_ready;
use crate::arena::function_entries;
use crate::arena::get_block_mut;
use crate::arena::get_function_mut;
use crate::arena::insert_block;
use crate::context::Context;
use crate::function::Function;
use crate::handle::Handle;
use crate::instruction::Instruction;
use crate::irtype::Type;
use crate::iteration::InstructionIterator;
use crate::arena::value_entries;
use crate::arena::value_pool_ready;
use crate::value::Value;
use crate::value::ValueContent;
use crate::value::ValueDatum;

verus! {

/// The name of a block.
#[derive(Clone, Copy, Debug, PartialEq, Eq, Hash, Structural)]
pub struct Block(pub Handle);

/// What is recorded of a block.
#[derive(Debug, PartialEq, Eq)]
pub struct BlockContent {
    pub label: String,
    /// The function that owns the block.
    pub function: Function,
    /// The formal parameters, each an argument value.
    pub args: Vec<Value>,
    /// The instructions in the order in which they were appended.
    pub instructions: Vec<Value>,
    /// The blocks that branch here, each once, in the order in which they were first seen.
    pub preds: Vec<Block>,
}

/// A list of blocks with `p` in it: the list itself where it holds `p`, else
/// the list with `p` at its end.
pub open spec fn with_pred(preds: Seq<Block>, p: Block) -> Seq<Block> {
    if preds.contains(p) {
        preds
    } else {
        preds.push(p)
    }
}

/// The list then has `p` in it, and a list that has `p` in it gains nothing.
pub proof fn with_pred_is_idempotent(preds: Seq<Block>, p: Block)
    ensures
        with_pred(preds, p).contains(p),
        with_pred(with_pred(preds, p), p) == with_pred(preds, p),
{
    if !preds.contains(p) {
        assert(preds.push(p)[preds.len() as int] == p);
    }
}

/// A list that holds no block twice still holds none twice with `p` in it.
pub proof fn with_pred_keeps_distinct(preds: Seq<Block>, p: Block)
    requires
        preds.no_duplicates(),
    ensures
        with_pred(preds, p).no_duplicates(),
{
}

impl Context {
    /// Where the list of predecessors of `b` holds no block twice, it is as
    /// long as the set of predecessors is large.
    pub proof fn distinct_preds_are_counted_once(&self, b: Block)
        requires
            self.preds_of(b).no_duplicates(),
        ensures
            self.pred_set(b).finite(),
            self.pred_set(b).len() == self.preds_of(b).len(),
    {
        let preds = self.preds_of(b);
        preds.unique_seq_to_set();
        assert(self.pred_set(b) =~= preds.to_set());
    }

    /// The formal parameters of `b`, in order.
    pub open spec fn params_of(&self, b: Block) -> Seq<Value> {
        self.block_content(b).args@
    }

    /// The instructions of `b`, in order.
    pub open spec fn instructions_of(&self, b: Block) -> Seq<Value> {
        self.block_content(b).instructions@
    }

    /// The blocks that branch to `b`, in the order in which they were first seen.
    pub open spec fn preds_of(&self, b: Block) -> Seq<Block> {
        self.block_content(b).preds@
    }

    /// The set of blocks that branch to `b`.
    pub open spec fn pred_set(&self, b: Block) -> Set<Block> {
        Set::new(|p: Block| self.preds_of(b).contains(p))
    }

    /// Block `b` has the label and the owner it had in `old`, and the given
    /// parameters, instructions and predecessors.
    pub open spec fn block_is(
        &self,
        old: &Context,
        b: Block,
        params: Seq<Value>,
        instructions: Seq<Value>,
        preds: Seq<Block>,
    ) -> bool {
        &&& self.has_block(b)
        &&& self.block_content(b).label == old.block_content(b).label
        &&& self.block_content(b).function == old.block_content(b).function
        &&& self.params_of(b) == params
        &&& self.instructions_of(b) == instructions
        &&& self.preds_of(b) == preds
    }

    /// No block but `b` differs from what it was in `old`.
    pub open spec fn only_block_changed(&self, old: &Context, b: Block) -> bool {
        block_entries(self.blocks) == block_entries(old.blocks).insert(b.0, self.block_content(b))
    }

    /// Function `f` is what it was in `old`, with `b` at the end of its list of
    /// blocks, and no other function differs.
    pub open spec fn function_gained_block(&self, old: &Context, f: Function, b: Block) -> bool {
        &&& function_entries(self.functions) == function_entries(old.functions).insert(
            f.0,
            self.function_content(f),
        )
        &&& self.function_content(f).name == old.function_content(f).name
        &&& self.function_content(f).arguments == old.function_content(f).arguments
        &&& self.function_content(f).return_type == old.function_content(f).return_type
        &&& self.function_content(f).blocks@ == old.function_content(f).blocks@.push(b)
    }

    /// This context is `old` with one more block, `b`: an empty block of
    /// `function` with the given label, listed with the function if `old` has
    /// that function.
    pub open spec fn adds_block(
        &self,
        old: &Context,
        b: Block,
        function: Function,
        label: String,
    ) -> bool {
        &&& !old.has_block(b)
        &&& self.only_block_changed(old, b)
        &&& self.block_content(b).label == label
        &&& self.block_content(b).function == function
        &&& self.params_of(b).len() == 0
        &&& self.instructions_of(b).len() == 0
        &&& self.preds_of(b).len() == 0
        &&& if old.has_function(function) {
            self.function_gained_block(old, function, b)
        } else {
            self.functions == old.functions
        }
        &&& self.values == old.values
        &&& self.types == old.types
        &&& self.pointers == old.pointers
        &&& self.type_list == old.type_list
        &&& self.keeps_ready(old)
    }

    /// This context is `old` with one more value, `v`, a parameter of type
    /// `ty`, which is the last formal parameter of block `b`.
    pub open spec fn adds_param(&self, old: &Context, b: Block, v: Value, ty: Type) -> bool {
        &&& !old.has_value(v)
        &&& value_entries(self.values) == value_entries(old.values).insert(
            v.0,
            ValueContent { value: ValueDatum::Argument(ty) },
        )
        &&& self.only_block_changed(old, b)
        &&& self.block_is(
            old,
            b,
            old.params_of(b).push(v),
            old.instructions_of(b),
            old.preds_of(b),
        )
        &&& self.functions == old.functions
        &&& self.types == old.types
        &&& self.pointers == old.pointers
        &&& self.type_list == old.type_list
        &&& self.keeps_ready(old)
    }

    /// This context is `old` but for block `b`, which has `from` among its
    /// predecessors: once, if it held no block twice before.
    pub open spec fn adds_pred(&self, old: &Context, b: Block, from: Block) -> bool {
        &&& self.only_block_changed(old, b)
        &&& self.block_is(
            old,
            b,
            old.params_of(b),
            old.instructions_of(b),
            with_pred(old.preds_of(b), from),
        )
        &&& self.functions == old.functions
        &&& self.values == old.values
        &&& self.types == old.types
        &&& self.pointers == old.pointers
        &&& self.type_list == old.type_list
        &&& self.keeps_ready(old)
    }

    /// The instruction that ends `b`: its last instruction, if that jumps,
    /// returns or reverts.
    pub open spec fn terminator_of(&self, b: Block) -> Option<Instruction> {
        let instructions = self.instructions_of(b);
        if instructions.len() > 0 && self.is_terminator_value(instructions.last()) {
            self.instruction_of(instructions.last())
        } else {
            None
        }
    }
}

impl Block {
    /// A new block of `function` with the given label, without parameters,
    /// instructions or predecessors.  If the context has the function, the
    /// block goes to the end of its list of blocks.  The pool of blocks must
    /// be ready.
    pub fn new(context: &mut Context, function: Function, label: String) -> (b: Block)
        requires
            block_pool_ready(old(context).blocks),
        ensures
            final(context).adds_block(old(context), b, function, label),
    {
        let content = BlockContent {
            label,
            function,
            args: Vec::new(),
            instructions: Vec::new(),
            preds: Vec::new(),
        };
        let b = Block(insert_block(&mut context.blocks, content));
        if context.function(function).is_some() {
            let owner = get_function_mut(&mut context.functions, function.0);
            owner.blocks.push(b);
        }
        b
    }

    /// Adds a formal parameter of type `ty` to the block and returns it.  The
    /// pool of values must be ready.
    pub fn add_block_param(&self, context: &mut Context, ty: Type) -> (v: Value)
        requires
            old(context).has_block(*self),
            value_pool_ready(old(context).values),
        ensures
            final(context).adds_param(old(context), *self, v, ty),
    {
        let v = Value::new_argument(context, ty);
        let content = get_block_mut(&mut context.blocks, self.0);
        content.args.push(v);
        v
    }

    /// Records that `from_block` branches to this block.  Recording it twice is
    /// the same as recording it once.
    pub fn add_pred(&self, context: &mut Context, from_block: &Block)
        requires
            old(context).has_block(*self),
        ensures
            final(context).adds_pred(old(context), *self, *from_block),
    {
        let content = get_block_mut(&mut context.blocks, self.0);
        let mut i: usize = 0;
        let mut seen = false;
        while i < content.preds.len()
            invariant
                i <= content.preds@.len(),
                seen == content.preds@.take(i as int).contains(*from_block),
            decreases content.preds@.len() - i,
        {
            if content.preds[i] == *from_block {
                seen = true;
            }
            proof {
                let before = content.preds@.take(i as int);
                let now = content.preds@.take(i + 1);
                assert(now =~= before.push(content.preds@[i as int]));
                if before.contains(*from_block) {
                    let k = choose|k: int| 0 <= k < before.len() && before[k] == *from_block;
                    assert(now[k] == *from_block);
                }
                if content.preds@[i as int] == *from_block {
                    assert(now[i as int] == *from_block);
                }
            }
            i += 1;
        }
        proof {
            assert(content.preds@.take(i as int) =~= content.preds@);
        }
        if !seen {
            content.preds.push(*from_block);
        }
    }

    /// The number of instructions of the block.
    pub fn num_instructions(&self, context: &Context) -> (n: usize)
        requires
            context.has_block(*self),
        ensures
            n == context.instructions_of(*self).len(),
    {
        context.block(*self).unwrap().instructions.len()
    }

    /// The number of formal parameters of the block.
    pub fn num_args(&self, context: &Context) -> (n: usize)
        requires
            context.has_block(*self),
        ensures
            n == context.params_of(*self).len(),
    {
        context.block(*self).unwrap().args.len()
    }

    /// The formal parameter at `index`, if the block has that many.
    pub fn get_arg(&self, context: &Context, index: usize) -> (found: Option<Value>)
        requires
            context.has_block(*self),
        ensures
            found == (if index < context.params_of(*self).len() {
                Some(context.params_of(*self)[index as int])
            } else {
                None
            }),
    {
        let content = context.block(*self).unwrap();
        if index < content.args.len() {
            Some(content.args[index])
        } else {
            None
        }
    }

    /// The number of blocks that branch to this block: the length of the list
    /// of predecessors.  That is the size of their set where the list holds no
    /// block twice (`distinct_preds_are_counted_once`), and `add_pred` and the
    /// branches keep a list so (`with_pred_keeps_distinct`).
    pub fn num_preds(&self, context: &Context) -> (n: usize)
        requires
            context.has_block(*self),
        ensures
            n == context.preds_of(*self).len(),
    {
        context.block(*self).unwrap().preds.len()
    }

    /// Whether `other` branches to this block.
    pub fn has_pred(&self, context: &Context, other: &Block) -> (has: bool)
        requires
            context.has_block(*self),
        ensures
            has == context.pred_set(*self).contains(*other),
    {
        let content = context.block(*self).unwrap();
        let mut i: usize = 0;
        while i < content.preds.len()
            invariant
                *content == context.block_content(*self),
                i <= content.preds@.len(),
                forall|k: int| 0 <= k < i ==> content.preds@[k] != *other,
            decreases content.preds@.len() - i,
        {
            if content.preds[i] == *other {
                assert(content.preds@[i as int] == *other);
                return true;
            }
            i += 1;
        }
        false
    }

    /// The blocks that branch to this block, in the order in which they were
    /// first seen.
    pub fn get_preds(&self, context: &Context) -> (preds: Vec<Block>)
        requires
            context.has_block(*self),
        ensures
            preds@ == context.preds_of(*self),
    {
        let content = context.block(*self).unwrap();
        let mut preds: Vec<Block> = Vec::new();
        let mut i: usize = 0;
        while i < content.preds.len()
            invariant
                i <= content.preds@.len(),
                preds@ == content.preds@.take(i as int),
            decreases content.preds@.len() - i,
        {
            preds.push(content.preds[i]);
            proof {
                assert(content.preds@.take(i + 1) =~= content.preds@.take(i as int).push(
                    content.preds@[i as int],
                ));
            }
            i += 1;
        }
        proof {
            assert(content.preds@.take(i as int) =~= content.preds@);
        }
        preds
    }

    /// Begins a walk over the instructions that the block has now.
    pub fn instruction_iter(&self, context: &Context) -> (walk: InstructionIterator)
        requires
            context.has_block(*self),
        ensures
            walk.snapshot() == context.instructions_of(*self),
            walk.taken() == 0,
            walk.taken_back() == 0,
    {
        InstructionIterator::new(context, self)
    }

    /// The function that owns the block.
    pub fn get_function(&self, context: &Context) -> (function: Function)
        requires
            context.has_block(*self),
        ensures
            function == context.block_content(*self).function,
    {
        context.block(*self).unwrap().function
    }

    /// The instruction that ends the block: the last one, if it jumps, returns
    /// or reverts.
    pub fn get_terminator<'a>(&self, context: &'a Context) -> (found: Option<&'a Instruction>)
        requires
            context.has_block(*self),
        ensures
            found.is_some() == context.terminator_of(*self).is_some(),
            found.is_some() ==> *found.unwrap() == context.terminator_of(*self).unwrap(),
    {
        let content = context.block(*self).unwrap();
        let n = content.instructions.len();
        if n == 0 {
            return None;
        }
        let last = content.instructions[n - 1];
        match last.get_instruction(context) {
            Some(i) => {
                if i.is_terminator() {
                    Some(i)
                } else {
                    None
                }
            },
            None => None,
        }
    }
}

} // verus!
