//! Walking over the instructions of a block.

use vstd::prelude::*;
use crate::block::Block;
use crate::context::Context;
use crate::instruction::copy_values;
use crate::value::Value;

verus! {

/// A walk over the instructions that a block had when the walk began.
///
/// The walk keeps its own list: instructions appended to the block later are
/// not met.  It yields names, not copies, so what was changed in place in the
/// meantime is seen through them.  It can be walked from either end.  The two
/// ends share what is left: each instruction is yielded once, by the one or the
/// other, and when the ends have met there is nothing more from either.
pub struct InstructionIterator {
    instructions: Vec<Value>,
    next: usize,
    next_back: usize,
}

impl InstructionIterator {
    #[verifier::type_invariant]
    spec fn in_range(self) -> bool {
        self.next <= self.next_back <= self.instructions@.len()
    }

    /// The instructions of the block at the time the walk began.
    pub closed spec fn snapshot(&self) -> Seq<Value> {
        self.instructions@
    }

    /// How many instructions `next` has yielded.
    pub closed spec fn taken(&self) -> nat {
        self.next as nat
    }

    /// How many instructions `next_back` has yielded.
    pub closed spec fn taken_back(&self) -> nat {
        (self.instructions@.len() - self.next_back) as nat
    }

    /// What is left between the two ends, in the order of the block: what
    /// `next` yields if only it is called from now on.
    pub open spec fn remaining(&self) -> Seq<Value> {
        self.snapshot().subrange(
            self.taken() as int,
            self.snapshot().len() - self.taken_back(),
        )
    }

    /// What is left between the two ends, last first: what `next_back` yields
    /// if only it is called from now on.
    pub open spec fn remaining_back(&self) -> Seq<Value> {
        self.remaining().reverse()
    }

    /// A walk that has yielded nothing yet has the whole list ahead, and what
    /// it yields from the back is what it yields from the front, reversed.
    pub proof fn backward_is_forward_reversed(&self)
        requires
            self.taken() == 0,
            self.taken_back() == 0,
        ensures
            self.remaining() == self.snapshot(),
            self.remaining_back() == self.snapshot().reverse(),
    {
        assert(self.snapshot().subrange(0, self.snapshot().len() as int) =~= self.snapshot());
    }

    /// Begins a walk over the instructions that `block` has now.
    pub fn new(context: &Context, block: &Block) -> (walk: InstructionIterator)
        requires
            context.has_block(*block),
        ensures
            walk.snapshot() == context.instructions_of(*block),
            walk.taken() == 0,
            walk.taken_back() == 0,
    {
        let content = context.block(*block).unwrap();
        let instructions = copy_values(&content.instructions);
        let n = instructions.len();
        InstructionIterator { instructions, next: 0, next_back: n }
    }

    /// The next instruction from the front, if one is left between the ends.
    pub fn next(&mut self) -> (found: Option<Value>)
        ensures
            final(self).snapshot() == old(self).snapshot(),
            final(self).taken_back() == old(self).taken_back(),
            old(self).taken() + old(self).taken_back() <= old(self).snapshot().len(),
            found.is_some() == (old(self).taken() + old(self).taken_back() < old(self).snapshot().len()),
            found.is_some() ==> found.unwrap() == old(self).snapshot()[old(self).taken() as int]
                && final(self).taken() == old(self).taken() + 1,
            found.is_none() ==> final(self).taken() == old(self).taken(),
            found.is_some() ==> found.unwrap() == old(self).remaining()[0],
            found.is_some() ==> final(self).remaining() == old(self).remaining().drop_first(),
            found.is_none() ==> old(self).remaining().len() == 0,
    {
        proof {
            use_type_invariant(&*self);
        }
        if self.next < self.next_back {
            let idx = self.next;
            self.next += 1;
            proof {
                assert(self.remaining() =~= old(self).remaining().drop_first());
            }
            Some(self.instructions[idx])
        } else {
            None
        }
    }

    /// The next instruction from the back, if one is left between the ends.
    pub fn next_back(&mut self) -> (found: Option<Value>)
        ensures
            final(self).snapshot() == old(self).snapshot(),
            final(self).taken() == old(self).taken(),
            old(self).taken() + old(self).taken_back() <= old(self).snapshot().len(),
            found.is_some() == (old(self).taken() + old(self).taken_back() < old(self).snapshot().len()),
            found.is_some() ==> found.unwrap() == old(self).snapshot()[old(self).snapshot().len() - 1
                - old(self).taken_back()] && final(self).taken_back() == old(self).taken_back() + 1,
            found.is_none() ==> final(self).taken_back() == old(self).taken_back(),
            found.is_some() ==> found.unwrap() == old(self).remaining_back()[0],
            found.is_some() ==> final(self).remaining() == old(self).remaining().drop_last(),
            found.is_some() ==> final(self).remaining_back() == old(self).remaining_back().drop_first(),
            found.is_none() ==> old(self).remaining().len() == 0,
    {
        proof {
            use_type_invariant(&*self);
        }
        if self.next < self.next_back {
            self.next_back -= 1;
            proof {
                assert(self.remaining() =~= old(self).remaining().drop_last());
                assert(self.remaining_back() =~= old(self).remaining_back().drop_first());
            }
            Some(self.instructions[self.next_back])
        } else {
            None
        }
    }
}

} // verus!
