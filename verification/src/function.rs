//! Functions.

use vstd::prelude::*;
use crate::arena::block_entries;
use crate::arena::block_pool_ready;
use crate::arena::function_entries;
use crate::arena::function_pool_ready;
use crate::arena::value_pool_ready;
use crate::arena::get_function_mut;
use crate::arena::insert_function;
use crate::block::Block;
use crate::context::Context;
use crate::handle::Handle;
use crate::irtype::Type;
use crate::value::Value;
use crate::value::ValueDatum;

verus! {

/// The name of a function.
#[derive(Clone, Copy, Debug, PartialEq, Eq, Hash, Structural)]
pub struct Function(pub Handle);

/// What is recorded of a function.
#[derive(Debug, PartialEq, Eq)]
pub struct FunctionContent {
    pub name: String,
    /// The parameters: each is also a formal parameter of the entry block.
    pub arguments: Vec<Value>,
    pub return_type: Type,
    /// The blocks in the order in which they were made; the first is the entry block.
    pub blocks: Vec<Block>,
}

impl Context {
    /// The first block of `f`, if `f` is a function of this context with a block.
    pub open spec fn entry_of(&self, f: Function) -> Option<Block> {
        if self.has_function(f) && self.function_content(f).blocks@.len() > 0 {
            Some(self.function_content(f).blocks@[0])
        } else {
            None
        }
    }

    /// The values of `old` are values of this context, unchanged, and the
    /// others are `added`, parameters of the types `tys`, in order.
    pub open spec fn adds_params(&self, old: &Context, added: Seq<Value>, tys: Seq<Type>) -> bool {
        &&& added.len() == tys.len()
        &&& added.no_duplicates()
        &&& forall|v: Value| #[trigger]
            self.has_value(v) <==> old.has_value(v) || added.contains(v)
        &&& forall|v: Value| #[trigger]
            old.has_value(v) ==> self.value_content(v) == old.value_content(v)
        &&& forall|k: int|
            0 <= k < added.len() ==> !old.has_value(#[trigger] added[k]) && self.datum(added[k])
                == ValueDatum::Argument(tys[k])
    }

    /// This context is `old` with one more function, `f`, of the given name,
    /// parameter types and return type.  The function has one block, new as
    /// well, with the label `entry`, the parameters of the function as its
    /// own, no instruction and no predecessor.
    pub open spec fn adds_function(
        &self,
        old: &Context,
        f: Function,
        name: String,
        params: Seq<Type>,
        return_type: Type,
    ) -> bool {
        let content = self.function_content(f);
        let entry = content.blocks@[0];
        &&& !old.has_function(f)
        &&& function_entries(self.functions) == function_entries(old.functions).insert(f.0, content)
        &&& content.name == name
        &&& content.return_type == return_type
        &&& content.blocks@.len() == 1
        &&& !old.has_block(entry)
        &&& self.only_block_changed(old, entry)
        &&& self.block_content(entry).label@ == "entry"@
        &&& self.block_content(entry).function == f
        &&& self.params_of(entry) == content.arguments@
        &&& self.instructions_of(entry).len() == 0
        &&& self.preds_of(entry).len() == 0
        &&& self.adds_params(old, content.arguments@, params)
        &&& self.types == old.types
        &&& self.pointers == old.pointers
        &&& self.type_list == old.type_list
        &&& self.keeps_ready(old)
    }
}

impl Function {
    /// A new function with an entry block.  For each parameter type the entry
    /// block gets a formal parameter, which is also a parameter of the function.
    /// The pools of functions, blocks and values must be ready.
    pub fn new(context: &mut Context, name: String, params: Vec<Type>, return_type: Type) -> (f:
        Function)
        requires
            function_pool_ready(old(context).functions),
            block_pool_ready(old(context).blocks),
            value_pool_ready(old(context).values),
        ensures
            final(context).adds_function(old(context), f, name, params@, return_type),
    {
        let content = FunctionContent {
            name,
            arguments: Vec::new(),
            return_type,
            blocks: Vec::new(),
        };
        let f = Function(insert_function(&mut context.functions, content));
        let entry = Block::new(context, f, "entry".to_owned());
        let ghost start = *context;
        proof {
            assert(block_entries(start.blocks) =~= block_entries(start.blocks).insert(
                entry.0,
                start.block_content(entry),
            ));
            assert(function_entries(start.functions) =~= function_entries(start.functions).insert(
                f.0,
                start.function_content(f),
            ));
        }
        let mut i: usize = 0;
        while i < params.len()
            invariant
                i <= params@.len(),
                context.has_function(f),
                context.has_block(entry),
                function_entries(context.functions) == function_entries(start.functions).insert(
                    f.0,
                    context.function_content(f),
                ),
                context.function_content(f).name == start.function_content(f).name,
                context.function_content(f).return_type == start.function_content(f).return_type,
                context.function_content(f).blocks == start.function_content(f).blocks,
                context.function_content(f).arguments@.len() == i,
                context.only_block_changed(&start, entry),
                context.block_content(entry).label == start.block_content(entry).label,
                context.block_content(entry).function == f,
                context.params_of(entry) == context.function_content(f).arguments@,
                context.instructions_of(entry).len() == 0,
                context.preds_of(entry).len() == 0,
                context.adds_params(
                    &start,
                    context.function_content(f).arguments@,
                    params@.take(i as int),
                ),
                context.types == start.types,
                context.pointers == start.pointers,
                context.type_list == start.type_list,
                value_pool_ready(context.values),
                context.keeps_ready(&start),
            decreases params@.len() - i,
        {
            let ghost before = *context;
            let v = entry.add_block_param(context, params[i]);
            let owner = get_function_mut(&mut context.functions, f.0);
            owner.arguments.push(v);
            proof {
                let was = before.function_content(f).arguments@;
                let now = context.function_content(f).arguments@;
                assert(now == was.push(v));
                assert(params@.take(i + 1) =~= params@.take(i as int).push(params@[i as int]));
                assert(!was.contains(v)) by {
                    if was.contains(v) {
                        let k = choose|k: int| 0 <= k < was.len() && was[k] == v;
                        assert(before.has_value(was[k]));
                    }
                }
                assert forall|u: Value| #[trigger]
                    context.has_value(u) <==> start.has_value(u) || now.contains(u) by {
                    assert(before.has_value(u) <==> start.has_value(u) || was.contains(u));
                    if was.contains(u) {
                        let k = choose|k: int| 0 <= k < was.len() && was[k] == u;
                        assert(now[k] == u);
                    }
                    if u == v {
                        assert(now[was.len() as int] == v);
                    }
                }
                assert forall|k: int| 0 <= k < now.len() implies !start.has_value(#[trigger] now[k])
                    && context.datum(now[k]) == ValueDatum::Argument(params@.take(i + 1)[k]) by {
                    if k < was.len() {
                        assert(now[k] == was[k]);
                        assert(before.has_value(was[k]));
                    }
                }
                assert(context.function_content(f).blocks == start.function_content(f).blocks);
                assert(block_entries(context.blocks) =~= block_entries(start.blocks).insert(
                    entry.0,
                    context.block_content(entry),
                ));
                assert(function_entries(context.functions) =~= function_entries(
                    start.functions,
                ).insert(f.0, context.function_content(f)));
            }
            i += 1;
        }
        proof {
            assert(params@.take(i as int) =~= params@);
            assert forall|v: Value| #[trigger] old(context).has_value(v) implies context.value_content(
                v,
            ) == old(context).value_content(v) by {
                assert(start.has_value(v));
            }
            assert(function_entries(context.functions) =~= function_entries(
                old(context).functions,
            ).insert(f.0, context.function_content(f)));
            assert(block_entries(context.blocks) =~= block_entries(old(context).blocks).insert(
                entry.0,
                context.block_content(entry),
            ));
        }
        f
    }

    /// Adds a new, empty block with the given label to the function.  The pool
    /// of blocks must be ready.
    pub fn create_block(&self, context: &mut Context, label: String) -> (b: Block)
        requires
            block_pool_ready(old(context).blocks),
        ensures
            final(context).adds_block(old(context), b, *self, label),
    {
        Block::new(context, *self, label)
    }

    /// The first block of the function, if the context has the function and the
    /// function has a block.
    pub fn get_entry_block(&self, context: &Context) -> (entry: Option<Block>)
        ensures
            entry == context.entry_of(*self),
    {
        match context.function(*self) {
            Some(content) => {
                if content.blocks.len() > 0 {
                    Some(content.blocks[0])
                } else {
                    None
                }
            },
            None => None,
        }
    }

    /// The return type of the function, if the context has the function.
    pub fn get_return_type(&self, context: &Context) -> (ty: Option<Type>)
        ensures
            ty == (if context.has_function(*self) {
                Some(context.function_content(*self).return_type)
            } else {
                None
            }),
    {
        match context.function(*self) {
            Some(content) => Some(content.return_type),
            None => None,
        }
    }

    /// The number of blocks of the function.
    pub fn num_blocks(&self, context: &Context) -> (n: usize)
        requires
            context.has_function(*self),
        ensures
            n == context.function_content(*self).blocks@.len(),
    {
        context.function(*self).unwrap().blocks.len()
    }

    /// The block at `index` of the function's list, if it has that many.
    pub fn get_block(&self, context: &Context, index: usize) -> (found: Option<Block>)
        requires
            context.has_function(*self),
        ensures
            found == (if index < context.function_content(*self).blocks@.len() {
                Some(context.function_content(*self).blocks@[index as int])
            } else {
                None
            }),
    {
        let content = context.function(*self).unwrap();
        if index < content.blocks.len() {
            Some(content.blocks[index])
        } else {
            None
        }
    }

    /// The number of parameters of the function.
    pub fn num_args(&self, context: &Context) -> (n: usize)
        requires
            context.has_function(*self),
        ensures
            n == context.function_content(*self).arguments@.len(),
    {
        context.function(*self).unwrap().arguments.len()
    }

    /// The parameter at `index`, if the function has that many.
    pub fn get_arg(&self, context: &Context, index: usize) -> (found: Option<Value>)
        requires
            context.has_function(*self),
        ensures
            found == (if index < context.function_content(*self).arguments@.len() {
                Some(context.function_content(*self).arguments@[index as int])
            } else {
                None
            }),
    {
        let content = context.function(*self).unwrap();
        if index < content.arguments.len() {
            Some(content.arguments[index])
        } else {
            None
        }
    }
}

} // verus!
