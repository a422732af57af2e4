use rustc_hash::FxHashMap;
use sway_ir::block::Block;
use sway_ir::context::Context;
use sway_ir::function::Function;
use sway_ir::inserter::InstructionInserter;
use sway_ir::instruction::Instruction;
use sway_ir::irtype::Type;
use sway_ir::iteration::InstructionIterator;
use sway_ir::value::Value;
use sway_ir::value::ValueDatum;

fn block_with(n: usize) -> (Context, Block, Vec<Value>, Value) {
    let mut context = Context::new();
    let u64_ty = Type::get_uint(&context, 64);
    let f = Function::new(&mut context, "f".to_string(), vec![u64_ty], u64_ty);
    let block = f.get_entry_block(&context).unwrap();
    let x = f.get_arg(&context, 0).unwrap();
    let mut made = Vec::new();
    for _ in 0..n {
        made.push(InstructionInserter::new(&mut context, block).addr_of(x));
    }
    (context, block, made, x)
}

fn forward(mut walk: InstructionIterator) -> Vec<Value> {
    let mut seen = Vec::new();
    while let Some(v) = walk.next() {
        seen.push(v);
    }
    assert_eq!(walk.next(), None);
    seen
}

fn backward(mut walk: InstructionIterator) -> Vec<Value> {
    let mut seen = Vec::new();
    while let Some(v) = walk.next_back() {
        seen.push(v);
    }
    assert_eq!(walk.next_back(), None);
    seen
}

#[test]
fn forward_reversed_is_backward() {
    for n in 0..6 {
        let (context, block, made, _) = block_with(n);
        let there = forward(InstructionIterator::new(&context, &block));
        let back = backward(InstructionIterator::new(&context, &block));
        assert_eq!(there, made);
        let mut reversed = there.clone();
        reversed.reverse();
        assert_eq!(back, reversed);
    }
}

#[test]
fn an_empty_block_yields_nothing() {
    let (context, block, _, _) = block_with(0);
    let mut walk = InstructionIterator::new(&context, &block);
    assert_eq!(walk.next(), None);
    assert_eq!(walk.next_back(), None);
    assert_eq!(walk.next(), None);
}

#[test]
fn the_two_ends_meet() {
    let (context, block, made, _) = block_with(3);
    let mut walk = InstructionIterator::new(&context, &block);
    assert_eq!(walk.next(), Some(made[0]));
    assert_eq!(walk.next_back(), Some(made[2]));
    assert_eq!(walk.next(), Some(made[1]));
    assert_eq!(walk.next_back(), None);
    assert_eq!(walk.next(), None);

    let mut walk = InstructionIterator::new(&context, &block);
    assert_eq!(walk.next_back(), Some(made[2]));
    assert_eq!(walk.next_back(), Some(made[1]));
    assert_eq!(walk.next(), Some(made[0]));
    assert_eq!(walk.next(), None);
    assert_eq!(walk.next_back(), None);
}

#[test]
fn each_instruction_is_yielded_once_whatever_the_order_of_the_calls() {
    for n in 0..6usize {
        for pattern in 0..(1u32 << n) {
            let (context, block, made, _) = block_with(n);
            let mut walk = InstructionIterator::new(&context, &block);
            let mut front = Vec::new();
            let mut back = Vec::new();
            for step in 0..n {
                if pattern & (1 << step) == 0 {
                    front.push(walk.next().unwrap());
                } else {
                    back.push(walk.next_back().unwrap());
                }
            }
            assert_eq!(walk.next(), None);
            assert_eq!(walk.next_back(), None);
            back.reverse();
            front.extend(back);
            assert_eq!(front, made);
        }
    }
}

#[test]
fn appended_instructions_are_not_met() {
    let (mut context, block, made, x) = block_with(2);
    let mut walk = InstructionIterator::new(&context, &block);
    assert_eq!(walk.next(), Some(made[0]));
    let late = InstructionInserter::new(&mut context, block).load(x);
    assert_eq!(walk.next(), Some(made[1]));
    assert_eq!(walk.next(), None);
    assert_eq!(walk.next_back(), None);
    let mut from_the_back = InstructionIterator::new(&context, &block);
    let later = InstructionInserter::new(&mut context, block).load(x);
    assert_eq!(from_the_back.next_back(), Some(late));
    assert_eq!(from_the_back.next_back(), Some(made[1]));
    assert_eq!(from_the_back.next_back(), Some(made[0]));
    assert_eq!(from_the_back.next_back(), None);
    let fresh = forward(InstructionIterator::new(&context, &block));
    assert_eq!(fresh, vec![made[0], made[1], late, later]);
}

#[test]
fn rewrites_in_place_are_seen_through_the_names() {
    let (mut context, block, made, x) = block_with(3);
    let u64_ty = Type::get_uint(&context, 64);
    let y = Value::new_argument(&mut context, u64_ty);
    let mut map: FxHashMap<Value, Value> = FxHashMap::default();
    map.insert(x, y);
    let mut walk = InstructionIterator::new(&context, &block);
    while let Some(v) = walk.next() {
        assert_eq!(v.get_instruction(&context), Some(&Instruction::AddrOf(x)));
        if let ValueDatum::Instruction(instruction) = &mut context.value_mut(v).value {
            instruction.replace_values(&map);
        }
        assert_eq!(v.get_instruction(&context), Some(&Instruction::AddrOf(y)));
    }
    for v in forward(InstructionIterator::new(&context, &block)) {
        assert_eq!(v.get_instruction(&context), Some(&Instruction::AddrOf(y)));
    }
    assert_eq!(block.num_instructions(&context), made.len());
}
