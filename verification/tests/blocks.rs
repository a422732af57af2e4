use sway_ir::block::Block;
use sway_ir::constant::Constant;
use sway_ir::context::Context;
use sway_ir::function::Function;
use sway_ir::inserter::InstructionInserter;
use sway_ir::instruction::Instruction;
use sway_ir::irtype::Type;
use sway_ir::module::Module;
use sway_ir::value::Value;
use sway_ir::value::ValueDatum;

#[test]
fn a_new_function_has_an_entry_block_with_its_parameters() {
    let mut context = Context::new();
    let u64_ty = Type::get_uint(&context, 64);
    let bool_ty = Type::get_bool(&context);
    let f = Function::new(&mut context, "main".to_string(), vec![u64_ty, bool_ty, u64_ty], bool_ty);
    let content = context.function(f).unwrap();
    assert_eq!(content.name, "main");
    assert_eq!(content.return_type, bool_ty);
    assert_eq!(content.blocks.len(), 1);
    assert_eq!(f.get_return_type(&context), Some(bool_ty));
    assert_eq!(f.num_blocks(&context), 1);
    assert_eq!(f.num_args(&context), 3);
    let entry = f.get_entry_block(&context).unwrap();
    assert_eq!(f.get_block(&context, 0), Some(entry));
    assert_eq!(f.get_block(&context, 1), None);
    assert_eq!(context.block(entry).unwrap().label, "entry");
    assert_eq!(entry.get_function(&context), f);
    assert_eq!(entry.num_args(&context), 3);
    assert_eq!(entry.num_instructions(&context), 0);
    assert_eq!(entry.num_preds(&context), 0);
    let types = [u64_ty, bool_ty, u64_ty];
    for i in 0..3 {
        let of_function = f.get_arg(&context, i).unwrap();
        let of_block = entry.get_arg(&context, i).unwrap();
        assert_eq!(of_function, of_block);
        assert_eq!(context.value(of_block).unwrap().value, ValueDatum::Argument(types[i]));
    }
    assert_eq!(f.get_arg(&context, 3), None);
    assert_eq!(entry.get_arg(&context, 3), None);
    assert_ne!(f.get_arg(&context, 0), f.get_arg(&context, 2));
    assert_eq!(context.values.len(), 3);
    assert_eq!(context.blocks.len(), 1);
    assert_eq!(context.functions.len(), 1);
}

#[test]
fn functions_do_not_share_blocks() {
    let mut context = Context::new();
    let unit = Type::get_unit(&context);
    let f = Function::new(&mut context, "f".to_string(), vec![], unit);
    let g = Function::new(&mut context, "g".to_string(), vec![unit], unit);
    assert_ne!(f, g);
    assert_ne!(f.get_entry_block(&context), g.get_entry_block(&context));
    assert_eq!(f.num_args(&context), 0);
    assert_eq!(g.num_args(&context), 1);
    assert_eq!(context.function(f).unwrap().name, "f");
    assert_eq!(context.function(g).unwrap().name, "g");
}

#[test]
fn new_blocks_are_empty_and_listed_with_their_function() {
    let mut context = Context::new();
    let unit = Type::get_unit(&context);
    let f = Function::new(&mut context, "f".to_string(), vec![], unit);
    let entry = f.get_entry_block(&context).unwrap();
    let a = f.create_block(&mut context, "a".to_string());
    let b = Block::new(&mut context, f, "b".to_string());
    assert_ne!(a, b);
    assert_ne!(a, entry);
    assert_eq!(f.num_blocks(&context), 3);
    assert_eq!(f.get_block(&context, 0), Some(entry));
    assert_eq!(f.get_block(&context, 1), Some(a));
    assert_eq!(f.get_block(&context, 2), Some(b));
    assert_eq!(f.get_entry_block(&context), Some(entry));
    for (block, label) in [(a, "a"), (b, "b")] {
        let content = context.block(block).unwrap();
        assert_eq!(content.label, label);
        assert_eq!(content.function, f);
        assert!(content.args.is_empty());
        assert!(content.instructions.is_empty());
        assert!(content.preds.is_empty());
        assert!(block.get_terminator(&context).is_none());
    }
}

#[test]
fn a_block_of_an_unknown_function_is_listed_nowhere() {
    let mut first = Context::new();
    let mut second = Context::new();
    let unit = Type::get_unit(&first);
    let f = Function::new(&mut first, "f".to_string(), vec![], unit);
    let stray = Block::new(&mut second, f, "stray".to_string());
    assert_eq!(second.functions.len(), 0);
    assert_eq!(second.blocks.len(), 1);
    assert_eq!(stray.get_function(&second), f);
    assert_eq!(stray.num_instructions(&second), 0);
}

#[test]
fn block_parameters_are_added_at_the_end() {
    let mut context = Context::new();
    let u64_ty = Type::get_uint(&context, 64);
    let bool_ty = Type::get_bool(&context);
    let f = Function::new(&mut context, "f".to_string(), vec![], u64_ty);
    let b = f.create_block(&mut context, "b".to_string());
    let x = b.add_block_param(&mut context, u64_ty);
    let y = b.add_block_param(&mut context, bool_ty);
    assert_ne!(x, y);
    assert_eq!(b.num_args(&context), 2);
    assert_eq!(b.get_arg(&context, 0), Some(x));
    assert_eq!(b.get_arg(&context, 1), Some(y));
    assert_eq!(context.value(x).unwrap().value, ValueDatum::Argument(u64_ty));
    assert_eq!(context.value(y).unwrap().value, ValueDatum::Argument(bool_ty));
    assert_eq!(x.get_type(&context), Some(u64_ty));
    let entry = f.get_entry_block(&context).unwrap();
    assert_eq!(entry.num_args(&context), 0);
    assert_eq!(f.num_args(&context), 0);
}

#[test]
fn add_pred_is_idempotent() {
    let mut context = Context::new();
    let unit = Type::get_unit(&context);
    let f = Function::new(&mut context, "f".to_string(), vec![], unit);
    let a = f.get_entry_block(&context).unwrap();
    let b = f.create_block(&mut context, "b".to_string());
    let c = f.create_block(&mut context, "c".to_string());
    assert!(!c.has_pred(&context, &a));
    c.add_pred(&mut context, &a);
    assert_eq!(context.block(c).unwrap().preds, vec![a]);
    c.add_pred(&mut context, &a);
    assert_eq!(context.block(c).unwrap().preds, vec![a]);
    c.add_pred(&mut context, &b);
    c.add_pred(&mut context, &a);
    c.add_pred(&mut context, &c);
    c.add_pred(&mut context, &b);
    assert_eq!(context.block(c).unwrap().preds, vec![a, b, c]);
    assert_eq!(c.num_preds(&context), 3);
    assert!(c.has_pred(&context, &a));
    assert!(c.has_pred(&context, &b));
    assert!(c.has_pred(&context, &c));
    assert_eq!(a.num_preds(&context), 0);
    assert_eq!(b.num_preds(&context), 0);
    assert!(!a.has_pred(&context, &c));
}

#[test]
fn the_terminator_is_the_last_instruction_if_it_ends_the_block() {
    let mut context = Context::new();
    let u64_ty = Type::get_uint(&context, 64);
    let f = Function::new(&mut context, "f".to_string(), vec![u64_ty], u64_ty);
    let entry = f.get_entry_block(&context).unwrap();
    let x = f.get_arg(&context, 0).unwrap();
    assert!(entry.get_terminator(&context).is_none());
    let load = InstructionInserter::new(&mut context, entry).load(x);
    assert!(entry.get_terminator(&context).is_none());
    let ret = InstructionInserter::new(&mut context, entry).ret(load, u64_ty);
    assert_eq!(entry.get_terminator(&context), Some(&Instruction::Ret(load, u64_ty)));
    assert!(ret.is_terminator(&context));
    assert!(!load.is_terminator(&context));
    assert!(!x.is_terminator(&context));
    // every instruction but the last is no terminator
    let instructions = context.block(entry).unwrap().instructions.clone();
    for (at, v) in instructions.iter().enumerate() {
        assert_eq!(v.is_terminator(&context), at == instructions.len() - 1);
    }
    // a constant at the end of the list is no terminator
    let stray = f.create_block(&mut context, "stray".to_string());
    let c = Constant::new_uint(&context, 64, 1);
    let c = Value::new_constant(&mut context, c);
    context.block_mut(stray).instructions.push(c);
    assert!(stray.get_terminator(&context).is_none());
}

#[test]
fn blocks_and_functions_can_be_changed_in_place() {
    let mut context = Context::new();
    let unit = Type::get_unit(&context);
    let f = Function::new(&mut context, "f".to_string(), vec![], unit);
    let g = Function::new(&mut context, "g".to_string(), vec![], unit);
    let entry = f.get_entry_block(&context).unwrap();
    context.block_mut(entry).label = "start".to_string();
    context.function_mut(f).name = "renamed".to_string();
    assert_eq!(context.block(entry).unwrap().label, "start");
    assert_eq!(context.function(f).unwrap().name, "renamed");
    assert_eq!(context.function(g).unwrap().name, "g");
    let other = g.get_entry_block(&context).unwrap();
    assert_eq!(context.block(other).unwrap().label, "entry");
}

#[test]
fn modules_list_their_functions_in_order() {
    let mut context = Context::new();
    let unit = Type::get_unit(&context);
    let f = Function::new(&mut context, "f".to_string(), vec![], unit);
    let g = Function::new(&mut context, "g".to_string(), vec![], unit);
    let mut module = Module::new("program".to_string());
    assert_eq!(module.num_functions(), 0);
    assert_eq!(module.get_function(0), None);
    module.add_function(f);
    module.add_function(g);
    assert_eq!(module.name, "program");
    assert_eq!(module.num_functions(), 2);
    assert_eq!(module.get_function(0), Some(f));
    assert_eq!(module.get_function(1), Some(g));
    assert_eq!(module.get_function(2), None);
}
