use sway_ir::block::Block;
use sway_ir::constant::Constant;
use sway_ir::context::Context;
use sway_ir::function::Function;
use sway_ir::inserter::InstructionInserter;
use sway_ir::instruction::BinaryOpKind;
use sway_ir::instruction::BranchToWithArgs;
use sway_ir::instruction::Instruction;
use sway_ir::instruction::Predicate;
use sway_ir::irtype::Type;
use sway_ir::module::Module;
use sway_ir::value::Value;

/// A function that counts down from its parameter: an entry block, a loop
/// block that jumps to itself or leaves, and an exit block.
fn countdown(context: &mut Context) -> (Module, Function) {
    let u64_ty = Type::get_uint(context, 64);
    let f = Function::new(context, "countdown".to_string(), vec![u64_ty], u64_ty);
    let entry = f.get_entry_block(context).unwrap();
    let n = f.get_arg(context, 0).unwrap();
    let head = f.create_block(context, "head".to_string());
    let i = head.add_block_param(context, u64_ty);
    let exit = f.create_block(context, "exit".to_string());
    let result = exit.add_block_param(context, u64_ty);

    InstructionInserter::new(context, entry).branch(head, vec![n]);

    let zero = Constant::new_uint(context, 64, 0);
    let zero = Value::new_constant(context, zero);
    let one = Constant::new_uint(context, 64, 1);
    let one = Value::new_constant(context, one);
    let done = InstructionInserter::new(context, head).cmp(Predicate::Equal, i, zero);
    let less = InstructionInserter::new(context, head).binary_op(BinaryOpKind::Sub, i, one);
    InstructionInserter::new(context, head).conditional_branch(done, exit, head, vec![i], vec![less]);

    InstructionInserter::new(context, exit).ret(result, u64_ty);

    let mut module = Module::new("program".to_string());
    module.add_function(f);
    (module, f)
}

fn blocks_of(context: &Context, module: &Module) -> Vec<Block> {
    let mut blocks = Vec::new();
    for at in 0..module.num_functions() {
        let f = module.get_function(at).unwrap();
        for k in 0..f.num_blocks(context) {
            blocks.push(f.get_block(context, k).unwrap());
        }
    }
    blocks
}

fn arms(instruction: &Instruction) -> Vec<&BranchToWithArgs> {
    match instruction {
        Instruction::Branch(to) => vec![to],
        Instruction::ConditionalBranch { true_block, false_block, .. } => vec![true_block, false_block],
        _ => vec![],
    }
}

#[test]
fn every_block_ends_with_its_only_terminator() {
    let mut context = Context::new();
    let (module, _) = countdown(&mut context);
    let blocks = blocks_of(&context, &module);
    assert_eq!(blocks.len(), 3);
    for block in blocks {
        let mut walk = block.instruction_iter(&context);
        let n = block.num_instructions(&context);
        assert!(n > 0);
        let mut at = 0;
        while let Some(v) = walk.next() {
            let instruction = v.get_instruction(&context).unwrap();
            assert_eq!(instruction.is_terminator(), at == n - 1);
            at += 1;
        }
        assert_eq!(at, n);
        assert!(block.get_terminator(&context).is_some());
    }
}

#[test]
fn every_branch_agrees_with_its_target() {
    let mut context = Context::new();
    let (module, _) = countdown(&mut context);
    let mut edges = 0;
    for block in blocks_of(&context, &module) {
        let mut walk = block.instruction_iter(&context);
        while let Some(v) = walk.next() {
            for arm in arms(v.get_instruction(&context).unwrap()) {
                edges += 1;
                assert!(arm.block.has_pred(&context, &block));
                assert_eq!(arm.args.len(), arm.block.num_args(&context));
                for (k, arg) in arm.args.iter().enumerate() {
                    let parameter = arm.block.get_arg(&context, k).unwrap();
                    let ty = arg.get_type(&context);
                    assert!(ty.is_some());
                    assert_eq!(ty, parameter.get_type(&context));
                }
            }
        }
    }
    assert_eq!(edges, 3);
}

#[test]
fn predecessors_are_those_that_branch() {
    let mut context = Context::new();
    let (_, f) = countdown(&mut context);
    let entry = f.get_block(&context, 0).unwrap();
    let head = f.get_block(&context, 1).unwrap();
    let exit = f.get_block(&context, 2).unwrap();
    assert_eq!(entry.get_preds(&context), vec![]);
    assert_eq!(head.get_preds(&context), vec![entry, head]);
    assert_eq!(exit.get_preds(&context), vec![head]);
}

#[test]
fn every_operand_is_a_value_of_the_context() {
    let mut context = Context::new();
    let (module, _) = countdown(&mut context);
    let mut operands = 0;
    for block in blocks_of(&context, &module) {
        let mut walk = block.instruction_iter(&context);
        while let Some(v) = walk.next() {
            for operand in v.get_instruction(&context).unwrap().get_operands() {
                operands += 1;
                assert!(context.value(operand).is_some());
            }
        }
    }
    // n; i, 0; i, 1; done, i, less; result
    assert_eq!(operands, 9);
}

#[test]
fn every_instruction_stands_in_one_place() {
    let mut context = Context::new();
    let (module, _) = countdown(&mut context);
    let mut listed = Vec::new();
    for block in blocks_of(&context, &module) {
        let mut walk = block.instruction_iter(&context);
        while let Some(v) = walk.next() {
            assert!(!listed.contains(&v));
            assert!(v.get_instruction(&context).is_some());
            listed.push(v);
        }
    }
    assert_eq!(listed.len(), 5);
    let of_instructions = context
        .values
        .iter()
        .filter(|(_, content)| matches!(content.value, sway_ir::value::ValueDatum::Instruction(_)))
        .count();
    assert_eq!(of_instructions, listed.len());
}
