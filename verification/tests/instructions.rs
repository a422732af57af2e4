use rustc_hash::FxHashMap;
use sway_ir::assembly::AsmArg;
use sway_ir::assembly::AsmBlock;
use sway_ir::assembly::Ident;
use sway_ir::constant::Constant;
use sway_ir::context::Context;
use sway_ir::function::Function;
use sway_ir::instruction::BinaryOpKind;
use sway_ir::instruction::BranchToWithArgs;
use sway_ir::instruction::Instruction;
use sway_ir::instruction::Predicate;
use sway_ir::instruction::Register;
use sway_ir::irtype::Type;
use sway_ir::pointer::Pointer;
use sway_ir::substitution::resolve;
use sway_ir::value::Value;

struct Fixture {
    context: Context,
    values: Vec<Value>,
}

fn fixture() -> Fixture {
    let mut context = Context::new();
    let mut values = Vec::new();
    for n in 0..8 {
        let c = Constant::new_uint(&context, 64, n);
        values.push(Value::new_constant(&mut context, c));
    }
    Fixture { context, values }
}

fn ident(name: &str) -> Ident {
    Ident { name: name.to_string() }
}

fn register(name: &str, initializer: Option<Value>) -> AsmArg {
    AsmArg { name: ident(name), initializer }
}

fn every_kind(fx: &mut Fixture) -> Vec<(Instruction, Vec<Value>)> {
    let v = fx.values.clone();
    let u64_ty = Type::get_uint(&fx.context, 64);
    let f = Function::new(&mut fx.context, "f".to_string(), vec![], u64_ty);
    let e = f.get_entry_block(&fx.context).unwrap();
    let other = f.create_block(&mut fx.context, "other".to_string());
    let p = Pointer::new(&mut fx.context, u64_ty, false, None);
    let body = AsmBlock::new(vec![ident("r1"), ident("r2"), ident("r3")], vec![], u64_ty, None);
    vec![
        (Instruction::AddrOf(v[0]), vec![v[0]]),
        (
            Instruction::AsmBlock(
                body,
                vec![register("r1", Some(v[3])), register("r2", None), register("r3", Some(v[1]))],
            ),
            vec![v[3], v[1]],
        ),
        (Instruction::BinaryOp { op: BinaryOpKind::Add, arg1: v[1], arg2: v[2] }, vec![v[1], v[2]]),
        (Instruction::BitCast(v[2], u64_ty), vec![v[2]]),
        (
            Instruction::Branch(BranchToWithArgs { block: other, args: vec![v[4], v[0], v[4]] }),
            vec![v[4], v[0], v[4]],
        ),
        (Instruction::Call(f, vec![v[5], v[6]]), vec![v[5], v[6]]),
        (Instruction::Cmp(Predicate::Equal, v[6], v[7]), vec![v[6], v[7]]),
        (
            Instruction::ConditionalBranch {
                cond_value: v[0],
                true_block: BranchToWithArgs { block: e, args: vec![v[1], v[2]] },
                false_block: BranchToWithArgs { block: other, args: vec![v[3]] },
            },
            vec![v[0], v[1], v[2], v[3]],
        ),
        (
            Instruction::ContractCall {
                return_type: u64_ty,
                name: "callee".to_string(),
                params: v[3],
                coins: v[2],
                asset_id: v[1],
                gas: v[0],
            },
            vec![v[3], v[2], v[1], v[0]],
        ),
        (Instruction::GetStorageKey, vec![]),
        (Instruction::Gtf { index: v[5], tx_field_id: 12 }, vec![v[5]]),
        (Instruction::GetPointer { base_ptr: p, ptr_ty: p, offset: 4 }, vec![]),
        (
            Instruction::GetElmPtr { ptr: v[6], pointee_ty: u64_ty, indices: vec![v[0], v[1]] },
            vec![v[6]],
        ),
        (Instruction::IntToPtr(v[7], u64_ty), vec![v[7]]),
        (Instruction::Load(v[0]), vec![v[0]]),
        (Instruction::Log { log_val: v[1], log_ty: u64_ty, log_id: v[2] }, vec![v[1], v[2]]),
        (Instruction::MemCopy { dst_val: v[3], src_val: v[4], byte_len: 16 }, vec![v[3], v[4]]),
        (Instruction::Nop, vec![]),
        (Instruction::ReadRegister(Register::Hp), vec![]),
        (Instruction::Ret(v[5], u64_ty), vec![v[5]]),
        (Instruction::Revert(v[6]), vec![v[6]]),
        (Instruction::StateLoadQuadWord { load_val: v[7], key: v[0] }, vec![v[7], v[0]]),
        (Instruction::StateLoadWord(v[1]), vec![v[1]]),
        (Instruction::StateStoreQuadWord { stored_val: v[2], key: v[3] }, vec![v[2], v[3]]),
        (Instruction::StateStoreWord { stored_val: v[4], key: v[5] }, vec![v[4], v[5]]),
        (Instruction::Store { dst_val: v[6], stored_val: v[7] }, vec![v[6], v[7]]),
    ]
}

#[test]
fn operands_of_every_kind() {
    let mut fx = fixture();
    let kinds = every_kind(&mut fx);
    assert_eq!(kinds.len(), 26);
    for (instruction, operands) in kinds {
        assert_eq!(instruction.get_operands(), operands, "{:?}", instruction);
    }
}

#[test]
fn terminators_are_the_four_that_end_a_block() {
    let mut fx = fixture();
    for (instruction, _) in every_kind(&mut fx) {
        let expected = matches!(
            instruction,
            Instruction::Branch(_)
                | Instruction::ConditionalBranch { .. }
                | Instruction::Ret(..)
                | Instruction::Revert(_)
        );
        assert_eq!(instruction.is_terminator(), expected, "{:?}", instruction);
        if expected {
            assert!(!instruction.may_have_side_effect());
        }
    }
}

#[test]
fn side_effects_of_every_kind() {
    let mut fx = fixture();
    let mut with_side_effect = 0;
    for (instruction, _) in every_kind(&mut fx) {
        let expected = matches!(
            instruction,
            Instruction::AsmBlock(..)
                | Instruction::Call(..)
                | Instruction::ContractCall { .. }
                | Instruction::Log { .. }
                | Instruction::MemCopy { .. }
                | Instruction::StateLoadQuadWord { .. }
                | Instruction::StateStoreQuadWord { .. }
                | Instruction::StateStoreWord { .. }
                | Instruction::Store { .. }
        );
        assert_eq!(instruction.may_have_side_effect(), expected, "{:?}", instruction);
        if expected {
            with_side_effect += 1;
        }
    }
    assert_eq!(with_side_effect, 9);
}

#[test]
fn chains_of_replacements_are_followed_to_their_end() {
    let fx = fixture();
    let v = &fx.values;
    let mut map: FxHashMap<Value, Value> = FxHashMap::default();
    map.insert(v[0], v[1]);
    map.insert(v[1], v[2]);
    map.insert(v[2], v[3]);
    map.insert(v[5], v[6]);
    assert_eq!(resolve(&map, v[0]), v[3]);
    assert_eq!(resolve(&map, v[1]), v[3]);
    assert_eq!(resolve(&map, v[2]), v[3]);
    assert_eq!(resolve(&map, v[3]), v[3]);
    assert_eq!(resolve(&map, v[4]), v[4]);
    assert_eq!(resolve(&map, v[5]), v[6]);
    assert_eq!(resolve(&map, v[6]), v[6]);
}

#[test]
fn replace_values_rewrites_every_operand_but_that_of_a_load() {
    let mut fx = fixture();
    let v = fx.values.clone();
    let mut map: FxHashMap<Value, Value> = FxHashMap::default();
    // 0 -> 1 -> 2, 3 -> 4, 6 -> 5
    map.insert(v[0], v[1]);
    map.insert(v[1], v[2]);
    map.insert(v[3], v[4]);
    map.insert(v[6], v[5]);
    let end = |x: Value| resolve(&map, x);
    for (before, operands) in every_kind(&mut fx) {
        let mut after = before.clone();
        after.replace_values(&map);
        if let Instruction::Load(_) = before {
            assert_eq!(after, before);
            continue;
        }
        let expected: Vec<Value> = operands.iter().map(|x| end(*x)).collect();
        assert_eq!(after.get_operands(), expected, "{:?}", before);
        for operand in after.get_operands() {
            assert!(!map.contains_key(&operand), "{:?}", before);
        }
        assert_eq!(std::mem::discriminant(&after), std::mem::discriminant(&before));
        assert_eq!(after.is_terminator(), before.is_terminator());
        assert_eq!(after.may_have_side_effect(), before.may_have_side_effect());
    }
}

#[test]
fn replace_values_leaves_everything_else_alone() {
    let mut fx = fixture();
    let v = fx.values.clone();
    let u64_ty = Type::get_uint(&fx.context, 64);
    let f = Function::new(&mut fx.context, "f".to_string(), vec![], u64_ty);
    let e = f.get_entry_block(&fx.context).unwrap();
    let p = Pointer::new(&mut fx.context, u64_ty, false, None);
    let mut map: FxHashMap<Value, Value> = FxHashMap::default();
    map.insert(v[0], v[7]);
    map.insert(v[1], v[7]);

    let mut store = Instruction::Store { dst_val: v[0], stored_val: v[1] };
    store.replace_values(&map);
    assert_eq!(store, Instruction::Store { dst_val: v[7], stored_val: v[7] });

    let mut load = Instruction::Load(v[0]);
    load.replace_values(&map);
    assert_eq!(load, Instruction::Load(v[0]));

    let mut gep = Instruction::GetElmPtr { ptr: v[0], pointee_ty: u64_ty, indices: vec![v[0], v[1]] };
    gep.replace_values(&map);
    assert_eq!(gep, Instruction::GetElmPtr { ptr: v[7], pointee_ty: u64_ty, indices: vec![v[0], v[1]] });

    let mut get_pointer = Instruction::GetPointer { base_ptr: p, ptr_ty: p, offset: 3 };
    get_pointer.replace_values(&map);
    assert_eq!(get_pointer, Instruction::GetPointer { base_ptr: p, ptr_ty: p, offset: 3 });

    let mut call = Instruction::ContractCall {
        return_type: u64_ty,
        name: "callee".to_string(),
        params: v[0],
        coins: v[1],
        asset_id: v[2],
        gas: v[0],
    };
    call.replace_values(&map);
    assert_eq!(
        call,
        Instruction::ContractCall {
            return_type: u64_ty,
            name: "callee".to_string(),
            params: v[7],
            coins: v[7],
            asset_id: v[2],
            gas: v[7],
        }
    );

    let body = AsmBlock::new(vec![ident("r1"), ident("r2")], vec![], u64_ty, Some(ident("r2")));
    let mut assembly =
        Instruction::AsmBlock(body.clone(), vec![register("r1", Some(v[1])), register("r2", None)]);
    assembly.replace_values(&map);
    assert_eq!(
        assembly,
        Instruction::AsmBlock(body, vec![register("r1", Some(v[7])), register("r2", None)])
    );

    let mut jump = Instruction::ConditionalBranch {
        cond_value: v[1],
        true_block: BranchToWithArgs { block: e, args: vec![v[0], v[2]] },
        false_block: BranchToWithArgs { block: e, args: vec![] },
    };
    jump.replace_values(&map);
    assert_eq!(
        jump,
        Instruction::ConditionalBranch {
            cond_value: v[7],
            true_block: BranchToWithArgs { block: e, args: vec![v[7], v[2]] },
            false_block: BranchToWithArgs { block: e, args: vec![] },
        }
    );

    let mut memory = Instruction::MemCopy { dst_val: v[0], src_val: v[3], byte_len: 24 };
    memory.replace_values(&map);
    assert_eq!(memory, Instruction::MemCopy { dst_val: v[7], src_val: v[3], byte_len: 24 });

    let mut field = Instruction::Gtf { index: v[1], tx_field_id: 42 };
    field.replace_values(&map);
    assert_eq!(field, Instruction::Gtf { index: v[7], tx_field_id: 42 });

    let mut register_read = Instruction::ReadRegister(Register::Cgas);
    register_read.replace_values(&map);
    assert_eq!(register_read, Instruction::ReadRegister(Register::Cgas));
}

#[test]
fn an_empty_map_changes_nothing() {
    let mut fx = fixture();
    let map: FxHashMap<Value, Value> = FxHashMap::default();
    for (before, _) in every_kind(&mut fx) {
        let mut after = before.clone();
        after.replace_values(&map);
        assert_eq!(after, before);
    }
}

#[test]
fn replacing_twice_is_replacing_once() {
    let mut fx = fixture();
    let v = fx.values.clone();
    let mut map: FxHashMap<Value, Value> = FxHashMap::default();
    map.insert(v[0], v[1]);
    let mut chain: FxHashMap<Value, Value> = FxHashMap::default();
    chain.insert(v[0], v[1]);
    chain.insert(v[1], v[4]);
    chain.insert(v[6], v[0]);
    for (before, _) in every_kind(&mut fx) {
        for m in [&map, &chain] {
            let mut once = before.clone();
            once.replace_values(m);
            let mut twice = once.clone();
            twice.replace_values(m);
            assert_eq!(twice, once, "{:?}", before);
        }
    }
}

#[test]
fn a_replaced_value_is_no_operand_afterwards() {
    let mut fx = fixture();
    let v = fx.values.clone();
    for a in 0..v.len() {
        let b = (a + 3) % v.len();
        let mut map: FxHashMap<Value, Value> = FxHashMap::default();
        map.insert(v[a], v[b]);
        for (before, _) in every_kind(&mut fx) {
            let mut after = before.clone();
            after.replace_values(&map);
            if matches!(before, Instruction::Load(_)) {
                assert_eq!(after, before);
            } else {
                assert!(!after.get_operands().contains(&v[a]), "{:?}", before);
            }
        }
    }
}
