use rustc_hash::FxHashMap;
use sway_ir::constant::Constant;
use sway_ir::context::Context;
use sway_ir::function::Function;
use sway_ir::inserter::InstructionInserter;
use sway_ir::instruction::BinaryOpKind;
use sway_ir::instruction::Instruction;
use sway_ir::irtype::Type;
use sway_ir::pointer::Pointer;
use sway_ir::substitution::try_resolve;
use sway_ir::value::Value;
use sway_ir::value::ValueDatum;

fn constants(context: &mut Context, n: u64) -> Vec<Value> {
    let mut made = Vec::new();
    for k in 0..n {
        let c = Constant::new_uint(context, 64, k);
        made.push(Value::new_constant(context, c));
    }
    made
}

fn sum(arg1: Value, arg2: Value) -> Instruction {
    Instruction::BinaryOp { op: BinaryOpKind::Add, arg1, arg2 }
}

#[test]
fn a_bounded_walk_finds_the_end_of_a_chain_that_is_short_enough() {
    let mut context = Context::new();
    let v = constants(&mut context, 5);
    let mut map: FxHashMap<Value, Value> = FxHashMap::default();
    map.insert(v[0], v[1]);
    map.insert(v[1], v[2]);
    map.insert(v[2], v[3]);
    assert_eq!(try_resolve(&map, v[4], 0), Some(v[4]));
    assert_eq!(try_resolve(&map, v[3], 0), Some(v[3]));
    assert_eq!(try_resolve(&map, v[2], 0), None);
    assert_eq!(try_resolve(&map, v[2], 1), Some(v[3]));
    assert_eq!(try_resolve(&map, v[0], 2), None);
    assert_eq!(try_resolve(&map, v[0], 3), Some(v[3]));
    assert_eq!(try_resolve(&map, v[0], 1000), Some(v[3]));
}

#[test]
fn a_bounded_walk_gives_up_on_a_circle() {
    let mut context = Context::new();
    let v = constants(&mut context, 4);
    let mut map: FxHashMap<Value, Value> = FxHashMap::default();
    map.insert(v[0], v[1]);
    map.insert(v[1], v[2]);
    map.insert(v[2], v[0]);
    map.insert(v[3], v[3]);
    for bound in [0, 1, 2, 3, 10, 1000] {
        assert_eq!(try_resolve(&map, v[0], bound), None);
        assert_eq!(try_resolve(&map, v[1], bound), None);
        assert_eq!(try_resolve(&map, v[3], bound), None);
    }
}

#[test]
fn try_replace_values_rewrites_where_the_chains_end() {
    let mut context = Context::new();
    let v = constants(&mut context, 4);
    let mut map: FxHashMap<Value, Value> = FxHashMap::default();
    map.insert(v[0], v[1]);
    map.insert(v[1], v[2]);
    let mut i = sum(v[0], v[3]);
    assert!(!i.try_replace_values(&map, 1));
    assert_eq!(i, sum(v[0], v[3]));
    assert!(i.try_replace_values(&map, 2));
    assert_eq!(i, sum(v[2], v[3]));
    assert!(i.try_replace_values(&map, 0));
    assert_eq!(i, sum(v[2], v[3]));
    let mut plain = sum(v[0], v[1]);
    plain.replace_values(&map);
    assert_eq!(plain, sum(v[2], v[2]));
}

#[test]
fn try_replace_values_leaves_the_instruction_alone_on_a_circle() {
    let mut context = Context::new();
    let v = constants(&mut context, 4);
    let mut map: FxHashMap<Value, Value> = FxHashMap::default();
    map.insert(v[0], v[1]);
    map.insert(v[1], v[0]);
    map.insert(v[2], v[3]);
    let mut i = Instruction::Store { dst_val: v[2], stored_val: v[0] };
    assert!(!i.try_replace_values(&map, map.len()));
    assert_eq!(i, Instruction::Store { dst_val: v[2], stored_val: v[0] });
    // what does not touch the circle is rewritten
    let mut beside = Instruction::Store { dst_val: v[2], stored_val: v[3] };
    assert!(beside.try_replace_values(&map, map.len()));
    assert_eq!(beside, Instruction::Store { dst_val: v[3], stored_val: v[3] });
    // the operand of a load is never rewritten, so nothing can go wrong
    let mut load = Instruction::Load(v[0]);
    assert!(load.try_replace_values(&map, 0));
    assert_eq!(load, Instruction::Load(v[0]));
}

#[test]
fn a_type_query_with_a_bound_looks_no_deeper() {
    let mut context = Context::new();
    let u8_ty = Type::get_uint(&context, 8);
    let a = Value::new_argument(&mut context, u8_ty);
    let first = Value::new_instruction(&mut context, sum(a, a));
    let second = Value::new_instruction(&mut context, sum(first, a));
    assert_eq!(a.try_get_type(&context, 0), Some(Some(u8_ty)));
    assert_eq!(first.try_get_type(&context, 0), None);
    assert_eq!(first.try_get_type(&context, 1), Some(Some(u8_ty)));
    assert_eq!(second.try_get_type(&context, 1), None);
    assert_eq!(second.try_get_type(&context, 2), Some(Some(u8_ty)));
    assert_eq!(sum(a, a).try_get_type(&context, 0), Some(Some(u8_ty)));
    assert_eq!(sum(second, a).try_get_type(&context, 1), None);
    assert_eq!(sum(second, a).try_get_type(&context, 2), Some(Some(u8_ty)));
    assert_eq!(sum(second, a).get_type(&context), Some(u8_ty));
    assert_eq!(second.get_type(&context), Some(u8_ty));
    let nop = Value::new_instruction(&mut context, Instruction::Nop);
    assert_eq!(nop.try_get_type(&context, 1), Some(None));
    assert_eq!(Instruction::Load(nop).try_get_type(&context, 1), Some(None));
    assert_eq!(Instruction::Nop.try_get_type(&context, 0), Some(None));
}

#[test]
fn a_type_query_with_a_bound_gives_up_on_a_circle() {
    let mut context = Context::new();
    let u8_ty = Type::get_uint(&context, 8);
    let a = Value::new_argument(&mut context, u8_ty);
    let first = Value::new_instruction(&mut context, Instruction::Nop);
    let second = Value::new_instruction(&mut context, sum(first, a));
    context.value_mut(first).value = ValueDatum::Instruction(sum(second, a));
    for depth in [0, 1, 2, 7, 100] {
        assert_eq!(first.try_get_type(&context, depth), None);
        assert_eq!(second.try_get_type(&context, depth), None);
        assert_eq!(Instruction::Load(first).try_get_type(&context, depth), None);
    }
}

#[test]
fn a_type_query_with_a_bound_says_what_is_missing() {
    let mut first = Context::new();
    let mut second = Context::new();
    let u64_ty = Type::get_uint(&first, 64);
    let bool_ty = Type::get_bool(&first);
    let f = Function::new(&mut first, "f".to_string(), vec![], u64_ty);
    let entry = f.get_entry_block(&first).unwrap();
    let a = Value::new_argument(&mut first, u64_ty);

    // a function, a value and a storage location that the context does not know
    assert_eq!(Instruction::Call(f, vec![]).try_get_type(&second, 5), None);
    assert_eq!(Instruction::Call(f, vec![]).try_get_type(&first, 0), Some(Some(u64_ty)));
    assert_eq!(Instruction::Load(a).try_get_type(&second, 5), None);
    assert_eq!(a.try_get_type(&second, 5), None);
    let base = Pointer::new(&mut first, bool_ty, false, None);
    let unknown = Instruction::GetPointer { base_ptr: base, ptr_ty: base, offset: 0 };
    assert_eq!(unknown.try_get_type(&second, 5), None);

    // an address has its type without anything being stored for it
    let stored = first.types.len();
    let address = InstructionInserter::new(&mut first, entry).get_ptr(base, bool_ty, 0);
    let ptr_to_bool = Type::get_pointer(&first, bool_ty);
    assert_eq!(address.try_get_type(&first, 1), Some(Some(ptr_to_bool)));
    assert_eq!(address.try_get_type(&first, 0), None);
    assert_eq!(address.get_type(&first), Some(ptr_to_bool));
    assert_eq!(Type::new_pointer(&mut first, bool_ty, false, None), ptr_to_bool);
    assert_eq!(first.types.len(), stored);

    // an element address whose indices name no element
    let pair = Type::new_struct(&mut second, vec![u64_ty, bool_ty]);
    let q = Value::new_argument(&mut second, pair);
    let beyond = InstructionInserter::new(&mut first, entry).nop();
    let two = Constant::new_uint(&second, 64, 2);
    let two = Value::new_constant(&mut second, two);
    let none = Instruction::GetElmPtr { ptr: q, pointee_ty: pair, indices: vec![two] };
    assert_eq!(none.try_get_type(&second, 3), None);
    let no_constant = Instruction::GetElmPtr { ptr: q, pointee_ty: pair, indices: vec![beyond] };
    assert_eq!(no_constant.try_get_type(&second, 3), None);
    let one = Constant::new_uint(&second, 64, 1);
    let one = Value::new_constant(&mut second, one);
    let some = Instruction::GetElmPtr { ptr: q, pointee_ty: pair, indices: vec![one] };
    assert_eq!(some.try_get_type(&second, 0), Some(Some(Type::get_pointer(&second, bool_ty))));
}

#[test]
fn pools_take_many_entries() {
    let mut context = Context::new();
    let u64_ty = Type::get_uint(&context, 64);
    let mut values = Vec::new();
    for _ in 0..100 {
        values.push(Value::new_argument(&mut context, u64_ty));
    }
    for (at, v) in values.iter().enumerate() {
        assert!(!values[..at].contains(v));
        assert_eq!(context.value(*v).unwrap().value, ValueDatum::Argument(u64_ty));
    }
    let mut types = Vec::new();
    for len in 0..40 {
        types.push(Type::new_string(&mut context, len));
    }
    for (len, t) in types.iter().enumerate() {
        assert_eq!(Type::new_string(&mut context, len as u64), *t);
    }
    assert_eq!(context.values.len(), 100);
    assert_eq!(context.types.len(), 48);
    let f = Function::new(&mut context, "f".to_string(), vec![u64_ty; 20], u64_ty);
    for k in 0..30 {
        f.create_block(&mut context, format!("b{}", k));
        Pointer::new(&mut context, u64_ty, false, None);
    }
    assert_eq!(f.num_blocks(&context), 31);
    assert_eq!(f.num_args(&context), 20);
    assert_eq!(context.pointers.len(), 30);
}
