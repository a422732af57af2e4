use sway_ir::constant::Constant;
use sway_ir::constant::ConstantValue;
use sway_ir::context::Context;
use sway_ir::irtype::Type;
use sway_ir::irtype::TypeContent;
use sway_ir::value::Value;

fn uint_constant(context: &mut Context, n: u64) -> Value {
    let c = Constant::new_uint(context, 64, n);
    Value::new_constant(context, c)
}

#[test]
fn a_new_context_has_the_basic_types() {
    let context = Context::new();
    assert_eq!(context.type_list.len(), 8);
    let unit = Type::get_unit(&context);
    let boolean = Type::get_bool(&context);
    let b256 = Type::get_b256(&context);
    assert_eq!(unit.get_content(&context), Some(&TypeContent::Unit));
    assert_eq!(boolean.get_content(&context), Some(&TypeContent::Bool));
    assert_eq!(b256.get_content(&context), Some(&TypeContent::B256));
    for width in [8u16, 16, 32, 64, 256] {
        let t = Type::get_uint(&context, width);
        assert_eq!(t.get_content(&context), Some(&TypeContent::Uint(width)));
    }
    assert_eq!(Type::get_type(&context, &TypeContent::Uint(7)), None);
    assert_eq!(Type::get_type(&context, &TypeContent::String(3)), None);
}

#[test]
fn basic_types_have_different_names() {
    let context = Context::new();
    let names = vec![
        Type::get_unit(&context),
        Type::get_bool(&context),
        Type::get_uint(&context, 8),
        Type::get_uint(&context, 16),
        Type::get_uint(&context, 32),
        Type::get_uint(&context, 64),
        Type::get_uint(&context, 256),
        Type::get_b256(&context),
    ];
    for i in 0..names.len() {
        for j in 0..names.len() {
            assert_eq!(names[i] == names[j], i == j);
        }
    }
}

#[test]
fn equal_structure_gives_equal_names() {
    let mut context = Context::new();
    let u64_ty = Type::get_uint(&context, 64);
    let bool_ty = Type::get_bool(&context);
    let before = context.type_list.len();
    assert_eq!(Type::intern(&mut context, TypeContent::Uint(64)), u64_ty);
    assert_eq!(Type::intern(&mut context, TypeContent::Bool), bool_ty);
    assert_eq!(context.type_list.len(), before);

    let a1 = Type::new_array(&mut context, bool_ty, 4);
    let a2 = Type::new_array(&mut context, bool_ty, 4);
    let a3 = Type::new_array(&mut context, bool_ty, 5);
    let a4 = Type::new_array(&mut context, u64_ty, 4);
    assert_eq!(a1, a2);
    assert_ne!(a1, a3);
    assert_ne!(a1, a4);

    let s1 = Type::new_struct(&mut context, vec![u64_ty, a1]);
    let s2 = Type::new_struct(&mut context, vec![u64_ty, a2]);
    let s3 = Type::new_struct(&mut context, vec![a1, u64_ty]);
    let s4 = Type::new_struct(&mut context, vec![u64_ty]);
    let s5 = Type::new_struct(&mut context, vec![]);
    assert_eq!(s1, s2);
    assert_ne!(s1, s3);
    assert_ne!(s1, s4);
    assert_ne!(s4, s5);

    let str1 = Type::new_string(&mut context, 10);
    let str2 = Type::new_string(&mut context, 10);
    let str3 = Type::new_string(&mut context, 11);
    assert_eq!(str1, str2);
    assert_ne!(str1, str3);

    assert_eq!(Type::get_type(&context, &TypeContent::String(10)), Some(str1));
    assert_eq!(Type::get_type(&context, &TypeContent::String(12)), None);
    assert_eq!(Type::get_type(&context, &TypeContent::Struct(vec![u64_ty, a1])), Some(s1));
    // three arrays, four structs and two strings are new
    assert_eq!(context.type_list.len(), before + 9);
}

#[test]
fn pointer_types_differ_by_mutability_and_initializer() {
    let mut context = Context::new();
    let u64_ty = Type::get_uint(&context, 64);
    let plain = Type::new_pointer(&mut context, u64_ty, false, None);
    assert_eq!(Type::new_pointer(&mut context, u64_ty, false, None), plain);
    assert_eq!(Type::get_pointer(&context, u64_ty), plain);
    let mutable = Type::new_pointer(&mut context, u64_ty, true, None);
    assert_ne!(mutable, plain);

    let five = Constant::new_uint(&context, 64, 5);
    let five_again = Constant::new_uint(&context, 64, 5);
    let six = Constant::new_uint(&context, 64, 6);
    let with_five = Type::new_pointer(&mut context, u64_ty, false, Some(five));
    let with_five_again = Type::new_pointer(&mut context, u64_ty, false, Some(five_again));
    let with_six = Type::new_pointer(&mut context, u64_ty, false, Some(six));
    assert_eq!(with_five, with_five_again);
    assert_ne!(with_five, with_six);
    assert_ne!(with_five, plain);
}

#[test]
fn plain_pointers_are_named_without_being_stored() {
    let mut context = Context::new();
    let u64_ty = Type::get_uint(&context, 64);
    let stored = context.types.len();
    let once = Type::get_pointer(&context, u64_ty);
    let twice = Type::get_pointer(&context, once);
    assert_ne!(once, u64_ty);
    assert_ne!(twice, once);
    assert_eq!(Type::new_pointer(&mut context, u64_ty, false, None), once);
    assert_eq!(Type::new_pointer(&mut context, once, false, None), twice);
    assert_eq!(context.types.len(), stored);
    assert_eq!(context.type_list.len(), stored);
    assert!(once.is_pointer(&context));
    assert!(twice.is_pointer(&context));
    assert!(!once.is_array(&context));
    assert!(!once.is_struct(&context));
    assert_eq!(twice.strip_ptr_type(&context), once);
    assert_eq!(once.strip_ptr_type(&context), u64_ty);
    assert_eq!(once.get_content(&context), None);
    assert_eq!(once.get_field_type(&context, 0), None);
    assert!(context.knows_type(once));
    assert!(context.knows_type(twice));
    let plain = TypeContent::Pointer { pointee: u64_ty, is_mutable: false, initializer: None };
    assert_eq!(Type::get_type(&context, &plain), Some(once));
    // a pointer to a type that another context made is no type of this one
    let mut other = Context::new();
    let foreign = Type::new_string(&mut other, 3);
    let to_foreign = TypeContent::Pointer { pointee: foreign, is_mutable: false, initializer: None };
    assert!(!context.knows_type(foreign));
    assert_eq!(Type::get_type(&context, &to_foreign), None);
    assert_eq!(Type::get_type(&other, &to_foreign), Some(Type::get_pointer(&other, foreign)));
    // a mutable pointer has a descriptor of its own
    let mutable = Type::new_pointer(&mut context, u64_ty, true, None);
    assert_eq!(context.types.len(), stored + 1);
    assert_eq!(
        mutable.get_content(&context),
        Some(&TypeContent::Pointer { pointee: u64_ty, is_mutable: true, initializer: None })
    );
    assert_eq!(mutable.strip_ptr_type(&context), u64_ty);
    assert_eq!(Type::get_pointer(&context, mutable).strip_ptr_type(&context), mutable);
}

#[test]
fn initializers_are_compared_with_their_children() {
    let mut context = Context::new();
    let u64_ty = Type::get_uint(&context, 64);
    let pair_ty = Type::new_struct(&mut context, vec![u64_ty, u64_ty]);
    let pair = |context: &Context, a: u64, b: u64| Constant {
        ty: pair_ty,
        value: ConstantValue::Struct(vec![
            Constant::new_uint(context, 64, a),
            Constant::new_uint(context, 64, b),
        ]),
    };
    let p12 = pair(&context, 1, 2);
    let p12_again = pair(&context, 1, 2);
    let p13 = pair(&context, 1, 3);
    assert!(p12.same_as(&p12_again));
    assert!(!p12.same_as(&p13));
    let t1 = Type::new_pointer(&mut context, pair_ty, false, Some(p12));
    let t2 = Type::new_pointer(&mut context, pair_ty, false, Some(p12_again));
    let t3 = Type::new_pointer(&mut context, pair_ty, false, Some(p13));
    assert_eq!(t1, t2);
    assert_ne!(t1, t3);
}

#[test]
fn constants_are_compared_by_type_and_payload() {
    let context = Context::new();
    let unit = Constant::new_unit(&context);
    let yes = Constant::new_bool(&context, true);
    let no = Constant::new_bool(&context, false);
    let n8 = Constant::new_uint(&context, 8, 1);
    let n64 = Constant::new_uint(&context, 64, 1);
    let word = Constant::new_b256(&context, [7; 32]);
    let other_word = Constant::new_b256(&context, [8; 32]);
    assert_eq!(unit.ty, Type::get_unit(&context));
    assert_eq!(unit.value, ConstantValue::Unit);
    assert_eq!(yes.ty, Type::get_bool(&context));
    assert_eq!(yes.value, ConstantValue::Bool(true));
    assert_eq!(n8.ty, Type::get_uint(&context, 8));
    assert_eq!(n64.value, ConstantValue::Uint(1));
    assert_eq!(word.ty, Type::get_b256(&context));
    assert_eq!(word.value, ConstantValue::B256([7; 32]));
    assert!(unit.same_as(&Constant::new_unit(&context)));
    assert!(yes.same_as(&Constant::new_bool(&context, true)));
    assert!(!yes.same_as(&no));
    assert!(!n8.same_as(&n64));
    assert!(!unit.same_as(&yes));
    assert!(word.same_as(&Constant::new_b256(&context, [7; 32])));
    assert!(!word.same_as(&other_word));
    let mut last_differs = [7u8; 32];
    last_differs[31] = 9;
    assert!(!word.same_as(&Constant::new_b256(&context, last_differs)));
    let text = Constant { ty: unit.ty, value: ConstantValue::String(vec![b'a', b'b']) };
    let same_text = Constant { ty: unit.ty, value: ConstantValue::String(vec![b'a', b'b']) };
    let longer_text = Constant { ty: unit.ty, value: ConstantValue::String(vec![b'a', b'b', b'c']) };
    assert!(text.same_as(&same_text));
    assert!(!text.same_as(&longer_text));
    let array = Constant { ty: unit.ty, value: ConstantValue::Array(vec![]) };
    let record = Constant { ty: unit.ty, value: ConstantValue::Struct(vec![]) };
    assert!(!array.same_as(&record));
}

#[test]
fn type_descriptors_are_compared_by_structure() {
    let context = Context::new();
    let u64_ty = Type::get_uint(&context, 64);
    let bool_ty = Type::get_bool(&context);
    assert!(TypeContent::Unit.same_as(&TypeContent::Unit));
    assert!(!TypeContent::Unit.same_as(&TypeContent::Bool));
    assert!(TypeContent::Uint(8).same_as(&TypeContent::Uint(8)));
    assert!(!TypeContent::Uint(8).same_as(&TypeContent::Uint(16)));
    assert!(!TypeContent::B256.same_as(&TypeContent::Uint(256)));
    assert!(TypeContent::String(2).same_as(&TypeContent::String(2)));
    assert!(!TypeContent::String(2).same_as(&TypeContent::String(3)));
    assert!(TypeContent::Array(u64_ty, 2).same_as(&TypeContent::Array(u64_ty, 2)));
    assert!(!TypeContent::Array(u64_ty, 2).same_as(&TypeContent::Array(bool_ty, 2)));
    assert!(TypeContent::Struct(vec![u64_ty, bool_ty]).same_as(&TypeContent::Struct(vec![u64_ty, bool_ty])));
    assert!(!TypeContent::Struct(vec![u64_ty, bool_ty]).same_as(&TypeContent::Struct(vec![bool_ty, u64_ty])));
    assert!(!TypeContent::Struct(vec![u64_ty]).same_as(&TypeContent::Array(u64_ty, 1)));
}

#[test]
fn kinds_of_types() {
    let mut context = Context::new();
    let u64_ty = Type::get_uint(&context, 64);
    let array_ty = Type::new_array(&mut context, u64_ty, 3);
    let struct_ty = Type::new_struct(&mut context, vec![u64_ty]);
    let ptr_ty = Type::new_pointer(&mut context, array_ty, false, None);
    assert!(array_ty.is_array(&context));
    assert!(!array_ty.is_struct(&context));
    assert!(!array_ty.is_pointer(&context));
    assert!(struct_ty.is_struct(&context));
    assert!(!struct_ty.is_array(&context));
    assert!(ptr_ty.is_pointer(&context));
    assert!(!ptr_ty.is_array(&context));
    assert!(!u64_ty.is_array(&context));
    assert!(!u64_ty.is_struct(&context));
    assert!(!u64_ty.is_pointer(&context));
}

#[test]
fn strip_ptr_type_takes_one_pointer_off() {
    let mut context = Context::new();
    let u64_ty = Type::get_uint(&context, 64);
    let ptr_ty = Type::new_pointer(&mut context, u64_ty, true, None);
    let ptr_ptr_ty = Type::new_pointer(&mut context, ptr_ty, false, None);
    assert_eq!(ptr_ty.strip_ptr_type(&context), u64_ty);
    assert_eq!(ptr_ptr_ty.strip_ptr_type(&context), ptr_ty);
    assert_eq!(u64_ty.strip_ptr_type(&context), u64_ty);
}

#[test]
fn field_types() {
    let mut context = Context::new();
    let u64_ty = Type::get_uint(&context, 64);
    let bool_ty = Type::get_bool(&context);
    let array_ty = Type::new_array(&mut context, bool_ty, 4);
    let struct_ty = Type::new_struct(&mut context, vec![u64_ty, array_ty]);
    assert_eq!(struct_ty.get_field_type(&context, 0), Some(u64_ty));
    assert_eq!(struct_ty.get_field_type(&context, 1), Some(array_ty));
    assert_eq!(struct_ty.get_field_type(&context, 2), None);
    assert_eq!(array_ty.get_field_type(&context, 0), Some(bool_ty));
    assert_eq!(array_ty.get_field_type(&context, 3), Some(bool_ty));
    assert_eq!(array_ty.get_field_type(&context, 4), None);
    assert_eq!(u64_ty.get_field_type(&context, 0), None);
}

#[test]
fn indexed_types() {
    let mut context = Context::new();
    let u64_ty = Type::get_uint(&context, 64);
    let bool_ty = Type::get_bool(&context);
    let array_ty = Type::new_array(&mut context, bool_ty, 4);
    let inner_ty = Type::new_struct(&mut context, vec![u64_ty, array_ty]);
    let outer_ty = Type::new_struct(&mut context, vec![inner_ty, bool_ty]);
    let zero = uint_constant(&mut context, 0);
    let one = uint_constant(&mut context, 1);
    let three = uint_constant(&mut context, 3);
    let four = uint_constant(&mut context, 4);
    let parameter = Value::new_argument(&mut context, u64_ty);
    let truth = Constant::new_bool(&context, true);
    let truth = Value::new_constant(&mut context, truth);

    assert_eq!(outer_ty.get_indexed_type(&context, &[]), None);
    assert_eq!(outer_ty.get_indexed_type(&context, &[zero]), Some(inner_ty));
    assert_eq!(outer_ty.get_indexed_type(&context, &[one]), Some(bool_ty));
    assert_eq!(outer_ty.get_indexed_type(&context, &[zero, zero]), Some(u64_ty));
    assert_eq!(outer_ty.get_indexed_type(&context, &[zero, one]), Some(array_ty));
    assert_eq!(outer_ty.get_indexed_type(&context, &[zero, one, three]), Some(bool_ty));
    // a member that is not there
    assert_eq!(outer_ty.get_indexed_type(&context, &[zero, one, four]), None);
    assert_eq!(outer_ty.get_indexed_type(&context, &[three]), None);
    // a member of something that has no members
    assert_eq!(outer_ty.get_indexed_type(&context, &[one, zero]), None);
    assert_eq!(outer_ty.get_indexed_type(&context, &[zero, zero, zero]), None);
    // an index that is no unsigned integer constant
    assert_eq!(outer_ty.get_indexed_type(&context, &[parameter]), None);
    assert_eq!(outer_ty.get_indexed_type(&context, &[truth]), None);
    // a failure is not made good by what follows
    assert_eq!(outer_ty.get_indexed_type(&context, &[three, zero]), None);
}
