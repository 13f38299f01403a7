use haybale_pitchfork::abstractdata::{AbstractData, AbstractValue, CompleteAbstractData, StructDescriptions};
use haybale_pitchfork::llvmtype::{LlvmType, NamedStructDef, StructTable};

fn int_ty(bits: u32) -> LlvmType {
    LlvmType::Integer { bits }
}

fn ptr(ty: LlvmType) -> LlvmType {
    LlvmType::Pointer { pointee_type: Box::new(ty) }
}

fn named(name: &str) -> LlvmType {
    LlvmType::NamedStruct { name: name.to_owned() }
}

fn unconstrained(bits: usize) -> CompleteAbstractData {
    CompleteAbstractData::PublicValue { bits, value: AbstractValue::Unconstrained }
}

#[test]
fn constructors_give_the_expected_sizes() {
    assert_eq!(CompleteAbstractData::pub_i8(AbstractValue::Unconstrained).size_in_bits(), 8);
    assert_eq!(CompleteAbstractData::pub_i16(AbstractValue::ExactValue(3)).size_in_bits(), 16);
    assert_eq!(CompleteAbstractData::pub_i32(AbstractValue::Range(1, 5)).size_in_bits(), 32);
    assert_eq!(CompleteAbstractData::pub_i64(AbstractValue::Unconstrained).size_in_bits(), 64);
    assert_eq!(CompleteAbstractData::pub_integer(12, AbstractValue::Unconstrained).size_in_bits(), 12);
    assert_eq!(CompleteAbstractData::sec_i8().size_in_bits(), 8);
    assert_eq!(CompleteAbstractData::sec_i16().size_in_bits(), 16);
    assert_eq!(CompleteAbstractData::sec_i32().size_in_bits(), 32);
    assert_eq!(CompleteAbstractData::sec_i64().size_in_bits(), 64);
    assert_eq!(CompleteAbstractData::sec_integer(7).size_in_bits(), 7);
    assert_eq!(CompleteAbstractData::pub_pointer_to(CompleteAbstractData::sec_i8()).size_in_bits(), 64);
    assert_eq!(CompleteAbstractData::pub_pointer_to_func("foo").size_in_bits(), 64);
    assert_eq!(CompleteAbstractData::pub_pointer_to_hook("hook").size_in_bits(), 64);
    assert_eq!(CompleteAbstractData::pub_pointer_to_self().size_in_bits(), 64);
    assert_eq!(CompleteAbstractData::pub_pointer_to_parent().size_in_bits(), 64);
    assert_eq!(CompleteAbstractData::array_of(CompleteAbstractData::sec_i32(), 10).size_in_bits(), 320);
}

#[test]
fn struct_sizes_and_offsets() {
    let s = CompleteAbstractData::_struct(
        "s",
        vec![
            CompleteAbstractData::sec_i8(),
            CompleteAbstractData::pub_i32(AbstractValue::Unconstrained),
            CompleteAbstractData::pub_pointer_to(CompleteAbstractData::sec_i64()),
        ],
    );
    assert_eq!(s.size_in_bits(), 8 + 32 + 64);
    assert_eq!(s.field_size_in_bits(0), 8);
    assert_eq!(s.field_size_in_bits(1), 32);
    assert_eq!(s.field_size_in_bits(2), 64);
    assert_eq!(s.offset_in_bits(0), 0);
    assert_eq!(s.offset_in_bits(1), 8);
    assert_eq!(s.offset_in_bits(2), 40);
    assert_eq!(s.offset_in_bits(3), 104);
    let arr = CompleteAbstractData::array_of(CompleteAbstractData::sec_i16(), 4);
    assert_eq!(arr.field_size_in_bits(3), 16);
    assert_eq!(arr.offset_in_bits(3), 48);
}

#[test]
fn pointers_and_pointees() {
    let p = CompleteAbstractData::pub_pointer_to(CompleteAbstractData::sec_i32());
    assert!(p.is_pointer());
    assert_eq!(p.pointee_size_in_bits(), 32);
    let maybe_null = CompleteAbstractData::pub_maybe_null_pointer_to(CompleteAbstractData::pub_i8(AbstractValue::Unconstrained));
    assert!(maybe_null.is_pointer());
    assert_eq!(maybe_null.pointee_size_in_bits(), 8);
    assert!(!CompleteAbstractData::pub_i64(AbstractValue::Unconstrained).is_pointer());
    assert!(CompleteAbstractData::pub_pointer_to_func("f").is_pointer());
    // an unconstrained pointer is a plain public value of pointer size
    assert!(!CompleteAbstractData::unconstrained_pointer().is_pointer());
    assert_eq!(CompleteAbstractData::unconstrained_pointer().size_in_bits(), 64);
    let watched = CompleteAbstractData::with_watchpoint("w", p.clone());
    assert!(watched.is_pointer());
    assert_eq!(watched.size_in_bits(), 64);
}

#[test]
fn overrides_keep_the_size_of_their_data() {
    let d = CompleteAbstractData::void_override(Some("struct.foo"), CompleteAbstractData::sec_i32());
    assert_eq!(d.size_in_bits(), 32);
    let d = CompleteAbstractData::same_size_override(CompleteAbstractData::sec_i64());
    assert_eq!(d.size_in_bits(), 64);
}

#[test]
fn one_element_structs() {
    let one = CompleteAbstractData::_struct("one", vec![CompleteAbstractData::sec_i8()]);
    assert!(one.could_describe_a_struct_of_one_element());
    let two = CompleteAbstractData::_struct("two", vec![CompleteAbstractData::sec_i8(), CompleteAbstractData::sec_i8()]);
    assert!(!two.could_describe_a_struct_of_one_element());
    assert!(CompleteAbstractData::sec_i8().could_describe_a_struct_of_one_element());
    assert!(!CompleteAbstractData::pub_i8(AbstractValue::Unconstrained).could_describe_a_struct_of_one_element());
    assert!(AbstractData::default().could_describe_a_struct_of_one_element());
    assert!(AbstractData::secret().could_describe_a_struct_of_one_element());
    assert!(!AbstractData::sec_i8().could_describe_a_struct_of_one_element());
}

#[test]
fn named_values() {
    let v = AbstractValue::named("length", AbstractValue::Range(0, 20));
    assert_eq!(
        v,
        AbstractValue::Named { name: "length".to_owned(), value: Box::new(AbstractValue::Range(0, 20)) }
    );
}

#[test]
fn default_integer_is_unconstrained_public() {
    let proj = StructTable::new();
    let sd = StructDescriptions::new();
    assert_eq!(AbstractData::default().to_complete(&int_ty(32), &proj, &sd), unconstrained(32));
}

#[test]
fn default_pointer_to_integer_is_an_array() {
    let proj = StructTable::new();
    let sd = StructDescriptions::new();
    let c = AbstractData::default().to_complete(&ptr(int_ty(8)), &proj, &sd);
    assert_eq!(
        c,
        CompleteAbstractData::pub_pointer_to(CompleteAbstractData::array_of(unconstrained(8), 1024))
    );
}

#[test]
fn default_function_pointer_is_hooked() {
    let proj = StructTable::new();
    let sd = StructDescriptions::new();
    let c = AbstractData::default().to_complete(&ptr(LlvmType::Func), &proj, &sd);
    assert_eq!(c, CompleteAbstractData::pub_pointer_to_hook("hook_uninitialized_function_pointer"));
}

#[test]
fn secret_fills_the_type() {
    let mut proj = StructTable::new();
    proj.insert("struct.pair", NamedStructDef::Defined(LlvmType::Struct { element_types: vec![int_ty(32), int_ty(64)] }));
    let sd = StructDescriptions::new();
    assert_eq!(AbstractData::secret().to_complete(&int_ty(64), &proj, &sd), CompleteAbstractData::sec_i64());
    assert_eq!(
        AbstractData::secret().to_complete(&named("struct.pair"), &proj, &sd),
        CompleteAbstractData::Secret { bits: 96 }
    );
    assert_eq!(
        AbstractData::unconstrained().to_complete(&named("struct.pair"), &proj, &sd),
        unconstrained(96)
    );
}

#[test]
fn struct_partially_secret() {
    let mut proj = StructTable::new();
    proj.insert(
        "struct.PartiallySecret",
        NamedStructDef::Defined(LlvmType::Struct { element_types: vec![int_ty(32), int_ty(32)] }),
    );
    let mut sd = StructDescriptions::new();
    sd.insert(
        "struct.PartiallySecret",
        AbstractData::_struct("PartiallySecret", vec![AbstractData::pub_i32(AbstractValue::Unconstrained), AbstractData::sec_i32()]),
    );
    let c = AbstractData::default().to_complete(&ptr(named("struct.PartiallySecret")), &proj, &sd);
    assert_eq!(
        c,
        CompleteAbstractData::pub_pointer_to(CompleteAbstractData::_struct(
            "PartiallySecret",
            vec![unconstrained(32), CompleteAbstractData::sec_i32()],
        ))
    );
}

#[test]
fn default_named_struct_keeps_its_name() {
    let mut proj = StructTable::new();
    proj.insert("struct.foo", NamedStructDef::Defined(LlvmType::Struct { element_types: vec![int_ty(8), ptr(int_ty(16))] }));
    let sd = StructDescriptions::new();
    let c = AbstractData::default().to_complete(&named("struct.foo"), &proj, &sd);
    assert_eq!(
        c,
        CompleteAbstractData::_struct(
            "struct.foo",
            vec![
                unconstrained(8),
                CompleteAbstractData::pub_pointer_to(CompleteAbstractData::array_of(unconstrained(16), 1024)),
            ],
        )
    );
}

#[test]
fn indirectly_recursive_struct_stops() {
    let mut proj = StructTable::new();
    proj.insert("struct.Child", NamedStructDef::Defined(LlvmType::Struct { element_types: vec![int_ty(32), ptr(named("struct.Child"))] }));
    let sd = StructDescriptions::new();
    let c = AbstractData::default().to_complete(&ptr(named("struct.Child")), &proj, &sd);
    assert_eq!(
        c,
        CompleteAbstractData::pub_pointer_to(CompleteAbstractData::_struct(
            "struct.Child",
            vec![unconstrained(32), CompleteAbstractData::pub_pointer_to(unconstrained(96))],
        ))
    );
}

#[test]
fn opaque_struct_gets_a_large_buffer() {
    let mut proj = StructTable::new();
    proj.insert("struct.hidden", NamedStructDef::Opaque);
    let sd = StructDescriptions::new();
    let c = AbstractData::default().to_complete(&ptr(named("struct.hidden")), &proj, &sd);
    assert_eq!(
        c,
        CompleteAbstractData::pub_pointer_to(CompleteAbstractData::array_of(unconstrained(8), 65536))
    );
}

#[test]
fn mismatched_description_is_refused() {
    let proj = StructTable::new();
    let sd = StructDescriptions::new();
    let d = AbstractData::_struct("s", vec![AbstractData::sec_i8(), AbstractData::sec_i8()]);
    let ty = LlvmType::Struct { element_types: vec![int_ty(8)] };
    // the struct of one element is looked through, and a struct does not describe an i8
    assert_eq!(d.try_to_complete(&ty, &proj, &sd), None);
    let d = AbstractData::array_of(AbstractData::sec_i8(), 3);
    let ty = LlvmType::Array { element_type: Box::new(int_ty(8)), num_elements: 4 };
    assert_eq!(d.try_to_complete(&ty, &proj, &sd), None);
    let d = AbstractData::array_of(AbstractData::sec_i8(), 4);
    assert_eq!(
        d.try_to_complete(&ty, &proj, &sd),
        Some(CompleteAbstractData::array_of(CompleteAbstractData::sec_i8(), 4))
    );
}

#[test]
fn complete_description_is_kept() {
    let proj = StructTable::new();
    let sd = StructDescriptions::new();
    let c = CompleteAbstractData::pub_pointer_to(CompleteAbstractData::sec_i32());
    let d = AbstractData::pub_pointer_to(AbstractData::sec_i32());
    assert_eq!(d.to_complete(&ptr(int_ty(32)), &proj, &sd), c);
}

#[test]
fn size_of_types() {
    let mut proj = StructTable::new();
    proj.insert("struct.pair", NamedStructDef::Defined(LlvmType::Struct { element_types: vec![int_ty(32), ptr(int_ty(8))] }));
    proj.insert("struct.opaque", NamedStructDef::Opaque);
    assert_eq!(proj.size_in_bits(&int_ty(17)), Some(17));
    assert_eq!(proj.size_in_bits(&ptr(LlvmType::Func)), Some(64));
    assert_eq!(proj.size_in_bits(&named("struct.pair")), Some(96));
    assert_eq!(proj.size_in_bits(&named("struct.opaque")), None);
    assert_eq!(proj.size_in_bits(&named("struct.missing")), None);
    assert_eq!(
        proj.size_in_bits(&LlvmType::Array { element_type: Box::new(named("struct.pair")), num_elements: 3 }),
        Some(288)
    );
    assert_eq!(proj.size_in_bits(&LlvmType::Void), Some(0));
    assert_eq!(proj.size_in_bits(&LlvmType::Func), None);
}

#[test]
fn names_read_back_what_was_written() {
    let mut sd = StructDescriptions::new();
    sd.insert("a", AbstractData::secret());
    sd.insert("b", AbstractData::default());
    sd.insert("a", AbstractData::sec_i8());
    assert!(sd.get("a").is_some());
    assert!(sd.get("b").is_some());
    assert!(sd.get("c").is_none());
}

#[test]
fn complete_data_descriptions() {
    assert_eq!(CompleteAbstractData::sec_i32().description(), "a 32-bit secret value");
    assert_eq!(CompleteAbstractData::pub_i8(AbstractValue::Unconstrained).description(), "a 8-bit public value");
    assert_eq!(CompleteAbstractData::pub_integer(0, AbstractValue::Unconstrained).description(), "a 0-bit public value");
    assert_eq!(
        CompleteAbstractData::pub_pointer_to(CompleteAbstractData::array_of(CompleteAbstractData::sec_i8(), 120)).description(),
        "a pointer to an array of 120 elements"
    );
    assert_eq!(
        CompleteAbstractData::_struct("foo", vec![CompleteAbstractData::sec_i8(), CompleteAbstractData::sec_i16()]).description(),
        "a struct named foo with 2 elements"
    );
    assert_eq!(CompleteAbstractData::pub_pointer_to_func("f").description(), "a pointer to a function named f");
    assert_eq!(CompleteAbstractData::pub_pointer_to_hook("g").description(), "a pointer to the active hook for a function named g");
    assert_eq!(CompleteAbstractData::pub_pointer_to_self().description(), "a pointer to this struct itself");
    assert_eq!(CompleteAbstractData::pub_pointer_to_parent().description(), "a pointer to this struct's parent, with no backup");
    assert_eq!(
        CompleteAbstractData::pub_pointer_to_parent_or(CompleteAbstractData::sec_i8()).description(),
        "a pointer to this struct's parent, with a backup"
    );
    assert_eq!(
        CompleteAbstractData::with_watchpoint("w", CompleteAbstractData::sec_i64()).description(),
        "a 64-bit secret value, with a watchpoint named w"
    );
    assert_eq!(
        CompleteAbstractData::same_size_override(CompleteAbstractData::sec_i64()).description(),
        "a same-size override containing a 64-bit secret value"
    );
    assert_eq!(
        CompleteAbstractData::void_override(None, CompleteAbstractData::sec_i64()).description(),
        "a void override containing a 64-bit secret value"
    );
}

#[test]
fn abstract_data_descriptions() {
    assert_eq!(AbstractData::default().description(), "an unspecified value");
    assert_eq!(AbstractData::unconstrained().description(), "an unconstrained value");
    assert_eq!(AbstractData::secret().description(), "a secret value");
    assert_eq!(AbstractData::sec_i32().description(), "a complete value: a 32-bit secret value");
    assert_eq!(AbstractData::pub_pointer_to(AbstractData::secret()).description(), "a pointer to a secret value");
    assert_eq!(AbstractData::array_of(AbstractData::default(), 1000).description(), "an array of 1000 elements");
    assert_eq!(
        AbstractData::_struct("s", vec![AbstractData::default(), AbstractData::secret(), AbstractData::sec_i8()]).description(),
        "a struct named s with 3 elements"
    );
    assert_eq!(AbstractData::default_for_llvm_struct_name("struct.T").description(), "the default for the LLVM struct struct.T");
    assert_eq!(
        AbstractData::pub_pointer_to_parent_or(AbstractData::default()).description(),
        "a public pointer to parent, with a backup"
    );
    assert_eq!(
        AbstractData::with_watchpoint("w", AbstractData::secret()).description(),
        "a secret value with a watchpoint named w"
    );
    assert_eq!(
        AbstractData::same_size_override(AbstractData::secret()).description(),
        "a same-size override with data a secret value"
    );
    assert_eq!(
        AbstractData::void_override(Some("struct.T"), AbstractData::secret()).description(),
        "a void override with data a secret value"
    );
}

#[test]
fn struct_tables_without_self_containment_are_well_founded() {
    let mut table = StructTable::new();
    assert!(table.is_well_founded());
    table.insert("struct.inner", NamedStructDef::Defined(LlvmType::Struct { element_types: vec![int_ty(8), int_ty(32)] }));
    table.insert("struct.outer", NamedStructDef::Defined(LlvmType::Struct {
        element_types: vec![named("struct.inner"), LlvmType::Array { element_type: Box::new(named("struct.inner")), num_elements: 2 }],
    }));
    table.insert("struct.top", NamedStructDef::Defined(LlvmType::Struct { element_types: vec![named("struct.outer"), named("struct.opaque")] }));
    table.insert("struct.opaque", NamedStructDef::Opaque);
    // a struct may point to itself
    table.insert("struct.list", NamedStructDef::Defined(LlvmType::Struct { element_types: vec![int_ty(64), ptr(named("struct.list"))] }));
    assert!(table.is_well_founded());
    assert_eq!(table.size_in_bits(&named("struct.outer")), Some(120));
}

#[test]
fn struct_tables_with_self_containment_are_not_well_founded() {
    let mut table = StructTable::new();
    table.insert("struct.a", NamedStructDef::Defined(LlvmType::Struct { element_types: vec![int_ty(8), named("struct.b")] }));
    table.insert("struct.b", NamedStructDef::Defined(LlvmType::Struct { element_types: vec![named("struct.a")] }));
    assert!(!table.is_well_founded());
    let mut direct = StructTable::new();
    direct.insert("struct.c", NamedStructDef::Defined(LlvmType::Struct { element_types: vec![named("struct.c")] }));
    assert!(!direct.is_well_founded());
}

#[test]
fn arrays_complete_element_by_element() {
    let proj = StructTable::new();
    let sd = StructDescriptions::new();
    let arr = |n: usize| LlvmType::Array { element_type: Box::new(int_ty(16)), num_elements: n };
    let desc = AbstractData::array_of(AbstractData::secret(), 3);
    // the LLVM length matches, or is left open (0)
    let want = Some(CompleteAbstractData::array_of(CompleteAbstractData::Secret { bits: 16 }, 3));
    assert_eq!(desc.try_to_complete(&arr(3), &proj, &sd), want);
    assert_eq!(desc.try_to_complete(&arr(0), &proj, &sd), want);
    // another length does not fit
    assert_eq!(desc.try_to_complete(&arr(4), &proj, &sd), None);
    // an element that does not fit its LLVM type makes the whole array fail
    let bad = AbstractData::array_of(AbstractData::pub_pointer_to(AbstractData::secret()), 3);
    assert_eq!(bad.try_to_complete(&arr(3), &proj, &sd), None);
}
