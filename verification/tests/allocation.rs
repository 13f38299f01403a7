use haybale_pitchfork::abstractdata::{AbstractData, AbstractValue, CompleteAbstractData, StructDescriptions};
use haybale_pitchfork::allocation::{allocate_args, try_allocate_args, checked_size, InitError, InitStep, Location, Planner, Relation, Target};
use haybale_pitchfork::llvmtype::{LlvmType, NamedStructDef, StructTable};

fn int_ty(bits: u32) -> LlvmType {
    LlvmType::Integer { bits }
}

fn ptr(ty: LlvmType) -> LlvmType {
    LlvmType::Pointer { pointee_type: Box::new(ty) }
}

fn mem(region: usize, offset_bits: usize) -> Target {
    Target::Memory(Location { region, offset_bits })
}

#[test]
fn struct_fields_go_at_their_offsets() {
    let t = StructTable::new();
    let data = CompleteAbstractData::_struct(
        "s",
        vec![
            CompleteAbstractData::sec_i32(),
            CompleteAbstractData::pub_i32(AbstractValue::ExactValue(5)),
            CompleteAbstractData::sec_i64(),
        ],
    );
    let ty = LlvmType::Struct { element_types: vec![int_ty(32), int_ty(32), int_ty(64)] };
    let mut p = Planner::new();
    assert_eq!(p.try_initialize_cad_in_memory(&t, &data, Some(&ty)), Ok(128));
    assert_eq!(
        p.into_steps(),
        vec![
            InitStep::WriteSecret { at: mem(0, 0), bits: 32 },
            InitStep::WriteValue { at: mem(0, 32), bits: 32, value: 5 },
            InitStep::WriteSecret { at: mem(0, 64), bits: 64 },
        ]
    );
}

#[test]
fn pointers_allocate_new_regions() {
    let t = StructTable::new();
    let data = CompleteAbstractData::pub_pointer_to(CompleteAbstractData::array_of(CompleteAbstractData::sec_i8(), 4));
    let mut p = Planner::new();
    assert_eq!(p.try_initialize_cad_in_memory(&t, &data, Some(&ptr(LlvmType::Array { element_type: Box::new(int_ty(8)), num_elements: 4 }))), Ok(64));
    assert_eq!(
        p.into_steps(),
        vec![
            InitStep::Allocate { at: mem(0, 0), region: 1, bits: 32, maybe_null: false },
            // an array of secrets is one big secret write
            InitStep::WriteSecret { at: mem(1, 0), bits: 32 },
        ]
    );
}

#[test]
fn arrays_of_other_elements_go_element_by_element() {
    let t = StructTable::new();
    let data = CompleteAbstractData::array_of(CompleteAbstractData::pub_i16(AbstractValue::Range(1, 9)), 3);
    let mut p = Planner::new();
    assert_eq!(p.try_initialize_cad_in_memory(&t, &data, None), Ok(48));
    assert_eq!(
        p.into_steps(),
        vec![
            InitStep::ConstrainRange { at: mem(0, 0), bits: 16, min: 1, max: 9 },
            InitStep::ConstrainRange { at: mem(0, 16), bits: 16, min: 1, max: 9 },
            InitStep::ConstrainRange { at: mem(0, 32), bits: 16, min: 1, max: 9 },
        ]
    );
    // unconstrained public contents need no step
    let mut p = Planner::new();
    let data = CompleteAbstractData::array_of(CompleteAbstractData::pub_i8(AbstractValue::Unconstrained), 100);
    assert_eq!(p.try_initialize_cad_in_memory(&t, &data, None), Ok(800));
    assert_eq!(p.into_steps(), vec![]);
}

#[test]
fn size_mismatch_is_reported() {
    let t = StructTable::new();
    let mut p = Planner::new();
    assert_eq!(
        p.try_initialize_cad_in_memory(&t, &CompleteAbstractData::pub_i32(AbstractValue::ExactValue(1)), Some(&int_ty(64))),
        Err(InitError::SizeMismatch { expected: 64, found: 32 })
    );
    let mut p = Planner::new();
    assert_eq!(
        p.try_initialize_cad_in_memory(&t, &CompleteAbstractData::pub_pointer_to(CompleteAbstractData::sec_i8()), Some(&int_ty(64))),
        Err(InitError::TypeMismatch)
    );
    let mut p = Planner::new();
    let arr = CompleteAbstractData::array_of(CompleteAbstractData::pub_i8(AbstractValue::ExactValue(0)), 3);
    assert_eq!(
        p.try_initialize_cad_in_memory(&t, &arr, Some(&LlvmType::Array { element_type: Box::new(int_ty(8)), num_elements: 4 })),
        Err(InitError::ArrayLengthMismatch { expected: 3, found: 4 })
    );
}

#[test]
fn named_values_are_shared_and_checked() {
    let t = StructTable::new();
    let data = CompleteAbstractData::_struct(
        "related",
        vec![
            CompleteAbstractData::pub_i64(AbstractValue::named("length", AbstractValue::Range(0, 20))),
            CompleteAbstractData::pub_i64(AbstractValue::EqualTo("length".to_string())),
            CompleteAbstractData::pub_i64(AbstractValue::UnsignedLessThan("length".to_string())),
        ],
    );
    let mut p = Planner::new();
    assert_eq!(p.try_initialize_cad_in_memory(&t, &data, None), Ok(192));
    assert_eq!(
        p.into_steps(),
        vec![
            InitStep::ConstrainRange { at: mem(0, 0), bits: 64, min: 0, max: 20 },
            InitStep::NameValue { at: mem(0, 0), bits: 64, name: "length".to_string(), first: true },
            InitStep::WriteRelated { at: mem(0, 64), bits: 64, name: "length".to_string(), relation: Relation::EqualTo },
            InitStep::WriteRelated { at: mem(0, 128), bits: 64, name: "length".to_string(), relation: Relation::UnsignedLessThan },
        ]
    );
    let mut p = Planner::new();
    assert_eq!(
        p.try_initialize_cad_in_memory(&t, &CompleteAbstractData::pub_i8(AbstractValue::EqualTo("nope".to_string())), None),
        Err(InitError::NamedValueNotFound("nope".to_string()))
    );
}

#[test]
fn pointer_to_self_and_parent() {
    let mut t = StructTable::new();
    t.insert("struct.node", NamedStructDef::Defined(LlvmType::Struct { element_types: vec![int_ty(32), int_ty(32), ptr(LlvmType::NamedStruct { name: "struct.node".to_string() })] }));
    let data = CompleteAbstractData::_struct(
        "node",
        vec![
            CompleteAbstractData::sec_i32(),
            CompleteAbstractData::pub_i32(AbstractValue::Unconstrained),
            CompleteAbstractData::pub_pointer_to_self(),
        ],
    );
    let mut p = Planner::new();
    assert_eq!(p.try_initialize_cad_in_memory(&t, &data, Some(&LlvmType::NamedStruct { name: "struct.node".to_string() })), Ok(128));
    assert_eq!(
        p.into_steps(),
        vec![
            InitStep::WriteSecret { at: mem(0, 0), bits: 32 },
            InitStep::PointTo { at: mem(0, 64), target: Location { region: 0, offset_bits: 0 } },
        ]
    );
    let mut p = Planner::new();
    assert_eq!(p.try_initialize_cad_in_memory(&t, &CompleteAbstractData::pub_pointer_to_self(), None), Err(InitError::NoCurrentStruct));
    let mut p = Planner::new();
    assert_eq!(p.try_initialize_cad_in_memory(&t, &CompleteAbstractData::pub_pointer_to_parent(), None), Err(InitError::NoParent));
    // with a backup, a missing parent falls back to a pointer to the backup
    let mut p = Planner::new();
    assert_eq!(
        p.try_initialize_cad_in_memory(&t, &CompleteAbstractData::pub_pointer_to_parent_or(CompleteAbstractData::sec_i8()), None),
        Ok(64)
    );
    assert_eq!(
        p.into_steps(),
        vec![
            InitStep::Allocate { at: mem(0, 0), region: 1, bits: 8, maybe_null: false },
            InitStep::WriteSecret { at: mem(1, 0), bits: 8 },
        ]
    );
}

#[test]
fn overrides_and_watchpoints() {
    let mut t = StructTable::new();
    t.insert("struct.hidden", NamedStructDef::Opaque);
    let mut p = Planner::new();
    let d = CompleteAbstractData::void_override(None, CompleteAbstractData::sec_i32());
    assert_eq!(p.try_initialize_cad_in_memory(&t, &d, Some(&int_ty(8))), Ok(32));
    let mut p = Planner::new();
    assert_eq!(p.try_initialize_cad_in_memory(&t, &d, Some(&int_ty(16))), Err(InitError::TypeMismatch));
    let mut p = Planner::new();
    let d = CompleteAbstractData::void_override(Some("struct.hidden"), CompleteAbstractData::sec_i32());
    assert_eq!(p.try_initialize_cad_in_memory(&t, &d, None), Err(InitError::OpaqueStruct("struct.hidden".to_string())));
    let mut p = Planner::new();
    let d = CompleteAbstractData::same_size_override(CompleteAbstractData::sec_i64());
    assert_eq!(p.try_initialize_cad_in_memory(&t, &d, Some(&int_ty(32))), Err(InitError::SizeMismatch { expected: 32, found: 64 }));
    let mut p = Planner::new();
    let d = CompleteAbstractData::with_watchpoint("w", CompleteAbstractData::sec_i64());
    assert_eq!(p.try_initialize_cad_in_memory(&t, &d, None), Ok(64));
    assert_eq!(
        p.into_steps(),
        vec![
            InitStep::Watch { at: mem(0, 0), bytes: 8, name: "w".to_string() },
            InitStep::WriteSecret { at: mem(0, 0), bits: 64 },
        ]
    );
}

#[test]
fn arguments_share_named_values() {
    let t = StructTable::new();
    let sd = StructDescriptions::new();
    let params = vec![
        (ptr(int_ty(8)), AbstractData::pub_pointer_to(AbstractData::array_of(AbstractData::sec_i8(), 20))),
        (int_ty(64), AbstractData::pub_i64(AbstractValue::named("length", AbstractValue::Range(0, 20)))),
        (int_ty(64), AbstractData::pub_i64(AbstractValue::UnsignedLessThan("length".to_string()))),
        (int_ty(32), AbstractData::default()),
    ];
    let steps = try_allocate_args(&t, &sd, &params).unwrap();
    assert_eq!(
        steps,
        vec![
            InitStep::Allocate { at: Target::Param(0), region: 1, bits: 160, maybe_null: false },
            InitStep::WriteSecret { at: mem(1, 0), bits: 160 },
            InitStep::ConstrainRange { at: Target::Param(1), bits: 64, min: 0, max: 20 },
            InitStep::NameValue { at: Target::Param(1), bits: 64, name: "length".to_string(), first: true },
            InitStep::WriteRelated { at: Target::Param(2), bits: 64, name: "length".to_string(), relation: Relation::UnsignedLessThan },
        ]
    );
}

#[test]
fn argument_errors() {
    let t = StructTable::new();
    let sd = StructDescriptions::new();
    let params = vec![(int_ty(32), AbstractData::sec_i64())];
    assert_eq!(try_allocate_args(&t, &sd, &params), Err(InitError::SizeMismatch { expected: 32, found: 64 }));
    let params = vec![(int_ty(64), AbstractData::pub_pointer_to_self())];
    assert_eq!(try_allocate_args(&t, &sd, &params), Err(InitError::UnsupportedParameter));
    let params = vec![(int_ty(8), AbstractData::_struct("s", vec![AbstractData::sec_i8(), AbstractData::sec_i8()]))];
    assert_eq!(try_allocate_args(&t, &sd, &params), Err(InitError::DescriptionMismatch));
    let mut p = Planner::new();
    assert_eq!(p.try_allocate_arg(&t, 0, &int_ty(64), &CompleteAbstractData::pub_pointer_to(CompleteAbstractData::sec_i8())), Err(InitError::TypeMismatch));
    let mut p = Planner::new();
    assert_eq!(p.try_allocate_arg(&t, 3, &int_ty(64), &CompleteAbstractData::sec_i64()), Ok(()));
    assert_eq!(p.into_steps(), vec![InitStep::WriteSecret { at: Target::Param(3), bits: 64 }]);
}

#[test]
fn checked_sizes() {
    assert_eq!(checked_size(&CompleteAbstractData::sec_i32()), Some(32));
    assert_eq!(checked_size(&CompleteAbstractData::pub_pointer_to(CompleteAbstractData::sec_i64())), Some(64));
    let huge = CompleteAbstractData::array_of(CompleteAbstractData::sec_i64(), usize::MAX / 2);
    assert_eq!(checked_size(&huge), None);
    assert_eq!(checked_size(&CompleteAbstractData::pub_pointer_to(huge)), None);
}

#[test]
fn default_arguments_are_public() {
    let mut t = StructTable::new();
    t.insert("struct.pair", NamedStructDef::Defined(LlvmType::Struct { element_types: vec![int_ty(32), ptr(int_ty(8))] }));
    let named = LlvmType::NamedStruct { name: "struct.pair".to_owned() };
    let sd = StructDescriptions::new();
    let params = vec![
        (int_ty(64), AbstractData::default()),
        (ptr(named), AbstractData::default()),
        (ptr(LlvmType::Array { element_type: Box::new(int_ty(16)), num_elements: 3 }), AbstractData::default()),
    ];
    let steps = try_allocate_args(&t, &sd, &params).unwrap();
    assert!(!steps.is_empty());
    assert!(steps.iter().all(|s| !matches!(s, InitStep::WriteSecret { .. })));
}

#[test]
fn default_arguments_follow_secret_struct_descriptions() {
    let mut t = StructTable::new();
    t.insert("struct.key", NamedStructDef::Defined(LlvmType::Struct { element_types: vec![int_ty(64), int_ty(64)] }));
    let named = LlvmType::NamedStruct { name: "struct.key".to_owned() };
    let mut sd = StructDescriptions::new();
    sd.insert("struct.key", AbstractData::_struct("key", vec![AbstractData::pub_i64(AbstractValue::Unconstrained), AbstractData::sec_i64()]));
    let params = vec![(ptr(named), AbstractData::default())];
    let steps = try_allocate_args(&t, &sd, &params).unwrap();
    assert!(steps.iter().any(|s| matches!(s, InitStep::WriteSecret { bits: 64, .. })));
}

#[test]
fn data_that_cannot_be_laid_out_is_refused() {
    let t = StructTable::new();
    let mut p = Planner::new();
    let empty = CompleteAbstractData::array_of(CompleteAbstractData::pub_i8(AbstractValue::Range(1, 2)), 0);
    assert_eq!(p.try_initialize_cad_in_memory(&t, &empty, None), Err(InitError::EmptyArray));
    let nibbles = CompleteAbstractData::array_of(CompleteAbstractData::pub_integer(4, AbstractValue::ExactValue(1)), 2);
    assert_eq!(p.try_initialize_cad_in_memory(&t, &nibbles, None), Err(InitError::ElementNotWholeBytes(4)));
    // secret or unconstrained elements are written all at once
    let secrets = CompleteAbstractData::array_of(CompleteAbstractData::sec_integer(4), 0);
    assert_eq!(p.try_initialize_cad_in_memory(&t, &secrets, None), Ok(0));
}

#[test]
fn fitting_data_is_planned_without_a_result_to_check() {
    let t = StructTable::new();
    let mut p = Planner::new();
    let data = CompleteAbstractData::array_of(CompleteAbstractData::pub_i8(AbstractValue::Range(1, 2)), 3);
    assert_eq!(p.initialize_cad_in_memory(&t, &data, None), 24);
    p.allocate_arg(&t, 0, &int_ty(64), &CompleteAbstractData::sec_i64());
    assert_eq!(p.into_steps().last(), Some(&InitStep::WriteSecret { at: Target::Param(0), bits: 64 }));
    let sd = StructDescriptions::new();
    let params = vec![(int_ty(8), AbstractData::sec_i8())];
    assert_eq!(allocate_args(&t, &sd, &params), vec![InitStep::WriteSecret { at: Target::Param(0), bits: 8 }]);
}

#[test]
fn equal_to_gets_the_named_value() {
    let t = StructTable::new();
    let sd = StructDescriptions::new();
    let params = vec![
        (int_ty(32), AbstractData::pub_i32(AbstractValue::named("len", AbstractValue::Range(1, 9)))),
        (int_ty(32), AbstractData::pub_i32(AbstractValue::EqualTo("len".to_string()))),
    ];
    let steps = try_allocate_args(&t, &sd, &params).unwrap();
    assert_eq!(
        steps.last(),
        Some(&InitStep::WriteRelated { at: Target::Param(1), bits: 32, name: "len".to_string(), relation: Relation::EqualTo })
    );
    let params = vec![(int_ty(32), AbstractData::pub_i32(AbstractValue::EqualTo("len".to_string())))];
    assert_eq!(try_allocate_args(&t, &sd, &params), Err(InitError::NamedValueNotFound("len".to_string())));
}

#[test]
fn plain_data_writes_each_leaf_in_order() {
    let t = StructTable::new();
    let data = CompleteAbstractData::_struct(
        "outer",
        vec![
            CompleteAbstractData::array_of(CompleteAbstractData::pub_i8(AbstractValue::ExactValue(7)), 2),
            CompleteAbstractData::_struct(
                "inner",
                vec![
                    CompleteAbstractData::sec_i32(),
                    CompleteAbstractData::pub_i16(AbstractValue::Unconstrained),
                    CompleteAbstractData::pub_i16(AbstractValue::Range(2, 4)),
                ],
            ),
            CompleteAbstractData::array_of(CompleteAbstractData::sec_i8(), 3),
        ],
    );
    let mut p = Planner::new();
    assert_eq!(p.try_initialize_cad_in_memory(&t, &data, None), Ok(104));
    assert_eq!(
        p.into_steps(),
        vec![
            InitStep::WriteValue { at: mem(0, 0), bits: 8, value: 7 },
            InitStep::WriteValue { at: mem(0, 8), bits: 8, value: 7 },
            InitStep::WriteSecret { at: mem(0, 16), bits: 32 },
            InitStep::ConstrainRange { at: mem(0, 64), bits: 16, min: 2, max: 4 },
            InitStep::WriteSecret { at: mem(0, 80), bits: 24 },
        ]
    );
}
