use haybale_pitchfork::abstractdata::AbstractData;
use haybale_pitchfork::analysis::{first_unknown_description, missed_blocks, secret_inputs};
use haybale_pitchfork::abstractdata::StructDescriptions;
use haybale_pitchfork::default_hook::{after_slices, fold_slice, scan_step, secret_return, AfterSlices, ArgumentKind, ReturnError, ScanStep, Slice};
use haybale_pitchfork::hook_helpers::{check_fill, FillError};
use haybale_pitchfork::llvmtype::{LlvmType, NamedStructDef, StructTable};

fn int_ty(bits: u32) -> LlvmType {
    LlvmType::Integer { bits }
}

fn ptr(ty: LlvmType) -> LlvmType {
    LlvmType::Pointer { pointee_type: Box::new(ty) }
}

#[test]
fn kinds_combine() {
    assert_eq!(ArgumentKind::Public.combine(ArgumentKind::Public), ArgumentKind::Public);
    assert_eq!(ArgumentKind::Public.combine(ArgumentKind::Unknown), ArgumentKind::Unknown);
    assert_eq!(ArgumentKind::Unknown.combine(ArgumentKind::Secret), ArgumentKind::Secret);
    assert_eq!(ArgumentKind::Secret.combine(ArgumentKind::Public), ArgumentKind::Secret);
}

#[test]
fn scan_steps() {
    let mut t = StructTable::new();
    t.insert("struct.hidden", NamedStructDef::Opaque);
    t.insert("struct.pair", NamedStructDef::Defined(LlvmType::Struct { element_types: vec![int_ty(32), int_ty(32)] }));
    assert_eq!(scan_step(&t, &int_ty(32)), ScanStep::Public);
    assert_eq!(scan_step(&t, &ptr(LlvmType::Func)), ScanStep::Public);
    assert_eq!(scan_step(&t, &ptr(int_ty(16))), ScanStep::Pointee { bits: 16 });
    assert_eq!(scan_step(&t, &ptr(LlvmType::NamedStruct { name: "struct.hidden".to_string() })), ScanStep::Unknown);
    assert_eq!(scan_step(&t, &LlvmType::NamedStruct { name: "struct.hidden".to_string() }), ScanStep::Unknown);
    assert_eq!(scan_step(&t, &LlvmType::NamedStruct { name: "struct.pair".to_string() }), ScanStep::AsDefinition);
    assert_eq!(scan_step(&t, &LlvmType::NamedStruct { name: "struct.none".to_string() }), ScanStep::StructNotFound);
    assert_eq!(
        scan_step(&t, &LlvmType::Array { element_type: Box::new(int_ty(8)), num_elements: 3 }),
        ScanStep::Slices {
            slices: vec![
                Slice { high: 7, low: 0, element: 0 },
                Slice { high: 15, low: 8, element: 0 },
                Slice { high: 23, low: 16, element: 0 },
            ],
            after: AfterSlices::Done,
        }
    );
    assert_eq!(
        scan_step(&t, &LlvmType::Struct { element_types: vec![int_ty(8), LlvmType::Struct { element_types: vec![] }, int_ty(16), LlvmType::NamedStruct { name: "struct.hidden".to_string() }, int_ty(8)] }),
        ScanStep::Slices {
            slices: vec![Slice { high: 7, low: 0, element: 0 }, Slice { high: 23, low: 8, element: 2 }],
            after: AfterSlices::Unknown,
        }
    );
    assert_eq!(
        scan_step(&t, &LlvmType::Struct { element_types: vec![int_ty(1), int_ty(7)] }),
        ScanStep::Slices { slices: vec![Slice { high: 0, low: 0, element: 0 }], after: AfterSlices::Misaligned }
    );
}

#[test]
fn secret_returns() {
    let mut t = StructTable::new();
    t.insert("struct.hidden", NamedStructDef::Opaque);
    assert_eq!(secret_return(&t, &LlvmType::Void), Ok(None));
    assert_eq!(secret_return(&t, &int_ty(32)), Ok(Some(32)));
    assert_eq!(secret_return(&t, &LlvmType::NamedStruct { name: "struct.hidden".to_string() }), Err(ReturnError::OpaqueType));
    assert_eq!(secret_return(&t, &LlvmType::Struct { element_types: vec![] }), Err(ReturnError::ZeroSized));
}

#[test]
fn fill_checks() {
    assert_eq!(check_fill(Some(&ptr(int_ty(8))), Some(&ptr(int_ty(64))), 16), Ok(128));
    assert_eq!(check_fill(None, None, 4), Ok(32));
    assert_eq!(check_fill(Some(&int_ty(8)), None, 4), Err(FillError::BufferNotPointer));
    assert_eq!(check_fill(None, Some(&int_ty(64)), 4), Err(FillError::LengthNotPointer));
    assert_eq!(check_fill(None, Some(&ptr(int_ty(32))), 4), Err(FillError::LengthNotI64));
    assert_eq!(check_fill(None, None, u32::MAX), Err(FillError::TooLarge));
}

#[test]
fn every_input_secret() {
    let mut t = StructTable::new();
    t.insert("struct.hidden", NamedStructDef::Opaque);
    let v = secret_inputs(&t, &vec![int_ty(32), ptr(int_ty(8))]).unwrap();
    assert_eq!(v, vec![AbstractData::sec_integer(32), AbstractData::sec_integer(64)]);
    assert_eq!(secret_inputs(&t, &vec![int_ty(32), LlvmType::NamedStruct { name: "struct.hidden".to_string() }]), None);
}

#[test]
fn descriptions_must_name_known_structs() {
    let mut t = StructTable::new();
    t.insert("struct.a", NamedStructDef::Opaque);
    let mut sd = StructDescriptions::new();
    sd.insert("struct.a", AbstractData::secret());
    assert_eq!(first_unknown_description(&sd, &t), None);
    sd.insert("struct.b", AbstractData::secret());
    assert_eq!(first_unknown_description(&sd, &t), Some("struct.b".to_string()));
}

#[test]
fn missed_blocks_in_order() {
    let blocks: Vec<String> = vec!["entry".into(), "a".into(), "b".into(), "exit".into()];
    let seen: Vec<String> = vec!["exit".into(), "entry".into()];
    assert_eq!(missed_blocks(&blocks, &seen), vec!["a".to_string(), "b".to_string()]);
}

#[test]
fn slices_fold_into_a_kind() {
    assert_eq!(fold_slice(ArgumentKind::Public, ArgumentKind::Public), (ArgumentKind::Public, false));
    assert_eq!(fold_slice(ArgumentKind::Public, ArgumentKind::Unknown), (ArgumentKind::Unknown, false));
    assert_eq!(fold_slice(ArgumentKind::Unknown, ArgumentKind::Public), (ArgumentKind::Unknown, false));
    assert_eq!(fold_slice(ArgumentKind::Unknown, ArgumentKind::Secret), (ArgumentKind::Secret, true));
    assert_eq!(fold_slice(ArgumentKind::Secret, ArgumentKind::Public), (ArgumentKind::Secret, true));
    assert_eq!(after_slices(ArgumentKind::Secret, AfterSlices::Done), Ok(ArgumentKind::Secret));
    assert_eq!(after_slices(ArgumentKind::Public, AfterSlices::Unknown), Ok(ArgumentKind::Unknown));
    assert_eq!(after_slices(ArgumentKind::Public, AfterSlices::Misaligned), Err(AfterSlices::Misaligned));
}
