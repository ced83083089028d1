use classfile::parser::{
    read_annotations_element_value, read_annotations_element_value_pair,
    read_runtime_annotations_entry, read_runtime_type_annotations_entry,
    AttributeAnnotationsElementValue, AttributeRuntimeTypeAnnotationsEntryTargetInfo,
    MalformedClassFile,
};

fn value(bytes: &[u8]) -> (AttributeAnnotationsElementValue, usize) {
    read_annotations_element_value(&bytes.to_vec(), 0).unwrap()
}

#[test]
fn element_value_tag_byte() {
    let (v, end) = value(&[b'B', 0, 7]);
    assert_eq!(end, 3);
    assert!(matches!(v, AttributeAnnotationsElementValue::Byte(x) if x.const_value_index == 7));
}

#[test]
fn element_value_tag_char() {
    let (v, end) = value(&[b'C', 0, 8]);
    assert_eq!(end, 3);
    assert!(matches!(v, AttributeAnnotationsElementValue::Char(x) if x.const_value_index == 8));
}

#[test]
fn element_value_tag_double() {
    let (v, end) = value(&[b'D', 0, 9]);
    assert_eq!(end, 3);
    assert!(matches!(v, AttributeAnnotationsElementValue::Double(x) if x.const_value_index == 9));
}

#[test]
fn element_value_tag_float() {
    let (v, end) = value(&[b'F', 0, 10]);
    assert_eq!(end, 3);
    assert!(matches!(v, AttributeAnnotationsElementValue::Float(x) if x.const_value_index == 10));
}

#[test]
fn element_value_tag_int() {
    let (v, end) = value(&[b'I', 0, 11]);
    assert_eq!(end, 3);
    assert!(matches!(v, AttributeAnnotationsElementValue::Int(x) if x.const_value_index == 11));
}

#[test]
fn element_value_tag_long() {
    let (v, end) = value(&[b'J', 0, 12]);
    assert_eq!(end, 3);
    assert!(matches!(v, AttributeAnnotationsElementValue::Long(x) if x.const_value_index == 12));
}

#[test]
fn element_value_tag_short() {
    let (v, end) = value(&[b'S', 0, 13]);
    assert_eq!(end, 3);
    assert!(matches!(v, AttributeAnnotationsElementValue::Short(x) if x.const_value_index == 13));
}

#[test]
fn element_value_tag_boolean() {
    let (v, end) = value(&[b'Z', 0, 14]);
    assert_eq!(end, 3);
    assert!(
        matches!(v, AttributeAnnotationsElementValue::Boolean(x) if x.const_value_index == 14),
    );
}

#[test]
fn element_value_tag_string() {
    let (v, end) = value(&[b's', 0, 15]);
    assert_eq!(end, 3);
    assert!(matches!(v, AttributeAnnotationsElementValue::String(x) if x.const_value_index == 15));
}

#[test]
fn element_value_tag_enum_carries_both_indices() {
    let (v, end) = value(&[b'e', 0, 3, 0, 4]);
    assert_eq!(end, 5);
    assert!(matches!(
        v,
        AttributeAnnotationsElementValue::EnumClass(x)
            if x.type_name_index == 3 && x.const_name_index == 4,
    ));
}

#[test]
fn element_value_tag_class() {
    let (v, end) = value(&[b'c', 0, 5]);
    assert_eq!(end, 3);
    assert!(matches!(v, AttributeAnnotationsElementValue::Class(x) if x.class_info_index == 5));
}

#[test]
fn element_value_tag_nested_annotation() {
    // '@', then an annotation: type index 6, one pair (name 7, value 'I' 8).
    let (v, end) = value(&[b'@', 0, 6, 0, 1, 0, 7, b'I', 0, 8]);
    assert_eq!(end, 10);
    match v {
        AttributeAnnotationsElementValue::AnnotationInterface(x) => {
            assert_eq!(x.annotation_value.type_index, 6);
            assert_eq!(x.annotation_value.element_value_pairs.len(), 1);
            let pair = &x.annotation_value.element_value_pairs[0];
            assert_eq!(pair.element_name_index, 7);
            assert!(matches!(
                &pair.element_value,
                AttributeAnnotationsElementValue::Int(i) if i.const_value_index == 8,
            ));
        },
        _ => panic!("wrong variant"),
    }
}

#[test]
fn element_value_tag_array_nests_recursively() {
    // '[', two values: 'I' 1 and '[' with one value 'Z' 2.
    let (v, end) = value(&[b'[', 0, 2, b'I', 0, 1, b'[', 0, 1, b'Z', 0, 2]);
    assert_eq!(end, 12);
    match v {
        AttributeAnnotationsElementValue::ArrayType(x) => {
            assert_eq!(x.values.len(), 2);
            assert!(matches!(
                &x.values[0],
                AttributeAnnotationsElementValue::Int(i) if i.const_value_index == 1,
            ));
            match &x.values[1] {
                AttributeAnnotationsElementValue::ArrayType(inner) => {
                    assert_eq!(inner.values.len(), 1);
                    assert!(matches!(
                        &inner.values[0],
                        AttributeAnnotationsElementValue::Boolean(b) if b.const_value_index == 2,
                    ));
                },
                _ => panic!("wrong nested variant"),
            }
        },
        _ => panic!("wrong variant"),
    }
}

#[test]
fn unknown_element_value_tag_fails_naming_it() {
    let r = read_annotations_element_value(&vec![b'X', 0, 0], 0);
    assert_eq!(r.unwrap_err(), MalformedClassFile::UnknownElementValueTag { tag: b'X' });
}

#[test]
fn element_value_pair_carries_name_then_value() {
    let (p, end) = read_annotations_element_value_pair(&vec![0, 9, b'Z', 0, 1], 0).unwrap();
    assert_eq!(end, 5);
    assert_eq!(p.element_name_index, 9);
    assert!(matches!(
        p.element_value,
        AttributeAnnotationsElementValue::Boolean(b) if b.const_value_index == 1,
    ));
}

#[test]
fn annotation_entry_reads_counted_pairs() {
    let (e, end) = read_runtime_annotations_entry(
        &vec![0, 2, 0, 2, 0, 3, b'I', 0, 4, 0, 5, b'Z', 0, 6],
        0,
    )
    .unwrap();
    assert_eq!(end, 14);
    assert_eq!(e.type_index, 2);
    assert_eq!(e.element_value_pairs.len(), 2);
    assert_eq!(e.element_value_pairs[0].element_name_index, 3);
    assert_eq!(e.element_value_pairs[1].element_name_index, 5);
}

fn type_annotation(bytes: &[u8]) -> (classfile::parser::AttributeRuntimeTypeAnnotationsEntry, usize)
{
    read_runtime_type_annotations_entry(&bytes.to_vec(), 0).unwrap()
}

#[test]
fn target_type_00_01_type_parameter() {
    let (e, end) = type_annotation(&[0x01, 4, 0, 0, 1, 0, 0]);
    assert_eq!(end, 7);
    assert_eq!(e.target_type, 0x01);
    assert!(matches!(
        e.target_info,
        AttributeRuntimeTypeAnnotationsEntryTargetInfo::TypeParameterTarget(t)
            if t.type_parameter_index == 4,
    ));
    assert_eq!(e.target_path.len(), 0);
    assert_eq!(e.type_index, 1);
    assert_eq!(e.element_value_pairs.len(), 0);
}

#[test]
fn target_type_10_supertype() {
    let (e, _) = type_annotation(&[0x10, 0, 9, 0, 0, 1, 0, 0]);
    assert!(matches!(
        e.target_info,
        AttributeRuntimeTypeAnnotationsEntryTargetInfo::SuperTypeTarget(t)
            if t.supertype_index == 9,
    ));
}

#[test]
fn target_type_11_12_type_parameter_bound() {
    let (e, _) = type_annotation(&[0x12, 3, 1, 0, 0, 1, 0, 0]);
    assert!(matches!(
        e.target_info,
        AttributeRuntimeTypeAnnotationsEntryTargetInfo::TypeParameterBoundTarget(t)
            if t.type_parameter_index == 3 && t.bound_index == 1,
    ));
}

#[test]
fn target_type_13_to_15_empty() {
    let (e, end) = type_annotation(&[0x14, 0, 0, 1, 0, 0]);
    assert_eq!(end, 6);
    assert!(matches!(
        e.target_info,
        AttributeRuntimeTypeAnnotationsEntryTargetInfo::EmptyTarget(_),
    ));
}

#[test]
fn target_type_16_formal_parameter() {
    let (e, _) = type_annotation(&[0x16, 2, 0, 0, 1, 0, 0]);
    assert!(matches!(
        e.target_info,
        AttributeRuntimeTypeAnnotationsEntryTargetInfo::FormalParameterTarget(t)
            if t.formal_parameter_index == 2,
    ));
}

#[test]
fn target_type_17_throws() {
    let (e, _) = type_annotation(&[0x17, 0, 8, 0, 0, 1, 0, 0]);
    assert!(matches!(
        e.target_info,
        AttributeRuntimeTypeAnnotationsEntryTargetInfo::ThrowsTarget(t)
            if t.throws_type_index == 8,
    ));
}

#[test]
fn target_type_40_41_localvar_reads_counted_table() {
    let (e, end) = type_annotation(&[0x40, 0, 1, 0, 2, 0, 3, 0, 4, 0, 0, 1, 0, 0]);
    assert_eq!(end, 14);
    match e.target_info {
        AttributeRuntimeTypeAnnotationsEntryTargetInfo::LocalvarTarget(t) => {
            assert_eq!(t.table.len(), 1);
            assert_eq!(t.table[0].start_pc, 2);
            assert_eq!(t.table[0].length, 3);
            assert_eq!(t.table[0].index, 4);
        },
        _ => panic!("wrong variant"),
    }
}

#[test]
fn target_type_42_catch() {
    let (e, _) = type_annotation(&[0x42, 0, 6, 0, 0, 1, 0, 0]);
    assert!(matches!(
        e.target_info,
        AttributeRuntimeTypeAnnotationsEntryTargetInfo::CatchTarget(t)
            if t.exception_table_index == 6,
    ));
}

#[test]
fn target_type_43_to_46_offset() {
    let (e, _) = type_annotation(&[0x45, 0, 12, 0, 0, 1, 0, 0]);
    assert!(matches!(
        e.target_info,
        AttributeRuntimeTypeAnnotationsEntryTargetInfo::OffsetTarget(t) if t.offset == 12,
    ));
}

#[test]
fn target_type_47_to_4b_type_argument() {
    let (e, _) = type_annotation(&[0x4B, 0, 13, 2, 0, 0, 1, 0, 0]);
    assert!(matches!(
        e.target_info,
        AttributeRuntimeTypeAnnotationsEntryTargetInfo::TypeArgumentTarget(t)
            if t.offset == 13 && t.type_argument_index == 2,
    ));
}

#[test]
fn type_annotation_reads_path_and_pairs() {
    let (e, end) = type_annotation(&[0x14, 2, 1, 0, 3, 1, 0, 9, 0, 1, 0, 4, b'I', 0, 5]);
    assert_eq!(end, 15);
    assert_eq!(e.target_path.len(), 2);
    assert_eq!(e.target_path[0].type_path_kind, 1);
    assert_eq!(e.target_path[0].type_argument_index, 0);
    assert_eq!(e.target_path[1].type_path_kind, 3);
    assert_eq!(e.target_path[1].type_argument_index, 1);
    assert_eq!(e.type_index, 9);
    assert_eq!(e.element_value_pairs.len(), 1);
    assert_eq!(e.element_value_pairs[0].element_name_index, 4);
}

#[test]
fn unknown_target_type_fails_naming_it() {
    let r = read_runtime_type_annotations_entry(&vec![0x30, 0, 0], 0);
    assert_eq!(r.unwrap_err(), MalformedClassFile::UnknownTargetType { target_type: 0x30 });
}
