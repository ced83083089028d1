use classfile::parser::{
    read_constant_pool, read_constant_pool_entry, CpInfo, EntryName, MalformedClassFile,
    MethodHandleReferenceKind,
};

fn entry(bytes: &[u8]) -> (CpInfo, usize) {
    read_constant_pool_entry(&bytes.to_vec(), 0).unwrap()
}

#[test]
fn tag_1_utf8() {
    let (e, end) = entry(&[1, 0, 2, 0x41, 0x42]);
    assert_eq!(end, 5);
    match e {
        CpInfo::Utf8(x) => {
            assert_eq!(x.bytes, vec![0x41, 0x42]);
            assert_eq!(x.converted, "AB");
        },
        _ => panic!("wrong variant"),
    }
}

#[test]
fn tag_3_integer() {
    let (e, end) = entry(&[3, 0xDE, 0xAD, 0xBE, 0xEF]);
    assert_eq!(end, 5);
    match e {
        CpInfo::Integer(x) => assert_eq!(x.bytes, [0xDE, 0xAD, 0xBE, 0xEF]),
        _ => panic!("wrong variant"),
    }
}

#[test]
fn tag_4_float() {
    let (e, end) = entry(&[4, 0x3F, 0x80, 0x00, 0x00]);
    assert_eq!(end, 5);
    match e {
        CpInfo::Float(x) => assert_eq!(x.bytes, [0x3F, 0x80, 0x00, 0x00]),
        _ => panic!("wrong variant"),
    }
}

#[test]
fn tag_5_long() {
    let (e, end) = entry(&[5, 0, 0, 0, 1, 0, 0, 0, 2]);
    assert_eq!(end, 9);
    match e {
        CpInfo::Long(x) => {
            assert_eq!(x.high_bytes, 1);
            assert_eq!(x.low_bytes, 2);
        },
        _ => panic!("wrong variant"),
    }
}

#[test]
fn tag_6_double() {
    let (e, end) = entry(&[6, 0x40, 0x09, 0x21, 0xFB, 0x54, 0x44, 0x2D, 0x18]);
    assert_eq!(end, 9);
    match e {
        CpInfo::Double(x) => {
            assert_eq!(x.high_bytes, 0x400921FB);
            assert_eq!(x.low_bytes, 0x54442D18);
        },
        _ => panic!("wrong variant"),
    }
}

#[test]
fn tag_7_class() {
    let (e, end) = entry(&[7, 0, 9]);
    assert_eq!(end, 3);
    match e {
        CpInfo::Class(x) => assert_eq!(x.name_index, 9),
        _ => panic!("wrong variant"),
    }
}

#[test]
fn tag_8_string() {
    let (e, end) = entry(&[8, 1, 0]);
    assert_eq!(end, 3);
    match e {
        CpInfo::String(x) => assert_eq!(x.string_index, 256),
        _ => panic!("wrong variant"),
    }
}

#[test]
fn tag_9_field_ref() {
    let (e, end) = entry(&[9, 0, 3, 0, 4]);
    assert_eq!(end, 5);
    match e {
        CpInfo::FieldRef(x) => {
            assert_eq!(x.class_index, 3);
            assert_eq!(x.name_and_type_index, 4);
        },
        _ => panic!("wrong variant"),
    }
}

#[test]
fn tag_10_method_ref() {
    let (e, end) = entry(&[10, 0, 5, 0, 6]);
    assert_eq!(end, 5);
    match e {
        CpInfo::MethodRef(x) => {
            assert_eq!(x.class_index, 5);
            assert_eq!(x.name_and_type_index, 6);
        },
        _ => panic!("wrong variant"),
    }
}

#[test]
fn tag_11_interface_method_ref() {
    let (e, end) = entry(&[11, 0, 7, 0, 8]);
    assert_eq!(end, 5);
    match e {
        CpInfo::InterfaceMethodRef(x) => {
            assert_eq!(x.class_index, 7);
            assert_eq!(x.name_and_type_index, 8);
        },
        _ => panic!("wrong variant"),
    }
}

#[test]
fn tag_12_name_and_type() {
    let (e, end) = entry(&[12, 0, 1, 0, 2]);
    assert_eq!(end, 5);
    match e {
        CpInfo::NameAndType(x) => {
            assert_eq!(x.name_index, 1);
            assert_eq!(x.descriptor_index, 2);
        },
        _ => panic!("wrong variant"),
    }
}

#[test]
fn tag_15_method_handle() {
    let (e, end) = entry(&[15, 6, 0, 11]);
    assert_eq!(end, 4);
    match e {
        CpInfo::MethodHandle(x) => {
            assert_eq!(x.reference_kind, MethodHandleReferenceKind::InvokeStatic);
            assert_eq!(x.reference_index, 11);
        },
        _ => panic!("wrong variant"),
    }
}

#[test]
fn tag_16_method_type() {
    let (e, end) = entry(&[16, 0, 12]);
    assert_eq!(end, 3);
    match e {
        CpInfo::MethodType(x) => assert_eq!(x.descriptor_index, 12),
        _ => panic!("wrong variant"),
    }
}

#[test]
fn tag_17_dynamic() {
    let (e, end) = entry(&[17, 0, 1, 0, 2]);
    assert_eq!(end, 5);
    match e {
        CpInfo::Dynamic(x) => {
            assert_eq!(x.bootstrap_method_attr_index, 1);
            assert_eq!(x.name_and_type_index, 2);
        },
        _ => panic!("wrong variant"),
    }
}

#[test]
fn tag_18_invoke_dynamic() {
    let (e, end) = entry(&[18, 0, 2, 0, 3]);
    assert_eq!(end, 5);
    match e {
        CpInfo::InvokeDynamic(x) => {
            assert_eq!(x.bootstrap_method_attr_index, 2);
            assert_eq!(x.name_and_type_index, 3);
        },
        _ => panic!("wrong variant"),
    }
}

#[test]
fn tag_19_module() {
    let (e, end) = entry(&[19, 0, 4]);
    assert_eq!(end, 3);
    match e {
        CpInfo::Module(x) => assert_eq!(x.name_index, 4),
        _ => panic!("wrong variant"),
    }
}

#[test]
fn tag_20_package() {
    let (e, end) = entry(&[20, 0, 5]);
    assert_eq!(end, 3);
    match e {
        CpInfo::Package(x) => assert_eq!(x.name_index, 5),
        _ => panic!("wrong variant"),
    }
}

#[test]
fn unknown_tag_lists_all_seventeen() {
    let r = read_constant_pool_entry(&vec![2, 0, 0], 0);
    assert_eq!(
        r.unwrap_err(),
        MalformedClassFile::EntryNotOneOf {
            entry_name: EntryName::ConstantPoolTag,
            value_read: 2,
            values_allowed: vec![1, 3, 4, 5, 6, 7, 8, 9, 10, 11, 12, 15, 16, 17, 18, 19, 20],
        },
    );
}

#[test]
fn method_handle_kind_ten_lists_all_nine_kinds() {
    let r = read_constant_pool_entry(&vec![15, 0x0A, 0, 1], 0);
    assert_eq!(
        r.unwrap_err(),
        MalformedClassFile::EntryNotOneOf {
            entry_name: EntryName::ConstantPoolMethodHandleReferenceKind,
            value_read: 0xA,
            values_allowed: vec![1, 2, 3, 4, 5, 6, 7, 8, 9],
        },
    );
}

#[test]
fn method_handle_kind_zero_fails() {
    let r = read_constant_pool_entry(&vec![15, 0, 0, 1], 0);
    assert!(matches!(r, Err(MalformedClassFile::EntryNotOneOf { .. })));
}

#[test]
fn utf8_entry_with_bad_text_fails_with_the_codec_error() {
    let r = read_constant_pool_entry(&vec![1, 0, 1, 0], 0);
    assert!(matches!(r, Err(MalformedClassFile::ModifiedUtf8(_))));
}

#[test]
fn truncated_entry_fails_with_exhaustion() {
    let r = read_constant_pool_entry(&vec![7, 0], 0);
    assert_eq!(r.unwrap_err(), MalformedClassFile::UnexpectedEof);
}

#[test]
fn pool_with_count_n_holds_n_entries_with_placeholder_first() {
    // Count 4: the placeholder plus three decoded entries.
    let data = vec![7, 0, 1, 8, 0, 2, 16, 0, 3];
    let (pool, end) = read_constant_pool(&data, 0, 4).unwrap();
    assert_eq!(end, 9);
    assert_eq!(pool.len(), 4);
    assert!(matches!(&pool[0], CpInfo::Integer(d) if d.bytes == [0, 0, 0, 0]));
    assert!(matches!(&pool[1], CpInfo::Class(_)));
    assert!(matches!(&pool[2], CpInfo::String(_)));
    assert!(matches!(&pool[3], CpInfo::MethodType(_)));
}

#[test]
fn pool_with_count_one_holds_only_the_placeholder() {
    let (pool, end) = read_constant_pool(&vec![], 0, 1).unwrap();
    assert_eq!(end, 0);
    assert_eq!(pool.len(), 1);
    assert!(matches!(&pool[0], CpInfo::Integer(d) if d.bytes == [0, 0, 0, 0]));
}

#[test]
fn reference_kind_try_from_accepts_one_through_nine() {
    for v in 1u8..=9 {
        let k = MethodHandleReferenceKind::try_from(v).unwrap();
        assert_eq!(k.value(), v);
    }
}

#[test]
fn reference_kind_try_from_rejects_everything_else() {
    assert!(MethodHandleReferenceKind::try_from(0).is_err());
    assert!(MethodHandleReferenceKind::try_from(10).is_err());
    assert!(MethodHandleReferenceKind::try_from(255).is_err());
}
