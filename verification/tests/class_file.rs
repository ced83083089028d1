use classfile::parser::{
    parse_class_file, AttributeInfo, ClassAccessFlagMask, CpInfo, EntryName,
    InnerClassAccessFlagMask, MalformedClassFile, MethodAccessFlagMask,
};

/// A small but complete class file: three pool entries, one interface, one
/// field, and one method whose Code attribute holds three bytecode bytes.
fn fixture() -> Vec<u8> {
    let mut v: Vec<u8> = Vec::new();
    v.extend_from_slice(&[0xCA, 0xFE, 0xBA, 0xBE]);
    v.extend_from_slice(&[0x00, 0x00]); // minor version
    v.extend_from_slice(&[0x00, 0x34]); // major version
    v.extend_from_slice(&[0x00, 0x04]); // constant pool count
    v.extend_from_slice(&[0x01, 0x00, 0x04, b'C', b'o', b'd', b'e']);
    v.extend_from_slice(&[0x01, 0x00, 0x04, b'm', b'a', b'i', b'n']);
    v.extend_from_slice(&[0x07, 0x00, 0x02]);
    v.extend_from_slice(&[0x00, 0x21]); // access flags
    v.extend_from_slice(&[0x00, 0x03]); // this class
    v.extend_from_slice(&[0x00, 0x00]); // super class
    v.extend_from_slice(&[0x00, 0x01, 0x00, 0x03]); // one interface
    v.extend_from_slice(&[0x00, 0x01]); // one field
    v.extend_from_slice(&[0x00, 0x02, 0x00, 0x02, 0x00, 0x02, 0x00, 0x00]);
    v.extend_from_slice(&[0x00, 0x01]); // one method
    v.extend_from_slice(&[0x00, 0x01, 0x00, 0x02, 0x00, 0x02, 0x00, 0x01]);
    // its Code attribute
    v.extend_from_slice(&[0x00, 0x01]); // name index: "Code"
    v.extend_from_slice(&[0x00, 0x00, 0x00, 0x0F]); // declared length
    v.extend_from_slice(&[0x00, 0x04]); // max_stack
    v.extend_from_slice(&[0x00, 0x02]); // max_locals
    v.extend_from_slice(&[0x00, 0x00, 0x00, 0x03]); // code length
    v.extend_from_slice(&[0xB1, 0x00, 0xB1]); // code
    v.extend_from_slice(&[0x00, 0x00]); // exception table length
    v.extend_from_slice(&[0x00, 0x00]); // nested attribute count
    v.extend_from_slice(&[0x00, 0x00]); // class attribute count
    v
}

#[test]
fn fixture_decodes_with_every_field_in_place() {
    let data = fixture();
    let c = parse_class_file(&data).unwrap();
    assert_eq!(c.magic, 0xCAFEBABE);
    assert_eq!(c.minor_version, 0);
    assert_eq!(c.major_version, 0x34);
    assert_eq!(c.constant_pool_count, 4);
    assert_eq!(c.constant_pool.len(), 4);
    assert!(matches!(&c.constant_pool[0], CpInfo::Integer(d) if d.bytes == [0, 0, 0, 0]));
    assert!(matches!(&c.constant_pool[1], CpInfo::Utf8(u) if u.converted == "Code"));
    assert!(matches!(&c.constant_pool[2], CpInfo::Utf8(u) if u.converted == "main"));
    assert!(matches!(&c.constant_pool[3], CpInfo::Class(x) if x.name_index == 2));
    assert_eq!(c.access_flags, 0x21);
    assert_eq!(c.this_class, 3);
    assert_eq!(c.super_class, 0);
    assert_eq!(c.interfaces, vec![3]);
    assert_eq!(c.fields.len(), 1);
    assert_eq!(c.fields[0].access_flags, 2);
    assert_eq!(c.fields[0].name_index, 2);
    assert_eq!(c.fields[0].descriptor_index, 2);
    assert_eq!(c.fields[0].attributes.len(), 0);
    assert_eq!(c.methods.len(), 1);
    assert_eq!(c.methods[0].access_flags, 1);
    assert_eq!(c.methods[0].attributes.len(), 1);
    assert_eq!(c.attributes.len(), 0);
}

#[test]
fn code_attribute_round_trips_its_exact_field_values() {
    let data = fixture();
    let c = parse_class_file(&data).unwrap();
    match &c.methods[0].attributes[0] {
        AttributeInfo::Code(x) => {
            assert_eq!(x.attribute_name_index, 1);
            assert_eq!(x.max_stack, 4);
            assert_eq!(x.max_locals, 2);
            assert_eq!(x.code, vec![0xB1, 0x00, 0xB1]);
            assert_eq!(x.exception_table.len(), 0);
            assert_eq!(x.attributes.len(), 0);
        },
        _ => panic!("wrong variant"),
    }
}

#[test]
fn wrong_magic_fails_before_anything_else() {
    let r = parse_class_file(&vec![0xCA, 0xFE, 0xBA, 0xBF]);
    assert_eq!(
        r.unwrap_err(),
        MalformedClassFile::EntryWrongValue {
            entry_name: EntryName::Magic,
            value_read: 0xCAFEBABF,
            value_expected: 0xCAFEBABE,
        },
    );
}

#[test]
fn wrong_magic_fails_even_with_a_plausible_tail() {
    let mut data = fixture();
    data[0] = 0x00;
    assert!(matches!(
        parse_class_file(&data),
        Err(MalformedClassFile::EntryWrongValue { entry_name: EntryName::Magic, .. }),
    ));
}

#[test]
fn input_shorter_than_the_magic_fails_with_exhaustion() {
    assert_eq!(
        parse_class_file(&vec![0xCA, 0xFE]).unwrap_err(),
        MalformedClassFile::UnexpectedEof,
    );
    assert_eq!(parse_class_file(&vec![]).unwrap_err(), MalformedClassFile::UnexpectedEof);
}

#[test]
fn every_truncation_of_the_fixture_fails_with_exhaustion() {
    let data = fixture();
    for cut in 0..data.len() {
        let truncated = data[..cut].to_vec();
        let r = parse_class_file(&truncated);
        assert_eq!(r.unwrap_err(), MalformedClassFile::UnexpectedEof, "cut at {}", cut);
    }
}

#[test]
fn trailing_bytes_beyond_the_class_file_are_left_unread() {
    let mut data = fixture();
    data.push(0xFF);
    data.push(0x00);
    let c = parse_class_file(&data).unwrap();
    assert_eq!(c.magic, 0xCAFEBABE);
}

#[test]
fn class_access_flag_bits() {
    assert_eq!(ClassAccessFlagMask::Public.mask(), 0x0001);
    assert_eq!(ClassAccessFlagMask::Final.mask(), 0x0010);
    assert_eq!(ClassAccessFlagMask::Super.mask(), 0x0020);
    assert_eq!(ClassAccessFlagMask::Interface.mask(), 0x0200);
    assert_eq!(ClassAccessFlagMask::Abstract.mask(), 0x0400);
    assert_eq!(ClassAccessFlagMask::Synthetic.mask(), 0x1000);
    assert_eq!(ClassAccessFlagMask::Annotation.mask(), 0x2000);
    assert_eq!(ClassAccessFlagMask::Enum.mask(), 0x4000);
    assert_eq!(ClassAccessFlagMask::Module.mask(), 0x8000);
}

#[test]
fn method_access_flag_bits() {
    assert_eq!(MethodAccessFlagMask::Public.mask(), 0x0001);
    assert_eq!(MethodAccessFlagMask::Private.mask(), 0x0002);
    assert_eq!(MethodAccessFlagMask::Protected.mask(), 0x0004);
    assert_eq!(MethodAccessFlagMask::Static.mask(), 0x0008);
    assert_eq!(MethodAccessFlagMask::Final.mask(), 0x0010);
    assert_eq!(MethodAccessFlagMask::Synchronized.mask(), 0x0020);
    assert_eq!(MethodAccessFlagMask::Bridge.mask(), 0x0040);
    assert_eq!(MethodAccessFlagMask::VarArgs.mask(), 0x0080);
    assert_eq!(MethodAccessFlagMask::Native.mask(), 0x0100);
    assert_eq!(MethodAccessFlagMask::Abstract.mask(), 0x0400);
    assert_eq!(MethodAccessFlagMask::Strict.mask(), 0x8000);
    assert_eq!(MethodAccessFlagMask::Synthetic.mask(), 0x1000);
}

#[test]
fn inner_class_access_flag_bits() {
    assert_eq!(InnerClassAccessFlagMask::Public.mask(), 0x0001);
    assert_eq!(InnerClassAccessFlagMask::Private.mask(), 0x0002);
    assert_eq!(InnerClassAccessFlagMask::Protected.mask(), 0x0004);
    assert_eq!(InnerClassAccessFlagMask::Static.mask(), 0x0008);
    assert_eq!(InnerClassAccessFlagMask::Final.mask(), 0x0010);
    assert_eq!(InnerClassAccessFlagMask::Interface.mask(), 0x0200);
    assert_eq!(InnerClassAccessFlagMask::Abstract.mask(), 0x0400);
    assert_eq!(InnerClassAccessFlagMask::Synthetic.mask(), 0x1000);
    assert_eq!(InnerClassAccessFlagMask::Annotation.mask(), 0x2000);
    assert_eq!(InnerClassAccessFlagMask::Enum.mask(), 0x4000);
}

#[test]
fn error_constructors_build_the_matching_errors() {
    let e = MalformedClassFile::entry_wrong_value(EntryName::Magic, 1, 2);
    assert_eq!(
        e,
        MalformedClassFile::EntryWrongValue {
            entry_name: EntryName::Magic,
            value_read: 1,
            value_expected: 2,
        },
    );
    let e = MalformedClassFile::entry_not_one_of(EntryName::ConstantPoolTag, 2, vec![1, 3]);
    assert_eq!(
        e,
        MalformedClassFile::EntryNotOneOf {
            entry_name: EntryName::ConstantPoolTag,
            value_read: 2,
            values_allowed: vec![1, 3],
        },
    );
}
