use classfile::parser::{
    read_attribute, AttributeInfo, CpInfo, CpInteger, CpUtf8, MalformedClassFile, StackMapFrame,
};

fn pool_with(name: &str) -> Vec<CpInfo> {
    vec![
        CpInfo::Integer(CpInteger { bytes: [0; 4] }),
        CpInfo::Utf8(CpUtf8 { bytes: name.as_bytes().to_vec(), converted: name.to_string() }),
    ]
}

fn attr_bytes(payload: &[u8]) -> Vec<u8> {
    let mut v = vec![0, 1];
    v.extend_from_slice(&(payload.len() as u32).to_be_bytes());
    v.extend_from_slice(payload);
    v
}

#[test]
fn constant_value() {
    let data = attr_bytes(&[0, 5]);
    let (a, end) = read_attribute(&data, 0, &pool_with("ConstantValue")).unwrap();
    assert_eq!(end, data.len());
    match a {
        AttributeInfo::ConstantValue(x) => {
            assert_eq!(x.attribute_name_index, 1);
            assert_eq!(x.attribute_length, 2);
            assert_eq!(x.constantvalue_index, 5);
        },
        _ => panic!("wrong variant"),
    }
}

#[test]
fn code_with_nested_attribute() {
    // max_stack 1, max_locals 2, three code bytes, no exception rows, one
    // nested Deprecated attribute (name index 1 resolves to the outer name,
    // so build the nested attribute against its own pool entry).
    let pool = vec![
        CpInfo::Integer(CpInteger { bytes: [0; 4] }),
        CpInfo::Utf8(CpUtf8 { bytes: b"Code".to_vec(), converted: "Code".to_string() }),
        CpInfo::Utf8(CpUtf8 {
            bytes: b"Deprecated".to_vec(),
            converted: "Deprecated".to_string(),
        }),
    ];
    let payload = [
        0, 1, // max_stack
        0, 2, // max_locals
        0, 0, 0, 3, // code length
        0xB1, 0x00, 0xB1, // code
        0, 0, // exception table length
        0, 1, // nested attribute count
        0, 2, 0, 0, 0, 0, // nested Deprecated: name index 2, length 0
    ];
    let data = attr_bytes(&payload);
    let (a, end) = read_attribute(&data, 0, &pool).unwrap();
    assert_eq!(end, data.len());
    match a {
        AttributeInfo::Code(x) => {
            assert_eq!(x.max_stack, 1);
            assert_eq!(x.max_locals, 2);
            assert_eq!(x.code, vec![0xB1, 0x00, 0xB1]);
            assert_eq!(x.exception_table.len(), 0);
            assert_eq!(x.attributes.len(), 1);
            assert!(matches!(&x.attributes[0], AttributeInfo::Deprecated(_)));
        },
        _ => panic!("wrong variant"),
    }
}

#[test]
fn code_exception_table_rows_land_in_order() {
    let payload = [
        0, 1, 0, 2, 0, 0, 0, 0, // header, no code
        0, 1, // one exception row
        0, 10, 0, 20, 0, 30, 0, 40, 0, 0, // row, then no nested attributes
    ];
    let data = attr_bytes(&payload);
    let (a, _) = read_attribute(&data, 0, &pool_with("Code")).unwrap();
    match a {
        AttributeInfo::Code(x) => {
            assert_eq!(x.exception_table.len(), 1);
            assert_eq!(x.exception_table[0].start_pc, 10);
            assert_eq!(x.exception_table[0].end_pc, 20);
            assert_eq!(x.exception_table[0].handler_pc, 30);
            assert_eq!(x.exception_table[0].catch_type, 40);
        },
        _ => panic!("wrong variant"),
    }
}

#[test]
fn stack_map_table() {
    let data = attr_bytes(&[0, 2, 5, 251, 0, 9]);
    let (a, end) = read_attribute(&data, 0, &pool_with("StackMapTable")).unwrap();
    assert_eq!(end, data.len());
    match a {
        AttributeInfo::StackMapTable(x) => {
            assert_eq!(x.entries.len(), 2);
            assert!(matches!(&x.entries[0], StackMapFrame::SameFrame(f) if f.frame_type == 5));
            assert!(matches!(
                &x.entries[1],
                StackMapFrame::SameFrameExtended(f) if f.offset_delta == 9,
            ));
        },
        _ => panic!("wrong variant"),
    }
}

#[test]
fn exceptions() {
    let data = attr_bytes(&[0, 2, 0, 3, 0, 4]);
    let (a, end) = read_attribute(&data, 0, &pool_with("Exceptions")).unwrap();
    assert_eq!(end, data.len());
    match a {
        AttributeInfo::Exceptions(x) => assert_eq!(x.exception_index_table, vec![3, 4]),
        _ => panic!("wrong variant"),
    }
}

#[test]
fn inner_classes() {
    let data = attr_bytes(&[0, 1, 0, 2, 0, 3, 0, 4, 0, 0x19]);
    let (a, end) = read_attribute(&data, 0, &pool_with("InnerClasses")).unwrap();
    assert_eq!(end, data.len());
    match a {
        AttributeInfo::InnerClasses(x) => {
            assert_eq!(x.classes.len(), 1);
            assert_eq!(x.classes[0].inner_class_info_index, 2);
            assert_eq!(x.classes[0].outer_class_info_index, 3);
            assert_eq!(x.classes[0].inner_name_index, 4);
            assert_eq!(x.classes[0].inner_class_access_flags, 0x19);
        },
        _ => panic!("wrong variant"),
    }
}

#[test]
fn enclosing_method() {
    let data = attr_bytes(&[0, 7, 0, 8]);
    let (a, end) = read_attribute(&data, 0, &pool_with("EnclosingMethod")).unwrap();
    assert_eq!(end, data.len());
    match a {
        AttributeInfo::EnclosingMethod(x) => {
            assert_eq!(x.class_index, 7);
            assert_eq!(x.method_index, 8);
        },
        _ => panic!("wrong variant"),
    }
}

#[test]
fn synthetic() {
    let data = attr_bytes(&[]);
    let (a, end) = read_attribute(&data, 0, &pool_with("Synthetic")).unwrap();
    assert_eq!(end, data.len());
    assert!(matches!(a, AttributeInfo::Synthetic(_)));
}

#[test]
fn signature() {
    let data = attr_bytes(&[0, 6]);
    let (a, end) = read_attribute(&data, 0, &pool_with("Signature")).unwrap();
    assert_eq!(end, data.len());
    assert!(matches!(a, AttributeInfo::Signature(x) if x.signature_index == 6));
}

#[test]
fn source_file() {
    let data = attr_bytes(&[0, 2]);
    let (a, end) = read_attribute(&data, 0, &pool_with("SourceFile")).unwrap();
    assert_eq!(end, data.len());
    assert!(matches!(a, AttributeInfo::SourceFile(x) if x.sourcefile_index == 2));
}

#[test]
fn source_debug_extension_fills_its_declared_length() {
    let data = attr_bytes(&[9, 8, 7]);
    let (a, end) = read_attribute(&data, 0, &pool_with("SourceDebugExtension")).unwrap();
    assert_eq!(end, data.len());
    match a {
        AttributeInfo::SourceDebugExtension(x) => {
            assert_eq!(x.attribute_length, 3);
            assert_eq!(x.debug_extension, vec![9, 8, 7]);
        },
        _ => panic!("wrong variant"),
    }
}

#[test]
fn line_number_table() {
    let data = attr_bytes(&[0, 2, 0, 0, 0, 1, 0, 8, 0, 3]);
    let (a, end) = read_attribute(&data, 0, &pool_with("LineNumberTable")).unwrap();
    assert_eq!(end, data.len());
    match a {
        AttributeInfo::LineNumberTable(x) => {
            assert_eq!(x.line_number_table.len(), 2);
            assert_eq!(x.line_number_table[0].start_pc, 0);
            assert_eq!(x.line_number_table[0].line_number, 1);
            assert_eq!(x.line_number_table[1].start_pc, 8);
            assert_eq!(x.line_number_table[1].line_number, 3);
        },
        _ => panic!("wrong variant"),
    }
}

#[test]
fn local_variable_table() {
    let data = attr_bytes(&[0, 1, 0, 1, 0, 2, 0, 3, 0, 4, 0, 5]);
    let (a, end) = read_attribute(&data, 0, &pool_with("LocalVariableTable")).unwrap();
    assert_eq!(end, data.len());
    match a {
        AttributeInfo::LocalVariableTable(x) => {
            assert_eq!(x.local_variable_table.len(), 1);
            let e = &x.local_variable_table[0];
            assert_eq!(
                (e.start_pc, e.length, e.name_index, e.descriptor_index, e.index),
                (1, 2, 3, 4, 5),
            );
        },
        _ => panic!("wrong variant"),
    }
}

#[test]
fn local_variable_type_table() {
    let data = attr_bytes(&[0, 1, 0, 1, 0, 2, 0, 3, 0, 4, 0, 5]);
    let (a, end) = read_attribute(&data, 0, &pool_with("LocalVariableTypeTable")).unwrap();
    assert_eq!(end, data.len());
    match a {
        AttributeInfo::LocalVariableTypeTable(x) => {
            assert_eq!(x.local_variable_table.len(), 1);
            let e = &x.local_variable_table[0];
            assert_eq!(
                (e.start_pc, e.length, e.name_index, e.signature_index, e.index),
                (1, 2, 3, 4, 5),
            );
        },
        _ => panic!("wrong variant"),
    }
}

#[test]
fn deprecated() {
    let data = attr_bytes(&[]);
    let (a, end) = read_attribute(&data, 0, &pool_with("Deprecated")).unwrap();
    assert_eq!(end, data.len());
    assert!(matches!(a, AttributeInfo::Deprecated(_)));
}

#[test]
fn runtime_visible_annotations() {
    let data = attr_bytes(&[0, 1, 0, 9, 0, 0]);
    let (a, end) = read_attribute(&data, 0, &pool_with("RuntimeVisibleAnnotations")).unwrap();
    assert_eq!(end, data.len());
    match a {
        AttributeInfo::RuntimeVisibleAnnotations(x) => {
            assert_eq!(x.annotations.len(), 1);
            assert_eq!(x.annotations[0].type_index, 9);
        },
        _ => panic!("wrong variant"),
    }
}

#[test]
fn runtime_invisible_annotations() {
    let data = attr_bytes(&[0, 1, 0, 9, 0, 0]);
    let (a, end) = read_attribute(&data, 0, &pool_with("RuntimeInvisibleAnnotations")).unwrap();
    assert_eq!(end, data.len());
    assert!(matches!(a, AttributeInfo::RuntimeInvisibleAnnotations(_)));
}

#[test]
fn runtime_visible_parameter_annotations() {
    // Two parameters: the first with one annotation, the second with none.
    let data = attr_bytes(&[2, 0, 1, 0, 9, 0, 0, 0, 0]);
    let (a, end) = read_attribute(
        &data,
        0,
        &pool_with("RuntimeVisibleParameterAnnotations"),
    )
    .unwrap();
    assert_eq!(end, data.len());
    match a {
        AttributeInfo::RuntimeVisibleParameterAnnotations(x) => {
            assert_eq!(x.parameter_annotations.len(), 2);
            assert_eq!(x.parameter_annotations[0].len(), 1);
            assert_eq!(x.parameter_annotations[0][0].type_index, 9);
            assert_eq!(x.parameter_annotations[1].len(), 0);
        },
        _ => panic!("wrong variant"),
    }
}

#[test]
fn runtime_invisible_parameter_annotations() {
    let data = attr_bytes(&[1, 0, 0]);
    let (a, end) = read_attribute(
        &data,
        0,
        &pool_with("RuntimeInvisibleParameterAnnotations"),
    )
    .unwrap();
    assert_eq!(end, data.len());
    match a {
        AttributeInfo::RuntimeInvisibleParameterAnnotations(x) => {
            assert_eq!(x.parameter_annotations.len(), 1);
            assert_eq!(x.parameter_annotations[0].len(), 0);
        },
        _ => panic!("wrong variant"),
    }
}

#[test]
fn runtime_visible_type_annotations() {
    let data = attr_bytes(&[0, 1, 0x14, 0, 0, 9, 0, 0]);
    let (a, end) = read_attribute(&data, 0, &pool_with("RuntimeVisibleTypeAnnotations")).unwrap();
    assert_eq!(end, data.len());
    match a {
        AttributeInfo::RuntimeVisibleTypeAnnotations(x) => {
            assert_eq!(x.annotations.len(), 1);
            assert_eq!(x.annotations[0].target_type, 0x14);
            assert_eq!(x.annotations[0].type_index, 9);
        },
        _ => panic!("wrong variant"),
    }
}

#[test]
fn runtime_invisible_type_annotations() {
    let data = attr_bytes(&[0, 1, 0x14, 0, 0, 9, 0, 0]);
    let (a, end) = read_attribute(&data, 0, &pool_with("RuntimeInvisibleTypeAnnotations"))
        .unwrap();
    assert_eq!(end, data.len());
    assert!(matches!(a, AttributeInfo::RuntimeInvisibleTypeAnnotations(_)));
}

#[test]
fn annotation_default() {
    let data = attr_bytes(&[b'I', 0, 3]);
    let (a, end) = read_attribute(&data, 0, &pool_with("AnnotationDefault")).unwrap();
    assert_eq!(end, data.len());
    match a {
        AttributeInfo::AnnotationDefault(x) => {
            assert!(matches!(
                x.default_value,
                classfile::parser::AttributeAnnotationsElementValue::Int(i)
                    if i.const_value_index == 3,
            ));
        },
        _ => panic!("wrong variant"),
    }
}

#[test]
fn bootstrap_methods() {
    let data = attr_bytes(&[0, 1, 0, 7, 0, 2, 0, 8, 0, 9]);
    let (a, end) = read_attribute(&data, 0, &pool_with("BootstrapMethods")).unwrap();
    assert_eq!(end, data.len());
    match a {
        AttributeInfo::BootstrapMethods(x) => {
            assert_eq!(x.bootstrap_methods.len(), 1);
            assert_eq!(x.bootstrap_methods[0].bootstrap_method_ref, 7);
            assert_eq!(x.bootstrap_methods[0].bootstrap_arguments, vec![8, 9]);
        },
        _ => panic!("wrong variant"),
    }
}

#[test]
fn method_parameters() {
    let data = attr_bytes(&[1, 0, 4, 0x80, 0]);
    let (a, end) = read_attribute(&data, 0, &pool_with("MethodParameters")).unwrap();
    assert_eq!(end, data.len());
    match a {
        AttributeInfo::MethodParameters(x) => {
            assert_eq!(x.parameters.len(), 1);
            assert_eq!(x.parameters[0].name_index, 4);
            assert_eq!(x.parameters[0].access_flags, 0x8000);
        },
        _ => panic!("wrong variant"),
    }
}

#[test]
fn module_reads_all_five_groups() {
    let payload = [
        0, 2, // module name index
        0, 0x20, // module flags
        0, 3, // module version index
        0, 1, 0, 4, 0, 0x40, 0, 5, // one requires row
        0, 1, 0, 6, 0, 0, 0, 2, 0, 7, 0, 8, // one exports row to two modules
        0, 1, 0, 9, 0, 0, 0, 0, // one opens row to nobody
        0, 2, 0, 10, 0, 11, // two uses indices
        0, 1, 0, 12, 0, 1, 0, 13, // one provides row with one implementation
    ];
    let data = attr_bytes(&payload);
    let (a, end) = read_attribute(&data, 0, &pool_with("Module")).unwrap();
    assert_eq!(end, data.len());
    match a {
        AttributeInfo::Module(x) => {
            assert_eq!(x.module_name_index, 2);
            assert_eq!(x.module_flags, 0x20);
            assert_eq!(x.module_version_index, 3);
            assert_eq!(x.requires.len(), 1);
            assert_eq!(x.requires[0].requires_index, 4);
            assert_eq!(x.requires[0].requires_flags, 0x40);
            assert_eq!(x.requires[0].requires_version_index, 5);
            assert_eq!(x.exports.len(), 1);
            assert_eq!(x.exports[0].exports_index, 6);
            assert_eq!(x.exports[0].exports_to_index, vec![7, 8]);
            assert_eq!(x.opens.len(), 1);
            assert_eq!(x.opens[0].opens_index, 9);
            assert_eq!(x.opens[0].opens_to_index, Vec::<u16>::new());
            assert_eq!(x.uses_index, vec![10, 11]);
            assert_eq!(x.provides.len(), 1);
            assert_eq!(x.provides[0].provides_index, 12);
            assert_eq!(x.provides[0].provides_with_index, vec![13]);
        },
        _ => panic!("wrong variant"),
    }
}

#[test]
fn module_packages() {
    let data = attr_bytes(&[0, 2, 0, 5, 0, 6]);
    let (a, end) = read_attribute(&data, 0, &pool_with("ModulePackages")).unwrap();
    assert_eq!(end, data.len());
    assert!(matches!(a, AttributeInfo::ModulePackages(x) if x.package_index == vec![5, 6]));
}

#[test]
fn module_main_class() {
    let data = attr_bytes(&[0, 3]);
    let (a, end) = read_attribute(&data, 0, &pool_with("ModuleMainClass")).unwrap();
    assert_eq!(end, data.len());
    assert!(matches!(a, AttributeInfo::ModuleMainClass(x) if x.main_class_index == 3));
}

#[test]
fn nest_host() {
    let data = attr_bytes(&[0, 4]);
    let (a, end) = read_attribute(&data, 0, &pool_with("NestHost")).unwrap();
    assert_eq!(end, data.len());
    assert!(matches!(a, AttributeInfo::NestHost(x) if x.host_class_index == 4));
}

#[test]
fn nest_members() {
    let data = attr_bytes(&[0, 2, 0, 5, 0, 6]);
    let (a, end) = read_attribute(&data, 0, &pool_with("NestMembers")).unwrap();
    assert_eq!(end, data.len());
    assert!(matches!(a, AttributeInfo::NestMembers(x) if x.classes == vec![5, 6]));
}

#[test]
fn record_components_carry_nested_attributes() {
    let pool = vec![
        CpInfo::Integer(CpInteger { bytes: [0; 4] }),
        CpInfo::Utf8(CpUtf8 { bytes: b"Record".to_vec(), converted: "Record".to_string() }),
        CpInfo::Utf8(CpUtf8 {
            bytes: b"Signature".to_vec(),
            converted: "Signature".to_string(),
        }),
    ];
    let payload = [
        0, 1, // one component
        0, 4, 0, 5, // its name and descriptor
        0, 1, // one nested attribute
        0, 2, 0, 0, 0, 2, 0, 9, // nested Signature with index 9
    ];
    let data = attr_bytes(&payload);
    let (a, end) = read_attribute(&data, 0, &pool).unwrap();
    assert_eq!(end, data.len());
    match a {
        AttributeInfo::Record(x) => {
            assert_eq!(x.components.len(), 1);
            assert_eq!(x.components[0].name_index, 4);
            assert_eq!(x.components[0].descriptor_index, 5);
            assert_eq!(x.components[0].attributes.len(), 1);
            assert!(matches!(
                &x.components[0].attributes[0],
                AttributeInfo::Signature(s) if s.signature_index == 9,
            ));
        },
        _ => panic!("wrong variant"),
    }
}

#[test]
fn permitted_subclasses() {
    let data = attr_bytes(&[0, 1, 0, 7]);
    let (a, end) = read_attribute(&data, 0, &pool_with("PermittedSubclasses")).unwrap();
    assert_eq!(end, data.len());
    assert!(matches!(a, AttributeInfo::PermittedSubclasses(x) if x.classes == vec![7]));
}

#[test]
fn unknown_attribute_name_fails_carrying_it() {
    let data = attr_bytes(&[]);
    let r = read_attribute(&data, 0, &pool_with("NoSuchAttribute"));
    assert_eq!(
        r.unwrap_err(),
        MalformedClassFile::UnknownAttributeName { name: "NoSuchAttribute".to_string() },
    );
}

#[test]
fn name_index_not_leading_to_text_fails() {
    // Index 1 holds an Integer entry, not text.
    let pool = vec![
        CpInfo::Integer(CpInteger { bytes: [0; 4] }),
        CpInfo::Integer(CpInteger { bytes: [1, 2, 3, 4] }),
    ];
    let data = attr_bytes(&[]);
    let r = read_attribute(&data, 0, &pool);
    assert_eq!(
        r.unwrap_err(),
        MalformedClassFile::AttributeNameNotUtf8 { attribute_name_index: 1 },
    );
}

#[test]
fn name_index_outside_the_pool_fails() {
    let pool = vec![CpInfo::Integer(CpInteger { bytes: [0; 4] })];
    let data = attr_bytes(&[]);
    let r = read_attribute(&data, 0, &pool);
    assert_eq!(
        r.unwrap_err(),
        MalformedClassFile::AttributeNameNotUtf8 { attribute_name_index: 1 },
    );
}
