use classfile::parser::{
    read_stack_map_frame, read_verification_type_info, MalformedClassFile, StackMapFrame,
    VerificationTypeInfo,
};

#[test]
fn verification_tag_0_top() {
    let (v, end) = read_verification_type_info(&vec![0], 0).unwrap();
    assert_eq!(end, 1);
    assert!(matches!(v, VerificationTypeInfo::TopVariable(_)));
}

#[test]
fn verification_tag_1_integer() {
    let (v, end) = read_verification_type_info(&vec![1], 0).unwrap();
    assert_eq!(end, 1);
    assert!(matches!(v, VerificationTypeInfo::IntegerVariable(_)));
}

#[test]
fn verification_tag_2_float() {
    let (v, end) = read_verification_type_info(&vec![2], 0).unwrap();
    assert_eq!(end, 1);
    assert!(matches!(v, VerificationTypeInfo::FloatVariable(_)));
}

#[test]
fn verification_tag_3_double() {
    let (v, end) = read_verification_type_info(&vec![3], 0).unwrap();
    assert_eq!(end, 1);
    assert!(matches!(v, VerificationTypeInfo::DoubleVariable(_)));
}

#[test]
fn verification_tag_4_long() {
    let (v, end) = read_verification_type_info(&vec![4], 0).unwrap();
    assert_eq!(end, 1);
    assert!(matches!(v, VerificationTypeInfo::LongVariable(_)));
}

#[test]
fn verification_tag_5_null() {
    let (v, end) = read_verification_type_info(&vec![5], 0).unwrap();
    assert_eq!(end, 1);
    assert!(matches!(v, VerificationTypeInfo::NullVariable(_)));
}

#[test]
fn verification_tag_6_uninitialized_this() {
    let (v, end) = read_verification_type_info(&vec![6], 0).unwrap();
    assert_eq!(end, 1);
    assert!(matches!(v, VerificationTypeInfo::UninitializedThisVariable(_)));
}

#[test]
fn verification_tag_7_object_carries_pool_index() {
    let (v, end) = read_verification_type_info(&vec![7, 0, 33], 0).unwrap();
    assert_eq!(end, 3);
    assert!(matches!(v, VerificationTypeInfo::ObjectVariable(x) if x.cpool_index == 33));
}

#[test]
fn verification_tag_8_uninitialized_carries_offset() {
    let (v, end) = read_verification_type_info(&vec![8, 1, 1], 0).unwrap();
    assert_eq!(end, 3);
    assert!(matches!(v, VerificationTypeInfo::UninitializedVariable(x) if x.offset == 257));
}

#[test]
fn verification_tag_9_fails() {
    let r = read_verification_type_info(&vec![9], 0);
    assert_eq!(r.unwrap_err(), MalformedClassFile::UnknownVerificationTypeTag { tag: 9 });
}

#[test]
fn frame_0_to_63_same_frame() {
    let (f, end) = read_stack_map_frame(&vec![17], 0).unwrap();
    assert_eq!(end, 1);
    assert!(matches!(f, StackMapFrame::SameFrame(x) if x.frame_type == 17));
}

#[test]
fn frame_64_to_127_same_locals_one_stack_item() {
    let (f, end) = read_stack_map_frame(&vec![70, 1], 0).unwrap();
    assert_eq!(end, 2);
    match f {
        StackMapFrame::SameLocals1StackItemFrame(x) => {
            assert_eq!(x.frame_type, 70);
            assert!(matches!(x.stack_entry, VerificationTypeInfo::IntegerVariable(_)));
        },
        _ => panic!("wrong variant"),
    }
}

#[test]
fn frame_247_same_locals_one_stack_item_extended() {
    let (f, end) = read_stack_map_frame(&vec![247, 0, 9, 5], 0).unwrap();
    assert_eq!(end, 4);
    match f {
        StackMapFrame::SameLocals1StackItemFrameExtended(x) => {
            assert_eq!(x.frame_type, 247);
            assert_eq!(x.offset_delta, 9);
            assert!(matches!(x.stack_entry, VerificationTypeInfo::NullVariable(_)));
        },
        _ => panic!("wrong variant"),
    }
}

#[test]
fn frame_248_to_250_chop() {
    let (f, end) = read_stack_map_frame(&vec![249, 0, 4], 0).unwrap();
    assert_eq!(end, 3);
    assert!(matches!(f, StackMapFrame::ChopFrame(x) if x.frame_type == 249 && x.offset_delta == 4));
}

#[test]
fn frame_251_same_frame_extended() {
    let (f, end) = read_stack_map_frame(&vec![251, 1, 0], 0).unwrap();
    assert_eq!(end, 3);
    assert!(
        matches!(f, StackMapFrame::SameFrameExtended(x) if x.frame_type == 251 && x.offset_delta == 256),
    );
}

#[test]
fn frame_252_to_254_append_reads_that_many_locals() {
    let (f, end) = read_stack_map_frame(&vec![253, 0, 7, 1, 7, 0, 2], 0).unwrap();
    assert_eq!(end, 7);
    match f {
        StackMapFrame::AppendFrame(x) => {
            assert_eq!(x.frame_type, 253);
            assert_eq!(x.offset_delta, 7);
            assert_eq!(x.locals.len(), 2);
            assert!(matches!(x.locals[0], VerificationTypeInfo::IntegerVariable(_)));
            assert!(matches!(&x.locals[1], VerificationTypeInfo::ObjectVariable(o) if o.cpool_index == 2));
        },
        _ => panic!("wrong variant"),
    }
}

#[test]
fn frame_255_full_frame_reads_counted_locals_and_stack() {
    let (f, end) = read_stack_map_frame(&vec![255, 0, 3, 0, 2, 1, 4, 0, 1, 2], 0).unwrap();
    assert_eq!(end, 10);
    match f {
        StackMapFrame::FullFrame(x) => {
            assert_eq!(x.frame_type, 255);
            assert_eq!(x.offset_delta, 3);
            assert_eq!(x.locals.len(), 2);
            assert!(matches!(x.locals[0], VerificationTypeInfo::IntegerVariable(_)));
            assert!(matches!(x.locals[1], VerificationTypeInfo::LongVariable(_)));
            assert_eq!(x.stack.len(), 1);
            assert!(matches!(x.stack[0], VerificationTypeInfo::FloatVariable(_)));
        },
        _ => panic!("wrong variant"),
    }
}

#[test]
fn frame_128_to_246_fails_naming_the_byte() {
    let r = read_stack_map_frame(&vec![200], 0);
    assert_eq!(r.unwrap_err(), MalformedClassFile::UnknownStackMapFrameType { frame_type: 200 });
    let r = read_stack_map_frame(&vec![128], 0);
    assert_eq!(r.unwrap_err(), MalformedClassFile::UnknownStackMapFrameType { frame_type: 128 });
    let r = read_stack_map_frame(&vec![246], 0);
    assert_eq!(r.unwrap_err(), MalformedClassFile::UnknownStackMapFrameType { frame_type: 246 });
}

#[test]
fn truncated_frame_fails_with_exhaustion() {
    let r = read_stack_map_frame(&vec![255, 0], 0);
    assert_eq!(r.unwrap_err(), MalformedClassFile::UnexpectedEof);
}
