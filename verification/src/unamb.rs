//! Unambiguity of the serialization.
//!
//! The format is prefix-determined: reading a record's bytes from the front
//! fixes, step by step, everything that follows, so two well-formed values
//! whose serializations begin at the same place in one byte run must occupy
//! exactly the same bytes.  The lemmas here prove this for every record of
//! the format, leading to [`lemma_truncation_never_decodes`]: no proper
//! truncation of a well-formed input can decode to any structure at all,
//! which is why cutting an input short can only produce an error, never a
//! silently wrong result.
//!
//! Each lemma has the same shape: two values serialized at the same position
//! of a common run (`ser(x1) + s1 == ser(x2) + s2`) serialize to the same
//! bytes, and the runs that follow them are the same.

use crate::parser::{
    AttributeInfo, AttributeModule, AttributeRecordComponentInfo, ClassFile, FieldInfo,
    MethodInfo,
    AttributeAnnotationsElementValue, AttributeAnnotationsElementValuePair,
    AttributeRuntimeAnnotationsEntry, AttributeRuntimeTypeAnnotationsEntry,
    AttributeRuntimeTypeAnnotationsEntryTargetInfo,
    AttributeInnerClassesClass, AttributeLineNumberTableEntry, AttributeLocalVariableTableEntry,
    AttributeLocalVariableTypeTableEntry, AttributeMethodParametersEntry,
    AttributeBootstrapMethodsEntry, AttributeModuleExportsEntry, AttributeModuleOpensEntry,
    AttributeModuleProvidesEntry, AttributeModuleRequiresEntry,
    AttributeRuntimeVisibleTypeAnnotationsEntryTargetPathEntry,
    CpInfo, ExceptionTableEntry, StackMapFrame, VerificationTypeInfo,
};
use crate::reader::{ser_u16, ser_u32};
use crate::ser::{
    is_prefix_of, ser_bootstrap_entry, ser_bootstrap_seq, ser_class_file, ser_cp_entry,
    ser_cp_seq, ser_exception_seq, ser_frame, ser_module_exports, ser_module_exports_seq,
    ser_module_opens, ser_module_opens_seq, ser_module_provides, ser_module_provides_seq,
    ser_frame_seq, ser_inner_class_seq, ser_line_number_seq, ser_local_var_seq,
    ser_local_var_type_seq, ser_localvar_target_seq, ser_method_param_seq,
    ser_module_requires_seq, ser_type_path_seq, ser_u16_seq, ser_vtype, ser_vtype_seq,
    wf_class_file, wf_cp_entry, wf_frame,
    ser_annotation, ser_annotation_groups, ser_annotation_seq, ser_elem_pair, ser_elem_pair_seq,
    ser_elem_value, ser_elem_value_seq, ser_target_info, ser_type_annotation,
    ser_type_annotation_seq, wf_annotation, wf_annotation_groups, wf_annotation_seq,
    wf_elem_pair, wf_elem_pair_seq, wf_elem_value, wf_elem_value_seq, wf_target_info,
    wf_type_annotation, wf_type_annotation_seq,
    attr_name, attr_name_index, attr_resolves, attr_seq_resolves, ser_attr, ser_attr_seq,
    class_file_resolves, ser_field, ser_field_seq, ser_method, ser_method_seq,
    wf_field, wf_method,
    ser_component, ser_component_seq, wf_attr, wf_attr_seq, wf_component, wf_component_seq,
};
use vstd::prelude::*;

verus! {

/// Two concatenations with equally long heads are equal piecewise.
pub proof fn lemma_concat_cancel(a1: Seq<u8>, s1: Seq<u8>, a2: Seq<u8>, s2: Seq<u8>)
    requires
        a1.len() == a2.len(),
        a1 + s1 == a2 + s2,
    ensures
        a1 == a2,
        s1 == s2,
{
    assert forall|i: int| 0 <= i < a1.len() implies a1[i] == a2[i] by {
        assert((a1 + s1)[i] == a1[i]);
        assert((a2 + s2)[i] == a2[i]);
    }
    assert(a1 =~= a2);
    assert((a1 + s1).len() == a1.len() + s1.len());
    assert((a2 + s2).len() == a2.len() + s2.len());
    assert(s1.len() == s2.len());
    assert forall|i: int| 0 <= i < s1.len() implies s1[i] == s2[i] by {
        assert((a1 + s1)[a1.len() + i] == s1[i]);
        assert((a2 + s2)[a2.len() + i] == s2[i]);
    }
    assert(s1 =~= s2);
}

/// A single byte at the front is determined by the run.
pub proof fn lemma_u8_unamb(b1: u8, b2: u8, s1: Seq<u8>, s2: Seq<u8>)
    requires
        seq![b1] + s1 == seq![b2] + s2,
    ensures
        b1 == b2,
        s1 == s2,
{
    lemma_concat_cancel(seq![b1], s1, seq![b2], s2);
    assert(seq![b1][0] == seq![b2][0]);
}

/// A two-byte integer at the front is determined by the run.
pub proof fn lemma_u16_unamb(v1: u16, v2: u16, s1: Seq<u8>, s2: Seq<u8>)
    requires
        ser_u16(v1) + s1 == ser_u16(v2) + s2,
    ensures
        v1 == v2,
        s1 == s2,
{
    lemma_concat_cancel(ser_u16(v1), s1, ser_u16(v2), s2);
    assert(ser_u16(v1)[0] == ser_u16(v2)[0] && ser_u16(v1)[1] == ser_u16(v2)[1]);
    assert((((v1 >> 8) & 0xFF) as u8 == ((v2 >> 8) & 0xFF) as u8 && (v1 & 0xFF) as u8 == (v2
        & 0xFF) as u8) ==> v1 == v2) by (bit_vector);
}

/// A four-byte integer at the front is determined by the run.
pub proof fn lemma_u32_unamb(v1: u32, v2: u32, s1: Seq<u8>, s2: Seq<u8>)
    requires
        ser_u32(v1) + s1 == ser_u32(v2) + s2,
    ensures
        v1 == v2,
        s1 == s2,
{
    lemma_concat_cancel(ser_u32(v1), s1, ser_u32(v2), s2);
    assert(ser_u32(v1)[0] == ser_u32(v2)[0] && ser_u32(v1)[1] == ser_u32(v2)[1] && ser_u32(
        v1,
    )[2] == ser_u32(v2)[2] && ser_u32(v1)[3] == ser_u32(v2)[3]);
    assert((((v1 >> 24) & 0xFF) as u8 == ((v2 >> 24) & 0xFF) as u8 && ((v1 >> 16) & 0xFF) as u8
        == ((v2 >> 16) & 0xFF) as u8 && ((v1 >> 8) & 0xFF) as u8 == ((v2 >> 8) & 0xFF) as u8 && (
    v1 & 0xFF) as u8 == (v2 & 0xFF) as u8) ==> v1 == v2) by (bit_vector);
}


/// The tag byte a constant-pool entry is serialized under.
pub open spec fn cp_entry_tag(e: CpInfo) -> u8 {
    match e {
        CpInfo::Utf8(_) => 1,
        CpInfo::Integer(_) => 3,
        CpInfo::Float(_) => 4,
        CpInfo::Long(_) => 5,
        CpInfo::Double(_) => 6,
        CpInfo::Class(_) => 7,
        CpInfo::String(_) => 8,
        CpInfo::FieldRef(_) => 9,
        CpInfo::MethodRef(_) => 10,
        CpInfo::InterfaceMethodRef(_) => 11,
        CpInfo::NameAndType(_) => 12,
        CpInfo::MethodHandle(_) => 15,
        CpInfo::MethodType(_) => 16,
        CpInfo::Dynamic(_) => 17,
        CpInfo::InvokeDynamic(_) => 18,
        CpInfo::Module(_) => 19,
        CpInfo::Package(_) => 20,
    }
}

/// Whether two constant-pool entries agree on being text entries and, where
/// they are, on the decoded text.  Serialized equality gives exactly this
/// much about the texts, since the wire carries the encoded bytes and the
/// codec is a function of them.
pub open spec fn cp_text_like(e1: CpInfo, e2: CpInfo) -> bool {
    &&& (e1 is Utf8 <==> e2 is Utf8)
    &&& (e1 matches CpInfo::Utf8(u1) ==> e2 matches CpInfo::Utf8(u2) && u1.converted@
        == u2.converted@)
}

/// Whether two pools agree entrywise as [`cp_text_like`] says.
pub open spec fn pools_text_like(p1: Seq<CpInfo>, p2: Seq<CpInfo>) -> bool {
    p1.len() == p2.len() && forall|i: int| 0 <= i < p1.len() ==> cp_text_like(
        #[trigger] p1[i],
        #[trigger] p2[i],
    )
}

/// A constant-pool entry's bytes start with its tag.
proof fn lemma_cp_entry_starts_with_tag(e: CpInfo)
    ensures
        ser_cp_entry(e).len() >= 1,
        ser_cp_entry(e)[0] == cp_entry_tag(e),
{
}

/// A constant-pool entry serialized at the front of a run is determined by
/// it.
pub proof fn lemma_cp_entry_unamb(e1: CpInfo, e2: CpInfo, s1: Seq<u8>, s2: Seq<u8>)
    requires
        wf_cp_entry(e1),
        wf_cp_entry(e2),
        ser_cp_entry(e1) + s1 == ser_cp_entry(e2) + s2,
    ensures
        ser_cp_entry(e1) == ser_cp_entry(e2),
        s1 == s2,
        cp_text_like(e1, e2),
{
    lemma_cp_entry_starts_with_tag(e1);
    lemma_cp_entry_starts_with_tag(e2);
    assert((ser_cp_entry(e1) + s1)[0] == ser_cp_entry(e1)[0]);
    assert((ser_cp_entry(e2) + s2)[0] == ser_cp_entry(e2)[0]);
    assert(cp_entry_tag(e1) == cp_entry_tag(e2));
    match e1 {
        CpInfo::Utf8(x1) => {
            let x2 = e2->Utf8_0;
            let r1 = ser_u16(x1.bytes@.len() as u16) + (x1.bytes@ + s1);
            let r2 = ser_u16(x2.bytes@.len() as u16) + (x2.bytes@ + s2);
            assert(ser_cp_entry(e1) + s1 =~= seq![1u8] + r1);
            assert(ser_cp_entry(e2) + s2 =~= seq![1u8] + r2);
            lemma_u8_unamb(1, 1, r1, r2);
            lemma_u16_unamb(
                x1.bytes@.len() as u16,
                x2.bytes@.len() as u16,
                x1.bytes@ + s1,
                x2.bytes@ + s2,
            );
            assert(x1.bytes@.len() == x2.bytes@.len());
            lemma_concat_cancel(x1.bytes@, s1, x2.bytes@, s2);
            assert(ser_cp_entry(e1) =~= ser_cp_entry(e2));
        },
        _ => {
            assert(ser_cp_entry(e1).len() == ser_cp_entry(e2).len());
            lemma_concat_cancel(ser_cp_entry(e1), s1, ser_cp_entry(e2), s2);
        },
    }
}

/// A run of constant-pool entries of known count serialized at the front of
/// a run is determined by it.
pub proof fn lemma_cp_seq_unamb(l1: Seq<CpInfo>, l2: Seq<CpInfo>, s1: Seq<u8>, s2: Seq<u8>)
    requires
        l1.len() == l2.len(),
        forall|i: int| 0 <= i < l1.len() ==> wf_cp_entry(#[trigger] l1[i]),
        forall|i: int| 0 <= i < l2.len() ==> wf_cp_entry(#[trigger] l2[i]),
        ser_cp_seq(l1) + s1 == ser_cp_seq(l2) + s2,
    ensures
        ser_cp_seq(l1) == ser_cp_seq(l2),
        s1 == s2,
        forall|i: int| 0 <= i < l1.len() ==> cp_text_like(#[trigger] l1[i], #[trigger] l2[i]),
    decreases l1.len(),
{
    if l1.len() == 0 {
        assert(ser_cp_seq(l1) == Seq::<u8>::empty());
        assert(ser_cp_seq(l2) == Seq::<u8>::empty());
        lemma_concat_cancel(ser_cp_seq(l1), s1, ser_cp_seq(l2), s2);
    } else {
        let r1 = ser_cp_seq(l1.drop_first()) + s1;
        let r2 = ser_cp_seq(l2.drop_first()) + s2;
        assert(ser_cp_seq(l1) + s1 =~= ser_cp_entry(l1[0]) + r1);
        assert(ser_cp_seq(l2) + s2 =~= ser_cp_entry(l2[0]) + r2);
        lemma_cp_entry_unamb(l1[0], l2[0], r1, r2);
        lemma_cp_seq_unamb(l1.drop_first(), l2.drop_first(), s1, s2);
        assert(ser_cp_seq(l1) =~= ser_cp_seq(l2));
        assert forall|i: int| 0 <= i < l1.len() implies cp_text_like(
            #[trigger] l1[i],
            #[trigger] l2[i],
        ) by {
            if i > 0 {
                assert(l1.drop_first()[i - 1] == l1[i]);
                assert(l2.drop_first()[i - 1] == l2[i]);
            }
        }
    }
}


/// The tag byte a verification-type descriptor is serialized under.
pub open spec fn vtype_tag(v: VerificationTypeInfo) -> u8 {
    match v {
        VerificationTypeInfo::TopVariable(_) => 0,
        VerificationTypeInfo::IntegerVariable(_) => 1,
        VerificationTypeInfo::FloatVariable(_) => 2,
        VerificationTypeInfo::DoubleVariable(_) => 3,
        VerificationTypeInfo::LongVariable(_) => 4,
        VerificationTypeInfo::NullVariable(_) => 5,
        VerificationTypeInfo::UninitializedThisVariable(_) => 6,
        VerificationTypeInfo::ObjectVariable(_) => 7,
        VerificationTypeInfo::UninitializedVariable(_) => 8,
    }
}

/// A verification-type descriptor serialized at the front of a run is
/// determined by it.
pub proof fn lemma_vtype_unamb(v1: VerificationTypeInfo, v2: VerificationTypeInfo, s1: Seq<u8>, s2: Seq<u8>)
    requires
        ser_vtype(v1) + s1 == ser_vtype(v2) + s2,
    ensures
        ser_vtype(v1) == ser_vtype(v2),
        s1 == s2,
{
    assert(ser_vtype(v1).len() >= 1 && ser_vtype(v1)[0] == vtype_tag(v1));
    assert(ser_vtype(v2).len() >= 1 && ser_vtype(v2)[0] == vtype_tag(v2));
    assert((ser_vtype(v1) + s1)[0] == ser_vtype(v1)[0]);
    assert((ser_vtype(v2) + s2)[0] == ser_vtype(v2)[0]);
    assert(vtype_tag(v1) == vtype_tag(v2));
    assert(ser_vtype(v1).len() == ser_vtype(v2).len());
    lemma_concat_cancel(ser_vtype(v1), s1, ser_vtype(v2), s2);
}
/// A run of these records of known count is determined by the byte run.
pub proof fn lemma_vtype_seq_unamb(l1: Seq<VerificationTypeInfo>, l2: Seq<VerificationTypeInfo>, s1: Seq<u8>, s2: Seq<u8>)
    requires
        l1.len() == l2.len(),
        ser_vtype_seq(l1) + s1 == ser_vtype_seq(l2) + s2,
    ensures
        ser_vtype_seq(l1) == ser_vtype_seq(l2),
        s1 == s2,
    decreases l1.len(),
{
    if l1.len() == 0 {
        assert(ser_vtype_seq(l1) == Seq::<u8>::empty());
        assert(ser_vtype_seq(l2) == Seq::<u8>::empty());
        lemma_concat_cancel(ser_vtype_seq(l1), s1, ser_vtype_seq(l2), s2);
    } else {
        let r1 = ser_vtype_seq(l1.drop_first()) + s1;
        let r2 = ser_vtype_seq(l2.drop_first()) + s2;
        assert(ser_vtype_seq(l1) + s1 =~= ser_vtype(l1[0]) + r1);
        assert(ser_vtype_seq(l2) + s2 =~= ser_vtype(l2[0]) + r2);
        lemma_vtype_unamb(l1[0], l2[0], r1, r2);
        lemma_vtype_seq_unamb(l1.drop_first(), l2.drop_first(), s1, s2);
        assert(ser_vtype_seq(l1) =~= ser_vtype_seq(l2));
    }
}

/// The leading byte a stack-map frame is serialized under.
pub open spec fn frame_tag(f: StackMapFrame) -> u8 {
    match f {
        StackMapFrame::SameFrame(x) => x.frame_type,
        StackMapFrame::SameLocals1StackItemFrame(x) => x.frame_type,
        StackMapFrame::SameLocals1StackItemFrameExtended(x) => x.frame_type,
        StackMapFrame::ChopFrame(x) => x.frame_type,
        StackMapFrame::SameFrameExtended(x) => x.frame_type,
        StackMapFrame::AppendFrame(x) => x.frame_type,
        StackMapFrame::FullFrame(x) => x.frame_type,
    }
}

/// A well-formed stack-map frame serialized at the front of a run is
/// determined by it: the leading byte's range fixes the kind, and the kind
/// fixes the payload.
#[verifier::rlimit(60)]
pub proof fn lemma_frame_unamb(f1: StackMapFrame, f2: StackMapFrame, s1: Seq<u8>, s2: Seq<u8>)
    requires
        wf_frame(f1),
        wf_frame(f2),
        ser_frame(f1) + s1 == ser_frame(f2) + s2,
    ensures
        ser_frame(f1) == ser_frame(f2),
        s1 == s2,
{
    assert(ser_frame(f1).len() >= 1 && ser_frame(f1)[0] == frame_tag(f1));
    assert(ser_frame(f2).len() >= 1 && ser_frame(f2)[0] == frame_tag(f2));
    assert((ser_frame(f1) + s1)[0] == ser_frame(f1)[0]);
    assert((ser_frame(f2) + s2)[0] == ser_frame(f2)[0]);
    assert(frame_tag(f1) == frame_tag(f2));
    match f1 {
        StackMapFrame::SameFrame(_) => {
            assert(ser_frame(f1).len() == ser_frame(f2).len());
            lemma_concat_cancel(ser_frame(f1), s1, ser_frame(f2), s2);
        },
        StackMapFrame::SameLocals1StackItemFrame(x1) => {
            let x2 = f2->SameLocals1StackItemFrame_0;
            let r1 = ser_vtype(x1.stack_entry) + s1;
            let r2 = ser_vtype(x2.stack_entry) + s2;
            assert(ser_frame(f1) + s1 =~= seq![x1.frame_type] + r1);
            assert(ser_frame(f2) + s2 =~= seq![x2.frame_type] + r2);
            lemma_u8_unamb(x1.frame_type, x2.frame_type, r1, r2);
            lemma_vtype_unamb(x1.stack_entry, x2.stack_entry, s1, s2);
            assert(ser_frame(f1) =~= ser_frame(f2));
        },
        StackMapFrame::SameLocals1StackItemFrameExtended(x1) => {
            let x2 = f2->SameLocals1StackItemFrameExtended_0;
            let q1_2 = ser_vtype(x1.stack_entry) + s1;
            let q2_2 = ser_vtype(x2.stack_entry) + s2;
            let q1_1 = ser_u16(x1.offset_delta) + q1_2;
            let q2_1 = ser_u16(x2.offset_delta) + q2_2;
            assert(ser_frame(f1) + s1 =~= seq![x1.frame_type] + q1_1);
            assert(ser_frame(f2) + s2 =~= seq![x2.frame_type] + q2_1);
            lemma_u8_unamb(x1.frame_type, x2.frame_type, q1_1, q2_1);
            lemma_u16_unamb(x1.offset_delta, x2.offset_delta, q1_2, q2_2);
            lemma_vtype_unamb(x1.stack_entry, x2.stack_entry, s1, s2);
            assert(ser_frame(f1) =~= ser_frame(f2));
        },
        StackMapFrame::ChopFrame(_) => {
            assert(ser_frame(f1).len() == ser_frame(f2).len());
            lemma_concat_cancel(ser_frame(f1), s1, ser_frame(f2), s2);
        },
        StackMapFrame::SameFrameExtended(_) => {
            assert(ser_frame(f1).len() == ser_frame(f2).len());
            lemma_concat_cancel(ser_frame(f1), s1, ser_frame(f2), s2);
        },
        StackMapFrame::AppendFrame(x1) => {
            let x2 = f2->AppendFrame_0;
            let q1_2 = ser_vtype_seq(x1.locals@) + s1;
            let q2_2 = ser_vtype_seq(x2.locals@) + s2;
            let q1_1 = ser_u16(x1.offset_delta) + q1_2;
            let q2_1 = ser_u16(x2.offset_delta) + q2_2;
            assert(ser_frame(f1) + s1 =~= seq![x1.frame_type] + q1_1);
            assert(ser_frame(f2) + s2 =~= seq![x2.frame_type] + q2_1);
            lemma_u8_unamb(x1.frame_type, x2.frame_type, q1_1, q2_1);
            lemma_u16_unamb(x1.offset_delta, x2.offset_delta, q1_2, q2_2);
            assert(x1.locals@.len() == x2.locals@.len());
            lemma_vtype_seq_unamb(x1.locals@, x2.locals@, s1, s2);
            assert(ser_frame(f1) =~= ser_frame(f2));
        },
        StackMapFrame::FullFrame(x1) => {
            let x2 = f2->FullFrame_0;
            let q1_5 = ser_vtype_seq(x1.stack@) + s1;
            let q2_5 = ser_vtype_seq(x2.stack@) + s2;
            let q1_4 = ser_u16(x1.stack@.len() as u16) + q1_5;
            let q2_4 = ser_u16(x2.stack@.len() as u16) + q2_5;
            let q1_3 = ser_vtype_seq(x1.locals@) + q1_4;
            let q2_3 = ser_vtype_seq(x2.locals@) + q2_4;
            let q1_2 = ser_u16(x1.locals@.len() as u16) + q1_3;
            let q2_2 = ser_u16(x2.locals@.len() as u16) + q2_3;
            let q1_1 = ser_u16(x1.offset_delta) + q1_2;
            let q2_1 = ser_u16(x2.offset_delta) + q2_2;
            assert(ser_frame(f1) + s1 =~= seq![x1.frame_type] + q1_1);
            assert(ser_frame(f2) + s2 =~= seq![x2.frame_type] + q2_1);
            lemma_u8_unamb(x1.frame_type, x2.frame_type, q1_1, q2_1);
            lemma_u16_unamb(x1.offset_delta, x2.offset_delta, q1_2, q2_2);
            lemma_u16_unamb(x1.locals@.len() as u16, x2.locals@.len() as u16, q1_3, q2_3);
            assert(x1.locals@.len() == x2.locals@.len());
            lemma_vtype_seq_unamb(x1.locals@, x2.locals@, q1_4, q2_4);
            lemma_u16_unamb(x1.stack@.len() as u16, x2.stack@.len() as u16, q1_5, q2_5);
            assert(x1.stack@.len() == x2.stack@.len());
            lemma_vtype_seq_unamb(x1.stack@, x2.stack@, s1, s2);
            assert(ser_frame(f1) =~= ser_frame(f2));
        },
    }
}
/// A run of these records of known count is determined by the byte run.
pub proof fn lemma_frame_seq_unamb(l1: Seq<StackMapFrame>, l2: Seq<StackMapFrame>, s1: Seq<u8>, s2: Seq<u8>)
    requires
        l1.len() == l2.len(),
        forall|i: int| 0 <= i < l1.len() ==> wf_frame(#[trigger] l1[i]),
        forall|i: int| 0 <= i < l2.len() ==> wf_frame(#[trigger] l2[i]),
        ser_frame_seq(l1) + s1 == ser_frame_seq(l2) + s2,
    ensures
        ser_frame_seq(l1) == ser_frame_seq(l2),
        s1 == s2,
    decreases l1.len(),
{
    if l1.len() == 0 {
        assert(ser_frame_seq(l1) == Seq::<u8>::empty());
        assert(ser_frame_seq(l2) == Seq::<u8>::empty());
        lemma_concat_cancel(ser_frame_seq(l1), s1, ser_frame_seq(l2), s2);
    } else {
        let r1 = ser_frame_seq(l1.drop_first()) + s1;
        let r2 = ser_frame_seq(l2.drop_first()) + s2;
        assert(ser_frame_seq(l1) + s1 =~= ser_frame(l1[0]) + r1);
        assert(ser_frame_seq(l2) + s2 =~= ser_frame(l2[0]) + r2);
        lemma_frame_unamb(l1[0], l2[0], r1, r2);
        lemma_frame_seq_unamb(l1.drop_first(), l2.drop_first(), s1, s2);
        assert(ser_frame_seq(l1) =~= ser_frame_seq(l2));
    }
}

/// Each of these rows occupies 2 bytes on the wire.
pub proof fn lemma_u16_seq_len(l: Seq<u16>)
    ensures
        ser_u16_seq(l).len() == 2 * l.len(),
    decreases l.len(),
{
    if l.len() > 0 {
        lemma_u16_seq_len(l.drop_first());
    }
}

/// A run of these rows of known count is determined by the byte run.
pub proof fn lemma_u16_seq_unamb(l1: Seq<u16>, l2: Seq<u16>, s1: Seq<u8>, s2: Seq<u8>)
    requires
        l1.len() == l2.len(),
        ser_u16_seq(l1) + s1 == ser_u16_seq(l2) + s2,
    ensures
        ser_u16_seq(l1) == ser_u16_seq(l2),
        s1 == s2,
{
    lemma_u16_seq_len(l1);
    lemma_u16_seq_len(l2);
    lemma_concat_cancel(ser_u16_seq(l1), s1, ser_u16_seq(l2), s2);
}

/// Each of these rows occupies 8 bytes on the wire.
pub proof fn lemma_exception_seq_len(l: Seq<ExceptionTableEntry>)
    ensures
        ser_exception_seq(l).len() == 8 * l.len(),
    decreases l.len(),
{
    if l.len() > 0 {
        lemma_exception_seq_len(l.drop_first());
    }
}

/// A run of these rows of known count is determined by the byte run.
pub proof fn lemma_exception_seq_unamb(l1: Seq<ExceptionTableEntry>, l2: Seq<ExceptionTableEntry>, s1: Seq<u8>, s2: Seq<u8>)
    requires
        l1.len() == l2.len(),
        ser_exception_seq(l1) + s1 == ser_exception_seq(l2) + s2,
    ensures
        ser_exception_seq(l1) == ser_exception_seq(l2),
        s1 == s2,
{
    lemma_exception_seq_len(l1);
    lemma_exception_seq_len(l2);
    lemma_concat_cancel(ser_exception_seq(l1), s1, ser_exception_seq(l2), s2);
}

/// Each of these rows occupies 8 bytes on the wire.
pub proof fn lemma_inner_class_seq_len(l: Seq<AttributeInnerClassesClass>)
    ensures
        ser_inner_class_seq(l).len() == 8 * l.len(),
    decreases l.len(),
{
    if l.len() > 0 {
        lemma_inner_class_seq_len(l.drop_first());
    }
}

/// A run of these rows of known count is determined by the byte run.
pub proof fn lemma_inner_class_seq_unamb(l1: Seq<AttributeInnerClassesClass>, l2: Seq<AttributeInnerClassesClass>, s1: Seq<u8>, s2: Seq<u8>)
    requires
        l1.len() == l2.len(),
        ser_inner_class_seq(l1) + s1 == ser_inner_class_seq(l2) + s2,
    ensures
        ser_inner_class_seq(l1) == ser_inner_class_seq(l2),
        s1 == s2,
{
    lemma_inner_class_seq_len(l1);
    lemma_inner_class_seq_len(l2);
    lemma_concat_cancel(ser_inner_class_seq(l1), s1, ser_inner_class_seq(l2), s2);
}

/// Each of these rows occupies 4 bytes on the wire.
pub proof fn lemma_line_number_seq_len(l: Seq<AttributeLineNumberTableEntry>)
    ensures
        ser_line_number_seq(l).len() == 4 * l.len(),
    decreases l.len(),
{
    if l.len() > 0 {
        lemma_line_number_seq_len(l.drop_first());
    }
}

/// A run of these rows of known count is determined by the byte run.
pub proof fn lemma_line_number_seq_unamb(l1: Seq<AttributeLineNumberTableEntry>, l2: Seq<AttributeLineNumberTableEntry>, s1: Seq<u8>, s2: Seq<u8>)
    requires
        l1.len() == l2.len(),
        ser_line_number_seq(l1) + s1 == ser_line_number_seq(l2) + s2,
    ensures
        ser_line_number_seq(l1) == ser_line_number_seq(l2),
        s1 == s2,
{
    lemma_line_number_seq_len(l1);
    lemma_line_number_seq_len(l2);
    lemma_concat_cancel(ser_line_number_seq(l1), s1, ser_line_number_seq(l2), s2);
}

/// Each of these rows occupies 10 bytes on the wire.
pub proof fn lemma_local_var_seq_len(l: Seq<AttributeLocalVariableTableEntry>)
    ensures
        ser_local_var_seq(l).len() == 10 * l.len(),
    decreases l.len(),
{
    if l.len() > 0 {
        lemma_local_var_seq_len(l.drop_first());
    }
}

/// A run of these rows of known count is determined by the byte run.
pub proof fn lemma_local_var_seq_unamb(l1: Seq<AttributeLocalVariableTableEntry>, l2: Seq<AttributeLocalVariableTableEntry>, s1: Seq<u8>, s2: Seq<u8>)
    requires
        l1.len() == l2.len(),
        ser_local_var_seq(l1) + s1 == ser_local_var_seq(l2) + s2,
    ensures
        ser_local_var_seq(l1) == ser_local_var_seq(l2),
        s1 == s2,
{
    lemma_local_var_seq_len(l1);
    lemma_local_var_seq_len(l2);
    lemma_concat_cancel(ser_local_var_seq(l1), s1, ser_local_var_seq(l2), s2);
}

/// Each of these rows occupies 10 bytes on the wire.
pub proof fn lemma_local_var_type_seq_len(l: Seq<AttributeLocalVariableTypeTableEntry>)
    ensures
        ser_local_var_type_seq(l).len() == 10 * l.len(),
    decreases l.len(),
{
    if l.len() > 0 {
        lemma_local_var_type_seq_len(l.drop_first());
    }
}

/// A run of these rows of known count is determined by the byte run.
pub proof fn lemma_local_var_type_seq_unamb(l1: Seq<AttributeLocalVariableTypeTableEntry>, l2: Seq<AttributeLocalVariableTypeTableEntry>, s1: Seq<u8>, s2: Seq<u8>)
    requires
        l1.len() == l2.len(),
        ser_local_var_type_seq(l1) + s1 == ser_local_var_type_seq(l2) + s2,
    ensures
        ser_local_var_type_seq(l1) == ser_local_var_type_seq(l2),
        s1 == s2,
{
    lemma_local_var_type_seq_len(l1);
    lemma_local_var_type_seq_len(l2);
    lemma_concat_cancel(ser_local_var_type_seq(l1), s1, ser_local_var_type_seq(l2), s2);
}

/// Each of these rows occupies 4 bytes on the wire.
pub proof fn lemma_method_param_seq_len(l: Seq<AttributeMethodParametersEntry>)
    ensures
        ser_method_param_seq(l).len() == 4 * l.len(),
    decreases l.len(),
{
    if l.len() > 0 {
        lemma_method_param_seq_len(l.drop_first());
    }
}

/// A run of these rows of known count is determined by the byte run.
pub proof fn lemma_method_param_seq_unamb(l1: Seq<AttributeMethodParametersEntry>, l2: Seq<AttributeMethodParametersEntry>, s1: Seq<u8>, s2: Seq<u8>)
    requires
        l1.len() == l2.len(),
        ser_method_param_seq(l1) + s1 == ser_method_param_seq(l2) + s2,
    ensures
        ser_method_param_seq(l1) == ser_method_param_seq(l2),
        s1 == s2,
{
    lemma_method_param_seq_len(l1);
    lemma_method_param_seq_len(l2);
    lemma_concat_cancel(ser_method_param_seq(l1), s1, ser_method_param_seq(l2), s2);
}

/// Each of these rows occupies 6 bytes on the wire.
pub proof fn lemma_module_requires_seq_len(l: Seq<AttributeModuleRequiresEntry>)
    ensures
        ser_module_requires_seq(l).len() == 6 * l.len(),
    decreases l.len(),
{
    if l.len() > 0 {
        lemma_module_requires_seq_len(l.drop_first());
    }
}

/// A run of these rows of known count is determined by the byte run.
pub proof fn lemma_module_requires_seq_unamb(l1: Seq<AttributeModuleRequiresEntry>, l2: Seq<AttributeModuleRequiresEntry>, s1: Seq<u8>, s2: Seq<u8>)
    requires
        l1.len() == l2.len(),
        ser_module_requires_seq(l1) + s1 == ser_module_requires_seq(l2) + s2,
    ensures
        ser_module_requires_seq(l1) == ser_module_requires_seq(l2),
        s1 == s2,
{
    lemma_module_requires_seq_len(l1);
    lemma_module_requires_seq_len(l2);
    lemma_concat_cancel(ser_module_requires_seq(l1), s1, ser_module_requires_seq(l2), s2);
}

/// Each of these rows occupies 6 bytes on the wire.
pub proof fn lemma_localvar_target_seq_len(l: Seq<crate::parser::AttributeRuntimeTypeAnnotationsEntryLocalvarTargetTableEntry>)
    ensures
        ser_localvar_target_seq(l).len() == 6 * l.len(),
    decreases l.len(),
{
    if l.len() > 0 {
        lemma_localvar_target_seq_len(l.drop_first());
    }
}

/// A run of these rows of known count is determined by the byte run.
pub proof fn lemma_localvar_target_seq_unamb(l1: Seq<crate::parser::AttributeRuntimeTypeAnnotationsEntryLocalvarTargetTableEntry>, l2: Seq<crate::parser::AttributeRuntimeTypeAnnotationsEntryLocalvarTargetTableEntry>, s1: Seq<u8>, s2: Seq<u8>)
    requires
        l1.len() == l2.len(),
        ser_localvar_target_seq(l1) + s1 == ser_localvar_target_seq(l2) + s2,
    ensures
        ser_localvar_target_seq(l1) == ser_localvar_target_seq(l2),
        s1 == s2,
{
    lemma_localvar_target_seq_len(l1);
    lemma_localvar_target_seq_len(l2);
    lemma_concat_cancel(ser_localvar_target_seq(l1), s1, ser_localvar_target_seq(l2), s2);
}

/// Each of these rows occupies 2 bytes on the wire.
pub proof fn lemma_type_path_seq_len(l: Seq<AttributeRuntimeVisibleTypeAnnotationsEntryTargetPathEntry>)
    ensures
        ser_type_path_seq(l).len() == 2 * l.len(),
    decreases l.len(),
{
    if l.len() > 0 {
        lemma_type_path_seq_len(l.drop_first());
    }
}

/// A run of these rows of known count is determined by the byte run.
pub proof fn lemma_type_path_seq_unamb(l1: Seq<AttributeRuntimeVisibleTypeAnnotationsEntryTargetPathEntry>, l2: Seq<AttributeRuntimeVisibleTypeAnnotationsEntryTargetPathEntry>, s1: Seq<u8>, s2: Seq<u8>)
    requires
        l1.len() == l2.len(),
        ser_type_path_seq(l1) + s1 == ser_type_path_seq(l2) + s2,
    ensures
        ser_type_path_seq(l1) == ser_type_path_seq(l2),
        s1 == s2,
{
    lemma_type_path_seq_len(l1);
    lemma_type_path_seq_len(l2);
    lemma_concat_cancel(ser_type_path_seq(l1), s1, ser_type_path_seq(l2), s2);
}


/// A bootstrap-method row serialized at the front of a run is determined by
/// it.
pub proof fn lemma_bootstrap_entry_unamb(
    e1: AttributeBootstrapMethodsEntry,
    e2: AttributeBootstrapMethodsEntry,
    s1: Seq<u8>,
    s2: Seq<u8>,
)
    requires
        e1.bootstrap_arguments@.len() <= 0xFFFF,
        e2.bootstrap_arguments@.len() <= 0xFFFF,
        ser_bootstrap_entry(e1) + s1 == ser_bootstrap_entry(e2) + s2,
    ensures
        ser_bootstrap_entry(e1) == ser_bootstrap_entry(e2),
        s1 == s2,
{
    let q1_3 = s1;
    let q2_3 = s2;
    let q1_2 = ser_u16_seq(e1.bootstrap_arguments@) + q1_3;
    let q2_2 = ser_u16_seq(e2.bootstrap_arguments@) + q2_3;
    let q1_1 = ser_u16(e1.bootstrap_arguments@.len() as u16) + q1_2;
    let q2_1 = ser_u16(e2.bootstrap_arguments@.len() as u16) + q2_2;
    assert(ser_bootstrap_entry(e1) + s1 =~= ser_u16(e1.bootstrap_method_ref) + q1_1);
    assert(ser_bootstrap_entry(e2) + s2 =~= ser_u16(e2.bootstrap_method_ref) + q2_1);
    lemma_u16_unamb(e1.bootstrap_method_ref, e2.bootstrap_method_ref, q1_1, q2_1);
    lemma_u16_unamb(
        e1.bootstrap_arguments@.len() as u16,
        e2.bootstrap_arguments@.len() as u16,
        q1_2,
        q2_2,
    );
    assert(e1.bootstrap_arguments@.len() == e2.bootstrap_arguments@.len());
    lemma_u16_seq_unamb(e1.bootstrap_arguments@, e2.bootstrap_arguments@, s1, s2);
    assert(ser_bootstrap_entry(e1) =~= ser_bootstrap_entry(e2));
}

/// A run of bootstrap-method rows of known count is determined by the byte
/// run.
pub proof fn lemma_bootstrap_seq_unamb(
    l1: Seq<AttributeBootstrapMethodsEntry>,
    l2: Seq<AttributeBootstrapMethodsEntry>,
    s1: Seq<u8>,
    s2: Seq<u8>,
)
    requires
        l1.len() == l2.len(),
        forall|i: int|
            0 <= i < l1.len() ==> (#[trigger] l1[i]).bootstrap_arguments@.len() <= 0xFFFF,
        forall|i: int|
            0 <= i < l2.len() ==> (#[trigger] l2[i]).bootstrap_arguments@.len() <= 0xFFFF,
        ser_bootstrap_seq(l1) + s1 == ser_bootstrap_seq(l2) + s2,
    ensures
        ser_bootstrap_seq(l1) == ser_bootstrap_seq(l2),
        s1 == s2,
    decreases l1.len(),
{
    if l1.len() == 0 {
        assert(ser_bootstrap_seq(l1) == Seq::<u8>::empty());
        assert(ser_bootstrap_seq(l2) == Seq::<u8>::empty());
        lemma_concat_cancel(ser_bootstrap_seq(l1), s1, ser_bootstrap_seq(l2), s2);
    } else {
        let r1 = ser_bootstrap_seq(l1.drop_first()) + s1;
        let r2 = ser_bootstrap_seq(l2.drop_first()) + s2;
        assert(ser_bootstrap_seq(l1) + s1 =~= ser_bootstrap_entry(l1[0]) + r1);
        assert(ser_bootstrap_seq(l2) + s2 =~= ser_bootstrap_entry(l2[0]) + r2);
        lemma_bootstrap_entry_unamb(l1[0], l2[0], r1, r2);
        lemma_bootstrap_seq_unamb(l1.drop_first(), l2.drop_first(), s1, s2);
        assert(ser_bootstrap_seq(l1) =~= ser_bootstrap_seq(l2));
    }
}

/// A module exports row serialized at the front of a run is determined by it.
pub proof fn lemma_module_exports_unamb(e1: AttributeModuleExportsEntry, e2: AttributeModuleExportsEntry, s1: Seq<u8>, s2: Seq<u8>)
    requires
        e1.exports_to_index@.len() <= 0xFFFF,
        e2.exports_to_index@.len() <= 0xFFFF,
        ser_module_exports(e1) + s1 == ser_module_exports(e2) + s2,
    ensures
        ser_module_exports(e1) == ser_module_exports(e2),
        s1 == s2,
{
    let q1_3 = ser_u16_seq(e1.exports_to_index@) + s1;
    let q2_3 = ser_u16_seq(e2.exports_to_index@) + s2;
    let q1_2 = ser_u16(e1.exports_to_index@.len() as u16) + q1_3;
    let q2_2 = ser_u16(e2.exports_to_index@.len() as u16) + q2_3;
    let q1_1 = ser_u16(e1.exports_flags) + q1_2;
    let q2_1 = ser_u16(e2.exports_flags) + q2_2;
    assert(ser_module_exports(e1) + s1 =~= ser_u16(e1.exports_index) + q1_1);
    assert(ser_module_exports(e2) + s2 =~= ser_u16(e2.exports_index) + q2_1);
    lemma_u16_unamb(e1.exports_index, e2.exports_index, q1_1, q2_1);
    lemma_u16_unamb(e1.exports_flags, e2.exports_flags, q1_2, q2_2);
    lemma_u16_unamb(e1.exports_to_index@.len() as u16, e2.exports_to_index@.len() as u16, q1_3, q2_3);
    assert(e1.exports_to_index@.len() == e2.exports_to_index@.len());
    lemma_u16_seq_unamb(e1.exports_to_index@, e2.exports_to_index@, s1, s2);
    assert(ser_module_exports(e1) =~= ser_module_exports(e2));
}

/// A run of module exports rows of known count is determined by the byte run.
pub proof fn lemma_module_exports_seq_unamb(l1: Seq<AttributeModuleExportsEntry>, l2: Seq<AttributeModuleExportsEntry>, s1: Seq<u8>, s2: Seq<u8>)
    requires
        l1.len() == l2.len(),
        forall|i: int| 0 <= i < l1.len() ==> (#[trigger] l1[i]).exports_to_index@.len() <= 0xFFFF,
        forall|i: int| 0 <= i < l2.len() ==> (#[trigger] l2[i]).exports_to_index@.len() <= 0xFFFF,
        ser_module_exports_seq(l1) + s1 == ser_module_exports_seq(l2) + s2,
    ensures
        ser_module_exports_seq(l1) == ser_module_exports_seq(l2),
        s1 == s2,
    decreases l1.len(),
{
    if l1.len() == 0 {
        assert(ser_module_exports_seq(l1) == Seq::<u8>::empty());
        assert(ser_module_exports_seq(l2) == Seq::<u8>::empty());
        lemma_concat_cancel(ser_module_exports_seq(l1), s1, ser_module_exports_seq(l2), s2);
    } else {
        let r1 = ser_module_exports_seq(l1.drop_first()) + s1;
        let r2 = ser_module_exports_seq(l2.drop_first()) + s2;
        assert(ser_module_exports_seq(l1) + s1 =~= ser_module_exports(l1[0]) + r1);
        assert(ser_module_exports_seq(l2) + s2 =~= ser_module_exports(l2[0]) + r2);
        lemma_module_exports_unamb(l1[0], l2[0], r1, r2);
        lemma_module_exports_seq_unamb(l1.drop_first(), l2.drop_first(), s1, s2);
        assert(ser_module_exports_seq(l1) =~= ser_module_exports_seq(l2));
    }
}

/// A module opens row serialized at the front of a run is determined by it.
pub proof fn lemma_module_opens_unamb(e1: AttributeModuleOpensEntry, e2: AttributeModuleOpensEntry, s1: Seq<u8>, s2: Seq<u8>)
    requires
        e1.opens_to_index@.len() <= 0xFFFF,
        e2.opens_to_index@.len() <= 0xFFFF,
        ser_module_opens(e1) + s1 == ser_module_opens(e2) + s2,
    ensures
        ser_module_opens(e1) == ser_module_opens(e2),
        s1 == s2,
{
    let q1_3 = ser_u16_seq(e1.opens_to_index@) + s1;
    let q2_3 = ser_u16_seq(e2.opens_to_index@) + s2;
    let q1_2 = ser_u16(e1.opens_to_index@.len() as u16) + q1_3;
    let q2_2 = ser_u16(e2.opens_to_index@.len() as u16) + q2_3;
    let q1_1 = ser_u16(e1.opens_flags) + q1_2;
    let q2_1 = ser_u16(e2.opens_flags) + q2_2;
    assert(ser_module_opens(e1) + s1 =~= ser_u16(e1.opens_index) + q1_1);
    assert(ser_module_opens(e2) + s2 =~= ser_u16(e2.opens_index) + q2_1);
    lemma_u16_unamb(e1.opens_index, e2.opens_index, q1_1, q2_1);
    lemma_u16_unamb(e1.opens_flags, e2.opens_flags, q1_2, q2_2);
    lemma_u16_unamb(e1.opens_to_index@.len() as u16, e2.opens_to_index@.len() as u16, q1_3, q2_3);
    assert(e1.opens_to_index@.len() == e2.opens_to_index@.len());
    lemma_u16_seq_unamb(e1.opens_to_index@, e2.opens_to_index@, s1, s2);
    assert(ser_module_opens(e1) =~= ser_module_opens(e2));
}

/// A run of module opens rows of known count is determined by the byte run.
pub proof fn lemma_module_opens_seq_unamb(l1: Seq<AttributeModuleOpensEntry>, l2: Seq<AttributeModuleOpensEntry>, s1: Seq<u8>, s2: Seq<u8>)
    requires
        l1.len() == l2.len(),
        forall|i: int| 0 <= i < l1.len() ==> (#[trigger] l1[i]).opens_to_index@.len() <= 0xFFFF,
        forall|i: int| 0 <= i < l2.len() ==> (#[trigger] l2[i]).opens_to_index@.len() <= 0xFFFF,
        ser_module_opens_seq(l1) + s1 == ser_module_opens_seq(l2) + s2,
    ensures
        ser_module_opens_seq(l1) == ser_module_opens_seq(l2),
        s1 == s2,
    decreases l1.len(),
{
    if l1.len() == 0 {
        assert(ser_module_opens_seq(l1) == Seq::<u8>::empty());
        assert(ser_module_opens_seq(l2) == Seq::<u8>::empty());
        lemma_concat_cancel(ser_module_opens_seq(l1), s1, ser_module_opens_seq(l2), s2);
    } else {
        let r1 = ser_module_opens_seq(l1.drop_first()) + s1;
        let r2 = ser_module_opens_seq(l2.drop_first()) + s2;
        assert(ser_module_opens_seq(l1) + s1 =~= ser_module_opens(l1[0]) + r1);
        assert(ser_module_opens_seq(l2) + s2 =~= ser_module_opens(l2[0]) + r2);
        lemma_module_opens_unamb(l1[0], l2[0], r1, r2);
        lemma_module_opens_seq_unamb(l1.drop_first(), l2.drop_first(), s1, s2);
        assert(ser_module_opens_seq(l1) =~= ser_module_opens_seq(l2));
    }
}

/// A module provides row serialized at the front of a run is determined by
/// it.
pub proof fn lemma_module_provides_unamb(
    e1: AttributeModuleProvidesEntry,
    e2: AttributeModuleProvidesEntry,
    s1: Seq<u8>,
    s2: Seq<u8>,
)
    requires
        e1.provides_with_index@.len() <= 0xFFFF,
        e2.provides_with_index@.len() <= 0xFFFF,
        ser_module_provides(e1) + s1 == ser_module_provides(e2) + s2,
    ensures
        ser_module_provides(e1) == ser_module_provides(e2),
        s1 == s2,
{
    let q1_2 = ser_u16_seq(e1.provides_with_index@) + s1;
    let q2_2 = ser_u16_seq(e2.provides_with_index@) + s2;
    let q1_1 = ser_u16(e1.provides_with_index@.len() as u16) + q1_2;
    let q2_1 = ser_u16(e2.provides_with_index@.len() as u16) + q2_2;
    assert(ser_module_provides(e1) + s1 =~= ser_u16(e1.provides_index) + q1_1);
    assert(ser_module_provides(e2) + s2 =~= ser_u16(e2.provides_index) + q2_1);
    lemma_u16_unamb(e1.provides_index, e2.provides_index, q1_1, q2_1);
    lemma_u16_unamb(
        e1.provides_with_index@.len() as u16,
        e2.provides_with_index@.len() as u16,
        q1_2,
        q2_2,
    );
    assert(e1.provides_with_index@.len() == e2.provides_with_index@.len());
    lemma_u16_seq_unamb(e1.provides_with_index@, e2.provides_with_index@, s1, s2);
    assert(ser_module_provides(e1) =~= ser_module_provides(e2));
}

/// A run of module provides rows of known count is determined by the byte
/// run.
pub proof fn lemma_module_provides_seq_unamb(
    l1: Seq<AttributeModuleProvidesEntry>,
    l2: Seq<AttributeModuleProvidesEntry>,
    s1: Seq<u8>,
    s2: Seq<u8>,
)
    requires
        l1.len() == l2.len(),
        forall|i: int|
            0 <= i < l1.len() ==> (#[trigger] l1[i]).provides_with_index@.len() <= 0xFFFF,
        forall|i: int|
            0 <= i < l2.len() ==> (#[trigger] l2[i]).provides_with_index@.len() <= 0xFFFF,
        ser_module_provides_seq(l1) + s1 == ser_module_provides_seq(l2) + s2,
    ensures
        ser_module_provides_seq(l1) == ser_module_provides_seq(l2),
        s1 == s2,
    decreases l1.len(),
{
    if l1.len() == 0 {
        assert(ser_module_provides_seq(l1) == Seq::<u8>::empty());
        assert(ser_module_provides_seq(l2) == Seq::<u8>::empty());
        lemma_concat_cancel(ser_module_provides_seq(l1), s1, ser_module_provides_seq(l2), s2);
    } else {
        let r1 = ser_module_provides_seq(l1.drop_first()) + s1;
        let r2 = ser_module_provides_seq(l2.drop_first()) + s2;
        assert(ser_module_provides_seq(l1) + s1 =~= ser_module_provides(l1[0]) + r1);
        assert(ser_module_provides_seq(l2) + s2 =~= ser_module_provides(l2[0]) + r2);
        lemma_module_provides_unamb(l1[0], l2[0], r1, r2);
        lemma_module_provides_seq_unamb(l1.drop_first(), l2.drop_first(), s1, s2);
        assert(ser_module_provides_seq(l1) =~= ser_module_provides_seq(l2));
    }
}


/// The tag character an element value is serialized under.
pub open spec fn elem_value_tag(v: AttributeAnnotationsElementValue) -> u8 {
    match v {
        AttributeAnnotationsElementValue::Byte(_) => 66,
        AttributeAnnotationsElementValue::Char(_) => 67,
        AttributeAnnotationsElementValue::Double(_) => 68,
        AttributeAnnotationsElementValue::Float(_) => 70,
        AttributeAnnotationsElementValue::Int(_) => 73,
        AttributeAnnotationsElementValue::Long(_) => 74,
        AttributeAnnotationsElementValue::Short(_) => 83,
        AttributeAnnotationsElementValue::Boolean(_) => 90,
        AttributeAnnotationsElementValue::String(_) => 115,
        AttributeAnnotationsElementValue::EnumClass(_) => 101,
        AttributeAnnotationsElementValue::Class(_) => 99,
        AttributeAnnotationsElementValue::AnnotationInterface(_) => 64,
        AttributeAnnotationsElementValue::ArrayType(_) => 91,
    }
}

/// A well-formed element value serialized at the front of a run is
/// determined by it.
pub proof fn lemma_elem_value_unamb(
    v1: AttributeAnnotationsElementValue,
    v2: AttributeAnnotationsElementValue,
    s1: Seq<u8>,
    s2: Seq<u8>,
)
    requires
        wf_elem_value(v1),
        wf_elem_value(v2),
        ser_elem_value(v1) + s1 == ser_elem_value(v2) + s2,
    ensures
        ser_elem_value(v1) == ser_elem_value(v2),
        s1 == s2,
    decreases v1,
{
    assert(ser_elem_value(v1).len() >= 1 && ser_elem_value(v1)[0] == elem_value_tag(v1));
    assert(ser_elem_value(v2).len() >= 1 && ser_elem_value(v2)[0] == elem_value_tag(v2));
    assert((ser_elem_value(v1) + s1)[0] == ser_elem_value(v1)[0]);
    assert((ser_elem_value(v2) + s2)[0] == ser_elem_value(v2)[0]);
    assert(elem_value_tag(v1) == elem_value_tag(v2));
    match v1 {
        AttributeAnnotationsElementValue::AnnotationInterface(x1) => {
            let x2 = v2->AnnotationInterface_0;
            let r1 = ser_annotation(x1.annotation_value) + s1;
            let r2 = ser_annotation(x2.annotation_value) + s2;
            assert(ser_elem_value(v1) + s1 =~= seq![64u8] + r1);
            assert(ser_elem_value(v2) + s2 =~= seq![64u8] + r2);
            lemma_u8_unamb(64, 64, r1, r2);
            lemma_annotation_unamb(x1.annotation_value, x2.annotation_value, s1, s2);
            assert(ser_elem_value(v1) =~= ser_elem_value(v2));
        },
        AttributeAnnotationsElementValue::ArrayType(x1) => {
            let x2 = v2->ArrayType_0;
            let q1_2 = ser_elem_value_seq(x1.values@) + s1;
            let q2_2 = ser_elem_value_seq(x2.values@) + s2;
            let q1_1 = ser_u16(x1.values@.len() as u16) + q1_2;
            let q2_1 = ser_u16(x2.values@.len() as u16) + q2_2;
            assert(ser_elem_value(v1) + s1 =~= seq![91u8] + q1_1);
            assert(ser_elem_value(v2) + s2 =~= seq![91u8] + q2_1);
            lemma_u8_unamb(91, 91, q1_1, q2_1);
            lemma_u16_unamb(x1.values@.len() as u16, x2.values@.len() as u16, q1_2, q2_2);
            assert(x1.values@.len() == x2.values@.len());
            lemma_elem_value_seq_unamb(x1.values@, x2.values@, s1, s2);
            assert(ser_elem_value(v1) =~= ser_elem_value(v2));
        },
        _ => {
            assert(ser_elem_value(v1).len() == ser_elem_value(v2).len());
            lemma_concat_cancel(ser_elem_value(v1), s1, ser_elem_value(v2), s2);
        },
    }
}

/// A run of element values of known count is determined by the byte run.
pub proof fn lemma_elem_value_seq_unamb(
    l1: Seq<AttributeAnnotationsElementValue>,
    l2: Seq<AttributeAnnotationsElementValue>,
    s1: Seq<u8>,
    s2: Seq<u8>,
)
    requires
        l1.len() == l2.len(),
        wf_elem_value_seq(l1),
        wf_elem_value_seq(l2),
        ser_elem_value_seq(l1) + s1 == ser_elem_value_seq(l2) + s2,
    ensures
        ser_elem_value_seq(l1) == ser_elem_value_seq(l2),
        s1 == s2,
    decreases l1,
{
    if l1.len() == 0 {
        assert(ser_elem_value_seq(l1) == Seq::<u8>::empty());
        assert(ser_elem_value_seq(l2) == Seq::<u8>::empty());
        lemma_concat_cancel(ser_elem_value_seq(l1), s1, ser_elem_value_seq(l2), s2);
    } else {
        let r1 = ser_elem_value_seq(l1.drop_first()) + s1;
        let r2 = ser_elem_value_seq(l2.drop_first()) + s2;
        assert(ser_elem_value_seq(l1) + s1 =~= ser_elem_value(l1[0]) + r1);
        assert(ser_elem_value_seq(l2) + s2 =~= ser_elem_value(l2[0]) + r2);
        lemma_elem_value_unamb(l1[0], l2[0], r1, r2);
        lemma_elem_value_seq_unamb(l1.drop_first(), l2.drop_first(), s1, s2);
        assert(ser_elem_value_seq(l1) =~= ser_elem_value_seq(l2));
    }
}

/// A named element-value pair serialized at the front of a run is determined
/// by it.
pub proof fn lemma_elem_pair_unamb(
    p1: AttributeAnnotationsElementValuePair,
    p2: AttributeAnnotationsElementValuePair,
    s1: Seq<u8>,
    s2: Seq<u8>,
)
    requires
        wf_elem_pair(p1),
        wf_elem_pair(p2),
        ser_elem_pair(p1) + s1 == ser_elem_pair(p2) + s2,
    ensures
        ser_elem_pair(p1) == ser_elem_pair(p2),
        s1 == s2,
    decreases p1,
{
    let r1 = ser_elem_value(p1.element_value) + s1;
    let r2 = ser_elem_value(p2.element_value) + s2;
    assert(ser_elem_pair(p1) + s1 =~= ser_u16(p1.element_name_index) + r1);
    assert(ser_elem_pair(p2) + s2 =~= ser_u16(p2.element_name_index) + r2);
    lemma_u16_unamb(p1.element_name_index, p2.element_name_index, r1, r2);
    lemma_elem_value_unamb(p1.element_value, p2.element_value, s1, s2);
    assert(ser_elem_pair(p1) =~= ser_elem_pair(p2));
}

/// A run of element-value pairs of known count is determined by the byte
/// run.
pub proof fn lemma_elem_pair_seq_unamb(
    l1: Seq<AttributeAnnotationsElementValuePair>,
    l2: Seq<AttributeAnnotationsElementValuePair>,
    s1: Seq<u8>,
    s2: Seq<u8>,
)
    requires
        l1.len() == l2.len(),
        wf_elem_pair_seq(l1),
        wf_elem_pair_seq(l2),
        ser_elem_pair_seq(l1) + s1 == ser_elem_pair_seq(l2) + s2,
    ensures
        ser_elem_pair_seq(l1) == ser_elem_pair_seq(l2),
        s1 == s2,
    decreases l1,
{
    if l1.len() == 0 {
        assert(ser_elem_pair_seq(l1) == Seq::<u8>::empty());
        assert(ser_elem_pair_seq(l2) == Seq::<u8>::empty());
        lemma_concat_cancel(ser_elem_pair_seq(l1), s1, ser_elem_pair_seq(l2), s2);
    } else {
        let r1 = ser_elem_pair_seq(l1.drop_first()) + s1;
        let r2 = ser_elem_pair_seq(l2.drop_first()) + s2;
        assert(ser_elem_pair_seq(l1) + s1 =~= ser_elem_pair(l1[0]) + r1);
        assert(ser_elem_pair_seq(l2) + s2 =~= ser_elem_pair(l2[0]) + r2);
        lemma_elem_pair_unamb(l1[0], l2[0], r1, r2);
        lemma_elem_pair_seq_unamb(l1.drop_first(), l2.drop_first(), s1, s2);
        assert(ser_elem_pair_seq(l1) =~= ser_elem_pair_seq(l2));
    }
}

/// An annotation serialized at the front of a run is determined by it.
pub proof fn lemma_annotation_unamb(
    e1: AttributeRuntimeAnnotationsEntry,
    e2: AttributeRuntimeAnnotationsEntry,
    s1: Seq<u8>,
    s2: Seq<u8>,
)
    requires
        wf_annotation(e1),
        wf_annotation(e2),
        ser_annotation(e1) + s1 == ser_annotation(e2) + s2,
    ensures
        ser_annotation(e1) == ser_annotation(e2),
        s1 == s2,
    decreases e1,
{
    let q1_2 = ser_elem_pair_seq(e1.element_value_pairs@) + s1;
    let q2_2 = ser_elem_pair_seq(e2.element_value_pairs@) + s2;
    let q1_1 = ser_u16(e1.element_value_pairs@.len() as u16) + q1_2;
    let q2_1 = ser_u16(e2.element_value_pairs@.len() as u16) + q2_2;
    assert(ser_annotation(e1) + s1 =~= ser_u16(e1.type_index) + q1_1);
    assert(ser_annotation(e2) + s2 =~= ser_u16(e2.type_index) + q2_1);
    lemma_u16_unamb(e1.type_index, e2.type_index, q1_1, q2_1);
    lemma_u16_unamb(
        e1.element_value_pairs@.len() as u16,
        e2.element_value_pairs@.len() as u16,
        q1_2,
        q2_2,
    );
    assert(e1.element_value_pairs@.len() == e2.element_value_pairs@.len());
    lemma_elem_pair_seq_unamb(e1.element_value_pairs@, e2.element_value_pairs@, s1, s2);
    assert(ser_annotation(e1) =~= ser_annotation(e2));
}

/// A run of annotations of known count is determined by the byte run.
pub proof fn lemma_annotation_seq_unamb(
    l1: Seq<AttributeRuntimeAnnotationsEntry>,
    l2: Seq<AttributeRuntimeAnnotationsEntry>,
    s1: Seq<u8>,
    s2: Seq<u8>,
)
    requires
        l1.len() == l2.len(),
        wf_annotation_seq(l1),
        wf_annotation_seq(l2),
        ser_annotation_seq(l1) + s1 == ser_annotation_seq(l2) + s2,
    ensures
        ser_annotation_seq(l1) == ser_annotation_seq(l2),
        s1 == s2,
    decreases l1,
{
    if l1.len() == 0 {
        assert(ser_annotation_seq(l1) == Seq::<u8>::empty());
        assert(ser_annotation_seq(l2) == Seq::<u8>::empty());
        lemma_concat_cancel(ser_annotation_seq(l1), s1, ser_annotation_seq(l2), s2);
    } else {
        let r1 = ser_annotation_seq(l1.drop_first()) + s1;
        let r2 = ser_annotation_seq(l2.drop_first()) + s2;
        assert(ser_annotation_seq(l1) + s1 =~= ser_annotation(l1[0]) + r1);
        assert(ser_annotation_seq(l2) + s2 =~= ser_annotation(l2[0]) + r2);
        lemma_annotation_unamb(l1[0], l2[0], r1, r2);
        lemma_annotation_seq_unamb(l1.drop_first(), l2.drop_first(), s1, s2);
        assert(ser_annotation_seq(l1) =~= ser_annotation_seq(l2));
    }
}

/// A run of per-parameter annotation groups of known count is determined by
/// the byte run.
pub proof fn lemma_annotation_groups_unamb(
    l1: Seq<Vec<AttributeRuntimeAnnotationsEntry>>,
    l2: Seq<Vec<AttributeRuntimeAnnotationsEntry>>,
    s1: Seq<u8>,
    s2: Seq<u8>,
)
    requires
        l1.len() == l2.len(),
        wf_annotation_groups(l1),
        wf_annotation_groups(l2),
        ser_annotation_groups(l1) + s1 == ser_annotation_groups(l2) + s2,
    ensures
        ser_annotation_groups(l1) == ser_annotation_groups(l2),
        s1 == s2,
    decreases l1,
{
    if l1.len() == 0 {
        assert(ser_annotation_groups(l1) == Seq::<u8>::empty());
        assert(ser_annotation_groups(l2) == Seq::<u8>::empty());
        lemma_concat_cancel(ser_annotation_groups(l1), s1, ser_annotation_groups(l2), s2);
    } else {
        let q1_2 = ser_annotation_groups(l1.drop_first()) + s1;
        let q2_2 = ser_annotation_groups(l2.drop_first()) + s2;
        let q1_1 = ser_annotation_seq(l1[0]@) + q1_2;
        let q2_1 = ser_annotation_seq(l2[0]@) + q2_2;
        assert(ser_annotation_groups(l1) + s1 =~= ser_u16(l1[0]@.len() as u16) + q1_1);
        assert(ser_annotation_groups(l2) + s2 =~= ser_u16(l2[0]@.len() as u16) + q2_1);
        lemma_u16_unamb(l1[0]@.len() as u16, l2[0]@.len() as u16, q1_1, q2_1);
        assert(l1[0]@.len() == l2[0]@.len());
        lemma_annotation_seq_unamb(l1[0]@, l2[0]@, q1_2, q2_2);
        lemma_annotation_groups_unamb(l1.drop_first(), l2.drop_first(), s1, s2);
        assert(ser_annotation_groups(l1) =~= ser_annotation_groups(l2));
    }
}

/// A target-info record under a known target-type byte is determined by the
/// byte run: the byte's range fixes the shape.
pub proof fn lemma_target_info_unamb(
    target_type: u8,
    t1: AttributeRuntimeTypeAnnotationsEntryTargetInfo,
    t2: AttributeRuntimeTypeAnnotationsEntryTargetInfo,
    s1: Seq<u8>,
    s2: Seq<u8>,
)
    requires
        wf_target_info(target_type, t1),
        wf_target_info(target_type, t2),
        ser_target_info(t1) + s1 == ser_target_info(t2) + s2,
    ensures
        ser_target_info(t1) == ser_target_info(t2),
        s1 == s2,
{
    match t1 {
        AttributeRuntimeTypeAnnotationsEntryTargetInfo::LocalvarTarget(x1) => {
            let x2 = t2->LocalvarTarget_0;
            let r1 = ser_localvar_target_seq(x1.table@) + s1;
            let r2 = ser_localvar_target_seq(x2.table@) + s2;
            assert(ser_target_info(t1) + s1 =~= ser_u16(x1.table@.len() as u16) + r1);
            assert(ser_target_info(t2) + s2 =~= ser_u16(x2.table@.len() as u16) + r2);
            lemma_u16_unamb(x1.table@.len() as u16, x2.table@.len() as u16, r1, r2);
            assert(x1.table@.len() == x2.table@.len());
            lemma_localvar_target_seq_unamb(x1.table@, x2.table@, s1, s2);
            assert(ser_target_info(t1) =~= ser_target_info(t2));
        },
        _ => {
            assert(ser_target_info(t1).len() == ser_target_info(t2).len());
            lemma_concat_cancel(ser_target_info(t1), s1, ser_target_info(t2), s2);
        },
    }
}

/// A type annotation serialized at the front of a run is determined by it.
pub proof fn lemma_type_annotation_unamb(
    e1: AttributeRuntimeTypeAnnotationsEntry,
    e2: AttributeRuntimeTypeAnnotationsEntry,
    s1: Seq<u8>,
    s2: Seq<u8>,
)
    requires
        wf_type_annotation(e1),
        wf_type_annotation(e2),
        ser_type_annotation(e1) + s1 == ser_type_annotation(e2) + s2,
    ensures
        ser_type_annotation(e1) == ser_type_annotation(e2),
        s1 == s2,
    decreases e1,
{
    let q1_6 = ser_elem_pair_seq(e1.element_value_pairs@) + s1;
    let q2_6 = ser_elem_pair_seq(e2.element_value_pairs@) + s2;
    let q1_5 = ser_u16(e1.element_value_pairs@.len() as u16) + q1_6;
    let q2_5 = ser_u16(e2.element_value_pairs@.len() as u16) + q2_6;
    let q1_4 = ser_u16(e1.type_index) + q1_5;
    let q2_4 = ser_u16(e2.type_index) + q2_5;
    let q1_3 = ser_type_path_seq(e1.target_path@) + q1_4;
    let q2_3 = ser_type_path_seq(e2.target_path@) + q2_4;
    let q1_2 = seq![e1.target_path@.len() as u8] + q1_3;
    let q2_2 = seq![e2.target_path@.len() as u8] + q2_3;
    let q1_1 = ser_target_info(e1.target_info) + q1_2;
    let q2_1 = ser_target_info(e2.target_info) + q2_2;
    assert(ser_type_annotation(e1) + s1 =~= seq![e1.target_type] + q1_1);
    assert(ser_type_annotation(e2) + s2 =~= seq![e2.target_type] + q2_1);
    lemma_u8_unamb(e1.target_type, e2.target_type, q1_1, q2_1);
    lemma_target_info_unamb(e1.target_type, e1.target_info, e2.target_info, q1_2, q2_2);
    lemma_u8_unamb(e1.target_path@.len() as u8, e2.target_path@.len() as u8, q1_3, q2_3);
    assert(e1.target_path@.len() == e2.target_path@.len());
    lemma_type_path_seq_unamb(e1.target_path@, e2.target_path@, q1_4, q2_4);
    lemma_u16_unamb(e1.type_index, e2.type_index, q1_5, q2_5);
    lemma_u16_unamb(
        e1.element_value_pairs@.len() as u16,
        e2.element_value_pairs@.len() as u16,
        q1_6,
        q2_6,
    );
    assert(e1.element_value_pairs@.len() == e2.element_value_pairs@.len());
    lemma_elem_pair_seq_unamb(e1.element_value_pairs@, e2.element_value_pairs@, s1, s2);
    assert(ser_type_annotation(e1) =~= ser_type_annotation(e2));
}

/// A run of type annotations of known count is determined by the byte run.
pub proof fn lemma_type_annotation_seq_unamb(
    l1: Seq<AttributeRuntimeTypeAnnotationsEntry>,
    l2: Seq<AttributeRuntimeTypeAnnotationsEntry>,
    s1: Seq<u8>,
    s2: Seq<u8>,
)
    requires
        l1.len() == l2.len(),
        wf_type_annotation_seq(l1),
        wf_type_annotation_seq(l2),
        ser_type_annotation_seq(l1) + s1 == ser_type_annotation_seq(l2) + s2,
    ensures
        ser_type_annotation_seq(l1) == ser_type_annotation_seq(l2),
        s1 == s2,
    decreases l1,
{
    if l1.len() == 0 {
        assert(ser_type_annotation_seq(l1) == Seq::<u8>::empty());
        assert(ser_type_annotation_seq(l2) == Seq::<u8>::empty());
        lemma_concat_cancel(ser_type_annotation_seq(l1), s1, ser_type_annotation_seq(l2), s2);
    } else {
        let r1 = ser_type_annotation_seq(l1.drop_first()) + s1;
        let r2 = ser_type_annotation_seq(l2.drop_first()) + s2;
        assert(ser_type_annotation_seq(l1) + s1 =~= ser_type_annotation(l1[0]) + r1);
        assert(ser_type_annotation_seq(l2) + s2 =~= ser_type_annotation(l2[0]) + r2);
        lemma_type_annotation_unamb(l1[0], l2[0], r1, r2);
        lemma_type_annotation_seq_unamb(l1.drop_first(), l2.drop_first(), s1, s2);
        assert(ser_type_annotation_seq(l1) =~= ser_type_annotation_seq(l2));
    }
}



/// A number for each attribute kind, to speak of two attributes being of the
/// same kind.
pub open spec fn attr_kind(a: AttributeInfo) -> int {
    match a {
        AttributeInfo::ConstantValue(_) => 0,
        AttributeInfo::Code(_) => 1,
        AttributeInfo::StackMapTable(_) => 2,
        AttributeInfo::Exceptions(_) => 3,
        AttributeInfo::InnerClasses(_) => 4,
        AttributeInfo::EnclosingMethod(_) => 5,
        AttributeInfo::Synthetic(_) => 6,
        AttributeInfo::Signature(_) => 7,
        AttributeInfo::SourceFile(_) => 8,
        AttributeInfo::SourceDebugExtension(_) => 9,
        AttributeInfo::LineNumberTable(_) => 10,
        AttributeInfo::LocalVariableTable(_) => 11,
        AttributeInfo::LocalVariableTypeTable(_) => 12,
        AttributeInfo::Deprecated(_) => 13,
        AttributeInfo::RuntimeVisibleAnnotations(_) => 14,
        AttributeInfo::RuntimeInvisibleAnnotations(_) => 15,
        AttributeInfo::RuntimeVisibleParameterAnnotations(_) => 16,
        AttributeInfo::RuntimeInvisibleParameterAnnotations(_) => 17,
        AttributeInfo::RuntimeVisibleTypeAnnotations(_) => 18,
        AttributeInfo::RuntimeInvisibleTypeAnnotations(_) => 19,
        AttributeInfo::AnnotationDefault(_) => 20,
        AttributeInfo::BootstrapMethods(_) => 21,
        AttributeInfo::MethodParameters(_) => 22,
        AttributeInfo::Module(_) => 23,
        AttributeInfo::ModulePackages(_) => 24,
        AttributeInfo::ModuleMainClass(_) => 25,
        AttributeInfo::NestHost(_) => 26,
        AttributeInfo::NestMembers(_) => 27,
        AttributeInfo::Record(_) => 28,
        AttributeInfo::PermittedSubclasses(_) => 29,
    }
}

/// The twenty-nine attribute names are pairwise distinct: length and the
/// first two characters already tell them all apart.
#[verifier::rlimit(100)]
proof fn lemma_attr_name_injective(a1: AttributeInfo, a2: AttributeInfo)
    requires
        attr_name(a1) == attr_name(a2),
    ensures
        attr_kind(a1) == attr_kind(a2),
{
    reveal_strlit("ConstantValue");
    reveal_strlit("Code");
    reveal_strlit("StackMapTable");
    reveal_strlit("Exceptions");
    reveal_strlit("InnerClasses");
    reveal_strlit("EnclosingMethod");
    reveal_strlit("Synthetic");
    reveal_strlit("Signature");
    reveal_strlit("SourceFile");
    reveal_strlit("SourceDebugExtension");
    reveal_strlit("LineNumberTable");
    reveal_strlit("LocalVariableTable");
    reveal_strlit("LocalVariableTypeTable");
    reveal_strlit("Deprecated");
    reveal_strlit("RuntimeVisibleAnnotations");
    reveal_strlit("RuntimeInvisibleAnnotations");
    reveal_strlit("RuntimeVisibleParameterAnnotations");
    reveal_strlit("RuntimeInvisibleParameterAnnotations");
    reveal_strlit("RuntimeVisibleTypeAnnotations");
    reveal_strlit("RuntimeInvisibleTypeAnnotations");
    reveal_strlit("AnnotationDefault");
    reveal_strlit("BootstrapMethods");
    reveal_strlit("MethodParameters");
    reveal_strlit("Module");
    reveal_strlit("ModulePackages");
    reveal_strlit("ModuleMainClass");
    reveal_strlit("NestHost");
    reveal_strlit("NestMembers");
    reveal_strlit("Record");
    reveal_strlit("PermittedSubclasses");
    match a1 {
        AttributeInfo::ConstantValue(_) => {
            assert(attr_name(a1).len() == 13 && attr_name(a1)[0] == 'C'
                && attr_name(a1)[1] == 'o');
        },
        AttributeInfo::Code(_) => {
            assert(attr_name(a1).len() == 4 && attr_name(a1)[0] == 'C'
                && attr_name(a1)[1] == 'o');
        },
        AttributeInfo::StackMapTable(_) => {
            assert(attr_name(a1).len() == 13 && attr_name(a1)[0] == 'S'
                && attr_name(a1)[1] == 't');
        },
        AttributeInfo::Exceptions(_) => {
            assert(attr_name(a1).len() == 10 && attr_name(a1)[0] == 'E'
                && attr_name(a1)[1] == 'x');
        },
        AttributeInfo::InnerClasses(_) => {
            assert(attr_name(a1).len() == 12 && attr_name(a1)[0] == 'I'
                && attr_name(a1)[1] == 'n');
        },
        AttributeInfo::EnclosingMethod(_) => {
            assert(attr_name(a1).len() == 15 && attr_name(a1)[0] == 'E'
                && attr_name(a1)[1] == 'n');
        },
        AttributeInfo::Synthetic(_) => {
            assert(attr_name(a1).len() == 9 && attr_name(a1)[0] == 'S'
                && attr_name(a1)[1] == 'y');
        },
        AttributeInfo::Signature(_) => {
            assert(attr_name(a1).len() == 9 && attr_name(a1)[0] == 'S'
                && attr_name(a1)[1] == 'i');
        },
        AttributeInfo::SourceFile(_) => {
            assert(attr_name(a1).len() == 10 && attr_name(a1)[0] == 'S'
                && attr_name(a1)[1] == 'o');
        },
        AttributeInfo::SourceDebugExtension(_) => {
            assert(attr_name(a1).len() == 20 && attr_name(a1)[0] == 'S'
                && attr_name(a1)[1] == 'o');
        },
        AttributeInfo::LineNumberTable(_) => {
            assert(attr_name(a1).len() == 15 && attr_name(a1)[0] == 'L'
                && attr_name(a1)[1] == 'i');
        },
        AttributeInfo::LocalVariableTable(_) => {
            assert(attr_name(a1).len() == 18 && attr_name(a1)[0] == 'L'
                && attr_name(a1)[1] == 'o');
        },
        AttributeInfo::LocalVariableTypeTable(_) => {
            assert(attr_name(a1).len() == 22 && attr_name(a1)[0] == 'L'
                && attr_name(a1)[1] == 'o');
        },
        AttributeInfo::Deprecated(_) => {
            assert(attr_name(a1).len() == 10 && attr_name(a1)[0] == 'D'
                && attr_name(a1)[1] == 'e');
        },
        AttributeInfo::RuntimeVisibleAnnotations(_) => {
            assert(attr_name(a1).len() == 25 && attr_name(a1)[0] == 'R'
                && attr_name(a1)[1] == 'u');
        },
        AttributeInfo::RuntimeInvisibleAnnotations(_) => {
            assert(attr_name(a1).len() == 27 && attr_name(a1)[0] == 'R'
                && attr_name(a1)[1] == 'u');
        },
        AttributeInfo::RuntimeVisibleParameterAnnotations(_) => {
            assert(attr_name(a1).len() == 34 && attr_name(a1)[0] == 'R'
                && attr_name(a1)[1] == 'u');
        },
        AttributeInfo::RuntimeInvisibleParameterAnnotations(_) => {
            assert(attr_name(a1).len() == 36 && attr_name(a1)[0] == 'R'
                && attr_name(a1)[1] == 'u');
        },
        AttributeInfo::RuntimeVisibleTypeAnnotations(_) => {
            assert(attr_name(a1).len() == 29 && attr_name(a1)[0] == 'R'
                && attr_name(a1)[1] == 'u');
        },
        AttributeInfo::RuntimeInvisibleTypeAnnotations(_) => {
            assert(attr_name(a1).len() == 31 && attr_name(a1)[0] == 'R'
                && attr_name(a1)[1] == 'u');
        },
        AttributeInfo::AnnotationDefault(_) => {
            assert(attr_name(a1).len() == 17 && attr_name(a1)[0] == 'A'
                && attr_name(a1)[1] == 'n');
        },
        AttributeInfo::BootstrapMethods(_) => {
            assert(attr_name(a1).len() == 16 && attr_name(a1)[0] == 'B'
                && attr_name(a1)[1] == 'o');
        },
        AttributeInfo::MethodParameters(_) => {
            assert(attr_name(a1).len() == 16 && attr_name(a1)[0] == 'M'
                && attr_name(a1)[1] == 'e');
        },
        AttributeInfo::Module(_) => {
            assert(attr_name(a1).len() == 6 && attr_name(a1)[0] == 'M'
                && attr_name(a1)[1] == 'o');
        },
        AttributeInfo::ModulePackages(_) => {
            assert(attr_name(a1).len() == 14 && attr_name(a1)[0] == 'M'
                && attr_name(a1)[1] == 'o');
        },
        AttributeInfo::ModuleMainClass(_) => {
            assert(attr_name(a1).len() == 15 && attr_name(a1)[0] == 'M'
                && attr_name(a1)[1] == 'o');
        },
        AttributeInfo::NestHost(_) => {
            assert(attr_name(a1).len() == 8 && attr_name(a1)[0] == 'N'
                && attr_name(a1)[1] == 'e');
        },
        AttributeInfo::NestMembers(_) => {
            assert(attr_name(a1).len() == 11 && attr_name(a1)[0] == 'N'
                && attr_name(a1)[1] == 'e');
        },
        AttributeInfo::Record(_) => {
            assert(attr_name(a1).len() == 6 && attr_name(a1)[0] == 'R'
                && attr_name(a1)[1] == 'e');
        },
        AttributeInfo::PermittedSubclasses(_) => {
            assert(attr_name(a1).len() == 19 && attr_name(a1)[0] == 'P'
                && attr_name(a1)[1] == 'e');
        },
    }
    match a2 {
        AttributeInfo::ConstantValue(_) => {
            assert(attr_name(a2).len() == 13 && attr_name(a2)[0] == 'C'
                && attr_name(a2)[1] == 'o');
        },
        AttributeInfo::Code(_) => {
            assert(attr_name(a2).len() == 4 && attr_name(a2)[0] == 'C'
                && attr_name(a2)[1] == 'o');
        },
        AttributeInfo::StackMapTable(_) => {
            assert(attr_name(a2).len() == 13 && attr_name(a2)[0] == 'S'
                && attr_name(a2)[1] == 't');
        },
        AttributeInfo::Exceptions(_) => {
            assert(attr_name(a2).len() == 10 && attr_name(a2)[0] == 'E'
                && attr_name(a2)[1] == 'x');
        },
        AttributeInfo::InnerClasses(_) => {
            assert(attr_name(a2).len() == 12 && attr_name(a2)[0] == 'I'
                && attr_name(a2)[1] == 'n');
        },
        AttributeInfo::EnclosingMethod(_) => {
            assert(attr_name(a2).len() == 15 && attr_name(a2)[0] == 'E'
                && attr_name(a2)[1] == 'n');
        },
        AttributeInfo::Synthetic(_) => {
            assert(attr_name(a2).len() == 9 && attr_name(a2)[0] == 'S'
                && attr_name(a2)[1] == 'y');
        },
        AttributeInfo::Signature(_) => {
            assert(attr_name(a2).len() == 9 && attr_name(a2)[0] == 'S'
                && attr_name(a2)[1] == 'i');
        },
        AttributeInfo::SourceFile(_) => {
            assert(attr_name(a2).len() == 10 && attr_name(a2)[0] == 'S'
                && attr_name(a2)[1] == 'o');
        },
        AttributeInfo::SourceDebugExtension(_) => {
            assert(attr_name(a2).len() == 20 && attr_name(a2)[0] == 'S'
                && attr_name(a2)[1] == 'o');
        },
        AttributeInfo::LineNumberTable(_) => {
            assert(attr_name(a2).len() == 15 && attr_name(a2)[0] == 'L'
                && attr_name(a2)[1] == 'i');
        },
        AttributeInfo::LocalVariableTable(_) => {
            assert(attr_name(a2).len() == 18 && attr_name(a2)[0] == 'L'
                && attr_name(a2)[1] == 'o');
        },
        AttributeInfo::LocalVariableTypeTable(_) => {
            assert(attr_name(a2).len() == 22 && attr_name(a2)[0] == 'L'
                && attr_name(a2)[1] == 'o');
        },
        AttributeInfo::Deprecated(_) => {
            assert(attr_name(a2).len() == 10 && attr_name(a2)[0] == 'D'
                && attr_name(a2)[1] == 'e');
        },
        AttributeInfo::RuntimeVisibleAnnotations(_) => {
            assert(attr_name(a2).len() == 25 && attr_name(a2)[0] == 'R'
                && attr_name(a2)[1] == 'u');
        },
        AttributeInfo::RuntimeInvisibleAnnotations(_) => {
            assert(attr_name(a2).len() == 27 && attr_name(a2)[0] == 'R'
                && attr_name(a2)[1] == 'u');
        },
        AttributeInfo::RuntimeVisibleParameterAnnotations(_) => {
            assert(attr_name(a2).len() == 34 && attr_name(a2)[0] == 'R'
                && attr_name(a2)[1] == 'u');
        },
        AttributeInfo::RuntimeInvisibleParameterAnnotations(_) => {
            assert(attr_name(a2).len() == 36 && attr_name(a2)[0] == 'R'
                && attr_name(a2)[1] == 'u');
        },
        AttributeInfo::RuntimeVisibleTypeAnnotations(_) => {
            assert(attr_name(a2).len() == 29 && attr_name(a2)[0] == 'R'
                && attr_name(a2)[1] == 'u');
        },
        AttributeInfo::RuntimeInvisibleTypeAnnotations(_) => {
            assert(attr_name(a2).len() == 31 && attr_name(a2)[0] == 'R'
                && attr_name(a2)[1] == 'u');
        },
        AttributeInfo::AnnotationDefault(_) => {
            assert(attr_name(a2).len() == 17 && attr_name(a2)[0] == 'A'
                && attr_name(a2)[1] == 'n');
        },
        AttributeInfo::BootstrapMethods(_) => {
            assert(attr_name(a2).len() == 16 && attr_name(a2)[0] == 'B'
                && attr_name(a2)[1] == 'o');
        },
        AttributeInfo::MethodParameters(_) => {
            assert(attr_name(a2).len() == 16 && attr_name(a2)[0] == 'M'
                && attr_name(a2)[1] == 'e');
        },
        AttributeInfo::Module(_) => {
            assert(attr_name(a2).len() == 6 && attr_name(a2)[0] == 'M'
                && attr_name(a2)[1] == 'o');
        },
        AttributeInfo::ModulePackages(_) => {
            assert(attr_name(a2).len() == 14 && attr_name(a2)[0] == 'M'
                && attr_name(a2)[1] == 'o');
        },
        AttributeInfo::ModuleMainClass(_) => {
            assert(attr_name(a2).len() == 15 && attr_name(a2)[0] == 'M'
                && attr_name(a2)[1] == 'o');
        },
        AttributeInfo::NestHost(_) => {
            assert(attr_name(a2).len() == 8 && attr_name(a2)[0] == 'N'
                && attr_name(a2)[1] == 'e');
        },
        AttributeInfo::NestMembers(_) => {
            assert(attr_name(a2).len() == 11 && attr_name(a2)[0] == 'N'
                && attr_name(a2)[1] == 'e');
        },
        AttributeInfo::Record(_) => {
            assert(attr_name(a2).len() == 6 && attr_name(a2)[0] == 'R'
                && attr_name(a2)[1] == 'e');
        },
        AttributeInfo::PermittedSubclasses(_) => {
            assert(attr_name(a2).len() == 19 && attr_name(a2)[0] == 'P'
                && attr_name(a2)[1] == 'e');
        },
    }
}

#[verifier::rlimit(100)]
proof fn lemma_attr_code_unamb(
    a1: AttributeInfo,
    a2: AttributeInfo,
    pool1: Seq<CpInfo>,
    pool2: Seq<CpInfo>,
    s1: Seq<u8>,
    s2: Seq<u8>,
)
    requires
        a1 is Code,
        a2 is Code,
        wf_attr(a1),
        wf_attr(a2),
        attr_resolves(a1, pool1),
        attr_resolves(a2, pool2),
        pools_text_like(pool1, pool2),
        ser_attr(a1) + s1 == ser_attr(a2) + s2,
    ensures
        ser_attr(a1) == ser_attr(a2),
        s1 == s2,
    decreases a1, 0int,
{
    let x1 = a1->Code_0;
    let x2 = a2->Code_0;
    let q1_10 = s1;
    let q1_9 = ser_attr_seq(x1.attributes@) + q1_10;
    let q1_8 = ser_u16(x1.attributes@.len() as u16) + q1_9;
    let q1_7 = ser_exception_seq(x1.exception_table@) + q1_8;
    let q1_6 = ser_u16(x1.exception_table@.len() as u16) + q1_7;
    let q1_5 = x1.code@ + q1_6;
    let q1_4 = ser_u32(x1.code@.len() as u32) + q1_5;
    let q1_3 = ser_u16(x1.max_locals) + q1_4;
    let q1_2 = ser_u16(x1.max_stack) + q1_3;
    let q1_1 = ser_u32(x1.attribute_length) + q1_2;
    let q2_10 = s2;
    let q2_9 = ser_attr_seq(x2.attributes@) + q2_10;
    let q2_8 = ser_u16(x2.attributes@.len() as u16) + q2_9;
    let q2_7 = ser_exception_seq(x2.exception_table@) + q2_8;
    let q2_6 = ser_u16(x2.exception_table@.len() as u16) + q2_7;
    let q2_5 = x2.code@ + q2_6;
    let q2_4 = ser_u32(x2.code@.len() as u32) + q2_5;
    let q2_3 = ser_u16(x2.max_locals) + q2_4;
    let q2_2 = ser_u16(x2.max_stack) + q2_3;
    let q2_1 = ser_u32(x2.attribute_length) + q2_2;
    assert(ser_attr(a1) + s1 =~= ser_u16(x1.attribute_name_index) + q1_1);
    assert(ser_attr(a2) + s2 =~= ser_u16(x2.attribute_name_index) + q2_1);
    lemma_u16_unamb(x1.attribute_name_index, x2.attribute_name_index, q1_1, q2_1);
    lemma_u32_unamb(x1.attribute_length, x2.attribute_length, q1_2, q2_2);
    lemma_u16_unamb(x1.max_stack, x2.max_stack, q1_3, q2_3);
    lemma_u16_unamb(x1.max_locals, x2.max_locals, q1_4, q2_4);
    lemma_u32_unamb(x1.code@.len() as u32, x2.code@.len() as u32, q1_5, q2_5);
    assert(x1.code@.len() == x2.code@.len());
    lemma_concat_cancel(x1.code@, q1_6, x2.code@, q2_6);
    lemma_u16_unamb(x1.exception_table@.len() as u16, x2.exception_table@.len() as u16, q1_7, q2_7);
    assert(x1.exception_table@.len() == x2.exception_table@.len());
    lemma_exception_seq_unamb(x1.exception_table@, x2.exception_table@, q1_8, q2_8);
    lemma_u16_unamb(x1.attributes@.len() as u16, x2.attributes@.len() as u16, q1_9, q2_9);
    assert(x1.attributes@.len() == x2.attributes@.len());
    lemma_attr_seq_unamb(x1.attributes@, x2.attributes@, pool1, pool2, q1_10, q2_10);
    assert(ser_attr(a1) =~= ser_attr(a2));
}

proof fn lemma_attr_stackmaptable_unamb(
    a1: AttributeInfo,
    a2: AttributeInfo,
    pool1: Seq<CpInfo>,
    pool2: Seq<CpInfo>,
    s1: Seq<u8>,
    s2: Seq<u8>,
)
    requires
        a1 is StackMapTable,
        a2 is StackMapTable,
        wf_attr(a1),
        wf_attr(a2),
        ser_attr(a1) + s1 == ser_attr(a2) + s2,
    ensures
        ser_attr(a1) == ser_attr(a2),
        s1 == s2,
    decreases a1, 0int,
{
    let x1 = a1->StackMapTable_0;
    let x2 = a2->StackMapTable_0;
    let q1_4 = s1;
    let q1_3 = ser_frame_seq(x1.entries@) + q1_4;
    let q1_2 = ser_u16(x1.entries@.len() as u16) + q1_3;
    let q1_1 = ser_u32(x1.attribute_length) + q1_2;
    let q2_4 = s2;
    let q2_3 = ser_frame_seq(x2.entries@) + q2_4;
    let q2_2 = ser_u16(x2.entries@.len() as u16) + q2_3;
    let q2_1 = ser_u32(x2.attribute_length) + q2_2;
    assert(ser_attr(a1) + s1 =~= ser_u16(x1.attribute_name_index) + q1_1);
    assert(ser_attr(a2) + s2 =~= ser_u16(x2.attribute_name_index) + q2_1);
    lemma_u16_unamb(x1.attribute_name_index, x2.attribute_name_index, q1_1, q2_1);
    lemma_u32_unamb(x1.attribute_length, x2.attribute_length, q1_2, q2_2);
    lemma_u16_unamb(x1.entries@.len() as u16, x2.entries@.len() as u16, q1_3, q2_3);
    assert(x1.entries@.len() == x2.entries@.len());
    lemma_frame_seq_unamb(x1.entries@, x2.entries@, q1_4, q2_4);
    assert(ser_attr(a1) =~= ser_attr(a2));
}

proof fn lemma_attr_exceptions_unamb(
    a1: AttributeInfo,
    a2: AttributeInfo,
    pool1: Seq<CpInfo>,
    pool2: Seq<CpInfo>,
    s1: Seq<u8>,
    s2: Seq<u8>,
)
    requires
        a1 is Exceptions,
        a2 is Exceptions,
        wf_attr(a1),
        wf_attr(a2),
        ser_attr(a1) + s1 == ser_attr(a2) + s2,
    ensures
        ser_attr(a1) == ser_attr(a2),
        s1 == s2,
    decreases a1, 0int,
{
    let x1 = a1->Exceptions_0;
    let x2 = a2->Exceptions_0;
    let q1_4 = s1;
    let q1_3 = ser_u16_seq(x1.exception_index_table@) + q1_4;
    let q1_2 = ser_u16(x1.exception_index_table@.len() as u16) + q1_3;
    let q1_1 = ser_u32(x1.attribute_length) + q1_2;
    let q2_4 = s2;
    let q2_3 = ser_u16_seq(x2.exception_index_table@) + q2_4;
    let q2_2 = ser_u16(x2.exception_index_table@.len() as u16) + q2_3;
    let q2_1 = ser_u32(x2.attribute_length) + q2_2;
    assert(ser_attr(a1) + s1 =~= ser_u16(x1.attribute_name_index) + q1_1);
    assert(ser_attr(a2) + s2 =~= ser_u16(x2.attribute_name_index) + q2_1);
    lemma_u16_unamb(x1.attribute_name_index, x2.attribute_name_index, q1_1, q2_1);
    lemma_u32_unamb(x1.attribute_length, x2.attribute_length, q1_2, q2_2);
    lemma_u16_unamb(x1.exception_index_table@.len() as u16, x2.exception_index_table@.len() as u16, q1_3, q2_3);
    assert(x1.exception_index_table@.len() == x2.exception_index_table@.len());
    lemma_u16_seq_unamb(x1.exception_index_table@, x2.exception_index_table@, q1_4, q2_4);
    assert(ser_attr(a1) =~= ser_attr(a2));
}

proof fn lemma_attr_innerclasses_unamb(
    a1: AttributeInfo,
    a2: AttributeInfo,
    pool1: Seq<CpInfo>,
    pool2: Seq<CpInfo>,
    s1: Seq<u8>,
    s2: Seq<u8>,
)
    requires
        a1 is InnerClasses,
        a2 is InnerClasses,
        wf_attr(a1),
        wf_attr(a2),
        ser_attr(a1) + s1 == ser_attr(a2) + s2,
    ensures
        ser_attr(a1) == ser_attr(a2),
        s1 == s2,
    decreases a1, 0int,
{
    let x1 = a1->InnerClasses_0;
    let x2 = a2->InnerClasses_0;
    let q1_4 = s1;
    let q1_3 = ser_inner_class_seq(x1.classes@) + q1_4;
    let q1_2 = ser_u16(x1.classes@.len() as u16) + q1_3;
    let q1_1 = ser_u32(x1.attribute_length) + q1_2;
    let q2_4 = s2;
    let q2_3 = ser_inner_class_seq(x2.classes@) + q2_4;
    let q2_2 = ser_u16(x2.classes@.len() as u16) + q2_3;
    let q2_1 = ser_u32(x2.attribute_length) + q2_2;
    assert(ser_attr(a1) + s1 =~= ser_u16(x1.attribute_name_index) + q1_1);
    assert(ser_attr(a2) + s2 =~= ser_u16(x2.attribute_name_index) + q2_1);
    lemma_u16_unamb(x1.attribute_name_index, x2.attribute_name_index, q1_1, q2_1);
    lemma_u32_unamb(x1.attribute_length, x2.attribute_length, q1_2, q2_2);
    lemma_u16_unamb(x1.classes@.len() as u16, x2.classes@.len() as u16, q1_3, q2_3);
    assert(x1.classes@.len() == x2.classes@.len());
    lemma_inner_class_seq_unamb(x1.classes@, x2.classes@, q1_4, q2_4);
    assert(ser_attr(a1) =~= ser_attr(a2));
}

proof fn lemma_attr_sourcedebugextension_unamb(
    a1: AttributeInfo,
    a2: AttributeInfo,
    pool1: Seq<CpInfo>,
    pool2: Seq<CpInfo>,
    s1: Seq<u8>,
    s2: Seq<u8>,
)
    requires
        a1 is SourceDebugExtension,
        a2 is SourceDebugExtension,
        wf_attr(a1),
        wf_attr(a2),
        ser_attr(a1) + s1 == ser_attr(a2) + s2,
    ensures
        ser_attr(a1) == ser_attr(a2),
        s1 == s2,
    decreases a1, 0int,
{
    let x1 = a1->SourceDebugExtension_0;
    let x2 = a2->SourceDebugExtension_0;
    let q1_3 = s1;
    let q1_2 = x1.debug_extension@ + q1_3;
    let q1_1 = ser_u32(x1.attribute_length) + q1_2;
    let q2_3 = s2;
    let q2_2 = x2.debug_extension@ + q2_3;
    let q2_1 = ser_u32(x2.attribute_length) + q2_2;
    assert(ser_attr(a1) + s1 =~= ser_u16(x1.attribute_name_index) + q1_1);
    assert(ser_attr(a2) + s2 =~= ser_u16(x2.attribute_name_index) + q2_1);
    lemma_u16_unamb(x1.attribute_name_index, x2.attribute_name_index, q1_1, q2_1);
    lemma_u32_unamb(x1.attribute_length, x2.attribute_length, q1_2, q2_2);
    assert(x1.debug_extension@.len() == x2.debug_extension@.len());
    lemma_concat_cancel(x1.debug_extension@, q1_3, x2.debug_extension@, q2_3);
    assert(ser_attr(a1) =~= ser_attr(a2));
}

proof fn lemma_attr_linenumbertable_unamb(
    a1: AttributeInfo,
    a2: AttributeInfo,
    pool1: Seq<CpInfo>,
    pool2: Seq<CpInfo>,
    s1: Seq<u8>,
    s2: Seq<u8>,
)
    requires
        a1 is LineNumberTable,
        a2 is LineNumberTable,
        wf_attr(a1),
        wf_attr(a2),
        ser_attr(a1) + s1 == ser_attr(a2) + s2,
    ensures
        ser_attr(a1) == ser_attr(a2),
        s1 == s2,
    decreases a1, 0int,
{
    let x1 = a1->LineNumberTable_0;
    let x2 = a2->LineNumberTable_0;
    let q1_4 = s1;
    let q1_3 = ser_line_number_seq(x1.line_number_table@) + q1_4;
    let q1_2 = ser_u16(x1.line_number_table@.len() as u16) + q1_3;
    let q1_1 = ser_u32(x1.attribute_length) + q1_2;
    let q2_4 = s2;
    let q2_3 = ser_line_number_seq(x2.line_number_table@) + q2_4;
    let q2_2 = ser_u16(x2.line_number_table@.len() as u16) + q2_3;
    let q2_1 = ser_u32(x2.attribute_length) + q2_2;
    assert(ser_attr(a1) + s1 =~= ser_u16(x1.attribute_name_index) + q1_1);
    assert(ser_attr(a2) + s2 =~= ser_u16(x2.attribute_name_index) + q2_1);
    lemma_u16_unamb(x1.attribute_name_index, x2.attribute_name_index, q1_1, q2_1);
    lemma_u32_unamb(x1.attribute_length, x2.attribute_length, q1_2, q2_2);
    lemma_u16_unamb(x1.line_number_table@.len() as u16, x2.line_number_table@.len() as u16, q1_3, q2_3);
    assert(x1.line_number_table@.len() == x2.line_number_table@.len());
    lemma_line_number_seq_unamb(x1.line_number_table@, x2.line_number_table@, q1_4, q2_4);
    assert(ser_attr(a1) =~= ser_attr(a2));
}

proof fn lemma_attr_localvariabletable_unamb(
    a1: AttributeInfo,
    a2: AttributeInfo,
    pool1: Seq<CpInfo>,
    pool2: Seq<CpInfo>,
    s1: Seq<u8>,
    s2: Seq<u8>,
)
    requires
        a1 is LocalVariableTable,
        a2 is LocalVariableTable,
        wf_attr(a1),
        wf_attr(a2),
        ser_attr(a1) + s1 == ser_attr(a2) + s2,
    ensures
        ser_attr(a1) == ser_attr(a2),
        s1 == s2,
    decreases a1, 0int,
{
    let x1 = a1->LocalVariableTable_0;
    let x2 = a2->LocalVariableTable_0;
    let q1_4 = s1;
    let q1_3 = ser_local_var_seq(x1.local_variable_table@) + q1_4;
    let q1_2 = ser_u16(x1.local_variable_table@.len() as u16) + q1_3;
    let q1_1 = ser_u32(x1.attribute_length) + q1_2;
    let q2_4 = s2;
    let q2_3 = ser_local_var_seq(x2.local_variable_table@) + q2_4;
    let q2_2 = ser_u16(x2.local_variable_table@.len() as u16) + q2_3;
    let q2_1 = ser_u32(x2.attribute_length) + q2_2;
    assert(ser_attr(a1) + s1 =~= ser_u16(x1.attribute_name_index) + q1_1);
    assert(ser_attr(a2) + s2 =~= ser_u16(x2.attribute_name_index) + q2_1);
    lemma_u16_unamb(x1.attribute_name_index, x2.attribute_name_index, q1_1, q2_1);
    lemma_u32_unamb(x1.attribute_length, x2.attribute_length, q1_2, q2_2);
    lemma_u16_unamb(x1.local_variable_table@.len() as u16, x2.local_variable_table@.len() as u16, q1_3, q2_3);
    assert(x1.local_variable_table@.len() == x2.local_variable_table@.len());
    lemma_local_var_seq_unamb(x1.local_variable_table@, x2.local_variable_table@, q1_4, q2_4);
    assert(ser_attr(a1) =~= ser_attr(a2));
}

proof fn lemma_attr_localvariabletypetable_unamb(
    a1: AttributeInfo,
    a2: AttributeInfo,
    pool1: Seq<CpInfo>,
    pool2: Seq<CpInfo>,
    s1: Seq<u8>,
    s2: Seq<u8>,
)
    requires
        a1 is LocalVariableTypeTable,
        a2 is LocalVariableTypeTable,
        wf_attr(a1),
        wf_attr(a2),
        ser_attr(a1) + s1 == ser_attr(a2) + s2,
    ensures
        ser_attr(a1) == ser_attr(a2),
        s1 == s2,
    decreases a1, 0int,
{
    let x1 = a1->LocalVariableTypeTable_0;
    let x2 = a2->LocalVariableTypeTable_0;
    let q1_4 = s1;
    let q1_3 = ser_local_var_type_seq(x1.local_variable_table@) + q1_4;
    let q1_2 = ser_u16(x1.local_variable_table@.len() as u16) + q1_3;
    let q1_1 = ser_u32(x1.attribute_length) + q1_2;
    let q2_4 = s2;
    let q2_3 = ser_local_var_type_seq(x2.local_variable_table@) + q2_4;
    let q2_2 = ser_u16(x2.local_variable_table@.len() as u16) + q2_3;
    let q2_1 = ser_u32(x2.attribute_length) + q2_2;
    assert(ser_attr(a1) + s1 =~= ser_u16(x1.attribute_name_index) + q1_1);
    assert(ser_attr(a2) + s2 =~= ser_u16(x2.attribute_name_index) + q2_1);
    lemma_u16_unamb(x1.attribute_name_index, x2.attribute_name_index, q1_1, q2_1);
    lemma_u32_unamb(x1.attribute_length, x2.attribute_length, q1_2, q2_2);
    lemma_u16_unamb(x1.local_variable_table@.len() as u16, x2.local_variable_table@.len() as u16, q1_3, q2_3);
    assert(x1.local_variable_table@.len() == x2.local_variable_table@.len());
    lemma_local_var_type_seq_unamb(x1.local_variable_table@, x2.local_variable_table@, q1_4, q2_4);
    assert(ser_attr(a1) =~= ser_attr(a2));
}

proof fn lemma_attr_runtimevisibleannotations_unamb(
    a1: AttributeInfo,
    a2: AttributeInfo,
    pool1: Seq<CpInfo>,
    pool2: Seq<CpInfo>,
    s1: Seq<u8>,
    s2: Seq<u8>,
)
    requires
        a1 is RuntimeVisibleAnnotations,
        a2 is RuntimeVisibleAnnotations,
        wf_attr(a1),
        wf_attr(a2),
        ser_attr(a1) + s1 == ser_attr(a2) + s2,
    ensures
        ser_attr(a1) == ser_attr(a2),
        s1 == s2,
    decreases a1, 0int,
{
    let x1 = a1->RuntimeVisibleAnnotations_0;
    let x2 = a2->RuntimeVisibleAnnotations_0;
    let q1_4 = s1;
    let q1_3 = ser_annotation_seq(x1.annotations@) + q1_4;
    let q1_2 = ser_u16(x1.annotations@.len() as u16) + q1_3;
    let q1_1 = ser_u32(x1.attribute_length) + q1_2;
    let q2_4 = s2;
    let q2_3 = ser_annotation_seq(x2.annotations@) + q2_4;
    let q2_2 = ser_u16(x2.annotations@.len() as u16) + q2_3;
    let q2_1 = ser_u32(x2.attribute_length) + q2_2;
    assert(ser_attr(a1) + s1 =~= ser_u16(x1.attribute_name_index) + q1_1);
    assert(ser_attr(a2) + s2 =~= ser_u16(x2.attribute_name_index) + q2_1);
    lemma_u16_unamb(x1.attribute_name_index, x2.attribute_name_index, q1_1, q2_1);
    lemma_u32_unamb(x1.attribute_length, x2.attribute_length, q1_2, q2_2);
    lemma_u16_unamb(x1.annotations@.len() as u16, x2.annotations@.len() as u16, q1_3, q2_3);
    assert(x1.annotations@.len() == x2.annotations@.len());
    lemma_annotation_seq_unamb(x1.annotations@, x2.annotations@, q1_4, q2_4);
    assert(ser_attr(a1) =~= ser_attr(a2));
}

proof fn lemma_attr_runtimeinvisibleannotations_unamb(
    a1: AttributeInfo,
    a2: AttributeInfo,
    pool1: Seq<CpInfo>,
    pool2: Seq<CpInfo>,
    s1: Seq<u8>,
    s2: Seq<u8>,
)
    requires
        a1 is RuntimeInvisibleAnnotations,
        a2 is RuntimeInvisibleAnnotations,
        wf_attr(a1),
        wf_attr(a2),
        ser_attr(a1) + s1 == ser_attr(a2) + s2,
    ensures
        ser_attr(a1) == ser_attr(a2),
        s1 == s2,
    decreases a1, 0int,
{
    let x1 = a1->RuntimeInvisibleAnnotations_0;
    let x2 = a2->RuntimeInvisibleAnnotations_0;
    let q1_4 = s1;
    let q1_3 = ser_annotation_seq(x1.annotations@) + q1_4;
    let q1_2 = ser_u16(x1.annotations@.len() as u16) + q1_3;
    let q1_1 = ser_u32(x1.attribute_length) + q1_2;
    let q2_4 = s2;
    let q2_3 = ser_annotation_seq(x2.annotations@) + q2_4;
    let q2_2 = ser_u16(x2.annotations@.len() as u16) + q2_3;
    let q2_1 = ser_u32(x2.attribute_length) + q2_2;
    assert(ser_attr(a1) + s1 =~= ser_u16(x1.attribute_name_index) + q1_1);
    assert(ser_attr(a2) + s2 =~= ser_u16(x2.attribute_name_index) + q2_1);
    lemma_u16_unamb(x1.attribute_name_index, x2.attribute_name_index, q1_1, q2_1);
    lemma_u32_unamb(x1.attribute_length, x2.attribute_length, q1_2, q2_2);
    lemma_u16_unamb(x1.annotations@.len() as u16, x2.annotations@.len() as u16, q1_3, q2_3);
    assert(x1.annotations@.len() == x2.annotations@.len());
    lemma_annotation_seq_unamb(x1.annotations@, x2.annotations@, q1_4, q2_4);
    assert(ser_attr(a1) =~= ser_attr(a2));
}

proof fn lemma_attr_runtimevisibleparameterannotations_unamb(
    a1: AttributeInfo,
    a2: AttributeInfo,
    pool1: Seq<CpInfo>,
    pool2: Seq<CpInfo>,
    s1: Seq<u8>,
    s2: Seq<u8>,
)
    requires
        a1 is RuntimeVisibleParameterAnnotations,
        a2 is RuntimeVisibleParameterAnnotations,
        wf_attr(a1),
        wf_attr(a2),
        ser_attr(a1) + s1 == ser_attr(a2) + s2,
    ensures
        ser_attr(a1) == ser_attr(a2),
        s1 == s2,
    decreases a1, 0int,
{
    let x1 = a1->RuntimeVisibleParameterAnnotations_0;
    let x2 = a2->RuntimeVisibleParameterAnnotations_0;
    let q1_4 = s1;
    let q1_3 = ser_annotation_groups(x1.parameter_annotations@) + q1_4;
    let q1_2 = seq![x1.parameter_annotations@.len() as u8] + q1_3;
    let q1_1 = ser_u32(x1.attribute_length) + q1_2;
    let q2_4 = s2;
    let q2_3 = ser_annotation_groups(x2.parameter_annotations@) + q2_4;
    let q2_2 = seq![x2.parameter_annotations@.len() as u8] + q2_3;
    let q2_1 = ser_u32(x2.attribute_length) + q2_2;
    assert(ser_attr(a1) + s1 =~= ser_u16(x1.attribute_name_index) + q1_1);
    assert(ser_attr(a2) + s2 =~= ser_u16(x2.attribute_name_index) + q2_1);
    lemma_u16_unamb(x1.attribute_name_index, x2.attribute_name_index, q1_1, q2_1);
    lemma_u32_unamb(x1.attribute_length, x2.attribute_length, q1_2, q2_2);
    lemma_u8_unamb(x1.parameter_annotations@.len() as u8, x2.parameter_annotations@.len() as u8, q1_3, q2_3);
    assert(x1.parameter_annotations@.len() == x2.parameter_annotations@.len());
    lemma_annotation_groups_unamb(x1.parameter_annotations@, x2.parameter_annotations@, q1_4, q2_4);
    assert(ser_attr(a1) =~= ser_attr(a2));
}

proof fn lemma_attr_runtimeinvisibleparameterannotations_unamb(
    a1: AttributeInfo,
    a2: AttributeInfo,
    pool1: Seq<CpInfo>,
    pool2: Seq<CpInfo>,
    s1: Seq<u8>,
    s2: Seq<u8>,
)
    requires
        a1 is RuntimeInvisibleParameterAnnotations,
        a2 is RuntimeInvisibleParameterAnnotations,
        wf_attr(a1),
        wf_attr(a2),
        ser_attr(a1) + s1 == ser_attr(a2) + s2,
    ensures
        ser_attr(a1) == ser_attr(a2),
        s1 == s2,
    decreases a1, 0int,
{
    let x1 = a1->RuntimeInvisibleParameterAnnotations_0;
    let x2 = a2->RuntimeInvisibleParameterAnnotations_0;
    let q1_4 = s1;
    let q1_3 = ser_annotation_groups(x1.parameter_annotations@) + q1_4;
    let q1_2 = seq![x1.parameter_annotations@.len() as u8] + q1_3;
    let q1_1 = ser_u32(x1.attribute_length) + q1_2;
    let q2_4 = s2;
    let q2_3 = ser_annotation_groups(x2.parameter_annotations@) + q2_4;
    let q2_2 = seq![x2.parameter_annotations@.len() as u8] + q2_3;
    let q2_1 = ser_u32(x2.attribute_length) + q2_2;
    assert(ser_attr(a1) + s1 =~= ser_u16(x1.attribute_name_index) + q1_1);
    assert(ser_attr(a2) + s2 =~= ser_u16(x2.attribute_name_index) + q2_1);
    lemma_u16_unamb(x1.attribute_name_index, x2.attribute_name_index, q1_1, q2_1);
    lemma_u32_unamb(x1.attribute_length, x2.attribute_length, q1_2, q2_2);
    lemma_u8_unamb(x1.parameter_annotations@.len() as u8, x2.parameter_annotations@.len() as u8, q1_3, q2_3);
    assert(x1.parameter_annotations@.len() == x2.parameter_annotations@.len());
    lemma_annotation_groups_unamb(x1.parameter_annotations@, x2.parameter_annotations@, q1_4, q2_4);
    assert(ser_attr(a1) =~= ser_attr(a2));
}

proof fn lemma_attr_runtimevisibletypeannotations_unamb(
    a1: AttributeInfo,
    a2: AttributeInfo,
    pool1: Seq<CpInfo>,
    pool2: Seq<CpInfo>,
    s1: Seq<u8>,
    s2: Seq<u8>,
)
    requires
        a1 is RuntimeVisibleTypeAnnotations,
        a2 is RuntimeVisibleTypeAnnotations,
        wf_attr(a1),
        wf_attr(a2),
        ser_attr(a1) + s1 == ser_attr(a2) + s2,
    ensures
        ser_attr(a1) == ser_attr(a2),
        s1 == s2,
    decreases a1, 0int,
{
    let x1 = a1->RuntimeVisibleTypeAnnotations_0;
    let x2 = a2->RuntimeVisibleTypeAnnotations_0;
    let q1_4 = s1;
    let q1_3 = ser_type_annotation_seq(x1.annotations@) + q1_4;
    let q1_2 = ser_u16(x1.annotations@.len() as u16) + q1_3;
    let q1_1 = ser_u32(x1.attribute_length) + q1_2;
    let q2_4 = s2;
    let q2_3 = ser_type_annotation_seq(x2.annotations@) + q2_4;
    let q2_2 = ser_u16(x2.annotations@.len() as u16) + q2_3;
    let q2_1 = ser_u32(x2.attribute_length) + q2_2;
    assert(ser_attr(a1) + s1 =~= ser_u16(x1.attribute_name_index) + q1_1);
    assert(ser_attr(a2) + s2 =~= ser_u16(x2.attribute_name_index) + q2_1);
    lemma_u16_unamb(x1.attribute_name_index, x2.attribute_name_index, q1_1, q2_1);
    lemma_u32_unamb(x1.attribute_length, x2.attribute_length, q1_2, q2_2);
    lemma_u16_unamb(x1.annotations@.len() as u16, x2.annotations@.len() as u16, q1_3, q2_3);
    assert(x1.annotations@.len() == x2.annotations@.len());
    lemma_type_annotation_seq_unamb(x1.annotations@, x2.annotations@, q1_4, q2_4);
    assert(ser_attr(a1) =~= ser_attr(a2));
}

proof fn lemma_attr_runtimeinvisibletypeannotations_unamb(
    a1: AttributeInfo,
    a2: AttributeInfo,
    pool1: Seq<CpInfo>,
    pool2: Seq<CpInfo>,
    s1: Seq<u8>,
    s2: Seq<u8>,
)
    requires
        a1 is RuntimeInvisibleTypeAnnotations,
        a2 is RuntimeInvisibleTypeAnnotations,
        wf_attr(a1),
        wf_attr(a2),
        ser_attr(a1) + s1 == ser_attr(a2) + s2,
    ensures
        ser_attr(a1) == ser_attr(a2),
        s1 == s2,
    decreases a1, 0int,
{
    let x1 = a1->RuntimeInvisibleTypeAnnotations_0;
    let x2 = a2->RuntimeInvisibleTypeAnnotations_0;
    let q1_4 = s1;
    let q1_3 = ser_type_annotation_seq(x1.annotations@) + q1_4;
    let q1_2 = ser_u16(x1.annotations@.len() as u16) + q1_3;
    let q1_1 = ser_u32(x1.attribute_length) + q1_2;
    let q2_4 = s2;
    let q2_3 = ser_type_annotation_seq(x2.annotations@) + q2_4;
    let q2_2 = ser_u16(x2.annotations@.len() as u16) + q2_3;
    let q2_1 = ser_u32(x2.attribute_length) + q2_2;
    assert(ser_attr(a1) + s1 =~= ser_u16(x1.attribute_name_index) + q1_1);
    assert(ser_attr(a2) + s2 =~= ser_u16(x2.attribute_name_index) + q2_1);
    lemma_u16_unamb(x1.attribute_name_index, x2.attribute_name_index, q1_1, q2_1);
    lemma_u32_unamb(x1.attribute_length, x2.attribute_length, q1_2, q2_2);
    lemma_u16_unamb(x1.annotations@.len() as u16, x2.annotations@.len() as u16, q1_3, q2_3);
    assert(x1.annotations@.len() == x2.annotations@.len());
    lemma_type_annotation_seq_unamb(x1.annotations@, x2.annotations@, q1_4, q2_4);
    assert(ser_attr(a1) =~= ser_attr(a2));
}

proof fn lemma_attr_annotationdefault_unamb(
    a1: AttributeInfo,
    a2: AttributeInfo,
    pool1: Seq<CpInfo>,
    pool2: Seq<CpInfo>,
    s1: Seq<u8>,
    s2: Seq<u8>,
)
    requires
        a1 is AnnotationDefault,
        a2 is AnnotationDefault,
        wf_attr(a1),
        wf_attr(a2),
        ser_attr(a1) + s1 == ser_attr(a2) + s2,
    ensures
        ser_attr(a1) == ser_attr(a2),
        s1 == s2,
    decreases a1, 0int,
{
    let x1 = a1->AnnotationDefault_0;
    let x2 = a2->AnnotationDefault_0;
    let q1_3 = s1;
    let q1_2 = ser_elem_value(x1.default_value) + q1_3;
    let q1_1 = ser_u32(x1.attribute_length) + q1_2;
    let q2_3 = s2;
    let q2_2 = ser_elem_value(x2.default_value) + q2_3;
    let q2_1 = ser_u32(x2.attribute_length) + q2_2;
    assert(ser_attr(a1) + s1 =~= ser_u16(x1.attribute_name_index) + q1_1);
    assert(ser_attr(a2) + s2 =~= ser_u16(x2.attribute_name_index) + q2_1);
    lemma_u16_unamb(x1.attribute_name_index, x2.attribute_name_index, q1_1, q2_1);
    lemma_u32_unamb(x1.attribute_length, x2.attribute_length, q1_2, q2_2);
    lemma_elem_value_unamb(x1.default_value, x2.default_value, q1_3, q2_3);
    assert(ser_attr(a1) =~= ser_attr(a2));
}

proof fn lemma_attr_bootstrapmethods_unamb(
    a1: AttributeInfo,
    a2: AttributeInfo,
    pool1: Seq<CpInfo>,
    pool2: Seq<CpInfo>,
    s1: Seq<u8>,
    s2: Seq<u8>,
)
    requires
        a1 is BootstrapMethods,
        a2 is BootstrapMethods,
        wf_attr(a1),
        wf_attr(a2),
        ser_attr(a1) + s1 == ser_attr(a2) + s2,
    ensures
        ser_attr(a1) == ser_attr(a2),
        s1 == s2,
    decreases a1, 0int,
{
    let x1 = a1->BootstrapMethods_0;
    let x2 = a2->BootstrapMethods_0;
    let q1_4 = s1;
    let q1_3 = ser_bootstrap_seq(x1.bootstrap_methods@) + q1_4;
    let q1_2 = ser_u16(x1.bootstrap_methods@.len() as u16) + q1_3;
    let q1_1 = ser_u32(x1.attribute_length) + q1_2;
    let q2_4 = s2;
    let q2_3 = ser_bootstrap_seq(x2.bootstrap_methods@) + q2_4;
    let q2_2 = ser_u16(x2.bootstrap_methods@.len() as u16) + q2_3;
    let q2_1 = ser_u32(x2.attribute_length) + q2_2;
    assert(ser_attr(a1) + s1 =~= ser_u16(x1.attribute_name_index) + q1_1);
    assert(ser_attr(a2) + s2 =~= ser_u16(x2.attribute_name_index) + q2_1);
    lemma_u16_unamb(x1.attribute_name_index, x2.attribute_name_index, q1_1, q2_1);
    lemma_u32_unamb(x1.attribute_length, x2.attribute_length, q1_2, q2_2);
    lemma_u16_unamb(x1.bootstrap_methods@.len() as u16, x2.bootstrap_methods@.len() as u16, q1_3, q2_3);
    assert(x1.bootstrap_methods@.len() == x2.bootstrap_methods@.len());
    lemma_bootstrap_seq_unamb(x1.bootstrap_methods@, x2.bootstrap_methods@, q1_4, q2_4);
    assert(ser_attr(a1) =~= ser_attr(a2));
}

proof fn lemma_attr_methodparameters_unamb(
    a1: AttributeInfo,
    a2: AttributeInfo,
    pool1: Seq<CpInfo>,
    pool2: Seq<CpInfo>,
    s1: Seq<u8>,
    s2: Seq<u8>,
)
    requires
        a1 is MethodParameters,
        a2 is MethodParameters,
        wf_attr(a1),
        wf_attr(a2),
        ser_attr(a1) + s1 == ser_attr(a2) + s2,
    ensures
        ser_attr(a1) == ser_attr(a2),
        s1 == s2,
    decreases a1, 0int,
{
    let x1 = a1->MethodParameters_0;
    let x2 = a2->MethodParameters_0;
    let q1_4 = s1;
    let q1_3 = ser_method_param_seq(x1.parameters@) + q1_4;
    let q1_2 = seq![x1.parameters@.len() as u8] + q1_3;
    let q1_1 = ser_u32(x1.attribute_length) + q1_2;
    let q2_4 = s2;
    let q2_3 = ser_method_param_seq(x2.parameters@) + q2_4;
    let q2_2 = seq![x2.parameters@.len() as u8] + q2_3;
    let q2_1 = ser_u32(x2.attribute_length) + q2_2;
    assert(ser_attr(a1) + s1 =~= ser_u16(x1.attribute_name_index) + q1_1);
    assert(ser_attr(a2) + s2 =~= ser_u16(x2.attribute_name_index) + q2_1);
    lemma_u16_unamb(x1.attribute_name_index, x2.attribute_name_index, q1_1, q2_1);
    lemma_u32_unamb(x1.attribute_length, x2.attribute_length, q1_2, q2_2);
    lemma_u8_unamb(x1.parameters@.len() as u8, x2.parameters@.len() as u8, q1_3, q2_3);
    assert(x1.parameters@.len() == x2.parameters@.len());
    lemma_method_param_seq_unamb(x1.parameters@, x2.parameters@, q1_4, q2_4);
    assert(ser_attr(a1) =~= ser_attr(a2));
}

#[verifier::rlimit(100)]
proof fn lemma_attr_module_unamb(
    a1: AttributeInfo,
    a2: AttributeInfo,
    pool1: Seq<CpInfo>,
    pool2: Seq<CpInfo>,
    s1: Seq<u8>,
    s2: Seq<u8>,
)
    requires
        a1 is Module,
        a2 is Module,
        wf_attr(a1),
        wf_attr(a2),
        ser_attr(a1) + s1 == ser_attr(a2) + s2,
    ensures
        ser_attr(a1) == ser_attr(a2),
        s1 == s2,
    decreases a1, 0int,
{
    let x1 = a1->Module_0;
    let x2 = a2->Module_0;
    let q1_15 = s1;
    let q1_14 = ser_module_provides_seq(x1.provides@) + q1_15;
    let q1_13 = ser_u16(x1.provides@.len() as u16) + q1_14;
    let q1_12 = ser_u16_seq(x1.uses_index@) + q1_13;
    let q1_11 = ser_u16(x1.uses_index@.len() as u16) + q1_12;
    let q1_10 = ser_module_opens_seq(x1.opens@) + q1_11;
    let q1_9 = ser_u16(x1.opens@.len() as u16) + q1_10;
    let q1_8 = ser_module_exports_seq(x1.exports@) + q1_9;
    let q1_7 = ser_u16(x1.exports@.len() as u16) + q1_8;
    let q1_6 = ser_module_requires_seq(x1.requires@) + q1_7;
    let q1_5 = ser_u16(x1.requires@.len() as u16) + q1_6;
    let q1_4 = ser_u16(x1.module_version_index) + q1_5;
    let q1_3 = ser_u16(x1.module_flags) + q1_4;
    let q1_2 = ser_u16(x1.module_name_index) + q1_3;
    let q1_1 = ser_u32(x1.attribute_length) + q1_2;
    let q2_15 = s2;
    let q2_14 = ser_module_provides_seq(x2.provides@) + q2_15;
    let q2_13 = ser_u16(x2.provides@.len() as u16) + q2_14;
    let q2_12 = ser_u16_seq(x2.uses_index@) + q2_13;
    let q2_11 = ser_u16(x2.uses_index@.len() as u16) + q2_12;
    let q2_10 = ser_module_opens_seq(x2.opens@) + q2_11;
    let q2_9 = ser_u16(x2.opens@.len() as u16) + q2_10;
    let q2_8 = ser_module_exports_seq(x2.exports@) + q2_9;
    let q2_7 = ser_u16(x2.exports@.len() as u16) + q2_8;
    let q2_6 = ser_module_requires_seq(x2.requires@) + q2_7;
    let q2_5 = ser_u16(x2.requires@.len() as u16) + q2_6;
    let q2_4 = ser_u16(x2.module_version_index) + q2_5;
    let q2_3 = ser_u16(x2.module_flags) + q2_4;
    let q2_2 = ser_u16(x2.module_name_index) + q2_3;
    let q2_1 = ser_u32(x2.attribute_length) + q2_2;
    vstd::seq_lib::lemma_concat_associative((((((((((((((ser_u16(x1.attribute_name_index) + ser_u32(x1.attribute_length)) + ser_u16(x1.module_name_index)) + ser_u16(x1.module_flags)) + ser_u16(x1.module_version_index)) + ser_u16(x1.requires@.len() as u16)) + ser_module_requires_seq(x1.requires@)) + ser_u16(x1.exports@.len() as u16)) + ser_module_exports_seq(x1.exports@)) + ser_u16(x1.opens@.len() as u16)) + ser_module_opens_seq(x1.opens@)) + ser_u16(x1.uses_index@.len() as u16)) + ser_u16_seq(x1.uses_index@)) + ser_u16(x1.provides@.len() as u16)), ser_module_provides_seq(x1.provides@), q1_15);
    vstd::seq_lib::lemma_concat_associative(((((((((((((ser_u16(x1.attribute_name_index) + ser_u32(x1.attribute_length)) + ser_u16(x1.module_name_index)) + ser_u16(x1.module_flags)) + ser_u16(x1.module_version_index)) + ser_u16(x1.requires@.len() as u16)) + ser_module_requires_seq(x1.requires@)) + ser_u16(x1.exports@.len() as u16)) + ser_module_exports_seq(x1.exports@)) + ser_u16(x1.opens@.len() as u16)) + ser_module_opens_seq(x1.opens@)) + ser_u16(x1.uses_index@.len() as u16)) + ser_u16_seq(x1.uses_index@)), ser_u16(x1.provides@.len() as u16), q1_14);
    vstd::seq_lib::lemma_concat_associative((((((((((((ser_u16(x1.attribute_name_index) + ser_u32(x1.attribute_length)) + ser_u16(x1.module_name_index)) + ser_u16(x1.module_flags)) + ser_u16(x1.module_version_index)) + ser_u16(x1.requires@.len() as u16)) + ser_module_requires_seq(x1.requires@)) + ser_u16(x1.exports@.len() as u16)) + ser_module_exports_seq(x1.exports@)) + ser_u16(x1.opens@.len() as u16)) + ser_module_opens_seq(x1.opens@)) + ser_u16(x1.uses_index@.len() as u16)), ser_u16_seq(x1.uses_index@), q1_13);
    vstd::seq_lib::lemma_concat_associative(((((((((((ser_u16(x1.attribute_name_index) + ser_u32(x1.attribute_length)) + ser_u16(x1.module_name_index)) + ser_u16(x1.module_flags)) + ser_u16(x1.module_version_index)) + ser_u16(x1.requires@.len() as u16)) + ser_module_requires_seq(x1.requires@)) + ser_u16(x1.exports@.len() as u16)) + ser_module_exports_seq(x1.exports@)) + ser_u16(x1.opens@.len() as u16)) + ser_module_opens_seq(x1.opens@)), ser_u16(x1.uses_index@.len() as u16), q1_12);
    vstd::seq_lib::lemma_concat_associative((((((((((ser_u16(x1.attribute_name_index) + ser_u32(x1.attribute_length)) + ser_u16(x1.module_name_index)) + ser_u16(x1.module_flags)) + ser_u16(x1.module_version_index)) + ser_u16(x1.requires@.len() as u16)) + ser_module_requires_seq(x1.requires@)) + ser_u16(x1.exports@.len() as u16)) + ser_module_exports_seq(x1.exports@)) + ser_u16(x1.opens@.len() as u16)), ser_module_opens_seq(x1.opens@), q1_11);
    vstd::seq_lib::lemma_concat_associative(((((((((ser_u16(x1.attribute_name_index) + ser_u32(x1.attribute_length)) + ser_u16(x1.module_name_index)) + ser_u16(x1.module_flags)) + ser_u16(x1.module_version_index)) + ser_u16(x1.requires@.len() as u16)) + ser_module_requires_seq(x1.requires@)) + ser_u16(x1.exports@.len() as u16)) + ser_module_exports_seq(x1.exports@)), ser_u16(x1.opens@.len() as u16), q1_10);
    vstd::seq_lib::lemma_concat_associative((((((((ser_u16(x1.attribute_name_index) + ser_u32(x1.attribute_length)) + ser_u16(x1.module_name_index)) + ser_u16(x1.module_flags)) + ser_u16(x1.module_version_index)) + ser_u16(x1.requires@.len() as u16)) + ser_module_requires_seq(x1.requires@)) + ser_u16(x1.exports@.len() as u16)), ser_module_exports_seq(x1.exports@), q1_9);
    vstd::seq_lib::lemma_concat_associative(((((((ser_u16(x1.attribute_name_index) + ser_u32(x1.attribute_length)) + ser_u16(x1.module_name_index)) + ser_u16(x1.module_flags)) + ser_u16(x1.module_version_index)) + ser_u16(x1.requires@.len() as u16)) + ser_module_requires_seq(x1.requires@)), ser_u16(x1.exports@.len() as u16), q1_8);
    vstd::seq_lib::lemma_concat_associative((((((ser_u16(x1.attribute_name_index) + ser_u32(x1.attribute_length)) + ser_u16(x1.module_name_index)) + ser_u16(x1.module_flags)) + ser_u16(x1.module_version_index)) + ser_u16(x1.requires@.len() as u16)), ser_module_requires_seq(x1.requires@), q1_7);
    vstd::seq_lib::lemma_concat_associative(((((ser_u16(x1.attribute_name_index) + ser_u32(x1.attribute_length)) + ser_u16(x1.module_name_index)) + ser_u16(x1.module_flags)) + ser_u16(x1.module_version_index)), ser_u16(x1.requires@.len() as u16), q1_6);
    vstd::seq_lib::lemma_concat_associative((((ser_u16(x1.attribute_name_index) + ser_u32(x1.attribute_length)) + ser_u16(x1.module_name_index)) + ser_u16(x1.module_flags)), ser_u16(x1.module_version_index), q1_5);
    vstd::seq_lib::lemma_concat_associative(((ser_u16(x1.attribute_name_index) + ser_u32(x1.attribute_length)) + ser_u16(x1.module_name_index)), ser_u16(x1.module_flags), q1_4);
    vstd::seq_lib::lemma_concat_associative((ser_u16(x1.attribute_name_index) + ser_u32(x1.attribute_length)), ser_u16(x1.module_name_index), q1_3);
    vstd::seq_lib::lemma_concat_associative(ser_u16(x1.attribute_name_index), ser_u32(x1.attribute_length), q1_2);
    assert(ser_attr(a1) + s1 == ser_u16(x1.attribute_name_index) + q1_1);
    vstd::seq_lib::lemma_concat_associative((((((((((((((ser_u16(x2.attribute_name_index) + ser_u32(x2.attribute_length)) + ser_u16(x2.module_name_index)) + ser_u16(x2.module_flags)) + ser_u16(x2.module_version_index)) + ser_u16(x2.requires@.len() as u16)) + ser_module_requires_seq(x2.requires@)) + ser_u16(x2.exports@.len() as u16)) + ser_module_exports_seq(x2.exports@)) + ser_u16(x2.opens@.len() as u16)) + ser_module_opens_seq(x2.opens@)) + ser_u16(x2.uses_index@.len() as u16)) + ser_u16_seq(x2.uses_index@)) + ser_u16(x2.provides@.len() as u16)), ser_module_provides_seq(x2.provides@), q2_15);
    vstd::seq_lib::lemma_concat_associative(((((((((((((ser_u16(x2.attribute_name_index) + ser_u32(x2.attribute_length)) + ser_u16(x2.module_name_index)) + ser_u16(x2.module_flags)) + ser_u16(x2.module_version_index)) + ser_u16(x2.requires@.len() as u16)) + ser_module_requires_seq(x2.requires@)) + ser_u16(x2.exports@.len() as u16)) + ser_module_exports_seq(x2.exports@)) + ser_u16(x2.opens@.len() as u16)) + ser_module_opens_seq(x2.opens@)) + ser_u16(x2.uses_index@.len() as u16)) + ser_u16_seq(x2.uses_index@)), ser_u16(x2.provides@.len() as u16), q2_14);
    vstd::seq_lib::lemma_concat_associative((((((((((((ser_u16(x2.attribute_name_index) + ser_u32(x2.attribute_length)) + ser_u16(x2.module_name_index)) + ser_u16(x2.module_flags)) + ser_u16(x2.module_version_index)) + ser_u16(x2.requires@.len() as u16)) + ser_module_requires_seq(x2.requires@)) + ser_u16(x2.exports@.len() as u16)) + ser_module_exports_seq(x2.exports@)) + ser_u16(x2.opens@.len() as u16)) + ser_module_opens_seq(x2.opens@)) + ser_u16(x2.uses_index@.len() as u16)), ser_u16_seq(x2.uses_index@), q2_13);
    vstd::seq_lib::lemma_concat_associative(((((((((((ser_u16(x2.attribute_name_index) + ser_u32(x2.attribute_length)) + ser_u16(x2.module_name_index)) + ser_u16(x2.module_flags)) + ser_u16(x2.module_version_index)) + ser_u16(x2.requires@.len() as u16)) + ser_module_requires_seq(x2.requires@)) + ser_u16(x2.exports@.len() as u16)) + ser_module_exports_seq(x2.exports@)) + ser_u16(x2.opens@.len() as u16)) + ser_module_opens_seq(x2.opens@)), ser_u16(x2.uses_index@.len() as u16), q2_12);
    vstd::seq_lib::lemma_concat_associative((((((((((ser_u16(x2.attribute_name_index) + ser_u32(x2.attribute_length)) + ser_u16(x2.module_name_index)) + ser_u16(x2.module_flags)) + ser_u16(x2.module_version_index)) + ser_u16(x2.requires@.len() as u16)) + ser_module_requires_seq(x2.requires@)) + ser_u16(x2.exports@.len() as u16)) + ser_module_exports_seq(x2.exports@)) + ser_u16(x2.opens@.len() as u16)), ser_module_opens_seq(x2.opens@), q2_11);
    vstd::seq_lib::lemma_concat_associative(((((((((ser_u16(x2.attribute_name_index) + ser_u32(x2.attribute_length)) + ser_u16(x2.module_name_index)) + ser_u16(x2.module_flags)) + ser_u16(x2.module_version_index)) + ser_u16(x2.requires@.len() as u16)) + ser_module_requires_seq(x2.requires@)) + ser_u16(x2.exports@.len() as u16)) + ser_module_exports_seq(x2.exports@)), ser_u16(x2.opens@.len() as u16), q2_10);
    vstd::seq_lib::lemma_concat_associative((((((((ser_u16(x2.attribute_name_index) + ser_u32(x2.attribute_length)) + ser_u16(x2.module_name_index)) + ser_u16(x2.module_flags)) + ser_u16(x2.module_version_index)) + ser_u16(x2.requires@.len() as u16)) + ser_module_requires_seq(x2.requires@)) + ser_u16(x2.exports@.len() as u16)), ser_module_exports_seq(x2.exports@), q2_9);
    vstd::seq_lib::lemma_concat_associative(((((((ser_u16(x2.attribute_name_index) + ser_u32(x2.attribute_length)) + ser_u16(x2.module_name_index)) + ser_u16(x2.module_flags)) + ser_u16(x2.module_version_index)) + ser_u16(x2.requires@.len() as u16)) + ser_module_requires_seq(x2.requires@)), ser_u16(x2.exports@.len() as u16), q2_8);
    vstd::seq_lib::lemma_concat_associative((((((ser_u16(x2.attribute_name_index) + ser_u32(x2.attribute_length)) + ser_u16(x2.module_name_index)) + ser_u16(x2.module_flags)) + ser_u16(x2.module_version_index)) + ser_u16(x2.requires@.len() as u16)), ser_module_requires_seq(x2.requires@), q2_7);
    vstd::seq_lib::lemma_concat_associative(((((ser_u16(x2.attribute_name_index) + ser_u32(x2.attribute_length)) + ser_u16(x2.module_name_index)) + ser_u16(x2.module_flags)) + ser_u16(x2.module_version_index)), ser_u16(x2.requires@.len() as u16), q2_6);
    vstd::seq_lib::lemma_concat_associative((((ser_u16(x2.attribute_name_index) + ser_u32(x2.attribute_length)) + ser_u16(x2.module_name_index)) + ser_u16(x2.module_flags)), ser_u16(x2.module_version_index), q2_5);
    vstd::seq_lib::lemma_concat_associative(((ser_u16(x2.attribute_name_index) + ser_u32(x2.attribute_length)) + ser_u16(x2.module_name_index)), ser_u16(x2.module_flags), q2_4);
    vstd::seq_lib::lemma_concat_associative((ser_u16(x2.attribute_name_index) + ser_u32(x2.attribute_length)), ser_u16(x2.module_name_index), q2_3);
    vstd::seq_lib::lemma_concat_associative(ser_u16(x2.attribute_name_index), ser_u32(x2.attribute_length), q2_2);
    assert(ser_attr(a2) + s2 == ser_u16(x2.attribute_name_index) + q2_1);
    lemma_u16_unamb(x1.attribute_name_index, x2.attribute_name_index, q1_1, q2_1);
    lemma_u32_unamb(x1.attribute_length, x2.attribute_length, q1_2, q2_2);
    lemma_u16_unamb(x1.module_name_index, x2.module_name_index, q1_3, q2_3);
    lemma_u16_unamb(x1.module_flags, x2.module_flags, q1_4, q2_4);
    lemma_u16_unamb(x1.module_version_index, x2.module_version_index, q1_5, q2_5);
    lemma_u16_unamb(x1.requires@.len() as u16, x2.requires@.len() as u16, q1_6, q2_6);
    assert(x1.requires@.len() == x2.requires@.len());
    lemma_module_requires_seq_unamb(x1.requires@, x2.requires@, q1_7, q2_7);
    lemma_u16_unamb(x1.exports@.len() as u16, x2.exports@.len() as u16, q1_8, q2_8);
    assert(x1.exports@.len() == x2.exports@.len());
    lemma_module_exports_seq_unamb(x1.exports@, x2.exports@, q1_9, q2_9);
    lemma_u16_unamb(x1.opens@.len() as u16, x2.opens@.len() as u16, q1_10, q2_10);
    assert(x1.opens@.len() == x2.opens@.len());
    lemma_module_opens_seq_unamb(x1.opens@, x2.opens@, q1_11, q2_11);
    lemma_u16_unamb(x1.uses_index@.len() as u16, x2.uses_index@.len() as u16, q1_12, q2_12);
    assert(x1.uses_index@.len() == x2.uses_index@.len());
    lemma_u16_seq_unamb(x1.uses_index@, x2.uses_index@, q1_13, q2_13);
    lemma_u16_unamb(x1.provides@.len() as u16, x2.provides@.len() as u16, q1_14, q2_14);
    assert(x1.provides@.len() == x2.provides@.len());
    lemma_module_provides_seq_unamb(x1.provides@, x2.provides@, q1_15, q2_15);
    assert(ser_attr(a1) == ser_attr(a2));
}


proof fn lemma_attr_modulepackages_unamb(
    a1: AttributeInfo,
    a2: AttributeInfo,
    pool1: Seq<CpInfo>,
    pool2: Seq<CpInfo>,
    s1: Seq<u8>,
    s2: Seq<u8>,
)
    requires
        a1 is ModulePackages,
        a2 is ModulePackages,
        wf_attr(a1),
        wf_attr(a2),
        ser_attr(a1) + s1 == ser_attr(a2) + s2,
    ensures
        ser_attr(a1) == ser_attr(a2),
        s1 == s2,
    decreases a1, 0int,
{
    let x1 = a1->ModulePackages_0;
    let x2 = a2->ModulePackages_0;
    let q1_4 = s1;
    let q1_3 = ser_u16_seq(x1.package_index@) + q1_4;
    let q1_2 = ser_u16(x1.package_index@.len() as u16) + q1_3;
    let q1_1 = ser_u32(x1.attribute_length) + q1_2;
    let q2_4 = s2;
    let q2_3 = ser_u16_seq(x2.package_index@) + q2_4;
    let q2_2 = ser_u16(x2.package_index@.len() as u16) + q2_3;
    let q2_1 = ser_u32(x2.attribute_length) + q2_2;
    assert(ser_attr(a1) + s1 =~= ser_u16(x1.attribute_name_index) + q1_1);
    assert(ser_attr(a2) + s2 =~= ser_u16(x2.attribute_name_index) + q2_1);
    lemma_u16_unamb(x1.attribute_name_index, x2.attribute_name_index, q1_1, q2_1);
    lemma_u32_unamb(x1.attribute_length, x2.attribute_length, q1_2, q2_2);
    lemma_u16_unamb(x1.package_index@.len() as u16, x2.package_index@.len() as u16, q1_3, q2_3);
    assert(x1.package_index@.len() == x2.package_index@.len());
    lemma_u16_seq_unamb(x1.package_index@, x2.package_index@, q1_4, q2_4);
    assert(ser_attr(a1) =~= ser_attr(a2));
}

proof fn lemma_attr_nestmembers_unamb(
    a1: AttributeInfo,
    a2: AttributeInfo,
    pool1: Seq<CpInfo>,
    pool2: Seq<CpInfo>,
    s1: Seq<u8>,
    s2: Seq<u8>,
)
    requires
        a1 is NestMembers,
        a2 is NestMembers,
        wf_attr(a1),
        wf_attr(a2),
        ser_attr(a1) + s1 == ser_attr(a2) + s2,
    ensures
        ser_attr(a1) == ser_attr(a2),
        s1 == s2,
    decreases a1, 0int,
{
    let x1 = a1->NestMembers_0;
    let x2 = a2->NestMembers_0;
    let q1_4 = s1;
    let q1_3 = ser_u16_seq(x1.classes@) + q1_4;
    let q1_2 = ser_u16(x1.classes@.len() as u16) + q1_3;
    let q1_1 = ser_u32(x1.attribute_length) + q1_2;
    let q2_4 = s2;
    let q2_3 = ser_u16_seq(x2.classes@) + q2_4;
    let q2_2 = ser_u16(x2.classes@.len() as u16) + q2_3;
    let q2_1 = ser_u32(x2.attribute_length) + q2_2;
    assert(ser_attr(a1) + s1 =~= ser_u16(x1.attribute_name_index) + q1_1);
    assert(ser_attr(a2) + s2 =~= ser_u16(x2.attribute_name_index) + q2_1);
    lemma_u16_unamb(x1.attribute_name_index, x2.attribute_name_index, q1_1, q2_1);
    lemma_u32_unamb(x1.attribute_length, x2.attribute_length, q1_2, q2_2);
    lemma_u16_unamb(x1.classes@.len() as u16, x2.classes@.len() as u16, q1_3, q2_3);
    assert(x1.classes@.len() == x2.classes@.len());
    lemma_u16_seq_unamb(x1.classes@, x2.classes@, q1_4, q2_4);
    assert(ser_attr(a1) =~= ser_attr(a2));
}

proof fn lemma_attr_record_unamb(
    a1: AttributeInfo,
    a2: AttributeInfo,
    pool1: Seq<CpInfo>,
    pool2: Seq<CpInfo>,
    s1: Seq<u8>,
    s2: Seq<u8>,
)
    requires
        a1 is Record,
        a2 is Record,
        wf_attr(a1),
        wf_attr(a2),
        attr_resolves(a1, pool1),
        attr_resolves(a2, pool2),
        pools_text_like(pool1, pool2),
        ser_attr(a1) + s1 == ser_attr(a2) + s2,
    ensures
        ser_attr(a1) == ser_attr(a2),
        s1 == s2,
    decreases a1, 0int,
{
    let x1 = a1->Record_0;
    let x2 = a2->Record_0;
    let q1_4 = s1;
    let q1_3 = ser_component_seq(x1.components@) + q1_4;
    let q1_2 = ser_u16(x1.components@.len() as u16) + q1_3;
    let q1_1 = ser_u32(x1.attribute_length) + q1_2;
    let q2_4 = s2;
    let q2_3 = ser_component_seq(x2.components@) + q2_4;
    let q2_2 = ser_u16(x2.components@.len() as u16) + q2_3;
    let q2_1 = ser_u32(x2.attribute_length) + q2_2;
    assert(ser_attr(a1) + s1 =~= ser_u16(x1.attribute_name_index) + q1_1);
    assert(ser_attr(a2) + s2 =~= ser_u16(x2.attribute_name_index) + q2_1);
    lemma_u16_unamb(x1.attribute_name_index, x2.attribute_name_index, q1_1, q2_1);
    lemma_u32_unamb(x1.attribute_length, x2.attribute_length, q1_2, q2_2);
    lemma_u16_unamb(x1.components@.len() as u16, x2.components@.len() as u16, q1_3, q2_3);
    assert(x1.components@.len() == x2.components@.len());
    lemma_component_seq_unamb(x1.components@, x2.components@, pool1, pool2, q1_4, q2_4);
    assert(ser_attr(a1) =~= ser_attr(a2));
}

proof fn lemma_attr_permittedsubclasses_unamb(
    a1: AttributeInfo,
    a2: AttributeInfo,
    pool1: Seq<CpInfo>,
    pool2: Seq<CpInfo>,
    s1: Seq<u8>,
    s2: Seq<u8>,
)
    requires
        a1 is PermittedSubclasses,
        a2 is PermittedSubclasses,
        wf_attr(a1),
        wf_attr(a2),
        ser_attr(a1) + s1 == ser_attr(a2) + s2,
    ensures
        ser_attr(a1) == ser_attr(a2),
        s1 == s2,
    decreases a1, 0int,
{
    let x1 = a1->PermittedSubclasses_0;
    let x2 = a2->PermittedSubclasses_0;
    let q1_4 = s1;
    let q1_3 = ser_u16_seq(x1.classes@) + q1_4;
    let q1_2 = ser_u16(x1.classes@.len() as u16) + q1_3;
    let q1_1 = ser_u32(x1.attribute_length) + q1_2;
    let q2_4 = s2;
    let q2_3 = ser_u16_seq(x2.classes@) + q2_4;
    let q2_2 = ser_u16(x2.classes@.len() as u16) + q2_3;
    let q2_1 = ser_u32(x2.attribute_length) + q2_2;
    assert(ser_attr(a1) + s1 =~= ser_u16(x1.attribute_name_index) + q1_1);
    assert(ser_attr(a2) + s2 =~= ser_u16(x2.attribute_name_index) + q2_1);
    lemma_u16_unamb(x1.attribute_name_index, x2.attribute_name_index, q1_1, q2_1);
    lemma_u32_unamb(x1.attribute_length, x2.attribute_length, q1_2, q2_2);
    lemma_u16_unamb(x1.classes@.len() as u16, x2.classes@.len() as u16, q1_3, q2_3);
    assert(x1.classes@.len() == x2.classes@.len());
    lemma_u16_seq_unamb(x1.classes@, x2.classes@, q1_4, q2_4);
    assert(ser_attr(a1) =~= ser_attr(a2));
}

/// A well-formed attribute whose name resolves, serialized at the front of a
/// run, is determined by it: the name index picks the same text in both
/// pools, the text fixes the kind, and the kind fixes the payload.
/// An attribute's bytes start with the two bytes of its name index.
#[verifier::rlimit(100)]
pub proof fn lemma_attr_header(a: AttributeInfo)
    ensures
        ser_attr(a).len() >= 6,
        ser_attr(a)[0] == ser_u16(attr_name_index(a))[0],
        ser_attr(a)[1] == ser_u16(attr_name_index(a))[1],
{
}

/// The name indices of two attributes serialized at the same position are
/// equal.
proof fn lemma_attr_name_index_eq(a1: AttributeInfo, a2: AttributeInfo, s1: Seq<u8>, s2: Seq<u8>)
    requires
        ser_attr(a1) + s1 == ser_attr(a2) + s2,
    ensures
        attr_name_index(a1) == attr_name_index(a2),
{
    lemma_attr_header(a1);
    lemma_attr_header(a2);
    assert((ser_attr(a1) + s1)[0] == ser_attr(a1)[0] && (ser_attr(a1) + s1)[1] == ser_attr(a1)[1]);
    assert((ser_attr(a2) + s2)[0] == ser_attr(a2)[0] && (ser_attr(a2) + s2)[1] == ser_attr(a2)[1]);
    let n1 = attr_name_index(a1);
    let n2 = attr_name_index(a2);
    assert((((n1 >> 8) & 0xFF) as u8 == ((n2 >> 8) & 0xFF) as u8 && (n1 & 0xFF) as u8 == (n2
        & 0xFF) as u8) ==> n1 == n2) by (bit_vector);
}

/// The eight attribute kinds whose payload is a fixed number of bytes are
/// determined by their kind alone.
proof fn lemma_attr_fixed_unamb(
    a1: AttributeInfo,
    a2: AttributeInfo,
    s1: Seq<u8>,
    s2: Seq<u8>,
)
    requires
        attr_kind(a1) == attr_kind(a2),
        a1 is ConstantValue || a1 is EnclosingMethod || a1 is Synthetic || a1 is Signature || a1
            is SourceFile || a1 is Deprecated || a1 is ModuleMainClass || a1 is NestHost,
        ser_attr(a1) + s1 == ser_attr(a2) + s2,
    ensures
        ser_attr(a1) == ser_attr(a2),
        s1 == s2,
{
    assert(ser_attr(a1).len() == ser_attr(a2).len());
    lemma_concat_cancel(ser_attr(a1), s1, ser_attr(a2), s2);
}

#[verifier::rlimit(100)]
pub proof fn lemma_attr_unamb(
    a1: AttributeInfo,
    a2: AttributeInfo,
    pool1: Seq<CpInfo>,
    pool2: Seq<CpInfo>,
    s1: Seq<u8>,
    s2: Seq<u8>,
)
    requires
        wf_attr(a1),
        wf_attr(a2),
        attr_resolves(a1, pool1),
        attr_resolves(a2, pool2),
        pools_text_like(pool1, pool2),
        ser_attr(a1) + s1 == ser_attr(a2) + s2,
    ensures
        ser_attr(a1) == ser_attr(a2),
        s1 == s2,
    decreases a1, 1int,
{
    lemma_attr_name_index_eq(a1, a2, s1, s2);
    let n1 = attr_name_index(a1);
    assert(cp_text_like(pool1[n1 as int], pool2[n1 as int]));
    assert(attr_name(a1) == attr_name(a2));
    lemma_attr_name_injective(a1, a2);
    match a1 {
        AttributeInfo::Code(_) => {
            lemma_attr_code_unamb(a1, a2, pool1, pool2, s1, s2);
        },
        AttributeInfo::StackMapTable(_) => {
            lemma_attr_stackmaptable_unamb(a1, a2, pool1, pool2, s1, s2);
        },
        AttributeInfo::Exceptions(_) => {
            lemma_attr_exceptions_unamb(a1, a2, pool1, pool2, s1, s2);
        },
        AttributeInfo::InnerClasses(_) => {
            lemma_attr_innerclasses_unamb(a1, a2, pool1, pool2, s1, s2);
        },
        AttributeInfo::SourceDebugExtension(_) => {
            lemma_attr_sourcedebugextension_unamb(a1, a2, pool1, pool2, s1, s2);
        },
        AttributeInfo::LineNumberTable(_) => {
            lemma_attr_linenumbertable_unamb(a1, a2, pool1, pool2, s1, s2);
        },
        AttributeInfo::LocalVariableTable(_) => {
            lemma_attr_localvariabletable_unamb(a1, a2, pool1, pool2, s1, s2);
        },
        AttributeInfo::LocalVariableTypeTable(_) => {
            lemma_attr_localvariabletypetable_unamb(a1, a2, pool1, pool2, s1, s2);
        },
        AttributeInfo::RuntimeVisibleAnnotations(_) => {
            lemma_attr_runtimevisibleannotations_unamb(a1, a2, pool1, pool2, s1, s2);
        },
        AttributeInfo::RuntimeInvisibleAnnotations(_) => {
            lemma_attr_runtimeinvisibleannotations_unamb(a1, a2, pool1, pool2, s1, s2);
        },
        AttributeInfo::RuntimeVisibleParameterAnnotations(_) => {
            lemma_attr_runtimevisibleparameterannotations_unamb(a1, a2, pool1, pool2, s1, s2);
        },
        AttributeInfo::RuntimeInvisibleParameterAnnotations(_) => {
            lemma_attr_runtimeinvisibleparameterannotations_unamb(a1, a2, pool1, pool2, s1, s2);
        },
        AttributeInfo::RuntimeVisibleTypeAnnotations(_) => {
            lemma_attr_runtimevisibletypeannotations_unamb(a1, a2, pool1, pool2, s1, s2);
        },
        AttributeInfo::RuntimeInvisibleTypeAnnotations(_) => {
            lemma_attr_runtimeinvisibletypeannotations_unamb(a1, a2, pool1, pool2, s1, s2);
        },
        AttributeInfo::AnnotationDefault(_) => {
            lemma_attr_annotationdefault_unamb(a1, a2, pool1, pool2, s1, s2);
        },
        AttributeInfo::BootstrapMethods(_) => {
            lemma_attr_bootstrapmethods_unamb(a1, a2, pool1, pool2, s1, s2);
        },
        AttributeInfo::MethodParameters(_) => {
            lemma_attr_methodparameters_unamb(a1, a2, pool1, pool2, s1, s2);
        },
        AttributeInfo::Module(_) => {
            lemma_attr_module_unamb(a1, a2, pool1, pool2, s1, s2);
        },
        AttributeInfo::ModulePackages(_) => {
            lemma_attr_modulepackages_unamb(a1, a2, pool1, pool2, s1, s2);
        },
        AttributeInfo::NestMembers(_) => {
            lemma_attr_nestmembers_unamb(a1, a2, pool1, pool2, s1, s2);
        },
        AttributeInfo::Record(_) => {
            lemma_attr_record_unamb(a1, a2, pool1, pool2, s1, s2);
        },
        AttributeInfo::PermittedSubclasses(_) => {
            lemma_attr_permittedsubclasses_unamb(a1, a2, pool1, pool2, s1, s2);
        },
        _ => {
            lemma_attr_fixed_unamb(a1, a2, s1, s2);
        },
    }
}

/// A run of attributes of known count is determined by the byte run.
pub proof fn lemma_attr_seq_unamb(
    l1: Seq<AttributeInfo>,
    l2: Seq<AttributeInfo>,
    pool1: Seq<CpInfo>,
    pool2: Seq<CpInfo>,
    s1: Seq<u8>,
    s2: Seq<u8>,
)
    requires
        l1.len() == l2.len(),
        wf_attr_seq(l1),
        wf_attr_seq(l2),
        attr_seq_resolves(l1, pool1),
        attr_seq_resolves(l2, pool2),
        pools_text_like(pool1, pool2),
        ser_attr_seq(l1) + s1 == ser_attr_seq(l2) + s2,
    ensures
        ser_attr_seq(l1) == ser_attr_seq(l2),
        s1 == s2,
    decreases l1, 1int,
{
    if l1.len() == 0 {
        assert(ser_attr_seq(l1) == Seq::<u8>::empty());
        assert(ser_attr_seq(l2) == Seq::<u8>::empty());
        lemma_concat_cancel(ser_attr_seq(l1), s1, ser_attr_seq(l2), s2);
    } else {
        let r1 = ser_attr_seq(l1.drop_first()) + s1;
        let r2 = ser_attr_seq(l2.drop_first()) + s2;
        assert(ser_attr_seq(l1) + s1 =~= ser_attr(l1[0]) + r1);
        assert(ser_attr_seq(l2) + s2 =~= ser_attr(l2[0]) + r2);
        lemma_attr_unamb(l1[0], l2[0], pool1, pool2, r1, r2);
        lemma_attr_seq_unamb(l1.drop_first(), l2.drop_first(), pool1, pool2, s1, s2);
        assert(ser_attr_seq(l1) =~= ser_attr_seq(l2));
    }
}

/// A record component serialized at the front of a run is determined by it.
pub proof fn lemma_component_unamb(
    c1: AttributeRecordComponentInfo,
    c2: AttributeRecordComponentInfo,
    pool1: Seq<CpInfo>,
    pool2: Seq<CpInfo>,
    s1: Seq<u8>,
    s2: Seq<u8>,
)
    requires
        wf_component(c1),
        wf_component(c2),
        attr_seq_resolves(c1.attributes@, pool1),
        attr_seq_resolves(c2.attributes@, pool2),
        pools_text_like(pool1, pool2),
        ser_component(c1) + s1 == ser_component(c2) + s2,
    ensures
        ser_component(c1) == ser_component(c2),
        s1 == s2,
    decreases c1, 1int,
{
    let q1_4 = s1;
    let q2_4 = s2;
    let q1_3 = ser_attr_seq(c1.attributes@) + q1_4;
    let q2_3 = ser_attr_seq(c2.attributes@) + q2_4;
    let q1_2 = ser_u16(c1.attributes@.len() as u16) + q1_3;
    let q2_2 = ser_u16(c2.attributes@.len() as u16) + q2_3;
    let q1_1 = ser_u16(c1.descriptor_index) + q1_2;
    let q2_1 = ser_u16(c2.descriptor_index) + q2_2;
    assert(ser_component(c1) + s1 =~= ser_u16(c1.name_index) + q1_1);
    assert(ser_component(c2) + s2 =~= ser_u16(c2.name_index) + q2_1);
    lemma_u16_unamb(c1.name_index, c2.name_index, q1_1, q2_1);
    lemma_u16_unamb(c1.descriptor_index, c2.descriptor_index, q1_2, q2_2);
    lemma_u16_unamb(c1.attributes@.len() as u16, c2.attributes@.len() as u16, q1_3, q2_3);
    assert(c1.attributes@.len() == c2.attributes@.len());
    lemma_attr_seq_unamb(c1.attributes@, c2.attributes@, pool1, pool2, s1, s2);
    assert(ser_component(c1) =~= ser_component(c2));
}

/// A run of record components of known count is determined by the byte run.
pub proof fn lemma_component_seq_unamb(
    l1: Seq<AttributeRecordComponentInfo>,
    l2: Seq<AttributeRecordComponentInfo>,
    pool1: Seq<CpInfo>,
    pool2: Seq<CpInfo>,
    s1: Seq<u8>,
    s2: Seq<u8>,
)
    requires
        l1.len() == l2.len(),
        wf_component_seq(l1),
        wf_component_seq(l2),
        forall|i: int|
            0 <= i < l1.len() ==> attr_seq_resolves((#[trigger] l1[i]).attributes@, pool1),
        forall|i: int|
            0 <= i < l2.len() ==> attr_seq_resolves((#[trigger] l2[i]).attributes@, pool2),
        pools_text_like(pool1, pool2),
        ser_component_seq(l1) + s1 == ser_component_seq(l2) + s2,
    ensures
        ser_component_seq(l1) == ser_component_seq(l2),
        s1 == s2,
    decreases l1, 1int,
{
    if l1.len() == 0 {
        assert(ser_component_seq(l1) == Seq::<u8>::empty());
        assert(ser_component_seq(l2) == Seq::<u8>::empty());
        lemma_concat_cancel(ser_component_seq(l1), s1, ser_component_seq(l2), s2);
    } else {
        let r1 = ser_component_seq(l1.drop_first()) + s1;
        let r2 = ser_component_seq(l2.drop_first()) + s2;
        assert(ser_component_seq(l1) + s1 =~= ser_component(l1[0]) + r1);
        assert(ser_component_seq(l2) + s2 =~= ser_component(l2[0]) + r2);
        lemma_component_unamb(l1[0], l2[0], pool1, pool2, r1, r2);
        lemma_component_seq_unamb(l1.drop_first(), l2.drop_first(), pool1, pool2, s1, s2);
        assert(ser_component_seq(l1) =~= ser_component_seq(l2));
    }
}


/// A field record serialized at the front of a run is determined by it.
#[verifier::rlimit(100)]
pub proof fn lemma_field_unamb(
    x1: FieldInfo,
    x2: FieldInfo,
    pool1: Seq<CpInfo>,
    pool2: Seq<CpInfo>,
    s1: Seq<u8>,
    s2: Seq<u8>,
)
    requires
        wf_field(x1),
        wf_field(x2),
        attr_seq_resolves(x1.attributes@, pool1),
        attr_seq_resolves(x2.attributes@, pool2),
        pools_text_like(pool1, pool2),
        ser_field(x1) + s1 == ser_field(x2) + s2,
    ensures
        ser_field(x1) == ser_field(x2),
        s1 == s2,
{
    let q1_5 = s1;
    let q1_4 = ser_attr_seq(x1.attributes@) + q1_5;
    let q1_3 = ser_u16(x1.attributes@.len() as u16) + q1_4;
    let q1_2 = ser_u16(x1.descriptor_index) + q1_3;
    let q1_1 = ser_u16(x1.name_index) + q1_2;
    let q2_5 = s2;
    let q2_4 = ser_attr_seq(x2.attributes@) + q2_5;
    let q2_3 = ser_u16(x2.attributes@.len() as u16) + q2_4;
    let q2_2 = ser_u16(x2.descriptor_index) + q2_3;
    let q2_1 = ser_u16(x2.name_index) + q2_2;
    vstd::seq_lib::lemma_concat_associative((((ser_u16(x1.access_flags) + ser_u16(x1.name_index)) + ser_u16(x1.descriptor_index)) + ser_u16(x1.attributes@.len() as u16)), ser_attr_seq(x1.attributes@), q1_5);
    vstd::seq_lib::lemma_concat_associative(((ser_u16(x1.access_flags) + ser_u16(x1.name_index)) + ser_u16(x1.descriptor_index)), ser_u16(x1.attributes@.len() as u16), q1_4);
    vstd::seq_lib::lemma_concat_associative((ser_u16(x1.access_flags) + ser_u16(x1.name_index)), ser_u16(x1.descriptor_index), q1_3);
    vstd::seq_lib::lemma_concat_associative(ser_u16(x1.access_flags), ser_u16(x1.name_index), q1_2);
    assert(ser_field(x1) + s1 == ser_u16(x1.access_flags) + q1_1);
    vstd::seq_lib::lemma_concat_associative((((ser_u16(x2.access_flags) + ser_u16(x2.name_index)) + ser_u16(x2.descriptor_index)) + ser_u16(x2.attributes@.len() as u16)), ser_attr_seq(x2.attributes@), q2_5);
    vstd::seq_lib::lemma_concat_associative(((ser_u16(x2.access_flags) + ser_u16(x2.name_index)) + ser_u16(x2.descriptor_index)), ser_u16(x2.attributes@.len() as u16), q2_4);
    vstd::seq_lib::lemma_concat_associative((ser_u16(x2.access_flags) + ser_u16(x2.name_index)), ser_u16(x2.descriptor_index), q2_3);
    vstd::seq_lib::lemma_concat_associative(ser_u16(x2.access_flags), ser_u16(x2.name_index), q2_2);
    assert(ser_field(x2) + s2 == ser_u16(x2.access_flags) + q2_1);
    lemma_u16_unamb(x1.access_flags, x2.access_flags, q1_1, q2_1);
    lemma_u16_unamb(x1.name_index, x2.name_index, q1_2, q2_2);
    lemma_u16_unamb(x1.descriptor_index, x2.descriptor_index, q1_3, q2_3);
    lemma_u16_unamb(x1.attributes@.len() as u16, x2.attributes@.len() as u16, q1_4, q2_4);
    assert(x1.attributes@.len() == x2.attributes@.len());
    lemma_attr_seq_unamb(x1.attributes@, x2.attributes@, pool1, pool2, q1_5, q2_5);
    assert(ser_field(x1) == ser_field(x2));
}

/// A run of field records of known count is determined by the byte run.
pub proof fn lemma_field_seq_unamb(
    l1: Seq<FieldInfo>,
    l2: Seq<FieldInfo>,
    pool1: Seq<CpInfo>,
    pool2: Seq<CpInfo>,
    s1: Seq<u8>,
    s2: Seq<u8>,
)
    requires
        l1.len() == l2.len(),
        forall|i: int| 0 <= i < l1.len() ==> wf_field(#[trigger] l1[i]),
        forall|i: int| 0 <= i < l2.len() ==> wf_field(#[trigger] l2[i]),
        forall|i: int|
            0 <= i < l1.len() ==> attr_seq_resolves((#[trigger] l1[i]).attributes@, pool1),
        forall|i: int|
            0 <= i < l2.len() ==> attr_seq_resolves((#[trigger] l2[i]).attributes@, pool2),
        pools_text_like(pool1, pool2),
        ser_field_seq(l1) + s1 == ser_field_seq(l2) + s2,
    ensures
        ser_field_seq(l1) == ser_field_seq(l2),
        s1 == s2,
    decreases l1.len(),
{
    if l1.len() == 0 {
        assert(ser_field_seq(l1) == Seq::<u8>::empty());
        assert(ser_field_seq(l2) == Seq::<u8>::empty());
        lemma_concat_cancel(ser_field_seq(l1), s1, ser_field_seq(l2), s2);
    } else {
        let r1 = ser_field_seq(l1.drop_first()) + s1;
        let r2 = ser_field_seq(l2.drop_first()) + s2;
        assert(ser_field_seq(l1) + s1 =~= ser_field(l1[0]) + r1);
        assert(ser_field_seq(l2) + s2 =~= ser_field(l2[0]) + r2);
        lemma_field_unamb(l1[0], l2[0], pool1, pool2, r1, r2);
        lemma_field_seq_unamb(l1.drop_first(), l2.drop_first(), pool1, pool2, s1, s2);
        assert(ser_field_seq(l1) =~= ser_field_seq(l2));
    }
}

/// A method record serialized at the front of a run is determined by it.
#[verifier::rlimit(100)]
pub proof fn lemma_method_unamb(
    x1: MethodInfo,
    x2: MethodInfo,
    pool1: Seq<CpInfo>,
    pool2: Seq<CpInfo>,
    s1: Seq<u8>,
    s2: Seq<u8>,
)
    requires
        wf_method(x1),
        wf_method(x2),
        attr_seq_resolves(x1.attributes@, pool1),
        attr_seq_resolves(x2.attributes@, pool2),
        pools_text_like(pool1, pool2),
        ser_method(x1) + s1 == ser_method(x2) + s2,
    ensures
        ser_method(x1) == ser_method(x2),
        s1 == s2,
{
    let q1_5 = s1;
    let q1_4 = ser_attr_seq(x1.attributes@) + q1_5;
    let q1_3 = ser_u16(x1.attributes@.len() as u16) + q1_4;
    let q1_2 = ser_u16(x1.descriptor_index) + q1_3;
    let q1_1 = ser_u16(x1.name_index) + q1_2;
    let q2_5 = s2;
    let q2_4 = ser_attr_seq(x2.attributes@) + q2_5;
    let q2_3 = ser_u16(x2.attributes@.len() as u16) + q2_4;
    let q2_2 = ser_u16(x2.descriptor_index) + q2_3;
    let q2_1 = ser_u16(x2.name_index) + q2_2;
    vstd::seq_lib::lemma_concat_associative((((ser_u16(x1.access_flags) + ser_u16(x1.name_index)) + ser_u16(x1.descriptor_index)) + ser_u16(x1.attributes@.len() as u16)), ser_attr_seq(x1.attributes@), q1_5);
    vstd::seq_lib::lemma_concat_associative(((ser_u16(x1.access_flags) + ser_u16(x1.name_index)) + ser_u16(x1.descriptor_index)), ser_u16(x1.attributes@.len() as u16), q1_4);
    vstd::seq_lib::lemma_concat_associative((ser_u16(x1.access_flags) + ser_u16(x1.name_index)), ser_u16(x1.descriptor_index), q1_3);
    vstd::seq_lib::lemma_concat_associative(ser_u16(x1.access_flags), ser_u16(x1.name_index), q1_2);
    assert(ser_method(x1) + s1 == ser_u16(x1.access_flags) + q1_1);
    vstd::seq_lib::lemma_concat_associative((((ser_u16(x2.access_flags) + ser_u16(x2.name_index)) + ser_u16(x2.descriptor_index)) + ser_u16(x2.attributes@.len() as u16)), ser_attr_seq(x2.attributes@), q2_5);
    vstd::seq_lib::lemma_concat_associative(((ser_u16(x2.access_flags) + ser_u16(x2.name_index)) + ser_u16(x2.descriptor_index)), ser_u16(x2.attributes@.len() as u16), q2_4);
    vstd::seq_lib::lemma_concat_associative((ser_u16(x2.access_flags) + ser_u16(x2.name_index)), ser_u16(x2.descriptor_index), q2_3);
    vstd::seq_lib::lemma_concat_associative(ser_u16(x2.access_flags), ser_u16(x2.name_index), q2_2);
    assert(ser_method(x2) + s2 == ser_u16(x2.access_flags) + q2_1);
    lemma_u16_unamb(x1.access_flags, x2.access_flags, q1_1, q2_1);
    lemma_u16_unamb(x1.name_index, x2.name_index, q1_2, q2_2);
    lemma_u16_unamb(x1.descriptor_index, x2.descriptor_index, q1_3, q2_3);
    lemma_u16_unamb(x1.attributes@.len() as u16, x2.attributes@.len() as u16, q1_4, q2_4);
    assert(x1.attributes@.len() == x2.attributes@.len());
    lemma_attr_seq_unamb(x1.attributes@, x2.attributes@, pool1, pool2, q1_5, q2_5);
    assert(ser_method(x1) == ser_method(x2));
}

/// A run of method records of known count is determined by the byte run.
pub proof fn lemma_method_seq_unamb(
    l1: Seq<MethodInfo>,
    l2: Seq<MethodInfo>,
    pool1: Seq<CpInfo>,
    pool2: Seq<CpInfo>,
    s1: Seq<u8>,
    s2: Seq<u8>,
)
    requires
        l1.len() == l2.len(),
        forall|i: int| 0 <= i < l1.len() ==> wf_method(#[trigger] l1[i]),
        forall|i: int| 0 <= i < l2.len() ==> wf_method(#[trigger] l2[i]),
        forall|i: int|
            0 <= i < l1.len() ==> attr_seq_resolves((#[trigger] l1[i]).attributes@, pool1),
        forall|i: int|
            0 <= i < l2.len() ==> attr_seq_resolves((#[trigger] l2[i]).attributes@, pool2),
        pools_text_like(pool1, pool2),
        ser_method_seq(l1) + s1 == ser_method_seq(l2) + s2,
    ensures
        ser_method_seq(l1) == ser_method_seq(l2),
        s1 == s2,
    decreases l1.len(),
{
    if l1.len() == 0 {
        assert(ser_method_seq(l1) == Seq::<u8>::empty());
        assert(ser_method_seq(l2) == Seq::<u8>::empty());
        lemma_concat_cancel(ser_method_seq(l1), s1, ser_method_seq(l2), s2);
    } else {
        let r1 = ser_method_seq(l1.drop_first()) + s1;
        let r2 = ser_method_seq(l2.drop_first()) + s2;
        assert(ser_method_seq(l1) + s1 =~= ser_method(l1[0]) + r1);
        assert(ser_method_seq(l2) + s2 =~= ser_method(l2[0]) + r2);
        lemma_method_unamb(l1[0], l2[0], pool1, pool2, r1, r2);
        lemma_method_seq_unamb(l1.drop_first(), l2.drop_first(), pool1, pool2, s1, s2);
        assert(ser_method_seq(l1) =~= ser_method_seq(l2));
    }
}

/// A well-formed, name-resolving class file serialized at the front of a run
/// is determined by it.
#[verifier::rlimit(100)]
pub proof fn lemma_class_file_unamb(c1: ClassFile, c2: ClassFile, s1: Seq<u8>, s2: Seq<u8>)
    requires
        wf_class_file(c1),
        class_file_resolves(c1),
        wf_class_file(c2),
        class_file_resolves(c2),
        ser_class_file(c1) + s1 == ser_class_file(c2) + s2,
    ensures
        ser_class_file(c1) == ser_class_file(c2),
        s1 == s2,
{
    let q1_16 = s1;
    let q1_15 = ser_attr_seq(c1.attributes@) + q1_16;
    let q1_14 = ser_u16(c1.attributes@.len() as u16) + q1_15;
    let q1_13 = ser_method_seq(c1.methods@) + q1_14;
    let q1_12 = ser_u16(c1.methods@.len() as u16) + q1_13;
    let q1_11 = ser_field_seq(c1.fields@) + q1_12;
    let q1_10 = ser_u16(c1.fields@.len() as u16) + q1_11;
    let q1_9 = ser_u16_seq(c1.interfaces@) + q1_10;
    let q1_8 = ser_u16(c1.interfaces@.len() as u16) + q1_9;
    let q1_7 = ser_u16(c1.super_class) + q1_8;
    let q1_6 = ser_u16(c1.this_class) + q1_7;
    let q1_5 = ser_u16(c1.access_flags) + q1_6;
    let q1_4 = ser_cp_seq(c1.constant_pool@.drop_first()) + q1_5;
    let q1_3 = ser_u16(c1.constant_pool_count) + q1_4;
    let q1_2 = ser_u16(c1.major_version) + q1_3;
    let q1_1 = ser_u16(c1.minor_version) + q1_2;
    let q2_16 = s2;
    let q2_15 = ser_attr_seq(c2.attributes@) + q2_16;
    let q2_14 = ser_u16(c2.attributes@.len() as u16) + q2_15;
    let q2_13 = ser_method_seq(c2.methods@) + q2_14;
    let q2_12 = ser_u16(c2.methods@.len() as u16) + q2_13;
    let q2_11 = ser_field_seq(c2.fields@) + q2_12;
    let q2_10 = ser_u16(c2.fields@.len() as u16) + q2_11;
    let q2_9 = ser_u16_seq(c2.interfaces@) + q2_10;
    let q2_8 = ser_u16(c2.interfaces@.len() as u16) + q2_9;
    let q2_7 = ser_u16(c2.super_class) + q2_8;
    let q2_6 = ser_u16(c2.this_class) + q2_7;
    let q2_5 = ser_u16(c2.access_flags) + q2_6;
    let q2_4 = ser_cp_seq(c2.constant_pool@.drop_first()) + q2_5;
    let q2_3 = ser_u16(c2.constant_pool_count) + q2_4;
    let q2_2 = ser_u16(c2.major_version) + q2_3;
    let q2_1 = ser_u16(c2.minor_version) + q2_2;
    vstd::seq_lib::lemma_concat_associative(((((((((((((((ser_u32(c1.magic) + ser_u16(c1.minor_version)) + ser_u16(c1.major_version)) + ser_u16(c1.constant_pool_count)) + ser_cp_seq(c1.constant_pool@.drop_first())) + ser_u16(c1.access_flags)) + ser_u16(c1.this_class)) + ser_u16(c1.super_class)) + ser_u16(c1.interfaces@.len() as u16)) + ser_u16_seq(c1.interfaces@)) + ser_u16(c1.fields@.len() as u16)) + ser_field_seq(c1.fields@)) + ser_u16(c1.methods@.len() as u16)) + ser_method_seq(c1.methods@)) + ser_u16(c1.attributes@.len() as u16)), ser_attr_seq(c1.attributes@), q1_16);
    vstd::seq_lib::lemma_concat_associative((((((((((((((ser_u32(c1.magic) + ser_u16(c1.minor_version)) + ser_u16(c1.major_version)) + ser_u16(c1.constant_pool_count)) + ser_cp_seq(c1.constant_pool@.drop_first())) + ser_u16(c1.access_flags)) + ser_u16(c1.this_class)) + ser_u16(c1.super_class)) + ser_u16(c1.interfaces@.len() as u16)) + ser_u16_seq(c1.interfaces@)) + ser_u16(c1.fields@.len() as u16)) + ser_field_seq(c1.fields@)) + ser_u16(c1.methods@.len() as u16)) + ser_method_seq(c1.methods@)), ser_u16(c1.attributes@.len() as u16), q1_15);
    vstd::seq_lib::lemma_concat_associative(((((((((((((ser_u32(c1.magic) + ser_u16(c1.minor_version)) + ser_u16(c1.major_version)) + ser_u16(c1.constant_pool_count)) + ser_cp_seq(c1.constant_pool@.drop_first())) + ser_u16(c1.access_flags)) + ser_u16(c1.this_class)) + ser_u16(c1.super_class)) + ser_u16(c1.interfaces@.len() as u16)) + ser_u16_seq(c1.interfaces@)) + ser_u16(c1.fields@.len() as u16)) + ser_field_seq(c1.fields@)) + ser_u16(c1.methods@.len() as u16)), ser_method_seq(c1.methods@), q1_14);
    vstd::seq_lib::lemma_concat_associative((((((((((((ser_u32(c1.magic) + ser_u16(c1.minor_version)) + ser_u16(c1.major_version)) + ser_u16(c1.constant_pool_count)) + ser_cp_seq(c1.constant_pool@.drop_first())) + ser_u16(c1.access_flags)) + ser_u16(c1.this_class)) + ser_u16(c1.super_class)) + ser_u16(c1.interfaces@.len() as u16)) + ser_u16_seq(c1.interfaces@)) + ser_u16(c1.fields@.len() as u16)) + ser_field_seq(c1.fields@)), ser_u16(c1.methods@.len() as u16), q1_13);
    vstd::seq_lib::lemma_concat_associative(((((((((((ser_u32(c1.magic) + ser_u16(c1.minor_version)) + ser_u16(c1.major_version)) + ser_u16(c1.constant_pool_count)) + ser_cp_seq(c1.constant_pool@.drop_first())) + ser_u16(c1.access_flags)) + ser_u16(c1.this_class)) + ser_u16(c1.super_class)) + ser_u16(c1.interfaces@.len() as u16)) + ser_u16_seq(c1.interfaces@)) + ser_u16(c1.fields@.len() as u16)), ser_field_seq(c1.fields@), q1_12);
    vstd::seq_lib::lemma_concat_associative((((((((((ser_u32(c1.magic) + ser_u16(c1.minor_version)) + ser_u16(c1.major_version)) + ser_u16(c1.constant_pool_count)) + ser_cp_seq(c1.constant_pool@.drop_first())) + ser_u16(c1.access_flags)) + ser_u16(c1.this_class)) + ser_u16(c1.super_class)) + ser_u16(c1.interfaces@.len() as u16)) + ser_u16_seq(c1.interfaces@)), ser_u16(c1.fields@.len() as u16), q1_11);
    vstd::seq_lib::lemma_concat_associative(((((((((ser_u32(c1.magic) + ser_u16(c1.minor_version)) + ser_u16(c1.major_version)) + ser_u16(c1.constant_pool_count)) + ser_cp_seq(c1.constant_pool@.drop_first())) + ser_u16(c1.access_flags)) + ser_u16(c1.this_class)) + ser_u16(c1.super_class)) + ser_u16(c1.interfaces@.len() as u16)), ser_u16_seq(c1.interfaces@), q1_10);
    vstd::seq_lib::lemma_concat_associative((((((((ser_u32(c1.magic) + ser_u16(c1.minor_version)) + ser_u16(c1.major_version)) + ser_u16(c1.constant_pool_count)) + ser_cp_seq(c1.constant_pool@.drop_first())) + ser_u16(c1.access_flags)) + ser_u16(c1.this_class)) + ser_u16(c1.super_class)), ser_u16(c1.interfaces@.len() as u16), q1_9);
    vstd::seq_lib::lemma_concat_associative(((((((ser_u32(c1.magic) + ser_u16(c1.minor_version)) + ser_u16(c1.major_version)) + ser_u16(c1.constant_pool_count)) + ser_cp_seq(c1.constant_pool@.drop_first())) + ser_u16(c1.access_flags)) + ser_u16(c1.this_class)), ser_u16(c1.super_class), q1_8);
    vstd::seq_lib::lemma_concat_associative((((((ser_u32(c1.magic) + ser_u16(c1.minor_version)) + ser_u16(c1.major_version)) + ser_u16(c1.constant_pool_count)) + ser_cp_seq(c1.constant_pool@.drop_first())) + ser_u16(c1.access_flags)), ser_u16(c1.this_class), q1_7);
    vstd::seq_lib::lemma_concat_associative(((((ser_u32(c1.magic) + ser_u16(c1.minor_version)) + ser_u16(c1.major_version)) + ser_u16(c1.constant_pool_count)) + ser_cp_seq(c1.constant_pool@.drop_first())), ser_u16(c1.access_flags), q1_6);
    vstd::seq_lib::lemma_concat_associative((((ser_u32(c1.magic) + ser_u16(c1.minor_version)) + ser_u16(c1.major_version)) + ser_u16(c1.constant_pool_count)), ser_cp_seq(c1.constant_pool@.drop_first()), q1_5);
    vstd::seq_lib::lemma_concat_associative(((ser_u32(c1.magic) + ser_u16(c1.minor_version)) + ser_u16(c1.major_version)), ser_u16(c1.constant_pool_count), q1_4);
    vstd::seq_lib::lemma_concat_associative((ser_u32(c1.magic) + ser_u16(c1.minor_version)), ser_u16(c1.major_version), q1_3);
    vstd::seq_lib::lemma_concat_associative(ser_u32(c1.magic), ser_u16(c1.minor_version), q1_2);
    assert(ser_class_file(c1) + s1 == ser_u32(c1.magic) + q1_1);
    vstd::seq_lib::lemma_concat_associative(((((((((((((((ser_u32(c2.magic) + ser_u16(c2.minor_version)) + ser_u16(c2.major_version)) + ser_u16(c2.constant_pool_count)) + ser_cp_seq(c2.constant_pool@.drop_first())) + ser_u16(c2.access_flags)) + ser_u16(c2.this_class)) + ser_u16(c2.super_class)) + ser_u16(c2.interfaces@.len() as u16)) + ser_u16_seq(c2.interfaces@)) + ser_u16(c2.fields@.len() as u16)) + ser_field_seq(c2.fields@)) + ser_u16(c2.methods@.len() as u16)) + ser_method_seq(c2.methods@)) + ser_u16(c2.attributes@.len() as u16)), ser_attr_seq(c2.attributes@), q2_16);
    vstd::seq_lib::lemma_concat_associative((((((((((((((ser_u32(c2.magic) + ser_u16(c2.minor_version)) + ser_u16(c2.major_version)) + ser_u16(c2.constant_pool_count)) + ser_cp_seq(c2.constant_pool@.drop_first())) + ser_u16(c2.access_flags)) + ser_u16(c2.this_class)) + ser_u16(c2.super_class)) + ser_u16(c2.interfaces@.len() as u16)) + ser_u16_seq(c2.interfaces@)) + ser_u16(c2.fields@.len() as u16)) + ser_field_seq(c2.fields@)) + ser_u16(c2.methods@.len() as u16)) + ser_method_seq(c2.methods@)), ser_u16(c2.attributes@.len() as u16), q2_15);
    vstd::seq_lib::lemma_concat_associative(((((((((((((ser_u32(c2.magic) + ser_u16(c2.minor_version)) + ser_u16(c2.major_version)) + ser_u16(c2.constant_pool_count)) + ser_cp_seq(c2.constant_pool@.drop_first())) + ser_u16(c2.access_flags)) + ser_u16(c2.this_class)) + ser_u16(c2.super_class)) + ser_u16(c2.interfaces@.len() as u16)) + ser_u16_seq(c2.interfaces@)) + ser_u16(c2.fields@.len() as u16)) + ser_field_seq(c2.fields@)) + ser_u16(c2.methods@.len() as u16)), ser_method_seq(c2.methods@), q2_14);
    vstd::seq_lib::lemma_concat_associative((((((((((((ser_u32(c2.magic) + ser_u16(c2.minor_version)) + ser_u16(c2.major_version)) + ser_u16(c2.constant_pool_count)) + ser_cp_seq(c2.constant_pool@.drop_first())) + ser_u16(c2.access_flags)) + ser_u16(c2.this_class)) + ser_u16(c2.super_class)) + ser_u16(c2.interfaces@.len() as u16)) + ser_u16_seq(c2.interfaces@)) + ser_u16(c2.fields@.len() as u16)) + ser_field_seq(c2.fields@)), ser_u16(c2.methods@.len() as u16), q2_13);
    vstd::seq_lib::lemma_concat_associative(((((((((((ser_u32(c2.magic) + ser_u16(c2.minor_version)) + ser_u16(c2.major_version)) + ser_u16(c2.constant_pool_count)) + ser_cp_seq(c2.constant_pool@.drop_first())) + ser_u16(c2.access_flags)) + ser_u16(c2.this_class)) + ser_u16(c2.super_class)) + ser_u16(c2.interfaces@.len() as u16)) + ser_u16_seq(c2.interfaces@)) + ser_u16(c2.fields@.len() as u16)), ser_field_seq(c2.fields@), q2_12);
    vstd::seq_lib::lemma_concat_associative((((((((((ser_u32(c2.magic) + ser_u16(c2.minor_version)) + ser_u16(c2.major_version)) + ser_u16(c2.constant_pool_count)) + ser_cp_seq(c2.constant_pool@.drop_first())) + ser_u16(c2.access_flags)) + ser_u16(c2.this_class)) + ser_u16(c2.super_class)) + ser_u16(c2.interfaces@.len() as u16)) + ser_u16_seq(c2.interfaces@)), ser_u16(c2.fields@.len() as u16), q2_11);
    vstd::seq_lib::lemma_concat_associative(((((((((ser_u32(c2.magic) + ser_u16(c2.minor_version)) + ser_u16(c2.major_version)) + ser_u16(c2.constant_pool_count)) + ser_cp_seq(c2.constant_pool@.drop_first())) + ser_u16(c2.access_flags)) + ser_u16(c2.this_class)) + ser_u16(c2.super_class)) + ser_u16(c2.interfaces@.len() as u16)), ser_u16_seq(c2.interfaces@), q2_10);
    vstd::seq_lib::lemma_concat_associative((((((((ser_u32(c2.magic) + ser_u16(c2.minor_version)) + ser_u16(c2.major_version)) + ser_u16(c2.constant_pool_count)) + ser_cp_seq(c2.constant_pool@.drop_first())) + ser_u16(c2.access_flags)) + ser_u16(c2.this_class)) + ser_u16(c2.super_class)), ser_u16(c2.interfaces@.len() as u16), q2_9);
    vstd::seq_lib::lemma_concat_associative(((((((ser_u32(c2.magic) + ser_u16(c2.minor_version)) + ser_u16(c2.major_version)) + ser_u16(c2.constant_pool_count)) + ser_cp_seq(c2.constant_pool@.drop_first())) + ser_u16(c2.access_flags)) + ser_u16(c2.this_class)), ser_u16(c2.super_class), q2_8);
    vstd::seq_lib::lemma_concat_associative((((((ser_u32(c2.magic) + ser_u16(c2.minor_version)) + ser_u16(c2.major_version)) + ser_u16(c2.constant_pool_count)) + ser_cp_seq(c2.constant_pool@.drop_first())) + ser_u16(c2.access_flags)), ser_u16(c2.this_class), q2_7);
    vstd::seq_lib::lemma_concat_associative(((((ser_u32(c2.magic) + ser_u16(c2.minor_version)) + ser_u16(c2.major_version)) + ser_u16(c2.constant_pool_count)) + ser_cp_seq(c2.constant_pool@.drop_first())), ser_u16(c2.access_flags), q2_6);
    vstd::seq_lib::lemma_concat_associative((((ser_u32(c2.magic) + ser_u16(c2.minor_version)) + ser_u16(c2.major_version)) + ser_u16(c2.constant_pool_count)), ser_cp_seq(c2.constant_pool@.drop_first()), q2_5);
    vstd::seq_lib::lemma_concat_associative(((ser_u32(c2.magic) + ser_u16(c2.minor_version)) + ser_u16(c2.major_version)), ser_u16(c2.constant_pool_count), q2_4);
    vstd::seq_lib::lemma_concat_associative((ser_u32(c2.magic) + ser_u16(c2.minor_version)), ser_u16(c2.major_version), q2_3);
    vstd::seq_lib::lemma_concat_associative(ser_u32(c2.magic), ser_u16(c2.minor_version), q2_2);
    assert(ser_class_file(c2) + s2 == ser_u32(c2.magic) + q2_1);
    lemma_u32_unamb(c1.magic, c2.magic, q1_1, q2_1);
    lemma_u16_unamb(c1.minor_version, c2.minor_version, q1_2, q2_2);
    lemma_u16_unamb(c1.major_version, c2.major_version, q1_3, q2_3);
    lemma_u16_unamb(c1.constant_pool_count, c2.constant_pool_count, q1_4, q2_4);
    assert(c1.constant_pool@.len() == c2.constant_pool@.len());
    assert(c1.constant_pool@.drop_first().len() == c2.constant_pool@.drop_first().len());
    assert forall|i: int| 1 <= i < c1.constant_pool@.len() implies wf_cp_entry(
        #[trigger] c1.constant_pool@.drop_first()[i - 1],
    ) by {
        assert(c1.constant_pool@.drop_first()[i - 1] == c1.constant_pool@[i]);
    }
    assert forall|i: int| 1 <= i < c2.constant_pool@.len() implies wf_cp_entry(
        #[trigger] c2.constant_pool@.drop_first()[i - 1],
    ) by {
        assert(c2.constant_pool@.drop_first()[i - 1] == c2.constant_pool@[i]);
    }
    lemma_cp_seq_unamb(c1.constant_pool@.drop_first(), c2.constant_pool@.drop_first(), q1_5, q2_5);
    assert(pools_text_like(c1.constant_pool@, c2.constant_pool@)) by {
        assert forall|i: int| 0 <= i < c1.constant_pool@.len() implies cp_text_like(
            #[trigger] c1.constant_pool@[i],
            #[trigger] c2.constant_pool@[i],
        ) by {
            if i > 0 {
                assert(c1.constant_pool@.drop_first()[i - 1] == c1.constant_pool@[i]);
                assert(c2.constant_pool@.drop_first()[i - 1] == c2.constant_pool@[i]);
            }
        }
    }
    lemma_u16_unamb(c1.access_flags, c2.access_flags, q1_6, q2_6);
    lemma_u16_unamb(c1.this_class, c2.this_class, q1_7, q2_7);
    lemma_u16_unamb(c1.super_class, c2.super_class, q1_8, q2_8);
    lemma_u16_unamb(c1.interfaces@.len() as u16, c2.interfaces@.len() as u16, q1_9, q2_9);
    assert(c1.interfaces@.len() == c2.interfaces@.len());
    lemma_u16_seq_unamb(c1.interfaces@, c2.interfaces@, q1_10, q2_10);
    lemma_u16_unamb(c1.fields@.len() as u16, c2.fields@.len() as u16, q1_11, q2_11);
    assert(c1.fields@.len() == c2.fields@.len());
    lemma_field_seq_unamb(c1.fields@, c2.fields@, c1.constant_pool@, c2.constant_pool@, q1_12, q2_12);
    lemma_u16_unamb(c1.methods@.len() as u16, c2.methods@.len() as u16, q1_13, q2_13);
    assert(c1.methods@.len() == c2.methods@.len());
    lemma_method_seq_unamb(c1.methods@, c2.methods@, c1.constant_pool@, c2.constant_pool@, q1_14, q2_14);
    lemma_u16_unamb(c1.attributes@.len() as u16, c2.attributes@.len() as u16, q1_15, q2_15);
    assert(c1.attributes@.len() == c2.attributes@.len());
    lemma_attr_seq_unamb(c1.attributes@, c2.attributes@, c1.constant_pool@, c2.constant_pool@, q1_16, q2_16);
    assert(ser_class_file(c1) == ser_class_file(c2));
}

/// Cutting a well-formed input short never yields a different class file:
/// whenever one well-formed, name-resolving class file occupies an initial
/// segment of a byte run and another is decoded from the run cut off at any
/// point, the two serialize to the very same bytes, so the cut must already
/// have covered the whole file.  Equivalently, truncating an input strictly
/// before its class file's end leaves nothing that decodes, and the decoder,
/// whose contract says every success returns such a structure over a prefix
/// of its input, can only fail there.
pub proof fn lemma_truncation_never_decodes(c1: ClassFile, c2: ClassFile, data: Seq<u8>, m: int)
    requires
        wf_class_file(c1),
        class_file_resolves(c1),
        wf_class_file(c2),
        class_file_resolves(c2),
        is_prefix_of(ser_class_file(c1), data),
        0 <= m <= data.len(),
        is_prefix_of(ser_class_file(c2), data.subrange(0, m)),
    ensures
        ser_class_file(c2) == ser_class_file(c1),
        m >= ser_class_file(c1).len(),
{
    let a = ser_class_file(c1);
    let b = ser_class_file(c2);
    assert(b.len() <= m);
    assert forall|i: int| 0 <= i < a.len() implies a[i] == data[i] by {
        assert(data.subrange(0, a.len() as int)[i] == data[i]);
    }
    assert forall|i: int| 0 <= i < b.len() implies b[i] == data[i] by {
        assert(data.subrange(0, m)[i] == data[i]);
        assert(data.subrange(0, m).subrange(0, b.len() as int)[i] == data.subrange(0, m)[i]);
    }
    let sa = data.subrange(a.len() as int, data.len() as int);
    let sb = data.subrange(b.len() as int, data.len() as int);
    assert(a + sa =~= data);
    assert(b + sb =~= data);
    lemma_class_file_unamb(c1, c2, sa, sb);
}





} // verus!
