//! Serialization of decoded values, as specification.
//!
//! The format fixes, for every record, exactly which bytes represent it.
//! These functions write that down: `ser_x(v)` is the byte run that encodes
//! `v`, and `wf_x(v)` says that `v` could have come off the wire at all (its
//! counted lists fit their count fields, its tag bytes lie in their ranges,
//! its text entries decode).  The decoder's contracts promise that a decoded
//! value is well formed and serializes to exactly the bytes consumed, so
//! decoding a well-formed input and re-encoding it reproduces it byte for
//! byte.

use crate::parser::{
    AttributeAnnotationsElementValue, AttributeAnnotationsElementValuePair,
    AttributeBootstrapMethodsEntry, AttributeInfo, AttributeInnerClassesClass,
    AttributeLineNumberTableEntry, AttributeLocalVariableTableEntry,
    AttributeLocalVariableTypeTableEntry, AttributeMethodParametersEntry, AttributeModule,
    AttributeModuleExportsEntry, AttributeModuleOpensEntry, AttributeModuleProvidesEntry,
    AttributeModuleRequiresEntry, AttributeRecordComponentInfo, AttributeRuntimeAnnotationsEntry,
    AttributeRuntimeTypeAnnotationsEntry, AttributeRuntimeTypeAnnotationsEntryTargetInfo,
    AttributeRuntimeVisibleTypeAnnotationsEntryTargetPathEntry, ClassFile, CpInfo,
    ExceptionTableEntry, FieldInfo, MethodInfo, StackMapFrame, VerificationTypeInfo,
    mh_kind_value,
};
use crate::reader::{ser_u16, ser_u32};
use crate::util::mutf8_decode;
use vstd::prelude::*;

verus! {

/// Whether `p` is an initial segment of `s`.
pub open spec fn is_prefix_of(p: Seq<u8>, s: Seq<u8>) -> bool {
    p.len() <= s.len() && p == s.subrange(0, p.len() as int)
}

/// The concatenation of `f` applied to each element of `l`, in order.
pub open spec fn ser_seq<T>(l: Seq<T>, f: spec_fn(T) -> Seq<u8>) -> Seq<u8>
    decreases l.len(),
{
    if l.len() == 0 {
        Seq::empty()
    } else {
        f(l[0]) + ser_seq(l.drop_first(), f)
    }
}

/// Appending an element appends its serialization.
pub proof fn lemma_ser_seq_snoc<T>(l: Seq<T>, x: T, f: spec_fn(T) -> Seq<u8>)
    ensures
        ser_seq(l.push(x), f) == ser_seq(l, f) + f(x),
    decreases l.len(),
{
    if l.len() == 0 {
        assert(l.push(x)[0] == x);
        assert(l.push(x).drop_first() =~= Seq::<T>::empty());
        assert(ser_seq(l.push(x).drop_first(), f) == Seq::<u8>::empty());
        assert(ser_seq(l.push(x), f) =~= ser_seq(l, f) + f(x));
    } else {
        assert(l.push(x)[0] == l[0]);
        assert(l.push(x).drop_first() =~= l.drop_first().push(x));
        lemma_ser_seq_snoc(l.drop_first(), x, f);
        assert(ser_seq(l.push(x), f) =~= ser_seq(l, f) + f(x));
    }
}

/// The bytes of one constant-pool entry: its tag byte and its payload.
pub open spec fn ser_cp_entry(e: CpInfo) -> Seq<u8> {
    match e {
        CpInfo::Utf8(x) => seq![1u8] + ser_u16(x.bytes@.len() as u16) + x.bytes@,
        CpInfo::Integer(x) => seq![3u8] + x.bytes@,
        CpInfo::Float(x) => seq![4u8] + x.bytes@,
        CpInfo::Long(x) => seq![5u8] + ser_u32(x.high_bytes) + ser_u32(x.low_bytes),
        CpInfo::Double(x) => seq![6u8] + ser_u32(x.high_bytes) + ser_u32(x.low_bytes),
        CpInfo::Class(x) => seq![7u8] + ser_u16(x.name_index),
        CpInfo::String(x) => seq![8u8] + ser_u16(x.string_index),
        CpInfo::FieldRef(x) => seq![9u8] + ser_u16(x.class_index) + ser_u16(
            x.name_and_type_index,
        ),
        CpInfo::MethodRef(x) => seq![10u8] + ser_u16(x.class_index) + ser_u16(
            x.name_and_type_index,
        ),
        CpInfo::InterfaceMethodRef(x) => seq![11u8] + ser_u16(x.class_index) + ser_u16(
            x.name_and_type_index,
        ),
        CpInfo::NameAndType(x) => seq![12u8] + ser_u16(x.name_index) + ser_u16(
            x.descriptor_index,
        ),
        CpInfo::MethodHandle(x) => seq![15u8, mh_kind_value(x.reference_kind)] + ser_u16(
            x.reference_index,
        ),
        CpInfo::MethodType(x) => seq![16u8] + ser_u16(x.descriptor_index),
        CpInfo::Dynamic(x) => seq![17u8] + ser_u16(x.bootstrap_method_attr_index) + ser_u16(
            x.name_and_type_index,
        ),
        CpInfo::InvokeDynamic(x) => seq![18u8] + ser_u16(x.bootstrap_method_attr_index) + ser_u16(
            x.name_and_type_index,
        ),
        CpInfo::Module(x) => seq![19u8] + ser_u16(x.name_index),
        CpInfo::Package(x) => seq![20u8] + ser_u16(x.name_index),
    }
}

/// Whether a constant-pool entry could have come off the wire: a text entry's
/// byte run fits its two-byte count and decodes to its text.
pub open spec fn wf_cp_entry(e: CpInfo) -> bool {
    match e {
        CpInfo::Utf8(x) => x.bytes@.len() <= 0xFFFF && mutf8_decode(x.bytes@, 0) == Ok::<
            Seq<char>,
            crate::util::MalformedModifiedUtf8,
        >(x.converted@),
        _ => true,
    }
}

/// The bytes of the constant pool's entries: entry 0 is the placeholder and
/// is not on the wire.
pub open spec fn ser_cp_seq(l: Seq<CpInfo>) -> Seq<u8> {
    ser_seq(l, |e: CpInfo| ser_cp_entry(e))
}

/// The bytes of a run of big-endian two-byte integers.
pub open spec fn ser_u16_seq(l: Seq<u16>) -> Seq<u8> {
    ser_seq(l, |v: u16| ser_u16(v))
}

/// The bytes of one exception-table row.
pub open spec fn ser_exception_entry(e: ExceptionTableEntry) -> Seq<u8> {
    ser_u16(e.start_pc) + ser_u16(e.end_pc) + ser_u16(e.handler_pc) + ser_u16(e.catch_type)
}

/// The bytes of an exception table.
pub open spec fn ser_exception_seq(l: Seq<ExceptionTableEntry>) -> Seq<u8> {
    ser_seq(l, |e: ExceptionTableEntry| ser_exception_entry(e))
}

/// The bytes of one verification-type descriptor.
pub open spec fn ser_vtype(v: VerificationTypeInfo) -> Seq<u8> {
    match v {
        VerificationTypeInfo::TopVariable(_) => seq![0u8],
        VerificationTypeInfo::IntegerVariable(_) => seq![1u8],
        VerificationTypeInfo::FloatVariable(_) => seq![2u8],
        VerificationTypeInfo::DoubleVariable(_) => seq![3u8],
        VerificationTypeInfo::LongVariable(_) => seq![4u8],
        VerificationTypeInfo::NullVariable(_) => seq![5u8],
        VerificationTypeInfo::UninitializedThisVariable(_) => seq![6u8],
        VerificationTypeInfo::ObjectVariable(x) => seq![7u8] + ser_u16(x.cpool_index),
        VerificationTypeInfo::UninitializedVariable(x) => seq![8u8] + ser_u16(x.offset),
    }
}

/// The bytes of a run of verification-type descriptors.
pub open spec fn ser_vtype_seq(l: Seq<VerificationTypeInfo>) -> Seq<u8> {
    ser_seq(l, |v: VerificationTypeInfo| ser_vtype(v))
}

/// The bytes of one stack-map frame.
pub open spec fn ser_frame(f: StackMapFrame) -> Seq<u8> {
    match f {
        StackMapFrame::SameFrame(x) => seq![x.frame_type],
        StackMapFrame::SameLocals1StackItemFrame(x) => seq![x.frame_type] + ser_vtype(
            x.stack_entry,
        ),
        StackMapFrame::SameLocals1StackItemFrameExtended(x) => seq![x.frame_type] + ser_u16(
            x.offset_delta,
        ) + ser_vtype(x.stack_entry),
        StackMapFrame::ChopFrame(x) => seq![x.frame_type] + ser_u16(x.offset_delta),
        StackMapFrame::SameFrameExtended(x) => seq![x.frame_type] + ser_u16(x.offset_delta),
        StackMapFrame::AppendFrame(x) => seq![x.frame_type] + ser_u16(x.offset_delta)
            + ser_vtype_seq(x.locals@),
        StackMapFrame::FullFrame(x) => seq![x.frame_type] + ser_u16(x.offset_delta) + ser_u16(
            x.locals@.len() as u16,
        ) + ser_vtype_seq(x.locals@) + ser_u16(x.stack@.len() as u16) + ser_vtype_seq(x.stack@),
    }
}

/// Whether a stack-map frame's leading byte lies in the range that selects
/// its kind, and its counted lists fit.
pub open spec fn wf_frame(f: StackMapFrame) -> bool {
    match f {
        StackMapFrame::SameFrame(x) => x.frame_type <= 63,
        StackMapFrame::SameLocals1StackItemFrame(x) => 64 <= x.frame_type <= 127,
        StackMapFrame::SameLocals1StackItemFrameExtended(x) => x.frame_type == 247,
        StackMapFrame::ChopFrame(x) => 248 <= x.frame_type <= 250,
        StackMapFrame::SameFrameExtended(x) => x.frame_type == 251,
        StackMapFrame::AppendFrame(x) => 252 <= x.frame_type <= 254 && x.locals@.len()
            == x.frame_type - 251,
        StackMapFrame::FullFrame(x) => x.frame_type == 255 && x.locals@.len() <= 0xFFFF
            && x.stack@.len() <= 0xFFFF,
    }
}

/// The bytes of a run of stack-map frames.
pub open spec fn ser_frame_seq(l: Seq<StackMapFrame>) -> Seq<u8> {
    ser_seq(l, |f: StackMapFrame| ser_frame(f))
}

/// Whether every frame of a run is well formed.
pub open spec fn wf_frame_seq(l: Seq<StackMapFrame>) -> bool {
    forall|i: int| 0 <= i < l.len() ==> wf_frame(#[trigger] l[i])
}

/// The bytes of one row of the InnerClasses attribute.
pub open spec fn ser_inner_class(e: AttributeInnerClassesClass) -> Seq<u8> {
    ser_u16(e.inner_class_info_index) + ser_u16(e.outer_class_info_index) + ser_u16(
        e.inner_name_index,
    ) + ser_u16(e.inner_class_access_flags)
}

/// The bytes of the InnerClasses rows.
pub open spec fn ser_inner_class_seq(l: Seq<AttributeInnerClassesClass>) -> Seq<u8> {
    ser_seq(l, |e: AttributeInnerClassesClass| ser_inner_class(e))
}

/// The bytes of one line-number row.
pub open spec fn ser_line_number_entry(e: AttributeLineNumberTableEntry) -> Seq<u8> {
    ser_u16(e.start_pc) + ser_u16(e.line_number)
}

/// The bytes of the line-number rows.
pub open spec fn ser_line_number_seq(l: Seq<AttributeLineNumberTableEntry>) -> Seq<u8> {
    ser_seq(l, |e: AttributeLineNumberTableEntry| ser_line_number_entry(e))
}

/// The bytes of one local-variable row.
pub open spec fn ser_local_var_entry(e: AttributeLocalVariableTableEntry) -> Seq<u8> {
    ser_u16(e.start_pc) + ser_u16(e.length) + ser_u16(e.name_index) + ser_u16(e.descriptor_index)
        + ser_u16(e.index)
}

/// The bytes of the local-variable rows.
pub open spec fn ser_local_var_seq(l: Seq<AttributeLocalVariableTableEntry>) -> Seq<u8> {
    ser_seq(l, |e: AttributeLocalVariableTableEntry| ser_local_var_entry(e))
}

/// The bytes of one local-variable type row.
pub open spec fn ser_local_var_type_entry(e: AttributeLocalVariableTypeTableEntry) -> Seq<u8> {
    ser_u16(e.start_pc) + ser_u16(e.length) + ser_u16(e.name_index) + ser_u16(e.signature_index)
        + ser_u16(e.index)
}

/// The bytes of the local-variable type rows.
pub open spec fn ser_local_var_type_seq(l: Seq<AttributeLocalVariableTypeTableEntry>) -> Seq<u8> {
    ser_seq(l, |e: AttributeLocalVariableTypeTableEntry| ser_local_var_type_entry(e))
}

/// The bytes of one bootstrap-method row: its method handle and its counted
/// argument list.
pub open spec fn ser_bootstrap_entry(e: AttributeBootstrapMethodsEntry) -> Seq<u8> {
    ser_u16(e.bootstrap_method_ref) + ser_u16(e.bootstrap_arguments@.len() as u16) + ser_u16_seq(
        e.bootstrap_arguments@,
    )
}

/// The bytes of the bootstrap-method rows.
pub open spec fn ser_bootstrap_seq(l: Seq<AttributeBootstrapMethodsEntry>) -> Seq<u8> {
    ser_seq(l, |e: AttributeBootstrapMethodsEntry| ser_bootstrap_entry(e))
}

/// The bytes of one method-parameter row.
pub open spec fn ser_method_param(e: AttributeMethodParametersEntry) -> Seq<u8> {
    ser_u16(e.name_index) + ser_u16(e.access_flags)
}

/// The bytes of the method-parameter rows.
pub open spec fn ser_method_param_seq(l: Seq<AttributeMethodParametersEntry>) -> Seq<u8> {
    ser_seq(l, |e: AttributeMethodParametersEntry| ser_method_param(e))
}

/// The bytes of one requires row of a Module attribute.
pub open spec fn ser_module_requires(e: AttributeModuleRequiresEntry) -> Seq<u8> {
    ser_u16(e.requires_index) + ser_u16(e.requires_flags) + ser_u16(e.requires_version_index)
}

/// The bytes of the requires rows.
pub open spec fn ser_module_requires_seq(l: Seq<AttributeModuleRequiresEntry>) -> Seq<u8> {
    ser_seq(l, |e: AttributeModuleRequiresEntry| ser_module_requires(e))
}

/// The bytes of one exports row, with its counted exports-to list.
pub open spec fn ser_module_exports(e: AttributeModuleExportsEntry) -> Seq<u8> {
    ser_u16(e.exports_index) + ser_u16(e.exports_flags) + ser_u16(e.exports_to_index@.len() as u16)
        + ser_u16_seq(e.exports_to_index@)
}

/// The bytes of the exports rows.
pub open spec fn ser_module_exports_seq(l: Seq<AttributeModuleExportsEntry>) -> Seq<u8> {
    ser_seq(l, |e: AttributeModuleExportsEntry| ser_module_exports(e))
}

/// The bytes of one opens row, with its counted opens-to list.
pub open spec fn ser_module_opens(e: AttributeModuleOpensEntry) -> Seq<u8> {
    ser_u16(e.opens_index) + ser_u16(e.opens_flags) + ser_u16(e.opens_to_index@.len() as u16)
        + ser_u16_seq(e.opens_to_index@)
}

/// The bytes of the opens rows.
pub open spec fn ser_module_opens_seq(l: Seq<AttributeModuleOpensEntry>) -> Seq<u8> {
    ser_seq(l, |e: AttributeModuleOpensEntry| ser_module_opens(e))
}

/// The bytes of one provides row, with its counted provides-with list.
pub open spec fn ser_module_provides(e: AttributeModuleProvidesEntry) -> Seq<u8> {
    ser_u16(e.provides_index) + ser_u16(e.provides_with_index@.len() as u16) + ser_u16_seq(
        e.provides_with_index@,
    )
}

/// The bytes of the provides rows.
pub open spec fn ser_module_provides_seq(l: Seq<AttributeModuleProvidesEntry>) -> Seq<u8> {
    ser_seq(l, |e: AttributeModuleProvidesEntry| ser_module_provides(e))
}

/// Whether a Module attribute's counted lists all fit their count fields.
pub open spec fn wf_module(m: AttributeModule) -> bool {
    &&& m.requires@.len() <= 0xFFFF
    &&& m.exports@.len() <= 0xFFFF
    &&& (forall|i: int|
        0 <= i < m.exports@.len() ==> (#[trigger] m.exports@[i]).exports_to_index@.len() <= 0xFFFF)
    &&& m.opens@.len() <= 0xFFFF
    &&& (forall|i: int|
        0 <= i < m.opens@.len() ==> (#[trigger] m.opens@[i]).opens_to_index@.len() <= 0xFFFF)
    &&& m.uses_index@.len() <= 0xFFFF
    &&& m.provides@.len() <= 0xFFFF
    &&& (forall|i: int|
        0 <= i < m.provides@.len() ==> (#[trigger] m.provides@[i]).provides_with_index@.len()
            <= 0xFFFF)
}

/// The bytes of one row of a local-variable target's table.
pub open spec fn ser_localvar_target_entry(
    e: crate::parser::AttributeRuntimeTypeAnnotationsEntryLocalvarTargetTableEntry,
) -> Seq<u8> {
    ser_u16(e.start_pc) + ser_u16(e.length) + ser_u16(e.index)
}

/// The bytes of a local-variable target's table.
pub open spec fn ser_localvar_target_seq(
    l: Seq<crate::parser::AttributeRuntimeTypeAnnotationsEntryLocalvarTargetTableEntry>,
) -> Seq<u8> {
    ser_seq(
        l,
        |e: crate::parser::AttributeRuntimeTypeAnnotationsEntryLocalvarTargetTableEntry|
            ser_localvar_target_entry(e),
    )
}

/// The bytes of one type-path step.
pub open spec fn ser_type_path_entry(
    e: AttributeRuntimeVisibleTypeAnnotationsEntryTargetPathEntry,
) -> Seq<u8> {
    seq![e.type_path_kind, e.type_argument_index]
}

/// The bytes of a type path.
pub open spec fn ser_type_path_seq(
    l: Seq<AttributeRuntimeVisibleTypeAnnotationsEntryTargetPathEntry>,
) -> Seq<u8> {
    ser_seq(
        l,
        |e: AttributeRuntimeVisibleTypeAnnotationsEntryTargetPathEntry| ser_type_path_entry(e),
    )
}

/// The bytes of a target-info record.  The target-type byte that selects the
/// shape is serialized by the enclosing type annotation.
pub open spec fn ser_target_info(t: AttributeRuntimeTypeAnnotationsEntryTargetInfo) -> Seq<u8> {
    match t {
        AttributeRuntimeTypeAnnotationsEntryTargetInfo::TypeParameterTarget(x) => seq![
            x.type_parameter_index,
        ],
        AttributeRuntimeTypeAnnotationsEntryTargetInfo::SuperTypeTarget(x) => ser_u16(
            x.supertype_index,
        ),
        AttributeRuntimeTypeAnnotationsEntryTargetInfo::TypeParameterBoundTarget(x) => seq![
            x.type_parameter_index,
            x.bound_index,
        ],
        AttributeRuntimeTypeAnnotationsEntryTargetInfo::EmptyTarget(_) => Seq::empty(),
        AttributeRuntimeTypeAnnotationsEntryTargetInfo::FormalParameterTarget(x) => seq![
            x.formal_parameter_index,
        ],
        AttributeRuntimeTypeAnnotationsEntryTargetInfo::ThrowsTarget(x) => ser_u16(
            x.throws_type_index,
        ),
        AttributeRuntimeTypeAnnotationsEntryTargetInfo::LocalvarTarget(x) => ser_u16(
            x.table@.len() as u16,
        ) + ser_localvar_target_seq(x.table@),
        AttributeRuntimeTypeAnnotationsEntryTargetInfo::CatchTarget(x) => ser_u16(
            x.exception_table_index,
        ),
        AttributeRuntimeTypeAnnotationsEntryTargetInfo::OffsetTarget(x) => ser_u16(x.offset),
        AttributeRuntimeTypeAnnotationsEntryTargetInfo::TypeArgumentTarget(x) => ser_u16(x.offset)
            + seq![x.type_argument_index],
    }
}

/// Whether the target-type byte lies in the range that selects the stored
/// target-info shape, and the target's own lists fit.
pub open spec fn wf_target_info(
    target_type: u8,
    t: AttributeRuntimeTypeAnnotationsEntryTargetInfo,
) -> bool {
    match t {
        AttributeRuntimeTypeAnnotationsEntryTargetInfo::TypeParameterTarget(_) => target_type
            == 0x00 || target_type == 0x01,
        AttributeRuntimeTypeAnnotationsEntryTargetInfo::SuperTypeTarget(_) => target_type == 0x10,
        AttributeRuntimeTypeAnnotationsEntryTargetInfo::TypeParameterBoundTarget(_) => target_type
            == 0x11 || target_type == 0x12,
        AttributeRuntimeTypeAnnotationsEntryTargetInfo::EmptyTarget(_) => target_type == 0x13
            || target_type == 0x14 || target_type == 0x15,
        AttributeRuntimeTypeAnnotationsEntryTargetInfo::FormalParameterTarget(_) => target_type
            == 0x16,
        AttributeRuntimeTypeAnnotationsEntryTargetInfo::ThrowsTarget(_) => target_type == 0x17,
        AttributeRuntimeTypeAnnotationsEntryTargetInfo::LocalvarTarget(x) => (target_type == 0x40
            || target_type == 0x41) && x.table@.len() <= 0xFFFF,
        AttributeRuntimeTypeAnnotationsEntryTargetInfo::CatchTarget(_) => target_type == 0x42,
        AttributeRuntimeTypeAnnotationsEntryTargetInfo::OffsetTarget(_) => 0x43 <= target_type
            <= 0x46,
        AttributeRuntimeTypeAnnotationsEntryTargetInfo::TypeArgumentTarget(_) => 0x47
            <= target_type <= 0x4B,
    }
}

/// The bytes of one annotation element value: its tag character and payload.
pub open spec fn ser_elem_value(v: AttributeAnnotationsElementValue) -> Seq<u8>
    decreases v,
{
    match v {
        AttributeAnnotationsElementValue::Byte(x) => seq![66u8] + ser_u16(x.const_value_index),
        AttributeAnnotationsElementValue::Char(x) => seq![67u8] + ser_u16(x.const_value_index),
        AttributeAnnotationsElementValue::Double(x) => seq![68u8] + ser_u16(x.const_value_index),
        AttributeAnnotationsElementValue::Float(x) => seq![70u8] + ser_u16(x.const_value_index),
        AttributeAnnotationsElementValue::Int(x) => seq![73u8] + ser_u16(x.const_value_index),
        AttributeAnnotationsElementValue::Long(x) => seq![74u8] + ser_u16(x.const_value_index),
        AttributeAnnotationsElementValue::Short(x) => seq![83u8] + ser_u16(x.const_value_index),
        AttributeAnnotationsElementValue::Boolean(x) => seq![90u8] + ser_u16(x.const_value_index),
        AttributeAnnotationsElementValue::String(x) => seq![115u8] + ser_u16(x.const_value_index),
        AttributeAnnotationsElementValue::EnumClass(x) => seq![101u8] + ser_u16(x.type_name_index)
            + ser_u16(x.const_name_index),
        AttributeAnnotationsElementValue::Class(x) => seq![99u8] + ser_u16(x.class_info_index),
        AttributeAnnotationsElementValue::AnnotationInterface(x) => seq![64u8] + ser_annotation(
            x.annotation_value,
        ),
        AttributeAnnotationsElementValue::ArrayType(x) => seq![91u8] + ser_u16(
            x.values@.len() as u16,
        ) + ser_elem_value_seq(x.values@),
    }
}

/// The bytes of a run of element values.
pub open spec fn ser_elem_value_seq(l: Seq<AttributeAnnotationsElementValue>) -> Seq<u8>
    decreases l,
{
    if l.len() == 0 {
        Seq::empty()
    } else {
        ser_elem_value(l[0]) + ser_elem_value_seq(l.drop_first())
    }
}

/// The bytes of one named element-value pair.
pub open spec fn ser_elem_pair(p: AttributeAnnotationsElementValuePair) -> Seq<u8>
    decreases p,
{
    ser_u16(p.element_name_index) + ser_elem_value(p.element_value)
}

/// The bytes of a run of element-value pairs.
pub open spec fn ser_elem_pair_seq(l: Seq<AttributeAnnotationsElementValuePair>) -> Seq<u8>
    decreases l,
{
    if l.len() == 0 {
        Seq::empty()
    } else {
        ser_elem_pair(l[0]) + ser_elem_pair_seq(l.drop_first())
    }
}

/// The bytes of one annotation: its type and its counted pair list.
pub open spec fn ser_annotation(e: AttributeRuntimeAnnotationsEntry) -> Seq<u8>
    decreases e,
{
    ser_u16(e.type_index) + ser_u16(e.element_value_pairs@.len() as u16) + ser_elem_pair_seq(
        e.element_value_pairs@,
    )
}

/// The bytes of a run of annotations.
pub open spec fn ser_annotation_seq(l: Seq<AttributeRuntimeAnnotationsEntry>) -> Seq<u8>
    decreases l,
{
    if l.len() == 0 {
        Seq::empty()
    } else {
        ser_annotation(l[0]) + ser_annotation_seq(l.drop_first())
    }
}

/// The bytes of per-parameter annotation groups: each group is its two-byte
/// count and its annotations.
pub open spec fn ser_annotation_groups(l: Seq<Vec<AttributeRuntimeAnnotationsEntry>>) -> Seq<u8>
    decreases l,
{
    if l.len() == 0 {
        Seq::empty()
    } else {
        ser_u16(l[0]@.len() as u16) + ser_annotation_seq(l[0]@) + ser_annotation_groups(
            l.drop_first(),
        )
    }
}

/// The bytes of one type annotation: target byte, target info, type path,
/// type index and pair list.
pub open spec fn ser_type_annotation(e: AttributeRuntimeTypeAnnotationsEntry) -> Seq<u8>
    decreases e,
{
    seq![e.target_type] + ser_target_info(e.target_info) + seq![e.target_path@.len() as u8]
        + ser_type_path_seq(e.target_path@) + ser_u16(e.type_index) + ser_u16(
        e.element_value_pairs@.len() as u16,
    ) + ser_elem_pair_seq(e.element_value_pairs@)
}

/// The bytes of a run of type annotations.
pub open spec fn ser_type_annotation_seq(l: Seq<AttributeRuntimeTypeAnnotationsEntry>) -> Seq<u8>
    decreases l,
{
    if l.len() == 0 {
        Seq::empty()
    } else {
        ser_type_annotation(l[0]) + ser_type_annotation_seq(l.drop_first())
    }
}

/// Whether an element value's counted lists fit, recursively.
pub open spec fn wf_elem_value(v: AttributeAnnotationsElementValue) -> bool
    decreases v,
{
    match v {
        AttributeAnnotationsElementValue::AnnotationInterface(x) => wf_annotation(
            x.annotation_value,
        ),
        AttributeAnnotationsElementValue::ArrayType(x) => x.values@.len() <= 0xFFFF
            && wf_elem_value_seq(x.values@),
        _ => true,
    }
}

/// Whether every element value of a run is well formed.
pub open spec fn wf_elem_value_seq(l: Seq<AttributeAnnotationsElementValue>) -> bool
    decreases l,
{
    forall|i: int| 0 <= i < l.len() ==> wf_elem_value(#[trigger] l[i])
}

/// Whether a pair's value is well formed.
pub open spec fn wf_elem_pair(p: AttributeAnnotationsElementValuePair) -> bool
    decreases p,
{
    wf_elem_value(p.element_value)
}

/// Whether every pair of a run is well formed.
pub open spec fn wf_elem_pair_seq(l: Seq<AttributeAnnotationsElementValuePair>) -> bool
    decreases l,
{
    forall|i: int| 0 <= i < l.len() ==> wf_elem_pair(#[trigger] l[i])
}

/// Whether an annotation's pair list fits its count and is well formed.
pub open spec fn wf_annotation(e: AttributeRuntimeAnnotationsEntry) -> bool
    decreases e,
{
    e.element_value_pairs@.len() <= 0xFFFF && wf_elem_pair_seq(e.element_value_pairs@)
}

/// Whether every annotation of a run is well formed.
pub open spec fn wf_annotation_seq(l: Seq<AttributeRuntimeAnnotationsEntry>) -> bool
    decreases l,
{
    forall|i: int| 0 <= i < l.len() ==> wf_annotation(#[trigger] l[i])
}

/// Whether every per-parameter group fits its two-byte count and is well
/// formed.
pub open spec fn wf_annotation_groups(l: Seq<Vec<AttributeRuntimeAnnotationsEntry>>) -> bool
    decreases l,
{
    forall|i: int|
        0 <= i < l.len() ==> (#[trigger] l[i])@.len() <= 0xFFFF && wf_annotation_seq(l[i]@)
}

/// Whether a type annotation's target, path and pairs are well formed and fit
/// their counts.
pub open spec fn wf_type_annotation(e: AttributeRuntimeTypeAnnotationsEntry) -> bool
    decreases e,
{
    &&& wf_target_info(e.target_type, e.target_info)
    &&& e.target_path@.len() <= 0xFF
    &&& e.element_value_pairs@.len() <= 0xFFFF
    &&& wf_elem_pair_seq(e.element_value_pairs@)
}

/// Whether every type annotation of a run is well formed.
pub open spec fn wf_type_annotation_seq(l: Seq<AttributeRuntimeTypeAnnotationsEntry>) -> bool
    decreases l,
{
    forall|i: int| 0 <= i < l.len() ==> wf_type_annotation(#[trigger] l[i])
}

/// The bytes of one attribute: its name index, its declared length, and its
/// variant's payload.
pub open spec fn ser_attr(a: AttributeInfo) -> Seq<u8>
    decreases a,
{
    match a {
        AttributeInfo::ConstantValue(x) => ser_u16(x.attribute_name_index) + ser_u32(
            x.attribute_length,
        ) + ser_u16(x.constantvalue_index),
        AttributeInfo::Code(x) => ser_u16(x.attribute_name_index) + ser_u32(x.attribute_length)
            + ser_u16(x.max_stack) + ser_u16(x.max_locals) + ser_u32(x.code@.len() as u32)
            + x.code@ + ser_u16(x.exception_table@.len() as u16) + ser_exception_seq(
            x.exception_table@,
        ) + ser_u16(x.attributes@.len() as u16) + ser_attr_seq(x.attributes@),
        AttributeInfo::StackMapTable(x) => ser_u16(x.attribute_name_index) + ser_u32(
            x.attribute_length,
        ) + ser_u16(x.entries@.len() as u16) + ser_frame_seq(x.entries@),
        AttributeInfo::Exceptions(x) => ser_u16(x.attribute_name_index) + ser_u32(
            x.attribute_length,
        ) + ser_u16(x.exception_index_table@.len() as u16) + ser_u16_seq(
            x.exception_index_table@,
        ),
        AttributeInfo::InnerClasses(x) => ser_u16(x.attribute_name_index) + ser_u32(
            x.attribute_length,
        ) + ser_u16(x.classes@.len() as u16) + ser_inner_class_seq(x.classes@),
        AttributeInfo::EnclosingMethod(x) => ser_u16(x.attribute_name_index) + ser_u32(
            x.attribute_length,
        ) + ser_u16(x.class_index) + ser_u16(x.method_index),
        AttributeInfo::Synthetic(x) => ser_u16(x.attribute_name_index) + ser_u32(
            x.attribute_length,
        ),
        AttributeInfo::Signature(x) => ser_u16(x.attribute_name_index) + ser_u32(
            x.attribute_length,
        ) + ser_u16(x.signature_index),
        AttributeInfo::SourceFile(x) => ser_u16(x.attribute_name_index) + ser_u32(
            x.attribute_length,
        ) + ser_u16(x.sourcefile_index),
        AttributeInfo::SourceDebugExtension(x) => ser_u16(x.attribute_name_index) + ser_u32(
            x.attribute_length,
        ) + x.debug_extension@,
        AttributeInfo::LineNumberTable(x) => ser_u16(x.attribute_name_index) + ser_u32(
            x.attribute_length,
        ) + ser_u16(x.line_number_table@.len() as u16) + ser_line_number_seq(
            x.line_number_table@,
        ),
        AttributeInfo::LocalVariableTable(x) => ser_u16(x.attribute_name_index) + ser_u32(
            x.attribute_length,
        ) + ser_u16(x.local_variable_table@.len() as u16) + ser_local_var_seq(
            x.local_variable_table@,
        ),
        AttributeInfo::LocalVariableTypeTable(x) => ser_u16(x.attribute_name_index) + ser_u32(
            x.attribute_length,
        ) + ser_u16(x.local_variable_table@.len() as u16) + ser_local_var_type_seq(
            x.local_variable_table@,
        ),
        AttributeInfo::Deprecated(x) => ser_u16(x.attribute_name_index) + ser_u32(
            x.attribute_length,
        ),
        AttributeInfo::RuntimeVisibleAnnotations(x) => ser_u16(x.attribute_name_index) + ser_u32(
            x.attribute_length,
        ) + ser_u16(x.annotations@.len() as u16) + ser_annotation_seq(x.annotations@),
        AttributeInfo::RuntimeInvisibleAnnotations(x) => ser_u16(x.attribute_name_index) + ser_u32(
            x.attribute_length,
        ) + ser_u16(x.annotations@.len() as u16) + ser_annotation_seq(x.annotations@),
        AttributeInfo::RuntimeVisibleParameterAnnotations(x) => ser_u16(x.attribute_name_index)
            + ser_u32(x.attribute_length) + seq![x.parameter_annotations@.len() as u8]
            + ser_annotation_groups(x.parameter_annotations@),
        AttributeInfo::RuntimeInvisibleParameterAnnotations(x) => ser_u16(x.attribute_name_index)
            + ser_u32(x.attribute_length) + seq![x.parameter_annotations@.len() as u8]
            + ser_annotation_groups(x.parameter_annotations@),
        AttributeInfo::RuntimeVisibleTypeAnnotations(x) => ser_u16(x.attribute_name_index)
            + ser_u32(x.attribute_length) + ser_u16(x.annotations@.len() as u16)
            + ser_type_annotation_seq(x.annotations@),
        AttributeInfo::RuntimeInvisibleTypeAnnotations(x) => ser_u16(x.attribute_name_index)
            + ser_u32(x.attribute_length) + ser_u16(x.annotations@.len() as u16)
            + ser_type_annotation_seq(x.annotations@),
        AttributeInfo::AnnotationDefault(x) => ser_u16(x.attribute_name_index) + ser_u32(
            x.attribute_length,
        ) + ser_elem_value(x.default_value),
        AttributeInfo::BootstrapMethods(x) => ser_u16(x.attribute_name_index) + ser_u32(
            x.attribute_length,
        ) + ser_u16(x.bootstrap_methods@.len() as u16) + ser_bootstrap_seq(x.bootstrap_methods@),
        AttributeInfo::MethodParameters(x) => ser_u16(x.attribute_name_index) + ser_u32(
            x.attribute_length,
        ) + seq![x.parameters@.len() as u8] + ser_method_param_seq(x.parameters@),
        AttributeInfo::Module(x) => ser_u16(x.attribute_name_index) + ser_u32(x.attribute_length)
            + ser_u16(x.module_name_index) + ser_u16(x.module_flags) + ser_u16(
            x.module_version_index,
        ) + ser_u16(x.requires@.len() as u16) + ser_module_requires_seq(x.requires@) + ser_u16(
            x.exports@.len() as u16,
        ) + ser_module_exports_seq(x.exports@) + ser_u16(x.opens@.len() as u16)
            + ser_module_opens_seq(x.opens@) + ser_u16(x.uses_index@.len() as u16) + ser_u16_seq(
            x.uses_index@,
        ) + ser_u16(x.provides@.len() as u16) + ser_module_provides_seq(x.provides@),
        AttributeInfo::ModulePackages(x) => ser_u16(x.attribute_name_index) + ser_u32(
            x.attribute_length,
        ) + ser_u16(x.package_index@.len() as u16) + ser_u16_seq(x.package_index@),
        AttributeInfo::ModuleMainClass(x) => ser_u16(x.attribute_name_index) + ser_u32(
            x.attribute_length,
        ) + ser_u16(x.main_class_index),
        AttributeInfo::NestHost(x) => ser_u16(x.attribute_name_index) + ser_u32(
            x.attribute_length,
        ) + ser_u16(x.host_class_index),
        AttributeInfo::NestMembers(x) => ser_u16(x.attribute_name_index) + ser_u32(
            x.attribute_length,
        ) + ser_u16(x.classes@.len() as u16) + ser_u16_seq(x.classes@),
        AttributeInfo::Record(x) => ser_u16(x.attribute_name_index) + ser_u32(x.attribute_length)
            + ser_u16(x.components@.len() as u16) + ser_component_seq(x.components@),
        AttributeInfo::PermittedSubclasses(x) => ser_u16(x.attribute_name_index) + ser_u32(
            x.attribute_length,
        ) + ser_u16(x.classes@.len() as u16) + ser_u16_seq(x.classes@),
    }
}

/// The bytes of a run of attributes.
pub open spec fn ser_attr_seq(l: Seq<AttributeInfo>) -> Seq<u8>
    decreases l,
{
    if l.len() == 0 {
        Seq::empty()
    } else {
        ser_attr(l[0]) + ser_attr_seq(l.drop_first())
    }
}

/// The bytes of one record component: its name, descriptor and counted
/// attribute list.
pub open spec fn ser_component(c: AttributeRecordComponentInfo) -> Seq<u8>
    decreases c,
{
    ser_u16(c.name_index) + ser_u16(c.descriptor_index) + ser_u16(c.attributes@.len() as u16)
        + ser_attr_seq(c.attributes@)
}

/// The bytes of a run of record components.
pub open spec fn ser_component_seq(l: Seq<AttributeRecordComponentInfo>) -> Seq<u8>
    decreases l,
{
    if l.len() == 0 {
        Seq::empty()
    } else {
        ser_component(l[0]) + ser_component_seq(l.drop_first())
    }
}

/// Whether an attribute's counted lists fit their count fields and its nested
/// parts are well formed, recursively.
pub open spec fn wf_attr(a: AttributeInfo) -> bool
    decreases a,
{
    match a {
        AttributeInfo::ConstantValue(_) => true,
        AttributeInfo::Code(x) => x.code@.len() <= 0xFFFFFFFF && x.exception_table@.len() <= 0xFFFF
            && x.attributes@.len() <= 0xFFFF && wf_attr_seq(x.attributes@),
        AttributeInfo::StackMapTable(x) => x.entries@.len() <= 0xFFFF && wf_frame_seq(x.entries@),
        AttributeInfo::Exceptions(x) => x.exception_index_table@.len() <= 0xFFFF,
        AttributeInfo::InnerClasses(x) => x.classes@.len() <= 0xFFFF,
        AttributeInfo::EnclosingMethod(_) => true,
        AttributeInfo::Synthetic(_) => true,
        AttributeInfo::Signature(_) => true,
        AttributeInfo::SourceFile(_) => true,
        AttributeInfo::SourceDebugExtension(x) => x.debug_extension@.len()
            == x.attribute_length as int,
        AttributeInfo::LineNumberTable(x) => x.line_number_table@.len() <= 0xFFFF,
        AttributeInfo::LocalVariableTable(x) => x.local_variable_table@.len() <= 0xFFFF,
        AttributeInfo::LocalVariableTypeTable(x) => x.local_variable_table@.len() <= 0xFFFF,
        AttributeInfo::Deprecated(_) => true,
        AttributeInfo::RuntimeVisibleAnnotations(x) => x.annotations@.len() <= 0xFFFF
            && wf_annotation_seq(x.annotations@),
        AttributeInfo::RuntimeInvisibleAnnotations(x) => x.annotations@.len() <= 0xFFFF
            && wf_annotation_seq(x.annotations@),
        AttributeInfo::RuntimeVisibleParameterAnnotations(x) => x.parameter_annotations@.len()
            <= 0xFF && wf_annotation_groups(x.parameter_annotations@),
        AttributeInfo::RuntimeInvisibleParameterAnnotations(x) => x.parameter_annotations@.len()
            <= 0xFF && wf_annotation_groups(x.parameter_annotations@),
        AttributeInfo::RuntimeVisibleTypeAnnotations(x) => x.annotations@.len() <= 0xFFFF
            && wf_type_annotation_seq(x.annotations@),
        AttributeInfo::RuntimeInvisibleTypeAnnotations(x) => x.annotations@.len() <= 0xFFFF
            && wf_type_annotation_seq(x.annotations@),
        AttributeInfo::AnnotationDefault(x) => wf_elem_value(x.default_value),
        AttributeInfo::BootstrapMethods(x) => x.bootstrap_methods@.len() <= 0xFFFF && (forall|
            i: int,
        |
            0 <= i < x.bootstrap_methods@.len()
                ==> (#[trigger] x.bootstrap_methods@[i]).bootstrap_arguments@.len() <= 0xFFFF),
        AttributeInfo::MethodParameters(x) => x.parameters@.len() <= 0xFF,
        AttributeInfo::Module(x) => wf_module(x),
        AttributeInfo::ModulePackages(x) => x.package_index@.len() <= 0xFFFF,
        AttributeInfo::ModuleMainClass(_) => true,
        AttributeInfo::NestHost(_) => true,
        AttributeInfo::NestMembers(x) => x.classes@.len() <= 0xFFFF,
        AttributeInfo::Record(x) => x.components@.len() <= 0xFFFF && wf_component_seq(
            x.components@,
        ),
        AttributeInfo::PermittedSubclasses(x) => x.classes@.len() <= 0xFFFF,
    }
}

/// Whether every attribute of a run is well formed.
pub open spec fn wf_attr_seq(l: Seq<AttributeInfo>) -> bool
    decreases l,
{
    forall|i: int| 0 <= i < l.len() ==> wf_attr(#[trigger] l[i])
}

/// Whether a record component's attribute list fits its count and is well
/// formed.
pub open spec fn wf_component(c: AttributeRecordComponentInfo) -> bool
    decreases c,
{
    c.attributes@.len() <= 0xFFFF && wf_attr_seq(c.attributes@)
}

/// Whether every record component of a run is well formed.
pub open spec fn wf_component_seq(l: Seq<AttributeRecordComponentInfo>) -> bool
    decreases l,
{
    forall|i: int| 0 <= i < l.len() ==> wf_component(#[trigger] l[i])
}

/// The pool index an attribute's name was read from.
pub open spec fn attr_name_index(a: AttributeInfo) -> u16 {
    match a {
        AttributeInfo::ConstantValue(x) => x.attribute_name_index,
        AttributeInfo::Code(x) => x.attribute_name_index,
        AttributeInfo::StackMapTable(x) => x.attribute_name_index,
        AttributeInfo::Exceptions(x) => x.attribute_name_index,
        AttributeInfo::InnerClasses(x) => x.attribute_name_index,
        AttributeInfo::EnclosingMethod(x) => x.attribute_name_index,
        AttributeInfo::Synthetic(x) => x.attribute_name_index,
        AttributeInfo::Signature(x) => x.attribute_name_index,
        AttributeInfo::SourceFile(x) => x.attribute_name_index,
        AttributeInfo::SourceDebugExtension(x) => x.attribute_name_index,
        AttributeInfo::LineNumberTable(x) => x.attribute_name_index,
        AttributeInfo::LocalVariableTable(x) => x.attribute_name_index,
        AttributeInfo::LocalVariableTypeTable(x) => x.attribute_name_index,
        AttributeInfo::Deprecated(x) => x.attribute_name_index,
        AttributeInfo::RuntimeVisibleAnnotations(x) => x.attribute_name_index,
        AttributeInfo::RuntimeInvisibleAnnotations(x) => x.attribute_name_index,
        AttributeInfo::RuntimeVisibleParameterAnnotations(x) => x.attribute_name_index,
        AttributeInfo::RuntimeInvisibleParameterAnnotations(x) => x.attribute_name_index,
        AttributeInfo::RuntimeVisibleTypeAnnotations(x) => x.attribute_name_index,
        AttributeInfo::RuntimeInvisibleTypeAnnotations(x) => x.attribute_name_index,
        AttributeInfo::AnnotationDefault(x) => x.attribute_name_index,
        AttributeInfo::BootstrapMethods(x) => x.attribute_name_index,
        AttributeInfo::MethodParameters(x) => x.attribute_name_index,
        AttributeInfo::Module(x) => x.attribute_name_index,
        AttributeInfo::ModulePackages(x) => x.attribute_name_index,
        AttributeInfo::ModuleMainClass(x) => x.attribute_name_index,
        AttributeInfo::NestHost(x) => x.attribute_name_index,
        AttributeInfo::NestMembers(x) => x.attribute_name_index,
        AttributeInfo::Record(x) => x.attribute_name_index,
        AttributeInfo::PermittedSubclasses(x) => x.attribute_name_index,
    }
}

/// The attribute name that selects a variant.
pub open spec fn attr_name(a: AttributeInfo) -> Seq<char> {
    match a {
        AttributeInfo::ConstantValue(_) => "ConstantValue"@,
        AttributeInfo::Code(_) => "Code"@,
        AttributeInfo::StackMapTable(_) => "StackMapTable"@,
        AttributeInfo::Exceptions(_) => "Exceptions"@,
        AttributeInfo::InnerClasses(_) => "InnerClasses"@,
        AttributeInfo::EnclosingMethod(_) => "EnclosingMethod"@,
        AttributeInfo::Synthetic(_) => "Synthetic"@,
        AttributeInfo::Signature(_) => "Signature"@,
        AttributeInfo::SourceFile(_) => "SourceFile"@,
        AttributeInfo::SourceDebugExtension(_) => "SourceDebugExtension"@,
        AttributeInfo::LineNumberTable(_) => "LineNumberTable"@,
        AttributeInfo::LocalVariableTable(_) => "LocalVariableTable"@,
        AttributeInfo::LocalVariableTypeTable(_) => "LocalVariableTypeTable"@,
        AttributeInfo::Deprecated(_) => "Deprecated"@,
        AttributeInfo::RuntimeVisibleAnnotations(_) => "RuntimeVisibleAnnotations"@,
        AttributeInfo::RuntimeInvisibleAnnotations(_) => "RuntimeInvisibleAnnotations"@,
        AttributeInfo::RuntimeVisibleParameterAnnotations(
            _,
        ) => "RuntimeVisibleParameterAnnotations"@,
        AttributeInfo::RuntimeInvisibleParameterAnnotations(
            _,
        ) => "RuntimeInvisibleParameterAnnotations"@,
        AttributeInfo::RuntimeVisibleTypeAnnotations(_) => "RuntimeVisibleTypeAnnotations"@,
        AttributeInfo::RuntimeInvisibleTypeAnnotations(_) => "RuntimeInvisibleTypeAnnotations"@,
        AttributeInfo::AnnotationDefault(_) => "AnnotationDefault"@,
        AttributeInfo::BootstrapMethods(_) => "BootstrapMethods"@,
        AttributeInfo::MethodParameters(_) => "MethodParameters"@,
        AttributeInfo::Module(_) => "Module"@,
        AttributeInfo::ModulePackages(_) => "ModulePackages"@,
        AttributeInfo::ModuleMainClass(_) => "ModuleMainClass"@,
        AttributeInfo::NestHost(_) => "NestHost"@,
        AttributeInfo::NestMembers(_) => "NestMembers"@,
        AttributeInfo::Record(_) => "Record"@,
        AttributeInfo::PermittedSubclasses(_) => "PermittedSubclasses"@,
    }
}

/// Whether `s` is one of the known attribute names.
pub open spec fn attribute_name_known(s: Seq<char>) -> bool {
    ||| s == "ConstantValue"@
    ||| s == "Code"@
    ||| s == "StackMapTable"@
    ||| s == "Exceptions"@
    ||| s == "InnerClasses"@
    ||| s == "EnclosingMethod"@
    ||| s == "Synthetic"@
    ||| s == "Signature"@
    ||| s == "SourceFile"@
    ||| s == "SourceDebugExtension"@
    ||| s == "LineNumberTable"@
    ||| s == "LocalVariableTable"@
    ||| s == "LocalVariableTypeTable"@
    ||| s == "Deprecated"@
    ||| s == "RuntimeVisibleAnnotations"@
    ||| s == "RuntimeInvisibleAnnotations"@
    ||| s == "RuntimeVisibleParameterAnnotations"@
    ||| s == "RuntimeInvisibleParameterAnnotations"@
    ||| s == "RuntimeVisibleTypeAnnotations"@
    ||| s == "RuntimeInvisibleTypeAnnotations"@
    ||| s == "AnnotationDefault"@
    ||| s == "BootstrapMethods"@
    ||| s == "MethodParameters"@
    ||| s == "Module"@
    ||| s == "ModulePackages"@
    ||| s == "ModuleMainClass"@
    ||| s == "NestHost"@
    ||| s == "NestMembers"@
    ||| s == "Record"@
    ||| s == "PermittedSubclasses"@
}

/// Whether an attribute's stored name index leads, in `pool`, to a text entry
/// holding exactly the name that selects the attribute's variant, recursively
/// down the attribute tree.
pub open spec fn attr_resolves(a: AttributeInfo, pool: Seq<CpInfo>) -> bool
    decreases a,
{
    &&& attr_name_index(a) < pool.len()
    &&& (pool[attr_name_index(a) as int] matches CpInfo::Utf8(u) && u.converted@ == attr_name(a))
    &&& match a {
        AttributeInfo::Code(x) => attr_seq_resolves(x.attributes@, pool),
        AttributeInfo::Record(x) => forall|i: int|
            0 <= i < x.components@.len() ==> attr_seq_resolves(
                (#[trigger] x.components@[i]).attributes@,
                pool,
            ),
        _ => true,
    }
}

/// Whether every attribute of a run resolves its name in `pool`.
pub open spec fn attr_seq_resolves(l: Seq<AttributeInfo>, pool: Seq<CpInfo>) -> bool
    decreases l,
{
    forall|i: int| 0 <= i < l.len() ==> attr_resolves(#[trigger] l[i], pool)
}

/// Whether every attribute anywhere in the decoded class file resolves its
/// name in the file's own constant pool.
pub open spec fn class_file_resolves(c: ClassFile) -> bool {
    &&& (forall|i: int|
        0 <= i < c.fields@.len() ==> attr_seq_resolves(
            (#[trigger] c.fields@[i]).attributes@,
            c.constant_pool@,
        ))
    &&& (forall|i: int|
        0 <= i < c.methods@.len() ==> attr_seq_resolves(
            (#[trigger] c.methods@[i]).attributes@,
            c.constant_pool@,
        ))
    &&& attr_seq_resolves(c.attributes@, c.constant_pool@)
}

/// The bytes of one field record.
pub open spec fn ser_field(f: FieldInfo) -> Seq<u8> {
    ser_u16(f.access_flags) + ser_u16(f.name_index) + ser_u16(f.descriptor_index) + ser_u16(
        f.attributes@.len() as u16,
    ) + ser_attr_seq(f.attributes@)
}

/// The bytes of a run of field records.
pub open spec fn ser_field_seq(l: Seq<FieldInfo>) -> Seq<u8> {
    ser_seq(l, |f: FieldInfo| ser_field(f))
}

/// Whether a field record's attribute list fits its count and is well formed.
pub open spec fn wf_field(f: FieldInfo) -> bool {
    f.attributes@.len() <= 0xFFFF && wf_attr_seq(f.attributes@)
}

/// The bytes of one method record.
pub open spec fn ser_method(m: MethodInfo) -> Seq<u8> {
    ser_u16(m.access_flags) + ser_u16(m.name_index) + ser_u16(m.descriptor_index) + ser_u16(
        m.attributes@.len() as u16,
    ) + ser_attr_seq(m.attributes@)
}

/// The bytes of a run of method records.
pub open spec fn ser_method_seq(l: Seq<MethodInfo>) -> Seq<u8> {
    ser_seq(l, |m: MethodInfo| ser_method(m))
}

/// Whether a method record's attribute list fits its count and is well
/// formed.
pub open spec fn wf_method(m: MethodInfo) -> bool {
    m.attributes@.len() <= 0xFFFF && wf_attr_seq(m.attributes@)
}

/// The bytes of a whole class file.
pub open spec fn ser_class_file(c: ClassFile) -> Seq<u8> {
    ser_u32(c.magic) + ser_u16(c.minor_version) + ser_u16(c.major_version) + ser_u16(
        c.constant_pool_count,
    ) + ser_cp_seq(c.constant_pool@.drop_first()) + ser_u16(c.access_flags) + ser_u16(
        c.this_class,
    ) + ser_u16(c.super_class) + ser_u16(c.interfaces@.len() as u16) + ser_u16_seq(c.interfaces@)
        + ser_u16(c.fields@.len() as u16) + ser_field_seq(c.fields@) + ser_u16(
        c.methods@.len() as u16,
    ) + ser_method_seq(c.methods@) + ser_u16(c.attributes@.len() as u16) + ser_attr_seq(
        c.attributes@,
    )
}

/// Whether a decoded class file is well formed: the magic number is right,
/// the pool holds its declared count of entries with the placeholder at index
/// 0, every counted list fits its count field, and every part is well formed.
pub open spec fn wf_class_file(c: ClassFile) -> bool {
    &&& c.magic == 0xCAFEBABE
    &&& c.constant_pool@.len() == if c.constant_pool_count == 0 {
        1int
    } else {
        c.constant_pool_count as int
    }
    &&& c.constant_pool@[0] matches CpInfo::Integer(d) && d.bytes@ == seq![0u8, 0u8, 0u8, 0u8]
    &&& (forall|i: int|
        1 <= i < c.constant_pool@.len() ==> wf_cp_entry(#[trigger] c.constant_pool@[i]))
    &&& c.interfaces@.len() <= 0xFFFF
    &&& c.fields@.len() <= 0xFFFF
    &&& (forall|i: int| 0 <= i < c.fields@.len() ==> wf_field(#[trigger] c.fields@[i]))
    &&& c.methods@.len() <= 0xFFFF
    &&& (forall|i: int| 0 <= i < c.methods@.len() ==> wf_method(#[trigger] c.methods@[i]))
    &&& c.attributes@.len() <= 0xFFFF
    &&& wf_attr_seq(c.attributes@)
}


/// Adjacent pieces of one byte run concatenate to the whole.
pub proof fn lemma_concat_subranges(data: Seq<u8>, a: int, b: int, c: int)
    requires
        0 <= a <= b <= c <= data.len(),
    ensures
        data.subrange(a, b) + data.subrange(b, c) == data.subrange(a, c),
{
    assert(data.subrange(a, b) + data.subrange(b, c) =~= data.subrange(a, c));
}

/// Appending to the run appends the element's bytes.
pub proof fn lemma_ser_cp_seq_snoc(l: Seq<CpInfo>, x: CpInfo)
    ensures
        ser_cp_seq(l.push(x)) == ser_cp_seq(l) + ser_cp_entry(x),
{
    lemma_ser_seq_snoc(l, x, |e: CpInfo| ser_cp_entry(e));
}

/// Appending to the run appends the element's bytes.
pub proof fn lemma_ser_u16_seq_snoc(l: Seq<u16>, x: u16)
    ensures
        ser_u16_seq(l.push(x)) == ser_u16_seq(l) + ser_u16(x),
{
    lemma_ser_seq_snoc(l, x, |v: u16| ser_u16(v));
}

/// Appending to the run appends the element's bytes.
pub proof fn lemma_ser_exception_seq_snoc(l: Seq<ExceptionTableEntry>, x: ExceptionTableEntry)
    ensures
        ser_exception_seq(l.push(x)) == ser_exception_seq(l) + ser_exception_entry(x),
{
    lemma_ser_seq_snoc(l, x, |e: ExceptionTableEntry| ser_exception_entry(e));
}

/// Appending to the run appends the element's bytes.
pub proof fn lemma_ser_vtype_seq_snoc(l: Seq<VerificationTypeInfo>, x: VerificationTypeInfo)
    ensures
        ser_vtype_seq(l.push(x)) == ser_vtype_seq(l) + ser_vtype(x),
{
    lemma_ser_seq_snoc(l, x, |v: VerificationTypeInfo| ser_vtype(v));
}

/// Appending to the run appends the element's bytes.
pub proof fn lemma_ser_frame_seq_snoc(l: Seq<StackMapFrame>, x: StackMapFrame)
    ensures
        ser_frame_seq(l.push(x)) == ser_frame_seq(l) + ser_frame(x),
{
    lemma_ser_seq_snoc(l, x, |f: StackMapFrame| ser_frame(f));
}

/// Appending to the run appends the element's bytes.
pub proof fn lemma_ser_inner_class_seq_snoc(l: Seq<AttributeInnerClassesClass>, x: AttributeInnerClassesClass)
    ensures
        ser_inner_class_seq(l.push(x)) == ser_inner_class_seq(l) + ser_inner_class(x),
{
    lemma_ser_seq_snoc(l, x, |e: AttributeInnerClassesClass| ser_inner_class(e));
}

/// Appending to the run appends the element's bytes.
pub proof fn lemma_ser_line_number_seq_snoc(l: Seq<AttributeLineNumberTableEntry>, x: AttributeLineNumberTableEntry)
    ensures
        ser_line_number_seq(l.push(x)) == ser_line_number_seq(l) + ser_line_number_entry(x),
{
    lemma_ser_seq_snoc(l, x, |e: AttributeLineNumberTableEntry| ser_line_number_entry(e));
}

/// Appending to the run appends the element's bytes.
pub proof fn lemma_ser_local_var_seq_snoc(l: Seq<AttributeLocalVariableTableEntry>, x: AttributeLocalVariableTableEntry)
    ensures
        ser_local_var_seq(l.push(x)) == ser_local_var_seq(l) + ser_local_var_entry(x),
{
    lemma_ser_seq_snoc(l, x, |e: AttributeLocalVariableTableEntry| ser_local_var_entry(e));
}

/// Appending to the run appends the element's bytes.
pub proof fn lemma_ser_local_var_type_seq_snoc(l: Seq<AttributeLocalVariableTypeTableEntry>, x: AttributeLocalVariableTypeTableEntry)
    ensures
        ser_local_var_type_seq(l.push(x)) == ser_local_var_type_seq(l) + ser_local_var_type_entry(x),
{
    lemma_ser_seq_snoc(l, x, |e: AttributeLocalVariableTypeTableEntry| ser_local_var_type_entry(e));
}

/// Appending to the run appends the element's bytes.
pub proof fn lemma_ser_bootstrap_seq_snoc(l: Seq<AttributeBootstrapMethodsEntry>, x: AttributeBootstrapMethodsEntry)
    ensures
        ser_bootstrap_seq(l.push(x)) == ser_bootstrap_seq(l) + ser_bootstrap_entry(x),
{
    lemma_ser_seq_snoc(l, x, |e: AttributeBootstrapMethodsEntry| ser_bootstrap_entry(e));
}

/// Appending to the run appends the element's bytes.
pub proof fn lemma_ser_method_param_seq_snoc(l: Seq<AttributeMethodParametersEntry>, x: AttributeMethodParametersEntry)
    ensures
        ser_method_param_seq(l.push(x)) == ser_method_param_seq(l) + ser_method_param(x),
{
    lemma_ser_seq_snoc(l, x, |e: AttributeMethodParametersEntry| ser_method_param(e));
}

/// Appending to the run appends the element's bytes.
pub proof fn lemma_ser_module_requires_seq_snoc(l: Seq<AttributeModuleRequiresEntry>, x: AttributeModuleRequiresEntry)
    ensures
        ser_module_requires_seq(l.push(x)) == ser_module_requires_seq(l) + ser_module_requires(x),
{
    lemma_ser_seq_snoc(l, x, |e: AttributeModuleRequiresEntry| ser_module_requires(e));
}

/// Appending to the run appends the element's bytes.
pub proof fn lemma_ser_module_exports_seq_snoc(l: Seq<AttributeModuleExportsEntry>, x: AttributeModuleExportsEntry)
    ensures
        ser_module_exports_seq(l.push(x)) == ser_module_exports_seq(l) + ser_module_exports(x),
{
    lemma_ser_seq_snoc(l, x, |e: AttributeModuleExportsEntry| ser_module_exports(e));
}

/// Appending to the run appends the element's bytes.
pub proof fn lemma_ser_module_opens_seq_snoc(l: Seq<AttributeModuleOpensEntry>, x: AttributeModuleOpensEntry)
    ensures
        ser_module_opens_seq(l.push(x)) == ser_module_opens_seq(l) + ser_module_opens(x),
{
    lemma_ser_seq_snoc(l, x, |e: AttributeModuleOpensEntry| ser_module_opens(e));
}

/// Appending to the run appends the element's bytes.
pub proof fn lemma_ser_module_provides_seq_snoc(l: Seq<AttributeModuleProvidesEntry>, x: AttributeModuleProvidesEntry)
    ensures
        ser_module_provides_seq(l.push(x)) == ser_module_provides_seq(l) + ser_module_provides(x),
{
    lemma_ser_seq_snoc(l, x, |e: AttributeModuleProvidesEntry| ser_module_provides(e));
}

/// Appending to the run appends the element's bytes.
pub proof fn lemma_ser_localvar_target_seq_snoc(l: Seq<crate::parser::AttributeRuntimeTypeAnnotationsEntryLocalvarTargetTableEntry>, x: crate::parser::AttributeRuntimeTypeAnnotationsEntryLocalvarTargetTableEntry)
    ensures
        ser_localvar_target_seq(l.push(x)) == ser_localvar_target_seq(l) + ser_localvar_target_entry(x),
{
    lemma_ser_seq_snoc(l, x, |e: crate::parser::AttributeRuntimeTypeAnnotationsEntryLocalvarTargetTableEntry|
            ser_localvar_target_entry(e));
}

/// Appending to the run appends the element's bytes.
pub proof fn lemma_ser_type_path_seq_snoc(l: Seq<AttributeRuntimeVisibleTypeAnnotationsEntryTargetPathEntry>, x: AttributeRuntimeVisibleTypeAnnotationsEntryTargetPathEntry)
    ensures
        ser_type_path_seq(l.push(x)) == ser_type_path_seq(l) + ser_type_path_entry(x),
{
    lemma_ser_seq_snoc(l, x, |e: AttributeRuntimeVisibleTypeAnnotationsEntryTargetPathEntry| ser_type_path_entry(e));
}

/// Appending to the run appends the element's bytes.
pub proof fn lemma_ser_field_seq_snoc(l: Seq<FieldInfo>, x: FieldInfo)
    ensures
        ser_field_seq(l.push(x)) == ser_field_seq(l) + ser_field(x),
{
    lemma_ser_seq_snoc(l, x, |f: FieldInfo| ser_field(f));
}

/// Appending to the run appends the element's bytes.
pub proof fn lemma_ser_method_seq_snoc(l: Seq<MethodInfo>, x: MethodInfo)
    ensures
        ser_method_seq(l.push(x)) == ser_method_seq(l) + ser_method(x),
{
    lemma_ser_seq_snoc(l, x, |m: MethodInfo| ser_method(m));
}

/// Appending to the run appends the element's bytes.
pub proof fn lemma_ser_elem_value_seq_snoc(l: Seq<AttributeAnnotationsElementValue>, x: AttributeAnnotationsElementValue)
    ensures
        ser_elem_value_seq(l.push(x)) == ser_elem_value_seq(l) + ser_elem_value(x),
    decreases l.len(),
{
    if l.len() == 0 {
        assert(l.push(x)[0] == x);
        assert(l.push(x).drop_first() =~= Seq::<AttributeAnnotationsElementValue>::empty());
        assert(ser_elem_value_seq(l.push(x).drop_first()) == Seq::<u8>::empty());
        assert(ser_elem_value_seq(l.push(x)) =~= ser_elem_value_seq(l) + ser_elem_value(x));
    } else {
        assert(l.push(x)[0] == l[0]);
        assert(l.push(x).drop_first() =~= l.drop_first().push(x));
        lemma_ser_elem_value_seq_snoc(l.drop_first(), x);
        assert(ser_elem_value_seq(l.push(x)) =~= ser_elem_value_seq(l) + ser_elem_value(x));
    }
}

/// Appending to the run appends the element's bytes.
pub proof fn lemma_ser_elem_pair_seq_snoc(l: Seq<AttributeAnnotationsElementValuePair>, x: AttributeAnnotationsElementValuePair)
    ensures
        ser_elem_pair_seq(l.push(x)) == ser_elem_pair_seq(l) + ser_elem_pair(x),
    decreases l.len(),
{
    if l.len() == 0 {
        assert(l.push(x)[0] == x);
        assert(l.push(x).drop_first() =~= Seq::<AttributeAnnotationsElementValuePair>::empty());
        assert(ser_elem_pair_seq(l.push(x).drop_first()) == Seq::<u8>::empty());
        assert(ser_elem_pair_seq(l.push(x)) =~= ser_elem_pair_seq(l) + ser_elem_pair(x));
    } else {
        assert(l.push(x)[0] == l[0]);
        assert(l.push(x).drop_first() =~= l.drop_first().push(x));
        lemma_ser_elem_pair_seq_snoc(l.drop_first(), x);
        assert(ser_elem_pair_seq(l.push(x)) =~= ser_elem_pair_seq(l) + ser_elem_pair(x));
    }
}

/// Appending to the run appends the element's bytes.
pub proof fn lemma_ser_annotation_seq_snoc(l: Seq<AttributeRuntimeAnnotationsEntry>, x: AttributeRuntimeAnnotationsEntry)
    ensures
        ser_annotation_seq(l.push(x)) == ser_annotation_seq(l) + ser_annotation(x),
    decreases l.len(),
{
    if l.len() == 0 {
        assert(l.push(x)[0] == x);
        assert(l.push(x).drop_first() =~= Seq::<AttributeRuntimeAnnotationsEntry>::empty());
        assert(ser_annotation_seq(l.push(x).drop_first()) == Seq::<u8>::empty());
        assert(ser_annotation_seq(l.push(x)) =~= ser_annotation_seq(l) + ser_annotation(x));
    } else {
        assert(l.push(x)[0] == l[0]);
        assert(l.push(x).drop_first() =~= l.drop_first().push(x));
        lemma_ser_annotation_seq_snoc(l.drop_first(), x);
        assert(ser_annotation_seq(l.push(x)) =~= ser_annotation_seq(l) + ser_annotation(x));
    }
}

/// Appending to the run appends the element's bytes.
pub proof fn lemma_ser_type_annotation_seq_snoc(l: Seq<AttributeRuntimeTypeAnnotationsEntry>, x: AttributeRuntimeTypeAnnotationsEntry)
    ensures
        ser_type_annotation_seq(l.push(x)) == ser_type_annotation_seq(l) + ser_type_annotation(x),
    decreases l.len(),
{
    if l.len() == 0 {
        assert(l.push(x)[0] == x);
        assert(l.push(x).drop_first() =~= Seq::<AttributeRuntimeTypeAnnotationsEntry>::empty());
        assert(ser_type_annotation_seq(l.push(x).drop_first()) == Seq::<u8>::empty());
        assert(ser_type_annotation_seq(l.push(x)) =~= ser_type_annotation_seq(l) + ser_type_annotation(x));
    } else {
        assert(l.push(x)[0] == l[0]);
        assert(l.push(x).drop_first() =~= l.drop_first().push(x));
        lemma_ser_type_annotation_seq_snoc(l.drop_first(), x);
        assert(ser_type_annotation_seq(l.push(x)) =~= ser_type_annotation_seq(l) + ser_type_annotation(x));
    }
}

/// Appending to the run appends the element's bytes.
pub proof fn lemma_ser_attr_seq_snoc(l: Seq<AttributeInfo>, x: AttributeInfo)
    ensures
        ser_attr_seq(l.push(x)) == ser_attr_seq(l) + ser_attr(x),
    decreases l.len(),
{
    if l.len() == 0 {
        assert(l.push(x)[0] == x);
        assert(l.push(x).drop_first() =~= Seq::<AttributeInfo>::empty());
        assert(ser_attr_seq(l.push(x).drop_first()) == Seq::<u8>::empty());
        assert(ser_attr_seq(l.push(x)) =~= ser_attr_seq(l) + ser_attr(x));
    } else {
        assert(l.push(x)[0] == l[0]);
        assert(l.push(x).drop_first() =~= l.drop_first().push(x));
        lemma_ser_attr_seq_snoc(l.drop_first(), x);
        assert(ser_attr_seq(l.push(x)) =~= ser_attr_seq(l) + ser_attr(x));
    }
}

/// Appending to the run appends the element's bytes.
pub proof fn lemma_ser_component_seq_snoc(l: Seq<AttributeRecordComponentInfo>, x: AttributeRecordComponentInfo)
    ensures
        ser_component_seq(l.push(x)) == ser_component_seq(l) + ser_component(x),
    decreases l.len(),
{
    if l.len() == 0 {
        assert(l.push(x)[0] == x);
        assert(l.push(x).drop_first() =~= Seq::<AttributeRecordComponentInfo>::empty());
        assert(ser_component_seq(l.push(x).drop_first()) == Seq::<u8>::empty());
        assert(ser_component_seq(l.push(x)) =~= ser_component_seq(l) + ser_component(x));
    } else {
        assert(l.push(x)[0] == l[0]);
        assert(l.push(x).drop_first() =~= l.drop_first().push(x));
        lemma_ser_component_seq_snoc(l.drop_first(), x);
        assert(ser_component_seq(l.push(x)) =~= ser_component_seq(l) + ser_component(x));
    }
}

/// Appending a group appends its two-byte count and its annotations' bytes.
pub proof fn lemma_ser_annotation_groups_snoc(
    l: Seq<Vec<AttributeRuntimeAnnotationsEntry>>,
    x: Vec<AttributeRuntimeAnnotationsEntry>,
)
    ensures
        ser_annotation_groups(l.push(x)) == ser_annotation_groups(l) + (ser_u16(x@.len() as u16)
            + ser_annotation_seq(x@)),
    decreases l.len(),
{
    if l.len() == 0 {
        assert(l.push(x)[0] == x);
        assert(l.push(x).drop_first() =~= Seq::<Vec<AttributeRuntimeAnnotationsEntry>>::empty());
        assert(ser_annotation_groups(l.push(x).drop_first()) == Seq::<u8>::empty());
        assert(ser_annotation_groups(l.push(x)) =~= ser_annotation_groups(l) + (ser_u16(
            x@.len() as u16,
        ) + ser_annotation_seq(x@)));
    } else {
        assert(l.push(x)[0] == l[0]);
        assert(l.push(x).drop_first() =~= l.drop_first().push(x));
        lemma_ser_annotation_groups_snoc(l.drop_first(), x);
        assert(ser_annotation_groups(l.push(x)) =~= ser_annotation_groups(l) + (ser_u16(
            x@.len() as u16,
        ) + ser_annotation_seq(x@)));
    }
}


/// Whether the byte run `s` occupies `data` from `pos` on.
pub open spec fn occurs_at(s: Seq<u8>, data: Seq<u8>, pos: int) -> bool {
    0 <= pos && pos + s.len() <= data.len() && s == data.subrange(pos, pos + s.len())
}

/// A run that occupies a position splits into its two halves in place.
pub proof fn lemma_occurs_split(a: Seq<u8>, b: Seq<u8>, data: Seq<u8>, pos: int)
    requires
        occurs_at(a + b, data, pos),
    ensures
        occurs_at(a, data, pos),
        occurs_at(b, data, pos + a.len()),
{
    assert forall|i: int| 0 <= i < a.len() implies a[i] == data[pos + i] by {
        assert((a + b)[i] == a[i]);
        assert(data.subrange(pos, pos + (a + b).len() as int)[i] == data[pos + i]);
    }
    assert(a =~= data.subrange(pos, pos + a.len() as int));
    assert forall|i: int| 0 <= i < b.len() implies b[i] == data[pos + a.len() + i] by {
        assert((a + b)[a.len() + i] == b[i]);
        assert(data.subrange(pos, pos + (a + b).len() as int)[a.len() + i] == data[pos + a.len()
            + i]);
    }
    assert(b =~= data.subrange(pos + a.len(), pos + a.len() + b.len() as int));
}

/// Whether a well-formed constant-pool entry's bytes begin at `pos`.
pub open spec fn cp_entry_at(data: Seq<u8>, pos: int) -> bool {
    exists|e: CpInfo| wf_cp_entry(e) && occurs_at(ser_cp_entry(e), data, pos)
}

/// Whether `n` well-formed constant-pool entries' bytes begin at `pos`.
pub open spec fn cp_entries_at(data: Seq<u8>, pos: int, n: int) -> bool {
    exists|l: Seq<CpInfo>|
        l.len() == n && (forall|i: int| 0 <= i < l.len() ==> wf_cp_entry(#[trigger] l[i]))
            && occurs_at(ser_cp_seq(l), data, pos)
}

/// Whether a run of `n` verification-type descriptors begins at `pos`.
pub open spec fn vtypes_at(data: Seq<u8>, pos: int, n: int) -> bool {
    exists|l: Seq<VerificationTypeInfo>| l.len() == n && occurs_at(ser_vtype_seq(l), data, pos)
}

/// Whether a well-formed stack-map frame's bytes begin at `pos`.
pub open spec fn frame_at(data: Seq<u8>, pos: int) -> bool {
    exists|f: StackMapFrame| wf_frame(f) && occurs_at(ser_frame(f), data, pos)
}

/// Whether `n` well-formed stack-map frames' bytes begin at `pos`.
pub open spec fn frames_at(data: Seq<u8>, pos: int, n: int) -> bool {
    exists|l: Seq<StackMapFrame>|
        l.len() == n && wf_frame_seq(l) && occurs_at(ser_frame_seq(l), data, pos)
}

/// Whether a well-formed element value's bytes begin at `pos`.
pub open spec fn elem_value_at(data: Seq<u8>, pos: int) -> bool {
    exists|v: AttributeAnnotationsElementValue|
        wf_elem_value(v) && occurs_at(ser_elem_value(v), data, pos)
}

/// Whether `n` well-formed element values' bytes begin at `pos`.
pub open spec fn elem_values_at(data: Seq<u8>, pos: int, n: int) -> bool {
    exists|l: Seq<AttributeAnnotationsElementValue>|
        l.len() == n && wf_elem_value_seq(l) && occurs_at(ser_elem_value_seq(l), data, pos)
}

/// Whether a well-formed element-value pair's bytes begin at `pos`.
pub open spec fn elem_pair_at(data: Seq<u8>, pos: int) -> bool {
    exists|p: AttributeAnnotationsElementValuePair|
        wf_elem_pair(p) && occurs_at(ser_elem_pair(p), data, pos)
}

/// Whether `n` well-formed element-value pairs' bytes begin at `pos`.
pub open spec fn elem_pairs_at(data: Seq<u8>, pos: int, n: int) -> bool {
    exists|l: Seq<AttributeAnnotationsElementValuePair>|
        l.len() == n && wf_elem_pair_seq(l) && occurs_at(ser_elem_pair_seq(l), data, pos)
}

/// Whether a well-formed annotation's bytes begin at `pos`.
pub open spec fn annotation_at(data: Seq<u8>, pos: int) -> bool {
    exists|e: AttributeRuntimeAnnotationsEntry|
        wf_annotation(e) && occurs_at(ser_annotation(e), data, pos)
}

/// Whether `n` well-formed annotations' bytes begin at `pos`.
pub open spec fn annotations_at(data: Seq<u8>, pos: int, n: int) -> bool {
    exists|l: Seq<AttributeRuntimeAnnotationsEntry>|
        l.len() == n && wf_annotation_seq(l) && occurs_at(ser_annotation_seq(l), data, pos)
}

/// Whether `n` well-formed per-parameter annotation groups' bytes begin at
/// `pos`.
pub open spec fn annotation_groups_at(data: Seq<u8>, pos: int, n: int) -> bool {
    exists|l: Seq<Vec<AttributeRuntimeAnnotationsEntry>>|
        l.len() == n && wf_annotation_groups(l) && occurs_at(ser_annotation_groups(l), data, pos)
}

/// Whether a well-formed type annotation's bytes begin at `pos`.
pub open spec fn type_annotation_at(data: Seq<u8>, pos: int) -> bool {
    exists|e: AttributeRuntimeTypeAnnotationsEntry|
        wf_type_annotation(e) && occurs_at(ser_type_annotation(e), data, pos)
}

/// Whether `n` well-formed type annotations' bytes begin at `pos`.
pub open spec fn type_annotations_at(data: Seq<u8>, pos: int, n: int) -> bool {
    exists|l: Seq<AttributeRuntimeTypeAnnotationsEntry>|
        l.len() == n && wf_type_annotation_seq(l) && occurs_at(ser_type_annotation_seq(l), data, pos)
}

/// Whether `n` well-formed bootstrap-method rows' bytes begin at `pos`.
pub open spec fn bootstrap_entries_at(data: Seq<u8>, pos: int, n: int) -> bool {
    exists|l: Seq<AttributeBootstrapMethodsEntry>|
        l.len() == n && (forall|i: int|
            0 <= i < l.len() ==> (#[trigger] l[i]).bootstrap_arguments@.len() <= 0xFFFF)
            && occurs_at(ser_bootstrap_seq(l), data, pos)
}

/// Whether `n` well-formed module exports rows' bytes begin at `pos`.
pub open spec fn module_exports_at(data: Seq<u8>, pos: int, n: int) -> bool {
    exists|l: Seq<AttributeModuleExportsEntry>|
        l.len() == n && (forall|i: int|
            0 <= i < l.len() ==> (#[trigger] l[i]).exports_to_index@.len() <= 0xFFFF)
            && occurs_at(ser_module_exports_seq(l), data, pos)
}

/// Whether `n` well-formed module opens rows' bytes begin at `pos`.
pub open spec fn module_opens_at(data: Seq<u8>, pos: int, n: int) -> bool {
    exists|l: Seq<AttributeModuleOpensEntry>|
        l.len() == n && (forall|i: int|
            0 <= i < l.len() ==> (#[trigger] l[i]).opens_to_index@.len() <= 0xFFFF)
            && occurs_at(ser_module_opens_seq(l), data, pos)
}

/// Whether `n` well-formed module provides rows' bytes begin at `pos`.
pub open spec fn module_provides_at(data: Seq<u8>, pos: int, n: int) -> bool {
    exists|l: Seq<AttributeModuleProvidesEntry>|
        l.len() == n && (forall|i: int|
            0 <= i < l.len() ==> (#[trigger] l[i]).provides_with_index@.len() <= 0xFFFF)
            && occurs_at(ser_module_provides_seq(l), data, pos)
}

/// Whether a well-formed attribute whose name resolves in `pool` begins at
/// `pos`.
pub open spec fn attr_at(data: Seq<u8>, pos: int, pool: Seq<CpInfo>) -> bool {
    exists|a: AttributeInfo|
        wf_attr(a) && attr_resolves(a, pool) && occurs_at(ser_attr(a), data, pos)
}

/// Whether `n` well-formed, name-resolving attributes begin at `pos`.
pub open spec fn attrs_at(data: Seq<u8>, pos: int, n: int, pool: Seq<CpInfo>) -> bool {
    exists|l: Seq<AttributeInfo>|
        l.len() == n && wf_attr_seq(l) && attr_seq_resolves(l, pool) && occurs_at(
            ser_attr_seq(l),
            data,
            pos,
        )
}

/// Whether `n` well-formed record components begin at `pos`.
pub open spec fn components_at(data: Seq<u8>, pos: int, n: int, pool: Seq<CpInfo>) -> bool {
    exists|l: Seq<AttributeRecordComponentInfo>|
        l.len() == n && wf_component_seq(l) && (forall|i: int|
            0 <= i < l.len() ==> attr_seq_resolves((#[trigger] l[i]).attributes@, pool))
            && occurs_at(ser_component_seq(l), data, pos)
}

/// Whether a well-formed field record begins at `pos`.
pub open spec fn field_at(data: Seq<u8>, pos: int, pool: Seq<CpInfo>) -> bool {
    exists|f: FieldInfo|
        wf_field(f) && attr_seq_resolves(f.attributes@, pool) && occurs_at(ser_field(f), data, pos)
}

/// Whether `n` well-formed field records begin at `pos`.
pub open spec fn fields_at(data: Seq<u8>, pos: int, n: int, pool: Seq<CpInfo>) -> bool {
    exists|l: Seq<FieldInfo>|
        l.len() == n && (forall|i: int| 0 <= i < l.len() ==> wf_field(#[trigger] l[i])) && (forall|
            i: int,
        |
            0 <= i < l.len() ==> attr_seq_resolves((#[trigger] l[i]).attributes@, pool))
            && occurs_at(ser_field_seq(l), data, pos)
}

/// Whether a well-formed method record begins at `pos`.
pub open spec fn method_at(data: Seq<u8>, pos: int, pool: Seq<CpInfo>) -> bool {
    exists|m: MethodInfo|
        wf_method(m) && attr_seq_resolves(m.attributes@, pool) && occurs_at(
            ser_method(m),
            data,
            pos,
        )
}

/// Whether `n` well-formed method records begin at `pos`.
pub open spec fn methods_at(data: Seq<u8>, pos: int, n: int, pool: Seq<CpInfo>) -> bool {
    exists|l: Seq<MethodInfo>|
        l.len() == n && (forall|i: int| 0 <= i < l.len() ==> wf_method(#[trigger] l[i])) && (
        forall|i: int|
            0 <= i < l.len() ==> attr_seq_resolves((#[trigger] l[i]).attributes@, pool))
            && occurs_at(ser_method_seq(l), data, pos)
}

/// Whether some well-formed, name-resolving class file's bytes are an
/// initial segment of `data`.
pub open spec fn class_file_at(data: Seq<u8>) -> bool {
    exists|c: ClassFile|
        wf_class_file(c) && class_file_resolves(c) && is_prefix_of(ser_class_file(c), data)
}


/// A single byte that occupies a position is that position's byte.
pub proof fn lemma_u8_occurs(b: u8, data: Seq<u8>, pos: int)
    requires
        occurs_at(seq![b], data, pos),
    ensures
        pos + 1 <= data.len(),
        data[pos] == b,
{
    assert(data.subrange(pos, pos + 1)[0] == data[pos]);
}

/// A two-byte integer that occupies a position is the big-endian value of
/// that position's bytes.
pub proof fn lemma_u16_occurs(v: u16, data: Seq<u8>, pos: int)
    requires
        occurs_at(ser_u16(v), data, pos),
    ensures
        pos + 2 <= data.len(),
        crate::reader::u16_of(data[pos], data[pos + 1]) == v,
{
    assert(data.subrange(pos, pos + 2)[0] == data[pos]);
    assert(data.subrange(pos, pos + 2)[1] == data[pos + 1]);
    assert(ser_u16(v) =~= seq![data[pos], data[pos + 1]]);
    crate::reader::lemma_ser_u16_inverse(v, data[pos], data[pos + 1]);
}

/// A four-byte integer that occupies a position is the big-endian value of
/// that position's bytes.
pub proof fn lemma_u32_occurs(v: u32, data: Seq<u8>, pos: int)
    requires
        occurs_at(ser_u32(v), data, pos),
    ensures
        pos + 4 <= data.len(),
        crate::reader::u32_of(data[pos], data[pos + 1], data[pos + 2], data[pos + 3]) == v,
{
    assert(data.subrange(pos, pos + 4)[0] == data[pos]);
    assert(data.subrange(pos, pos + 4)[1] == data[pos + 1]);
    assert(data.subrange(pos, pos + 4)[2] == data[pos + 2]);
    assert(data.subrange(pos, pos + 4)[3] == data[pos + 3]);
    assert(ser_u32(v) =~= seq![data[pos], data[pos + 1], data[pos + 2], data[pos + 3]]);
    crate::reader::lemma_ser_u32_inverse(v, data[pos], data[pos + 1], data[pos + 2], data[pos + 3]);
}

} // verus!
