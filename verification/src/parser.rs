//! The class-file decoder.
//!
//! A class file is a binary compiled unit: a four-byte magic number, a
//! version, a 1-indexed constant pool of tagged entries, access flags, class
//! references, and fields, methods and attributes, each attribute selected by
//! a name resolved through the constant pool.  Everything is decoded in one
//! strictly forward pass over an in-memory byte run.
//!
//! Every decoding function here promises, on success, that the serialization
//! of what it returns (see [`crate::ser`]) is byte-for-byte the run it
//! consumed, so a decoded value carries exactly the information of its bytes.

use crate::reader::{read_bytes, read_u16, read_u32, read_u8, ser_u16, ser_u32, u16_of, u32_of};
use crate::unamb::{
    cp_entry_tag, elem_value_tag, frame_tag, lemma_annotation_seq_unamb, lemma_annotation_unamb,
    lemma_cp_entry_unamb,
    lemma_elem_pair_unamb, lemma_elem_value_unamb, lemma_frame_unamb,
    lemma_type_annotation_unamb, lemma_vtype_seq_unamb, lemma_vtype_unamb, vtype_tag,
};
use crate::ser::{
    lemma_concat_subranges, lemma_ser_annotation_groups_snoc, lemma_ser_annotation_seq_snoc,
    lemma_ser_cp_seq_snoc, lemma_ser_elem_pair_seq_snoc, lemma_ser_elem_value_seq_snoc,
    lemma_ser_localvar_target_seq_snoc, lemma_ser_type_annotation_seq_snoc,
    lemma_ser_type_path_seq_snoc, lemma_ser_vtype_seq_snoc, ser_annotation, ser_annotation_groups,
    ser_annotation_seq, ser_cp_entry, ser_cp_seq, ser_elem_pair, ser_elem_pair_seq, ser_elem_value,
    ser_elem_value_seq, ser_frame, ser_localvar_target_entry, ser_localvar_target_seq,
    ser_target_info, ser_type_annotation, ser_type_annotation_seq, ser_type_path_entry,
    ser_type_path_seq, ser_vtype, ser_vtype_seq, wf_annotation, wf_annotation_groups,
    wf_annotation_seq, wf_cp_entry, wf_elem_pair, wf_elem_pair_seq, wf_elem_value,
    wf_elem_value_seq, wf_frame, wf_type_annotation, wf_type_annotation_seq,
    lemma_ser_u16_seq_snoc, lemma_ser_exception_seq_snoc, lemma_ser_inner_class_seq_snoc,
    lemma_ser_line_number_seq_snoc, lemma_ser_local_var_seq_snoc,
    lemma_ser_local_var_type_seq_snoc, lemma_ser_method_param_seq_snoc,
    lemma_ser_module_requires_seq_snoc, lemma_ser_module_exports_seq_snoc,
    lemma_ser_module_opens_seq_snoc, lemma_ser_module_provides_seq_snoc,
    lemma_ser_bootstrap_seq_snoc, ser_u16_seq, ser_exception_entry, ser_exception_seq,
    ser_inner_class, ser_inner_class_seq, ser_line_number_entry, ser_line_number_seq,
    ser_local_var_entry, ser_local_var_seq, ser_local_var_type_entry, ser_local_var_type_seq,
    ser_method_param, ser_method_param_seq, ser_module_requires, ser_module_requires_seq,
    ser_module_exports, ser_module_exports_seq, ser_module_opens, ser_module_opens_seq,
    ser_module_provides, ser_module_provides_seq, ser_bootstrap_entry, ser_bootstrap_seq,
    lemma_ser_frame_seq_snoc, lemma_ser_attr_seq_snoc, lemma_ser_component_seq_snoc,
    ser_frame_seq, wf_frame_seq, ser_attr, ser_attr_seq, wf_attr, wf_attr_seq, attr_resolves,
    attr_seq_resolves, attribute_name_known, ser_component,
    ser_component_seq, wf_component, wf_component_seq, class_file_resolves, is_prefix_of,
    lemma_ser_field_seq_snoc, lemma_ser_method_seq_snoc, ser_class_file, ser_field,
    ser_field_seq, ser_method, ser_method_seq, wf_class_file, wf_field, wf_method,
    cp_entries_at, cp_entry_at, lemma_occurs_split, lemma_u16_occurs, lemma_u32_occurs,
    lemma_u8_occurs, occurs_at, frame_at, frames_at, vtypes_at, annotation_at,
    annotation_groups_at, annotations_at, elem_pair_at, elem_pairs_at, elem_value_at,
    elem_values_at, type_annotation_at, type_annotations_at,
    bootstrap_entries_at, module_exports_at, module_opens_at, module_provides_at,
};
use crate::util::{modified_utf8_to_string, mutf8_decode, MalformedModifiedUtf8};
use vstd::prelude::*;

verus! {

/// The field of the format an error is about.
#[derive(Debug, Clone, Copy, PartialEq, Eq, Structural)]
pub enum EntryName {
    Magic,
    ConstantPoolTag,
    ConstantPoolMethodHandleReferenceKind,
}

/// A structural or value violation of the class-file format.
#[derive(Debug, Clone, PartialEq)]
pub enum MalformedClassFile {
    /// A read needed more bytes than remain.
    UnexpectedEof,
    /// A field holds `value_read` where exactly `value_expected` is allowed.
    EntryWrongValue { entry_name: EntryName, value_read: u64, value_expected: u64 },
    /// A field holds `value_read` where one of `values_allowed` is required.
    EntryNotOneOf { entry_name: EntryName, value_read: u64, values_allowed: Vec<u8> },
    /// An attribute's name index does not lead to a text entry of the pool.
    AttributeNameNotUtf8 { attribute_name_index: u16 },
    /// An attribute's resolved name is none of the known attribute names.
    UnknownAttributeName { name: String },
    /// A stack-map frame's leading byte selects no frame kind.
    UnknownStackMapFrameType { frame_type: u8 },
    /// A verification-type descriptor's leading byte selects no kind.
    UnknownVerificationTypeTag { tag: u8 },
    /// An annotation element value's tag character selects no kind.
    UnknownElementValueTag { tag: u8 },
    /// A type annotation's target byte selects no target shape.
    UnknownTargetType { target_type: u8 },
    /// A text entry of the constant pool violates the text encoding.
    ModifiedUtf8(MalformedModifiedUtf8),
}

impl MalformedClassFile {
    /// The error for a field whose only allowed value was missed.
    pub fn entry_wrong_value(entry_name: EntryName, value_read: u64, value_expected: u64) -> (e:
        MalformedClassFile)
        ensures
            e == (MalformedClassFile::EntryWrongValue { entry_name, value_read, value_expected }),
    {
        MalformedClassFile::EntryWrongValue { entry_name, value_read, value_expected }
    }

    /// The error for a field whose value is outside its allowed set.
    pub fn entry_not_one_of(entry_name: EntryName, value_read: u64, values_allowed: Vec<u8>) -> (e:
        MalformedClassFile)
        ensures
            e matches MalformedClassFile::EntryNotOneOf {
                entry_name: n,
                value_read: v,
                values_allowed: a,
            } && n == entry_name && v == value_read && a@ == values_allowed@,
    {
        MalformedClassFile::EntryNotOneOf { entry_name, value_read, values_allowed }
    }
}

/// The nine kinds of method-handle constant, tagged 1 through 9 in the format.
#[derive(Debug, Clone, Copy, PartialEq, Eq, Structural)]
pub enum MethodHandleReferenceKind {
    GetField,
    GetStatic,
    PutField,
    PutStatic,
    InvokeVirtual,
    InvokeStatic,
    InvokeSpecial,
    NewInvokeSpecial,
    InvokeInterface,
}

/// The tag byte of a method-handle reference kind.
pub open spec fn mh_kind_value(k: MethodHandleReferenceKind) -> u8 {
    match k {
        MethodHandleReferenceKind::GetField => 1,
        MethodHandleReferenceKind::GetStatic => 2,
        MethodHandleReferenceKind::PutField => 3,
        MethodHandleReferenceKind::PutStatic => 4,
        MethodHandleReferenceKind::InvokeVirtual => 5,
        MethodHandleReferenceKind::InvokeStatic => 6,
        MethodHandleReferenceKind::InvokeSpecial => 7,
        MethodHandleReferenceKind::NewInvokeSpecial => 8,
        MethodHandleReferenceKind::InvokeInterface => 9,
    }
}

impl MethodHandleReferenceKind {
    /// The kind with tag byte `v`, for `v` in 1 through 9.
    pub fn try_from(v: u8) -> (r: Result<MethodHandleReferenceKind, ()>)
        ensures
            1 <= v <= 9 ==> (r matches Ok(k) && mh_kind_value(k) == v),
            !(1 <= v <= 9) ==> r is Err,
    {
        match v {
            1 => Ok(MethodHandleReferenceKind::GetField),
            2 => Ok(MethodHandleReferenceKind::GetStatic),
            3 => Ok(MethodHandleReferenceKind::PutField),
            4 => Ok(MethodHandleReferenceKind::PutStatic),
            5 => Ok(MethodHandleReferenceKind::InvokeVirtual),
            6 => Ok(MethodHandleReferenceKind::InvokeStatic),
            7 => Ok(MethodHandleReferenceKind::InvokeSpecial),
            8 => Ok(MethodHandleReferenceKind::NewInvokeSpecial),
            9 => Ok(MethodHandleReferenceKind::InvokeInterface),
            _ => Err(()),
        }
    }

    /// This kind's tag byte.
    pub fn value(self) -> (v: u8)
        ensures
            v == mh_kind_value(self),
    {
        match self {
            MethodHandleReferenceKind::GetField => 1,
            MethodHandleReferenceKind::GetStatic => 2,
            MethodHandleReferenceKind::PutField => 3,
            MethodHandleReferenceKind::PutStatic => 4,
            MethodHandleReferenceKind::InvokeVirtual => 5,
            MethodHandleReferenceKind::InvokeStatic => 6,
            MethodHandleReferenceKind::InvokeSpecial => 7,
            MethodHandleReferenceKind::NewInvokeSpecial => 8,
            MethodHandleReferenceKind::InvokeInterface => 9,
        }
    }
}

/// The named bits of a class's access-flag mask.
#[derive(Debug, Clone, Copy, PartialEq, Eq, Structural)]
pub enum ClassAccessFlagMask {
    Public,
    Final,
    Super,
    Interface,
    Abstract,
    Synthetic,
    Annotation,
    Enum,
    Module,
}

impl ClassAccessFlagMask {
    /// The bit this flag occupies in the mask.
    pub fn mask(self) -> (m: u16)
        ensures
            m == class_access_flag_bit(self),
    {
        match self {
            ClassAccessFlagMask::Public => 0x0001,
            ClassAccessFlagMask::Final => 0x0010,
            ClassAccessFlagMask::Super => 0x0020,
            ClassAccessFlagMask::Interface => 0x0200,
            ClassAccessFlagMask::Abstract => 0x0400,
            ClassAccessFlagMask::Synthetic => 0x1000,
            ClassAccessFlagMask::Annotation => 0x2000,
            ClassAccessFlagMask::Enum => 0x4000,
            ClassAccessFlagMask::Module => 0x8000,
        }
    }
}

/// The bit a class access flag occupies.
pub open spec fn class_access_flag_bit(f: ClassAccessFlagMask) -> u16 {
    match f {
        ClassAccessFlagMask::Public => 0x0001,
        ClassAccessFlagMask::Final => 0x0010,
        ClassAccessFlagMask::Super => 0x0020,
        ClassAccessFlagMask::Interface => 0x0200,
        ClassAccessFlagMask::Abstract => 0x0400,
        ClassAccessFlagMask::Synthetic => 0x1000,
        ClassAccessFlagMask::Annotation => 0x2000,
        ClassAccessFlagMask::Enum => 0x4000,
        ClassAccessFlagMask::Module => 0x8000,
    }
}

/// The named bits of a method's access-flag mask.
#[derive(Debug, Clone, Copy, PartialEq, Eq, Structural)]
pub enum MethodAccessFlagMask {
    Public,
    Private,
    Protected,
    Static,
    Final,
    Synchronized,
    Bridge,
    VarArgs,
    Native,
    Abstract,
    Strict,
    Synthetic,
}

impl MethodAccessFlagMask {
    /// The bit this flag occupies in the mask.
    pub fn mask(self) -> (m: u16)
        ensures
            m == method_access_flag_bit(self),
    {
        match self {
            MethodAccessFlagMask::Public => 0x0001,
            MethodAccessFlagMask::Private => 0x0002,
            MethodAccessFlagMask::Protected => 0x0004,
            MethodAccessFlagMask::Static => 0x0008,
            MethodAccessFlagMask::Final => 0x0010,
            MethodAccessFlagMask::Synchronized => 0x0020,
            MethodAccessFlagMask::Bridge => 0x0040,
            MethodAccessFlagMask::VarArgs => 0x0080,
            MethodAccessFlagMask::Native => 0x0100,
            MethodAccessFlagMask::Abstract => 0x0400,
            MethodAccessFlagMask::Strict => 0x8000,
            MethodAccessFlagMask::Synthetic => 0x1000,
        }
    }
}

/// The bit a method access flag occupies.
pub open spec fn method_access_flag_bit(f: MethodAccessFlagMask) -> u16 {
    match f {
        MethodAccessFlagMask::Public => 0x0001,
        MethodAccessFlagMask::Private => 0x0002,
        MethodAccessFlagMask::Protected => 0x0004,
        MethodAccessFlagMask::Static => 0x0008,
        MethodAccessFlagMask::Final => 0x0010,
        MethodAccessFlagMask::Synchronized => 0x0020,
        MethodAccessFlagMask::Bridge => 0x0040,
        MethodAccessFlagMask::VarArgs => 0x0080,
        MethodAccessFlagMask::Native => 0x0100,
        MethodAccessFlagMask::Abstract => 0x0400,
        MethodAccessFlagMask::Strict => 0x8000,
        MethodAccessFlagMask::Synthetic => 0x1000,
    }
}

/// The named bits of a nested class's access-flag mask.
#[derive(Debug, Clone, Copy, PartialEq, Eq, Structural)]
pub enum InnerClassAccessFlagMask {
    Public,
    Private,
    Protected,
    Static,
    Final,
    Interface,
    Abstract,
    Synthetic,
    Annotation,
    Enum,
}

impl InnerClassAccessFlagMask {
    /// The bit this flag occupies in the mask.
    pub fn mask(self) -> (m: u16)
        ensures
            m == inner_class_access_flag_bit(self),
    {
        match self {
            InnerClassAccessFlagMask::Public => 0x0001,
            InnerClassAccessFlagMask::Private => 0x0002,
            InnerClassAccessFlagMask::Protected => 0x0004,
            InnerClassAccessFlagMask::Static => 0x0008,
            InnerClassAccessFlagMask::Final => 0x0010,
            InnerClassAccessFlagMask::Interface => 0x0200,
            InnerClassAccessFlagMask::Abstract => 0x0400,
            InnerClassAccessFlagMask::Synthetic => 0x1000,
            InnerClassAccessFlagMask::Annotation => 0x2000,
            InnerClassAccessFlagMask::Enum => 0x4000,
        }
    }
}

/// The bit a nested class access flag occupies.
pub open spec fn inner_class_access_flag_bit(f: InnerClassAccessFlagMask) -> u16 {
    match f {
        InnerClassAccessFlagMask::Public => 0x0001,
        InnerClassAccessFlagMask::Private => 0x0002,
        InnerClassAccessFlagMask::Protected => 0x0004,
        InnerClassAccessFlagMask::Static => 0x0008,
        InnerClassAccessFlagMask::Final => 0x0010,
        InnerClassAccessFlagMask::Interface => 0x0200,
        InnerClassAccessFlagMask::Abstract => 0x0400,
        InnerClassAccessFlagMask::Synthetic => 0x1000,
        InnerClassAccessFlagMask::Annotation => 0x2000,
        InnerClassAccessFlagMask::Enum => 0x4000,
    }
}

/// The decoded class file: the root of the whole structure.
#[derive(Debug)]
pub struct ClassFile {
    pub magic: u32,
    pub minor_version: u16,
    pub major_version: u16,
    pub constant_pool_count: u16,
    pub constant_pool: Vec<CpInfo>,
    pub access_flags: u16,
    pub this_class: u16,
    pub super_class: u16,
    pub interfaces: Vec<u16>,
    pub fields: Vec<FieldInfo>,
    pub methods: Vec<MethodInfo>,
    pub attributes: Vec<AttributeInfo>,
}

/// One constant-pool entry, selected by its one-byte tag.
#[derive(Debug)]
pub enum CpInfo {
    Utf8(CpUtf8),
    Integer(CpInteger),
    Float(CpFloat),
    Long(CpLong),
    Double(CpDouble),
    Class(CpClass),
    String(CpString),
    FieldRef(CpFieldRef),
    MethodRef(CpMethodRef),
    InterfaceMethodRef(CpInterfaceMethodRef),
    NameAndType(CpNameAndType),
    MethodHandle(CpMethodHandle),
    MethodType(CpMethodType),
    Dynamic(CpDynamic),
    InvokeDynamic(CpInvokeDynamic),
    Module(CpModule),
    Package(CpPackage),
}

/// A text entry: the raw encoded bytes and their decoded text.
#[derive(Debug)]
pub struct CpUtf8 {
    pub bytes: Vec<u8>,
    pub converted: String,
}

/// A 32-bit integer entry, kept as its raw bytes.
#[derive(Debug)]
pub struct CpInteger {
    pub bytes: [u8; 4],
}

/// A 32-bit float entry, kept as its raw bytes.
#[derive(Debug)]
pub struct CpFloat {
    pub bytes: [u8; 4],
}

/// A 64-bit integer entry, split into two 32-bit halves as the format stores
/// it.
#[derive(Debug)]
pub struct CpLong {
    pub high_bytes: u32,
    pub low_bytes: u32,
}

/// A 64-bit float entry, split into two 32-bit halves.
#[derive(Debug)]
pub struct CpDouble {
    pub high_bytes: u32,
    pub low_bytes: u32,
}

/// A class or interface reference.
#[derive(Debug)]
pub struct CpClass {
    pub name_index: u16,
}

/// A string literal reference.
#[derive(Debug)]
pub struct CpString {
    pub string_index: u16,
}

/// A field reference.
#[derive(Debug)]
pub struct CpFieldRef {
    pub class_index: u16,
    pub name_and_type_index: u16,
}

/// A method reference.
#[derive(Debug)]
pub struct CpMethodRef {
    pub class_index: u16,
    pub name_and_type_index: u16,
}

/// An interface-method reference.
#[derive(Debug)]
pub struct CpInterfaceMethodRef {
    pub class_index: u16,
    pub name_and_type_index: u16,
}

/// A name-and-descriptor pair.
#[derive(Debug)]
pub struct CpNameAndType {
    pub name_index: u16,
    pub descriptor_index: u16,
}

/// A method handle: a reference kind and the entry it applies to.
#[derive(Debug)]
pub struct CpMethodHandle {
    pub reference_kind: MethodHandleReferenceKind,
    pub reference_index: u16,
}

/// A method-type descriptor reference.
#[derive(Debug)]
pub struct CpMethodType {
    pub descriptor_index: u16,
}

/// A dynamically computed constant.
#[derive(Debug)]
pub struct CpDynamic {
    pub bootstrap_method_attr_index: u16,
    pub name_and_type_index: u16,
}

/// A dynamically computed call site.
#[derive(Debug)]
pub struct CpInvokeDynamic {
    pub bootstrap_method_attr_index: u16,
    pub name_and_type_index: u16,
}

/// A module reference.
#[derive(Debug)]
pub struct CpModule {
    pub name_index: u16,
}

/// A package reference.
#[derive(Debug)]
pub struct CpPackage {
    pub name_index: u16,
}

/// One field record.
#[derive(Debug)]
pub struct FieldInfo {
    pub access_flags: u16,
    pub name_index: u16,
    pub descriptor_index: u16,
    pub attributes: Vec<AttributeInfo>,
}

/// One method record.
#[derive(Debug)]
pub struct MethodInfo {
    pub access_flags: u16,
    pub name_index: u16,
    pub descriptor_index: u16,
    pub attributes: Vec<AttributeInfo>,
}

/// One attribute record, selected by its name resolved through the constant
/// pool.  Every variant keeps the name index and declared length it was read
/// with.
#[derive(Debug)]
pub enum AttributeInfo {
    ConstantValue(AttributeConstantValue),
    Code(AttributeCode),
    StackMapTable(AttributeStackMapTable),
    Exceptions(AttributeExceptions),
    InnerClasses(AttributeInnerClasses),
    EnclosingMethod(AttributeEnclosingMethod),
    Synthetic(AttributeSynthetic),
    Signature(AttributeSignature),
    SourceFile(AttributeSourceFile),
    SourceDebugExtension(AttributeSourceDebugExtension),
    LineNumberTable(AttributeLineNumberTable),
    LocalVariableTable(AttributeLocalVariableTable),
    LocalVariableTypeTable(AttributeLocalVariableTypeTable),
    Deprecated(AttributeDeprecated),
    RuntimeVisibleAnnotations(AttributeRuntimeVisibleAnnotations),
    RuntimeInvisibleAnnotations(AttributeRuntimeInvisibleAnnotations),
    RuntimeVisibleParameterAnnotations(AttributeRuntimeVisibleParameterAnnotations),
    RuntimeInvisibleParameterAnnotations(AttributeRuntimeInvisibleParameterAnnotations),
    RuntimeVisibleTypeAnnotations(AttributeRuntimeVisibleTypeAnnotations),
    RuntimeInvisibleTypeAnnotations(AttributeRuntimeInvisibleTypeAnnotations),
    AnnotationDefault(AttributeAnnotationDefault),
    BootstrapMethods(AttributeBootstrapMethods),
    MethodParameters(AttributeMethodParameters),
    Module(AttributeModule),
    ModulePackages(AttributeModulePackages),
    ModuleMainClass(AttributeModuleMainClass),
    NestHost(AttributeNestHost),
    NestMembers(AttributeNestMembers),
    Record(AttributeRecord),
    PermittedSubclasses(AttributePermittedSubclasses),
}

/// A constant value of a field.
#[derive(Debug)]
pub struct AttributeConstantValue {
    pub attribute_name_index: u16,
    pub attribute_length: u32,
    pub constantvalue_index: u16,
}

/// One row of a Code attribute's exception table.
#[derive(Debug)]
pub struct ExceptionTableEntry {
    pub start_pc: u16,
    pub end_pc: u16,
    pub handler_pc: u16,
    pub catch_type: u16,
}

/// A method body: bytecode, exception table and nested attributes.
#[derive(Debug)]
pub struct AttributeCode {
    pub attribute_name_index: u16,
    pub attribute_length: u32,
    pub max_stack: u16,
    pub max_locals: u16,
    pub code: Vec<u8>,
    pub exception_table: Vec<ExceptionTableEntry>,
    pub attributes: Vec<AttributeInfo>,
}

/// One verification-type descriptor used inside stack-map frames.
#[derive(Debug)]
pub enum VerificationTypeInfo {
    TopVariable(VerificationTypeTopVariableInfo),
    IntegerVariable(VerificationTypeIntegerVariableInfo),
    FloatVariable(VerificationTypeFloatVariableInfo),
    NullVariable(VerificationTypeNullVariableInfo),
    UninitializedThisVariable(VerificationTypeUninitializedThisVariableInfo),
    ObjectVariable(VerificationTypeObjectVariableInfo),
    UninitializedVariable(VerificationTypeUninitializedVariableInfo),
    LongVariable(VerificationTypeLongVariableInfo),
    DoubleVariable(VerificationTypeDoubleVariableInfo),
}

#[derive(Debug)]
pub struct VerificationTypeTopVariableInfo {
}

#[derive(Debug)]
pub struct VerificationTypeIntegerVariableInfo {
}

#[derive(Debug)]
pub struct VerificationTypeFloatVariableInfo {
}

#[derive(Debug)]
pub struct VerificationTypeNullVariableInfo {
}

#[derive(Debug)]
pub struct VerificationTypeUninitializedThisVariableInfo {
}

/// A class-typed value; the index leads to the pool.
#[derive(Debug)]
pub struct VerificationTypeObjectVariableInfo {
    pub cpool_index: u16,
}

/// A value created by a `new` at the given bytecode offset.
#[derive(Debug)]
pub struct VerificationTypeUninitializedVariableInfo {
    pub offset: u16,
}

#[derive(Debug)]
pub struct VerificationTypeLongVariableInfo {
}

#[derive(Debug)]
pub struct VerificationTypeDoubleVariableInfo {
}

/// One stack-map frame, selected by its leading byte's exact value or range.
#[derive(Debug)]
pub enum StackMapFrame {
    SameFrame(StackMapSameFrame),
    SameLocals1StackItemFrame(StackMapSameLocals1StackItemFrame),
    SameLocals1StackItemFrameExtended(StackMapSameLocals1StackItemFrameExtended),
    ChopFrame(StackMapChopFrame),
    SameFrameExtended(StackMapSameFrameExtended),
    AppendFrame(StackMapAppendFrame),
    FullFrame(StackMapFullFrame),
}

/// Frame type 0 through 63.
#[derive(Debug)]
pub struct StackMapSameFrame {
    pub frame_type: u8,
}

/// Frame type 64 through 127: one stack entry follows.
#[derive(Debug)]
pub struct StackMapSameLocals1StackItemFrame {
    pub frame_type: u8,
    pub stack_entry: VerificationTypeInfo,
}

/// Frame type 247: an offset delta and one stack entry follow.
#[derive(Debug)]
pub struct StackMapSameLocals1StackItemFrameExtended {
    pub frame_type: u8,
    pub offset_delta: u16,
    pub stack_entry: VerificationTypeInfo,
}

/// Frame type 248 through 250.
#[derive(Debug)]
pub struct StackMapChopFrame {
    pub frame_type: u8,
    pub offset_delta: u16,
}

/// Frame type 251.
#[derive(Debug)]
pub struct StackMapSameFrameExtended {
    pub frame_type: u8,
    pub offset_delta: u16,
}

/// Frame type 252 through 254: `frame_type - 251` locals follow.
#[derive(Debug)]
pub struct StackMapAppendFrame {
    pub frame_type: u8,
    pub offset_delta: u16,
    pub locals: Vec<VerificationTypeInfo>,
}

/// Frame type 255: counted locals and stack entries follow.
#[derive(Debug)]
pub struct StackMapFullFrame {
    pub frame_type: u8,
    pub offset_delta: u16,
    pub locals: Vec<VerificationTypeInfo>,
    pub stack: Vec<VerificationTypeInfo>,
}

/// The stack-map table of a Code attribute.
#[derive(Debug)]
pub struct AttributeStackMapTable {
    pub attribute_name_index: u16,
    pub attribute_length: u32,
    pub entries: Vec<StackMapFrame>,
}

/// The checked exceptions a method declares.
#[derive(Debug)]
pub struct AttributeExceptions {
    pub attribute_name_index: u16,
    pub attribute_length: u32,
    pub exception_index_table: Vec<u16>,
}

/// One row of the InnerClasses attribute.
#[derive(Debug)]
pub struct AttributeInnerClassesClass {
    pub inner_class_info_index: u16,
    pub outer_class_info_index: u16,
    pub inner_name_index: u16,
    pub inner_class_access_flags: u16,
}

/// The nested classes of a class.
#[derive(Debug)]
pub struct AttributeInnerClasses {
    pub attribute_name_index: u16,
    pub attribute_length: u32,
    pub classes: Vec<AttributeInnerClassesClass>,
}

/// The method enclosing a local or anonymous class.
#[derive(Debug)]
pub struct AttributeEnclosingMethod {
    pub attribute_name_index: u16,
    pub attribute_length: u32,
    pub class_index: u16,
    pub method_index: u16,
}

/// Marks a construct absent from the source.
#[derive(Debug)]
pub struct AttributeSynthetic {
    pub attribute_name_index: u16,
    pub attribute_length: u32,
}

/// A generic signature.
#[derive(Debug)]
pub struct AttributeSignature {
    pub attribute_name_index: u16,
    pub attribute_length: u32,
    pub signature_index: u16,
}

/// The source file a class was compiled from.
#[derive(Debug)]
pub struct AttributeSourceFile {
    pub attribute_name_index: u16,
    pub attribute_length: u32,
    pub sourcefile_index: u16,
}

/// Extended debugging information; its byte run fills the declared length.
#[derive(Debug)]
pub struct AttributeSourceDebugExtension {
    pub attribute_name_index: u16,
    pub attribute_length: u32,
    pub debug_extension: Vec<u8>,
}

/// One row of the line-number table.
#[derive(Debug)]
pub struct AttributeLineNumberTableEntry {
    pub start_pc: u16,
    pub line_number: u16,
}

/// Maps bytecode offsets to source lines.
#[derive(Debug)]
pub struct AttributeLineNumberTable {
    pub attribute_name_index: u16,
    pub attribute_length: u32,
    pub line_number_table: Vec<AttributeLineNumberTableEntry>,
}

/// One row of the local-variable table.
#[derive(Debug)]
pub struct AttributeLocalVariableTableEntry {
    pub start_pc: u16,
    pub length: u16,
    pub name_index: u16,
    pub descriptor_index: u16,
    pub index: u16,
}

/// Describes a method's local variables for debuggers.
#[derive(Debug)]
pub struct AttributeLocalVariableTable {
    pub attribute_name_index: u16,
    pub attribute_length: u32,
    pub local_variable_table: Vec<AttributeLocalVariableTableEntry>,
}

/// One row of the local-variable type table.
#[derive(Debug)]
pub struct AttributeLocalVariableTypeTableEntry {
    pub start_pc: u16,
    pub length: u16,
    pub name_index: u16,
    pub signature_index: u16,
    pub index: u16,
}

/// Like the local-variable table, for variables with generic signatures.
#[derive(Debug)]
pub struct AttributeLocalVariableTypeTable {
    pub attribute_name_index: u16,
    pub attribute_length: u32,
    pub local_variable_table: Vec<AttributeLocalVariableTypeTableEntry>,
}

/// Marks a deprecated construct.
#[derive(Debug)]
pub struct AttributeDeprecated {
    pub attribute_name_index: u16,
    pub attribute_length: u32,
}

/// One annotation element value, selected by a one-character tag.  An array
/// value nests element values; an annotation value nests a whole annotation.
#[derive(Debug)]
pub enum AttributeAnnotationsElementValue {
    Byte(AttributeAnnotationsElementValueByte),
    Char(AttributeAnnotationsElementValueChar),
    Double(AttributeAnnotationsElementValueDouble),
    Float(AttributeAnnotationsElementValueFloat),
    Int(AttributeAnnotationsElementValueInt),
    Long(AttributeAnnotationsElementValueLong),
    Short(AttributeAnnotationsElementValueShort),
    Boolean(AttributeAnnotationsElementValueBoolean),
    String(AttributeAnnotationsElementValueString),
    EnumClass(AttributeAnnotationsElementValueEnumClass),
    Class(AttributeAnnotationsElementValueClass),
    AnnotationInterface(AttributeAnnotationsElementValueAnnotationInterface),
    ArrayType(AttributeAnnotationsElementValueArrayType),
}

#[derive(Debug)]
pub struct AttributeAnnotationsElementValueByte {
    pub const_value_index: u16,
}

#[derive(Debug)]
pub struct AttributeAnnotationsElementValueChar {
    pub const_value_index: u16,
}

#[derive(Debug)]
pub struct AttributeAnnotationsElementValueDouble {
    pub const_value_index: u16,
}

#[derive(Debug)]
pub struct AttributeAnnotationsElementValueFloat {
    pub const_value_index: u16,
}

#[derive(Debug)]
pub struct AttributeAnnotationsElementValueInt {
    pub const_value_index: u16,
}

#[derive(Debug)]
pub struct AttributeAnnotationsElementValueLong {
    pub const_value_index: u16,
}

#[derive(Debug)]
pub struct AttributeAnnotationsElementValueShort {
    pub const_value_index: u16,
}

#[derive(Debug)]
pub struct AttributeAnnotationsElementValueBoolean {
    pub const_value_index: u16,
}

#[derive(Debug)]
pub struct AttributeAnnotationsElementValueString {
    pub const_value_index: u16,
}

/// An enum constant: its type's descriptor and the constant's name.
#[derive(Debug)]
pub struct AttributeAnnotationsElementValueEnumClass {
    pub type_name_index: u16,
    pub const_name_index: u16,
}

/// A class literal.
#[derive(Debug)]
pub struct AttributeAnnotationsElementValueClass {
    pub class_info_index: u16,
}

/// A nested annotation.
#[derive(Debug)]
pub struct AttributeAnnotationsElementValueAnnotationInterface {
    pub annotation_value: AttributeRuntimeAnnotationsEntry,
}

/// An array of element values.
#[derive(Debug)]
pub struct AttributeAnnotationsElementValueArrayType {
    pub values: Vec<AttributeAnnotationsElementValue>,
}

/// One named element value inside an annotation.
#[derive(Debug)]
pub struct AttributeAnnotationsElementValuePair {
    pub element_name_index: u16,
    pub element_value: AttributeAnnotationsElementValue,
}

/// One annotation: its type and its element-value pairs.
#[derive(Debug)]
pub struct AttributeRuntimeAnnotationsEntry {
    pub type_index: u16,
    pub element_value_pairs: Vec<AttributeAnnotationsElementValuePair>,
}

/// Annotations retained for runtime reflection.
#[derive(Debug)]
pub struct AttributeRuntimeVisibleAnnotations {
    pub attribute_name_index: u16,
    pub attribute_length: u32,
    pub annotations: Vec<AttributeRuntimeAnnotationsEntry>,
}

/// Annotations present in the class file but hidden from reflection.
#[derive(Debug)]
pub struct AttributeRuntimeInvisibleAnnotations {
    pub attribute_name_index: u16,
    pub attribute_length: u32,
    pub annotations: Vec<AttributeRuntimeAnnotationsEntry>,
}

/// Per-parameter annotations retained for runtime reflection.
#[derive(Debug)]
pub struct AttributeRuntimeVisibleParameterAnnotations {
    pub attribute_name_index: u16,
    pub attribute_length: u32,
    pub parameter_annotations: Vec<Vec<AttributeRuntimeAnnotationsEntry>>,
}

/// Per-parameter annotations hidden from reflection.
#[derive(Debug)]
pub struct AttributeRuntimeInvisibleParameterAnnotations {
    pub attribute_name_index: u16,
    pub attribute_length: u32,
    pub parameter_annotations: Vec<Vec<AttributeRuntimeAnnotationsEntry>>,
}

/// A type-parameter target of a type annotation.
#[derive(Debug)]
pub struct AttributeRuntimeTypeAnnotationsEntryTypeParameterTarget {
    pub type_parameter_index: u8,
}

/// A supertype target.
#[derive(Debug)]
pub struct AttributeRuntimeTypeAnnotationsEntrySuperTypeTarget {
    pub supertype_index: u16,
}

/// A type-parameter bound target.
#[derive(Debug)]
pub struct AttributeRuntimeTypeAnnotationsEntryTypeParameterBoundTarget {
    pub type_parameter_index: u8,
    pub bound_index: u8,
}

/// A target with no further payload.
#[derive(Debug)]
pub struct AttributeRuntimeTypeAnnotationsEntryEmptyTarget {
}

/// A formal-parameter target.
#[derive(Debug)]
pub struct AttributeRuntimeTypeAnnotationsEntryFormalParameterTarget {
    pub formal_parameter_index: u8,
}

/// A throws-clause target.
#[derive(Debug)]
pub struct AttributeRuntimeTypeAnnotationsEntryThrowsTarget {
    pub throws_type_index: u16,
}

/// One row of a local-variable target's table.
#[derive(Debug)]
pub struct AttributeRuntimeTypeAnnotationsEntryLocalvarTargetTableEntry {
    pub start_pc: u16,
    pub length: u16,
    pub index: u16,
}

/// A local-variable target.
#[derive(Debug)]
pub struct AttributeRuntimeTypeAnnotationsEntryLocalvarTarget {
    pub table: Vec<AttributeRuntimeTypeAnnotationsEntryLocalvarTargetTableEntry>,
}

/// An exception-handler target.
#[derive(Debug)]
pub struct AttributeRuntimeTypeAnnotationsEntryCatchTarget {
    pub exception_table_index: u16,
}

/// A bytecode-offset target.
#[derive(Debug)]
pub struct AttributeRuntimeTypeAnnotationsEntryOffsetTarget {
    pub offset: u16,
}

/// A type-argument target at a bytecode offset.
#[derive(Debug)]
pub struct AttributeRuntimeTypeAnnotationsEntryTypeArgumentTarget {
    pub offset: u16,
    pub type_argument_index: u8,
}

/// Where a type annotation applies, selected by the target-type byte.
#[derive(Debug)]
pub enum AttributeRuntimeTypeAnnotationsEntryTargetInfo {
    TypeParameterTarget(AttributeRuntimeTypeAnnotationsEntryTypeParameterTarget),
    SuperTypeTarget(AttributeRuntimeTypeAnnotationsEntrySuperTypeTarget),
    TypeParameterBoundTarget(AttributeRuntimeTypeAnnotationsEntryTypeParameterBoundTarget),
    EmptyTarget(AttributeRuntimeTypeAnnotationsEntryEmptyTarget),
    FormalParameterTarget(AttributeRuntimeTypeAnnotationsEntryFormalParameterTarget),
    ThrowsTarget(AttributeRuntimeTypeAnnotationsEntryThrowsTarget),
    LocalvarTarget(AttributeRuntimeTypeAnnotationsEntryLocalvarTarget),
    CatchTarget(AttributeRuntimeTypeAnnotationsEntryCatchTarget),
    OffsetTarget(AttributeRuntimeTypeAnnotationsEntryOffsetTarget),
    TypeArgumentTarget(AttributeRuntimeTypeAnnotationsEntryTypeArgumentTarget),
}

/// One step of the path from an annotated outer type to the exact annotated
/// part.
#[derive(Debug)]
pub struct AttributeRuntimeVisibleTypeAnnotationsEntryTargetPathEntry {
    pub type_path_kind: u8,
    pub type_argument_index: u8,
}

/// One type annotation: its target, path, type, and element-value pairs.
#[derive(Debug)]
pub struct AttributeRuntimeTypeAnnotationsEntry {
    pub target_type: u8,
    pub target_info: AttributeRuntimeTypeAnnotationsEntryTargetInfo,
    pub target_path: Vec<AttributeRuntimeVisibleTypeAnnotationsEntryTargetPathEntry>,
    pub type_index: u16,
    pub element_value_pairs: Vec<AttributeAnnotationsElementValuePair>,
}

/// Type annotations retained for runtime reflection.
#[derive(Debug)]
pub struct AttributeRuntimeVisibleTypeAnnotations {
    pub attribute_name_index: u16,
    pub attribute_length: u32,
    pub annotations: Vec<AttributeRuntimeTypeAnnotationsEntry>,
}

/// Type annotations hidden from reflection.
#[derive(Debug)]
pub struct AttributeRuntimeInvisibleTypeAnnotations {
    pub attribute_name_index: u16,
    pub attribute_length: u32,
    pub annotations: Vec<AttributeRuntimeTypeAnnotationsEntry>,
}

/// The default value of an annotation-interface element.
#[derive(Debug)]
pub struct AttributeAnnotationDefault {
    pub attribute_name_index: u16,
    pub attribute_length: u32,
    pub default_value: AttributeAnnotationsElementValue,
}

/// One bootstrap method and its static arguments.
#[derive(Debug)]
pub struct AttributeBootstrapMethodsEntry {
    pub bootstrap_method_ref: u16,
    pub bootstrap_arguments: Vec<u16>,
}

/// The bootstrap methods referenced by dynamic constants and call sites.
#[derive(Debug)]
pub struct AttributeBootstrapMethods {
    pub attribute_name_index: u16,
    pub attribute_length: u32,
    pub bootstrap_methods: Vec<AttributeBootstrapMethodsEntry>,
}

/// One formal parameter's name and flags.
#[derive(Debug)]
pub struct AttributeMethodParametersEntry {
    pub name_index: u16,
    pub access_flags: u16,
}

/// The names and flags of a method's parameters.
#[derive(Debug)]
pub struct AttributeMethodParameters {
    pub attribute_name_index: u16,
    pub attribute_length: u32,
    pub parameters: Vec<AttributeMethodParametersEntry>,
}

/// One dependence of a module.
#[derive(Debug)]
pub struct AttributeModuleRequiresEntry {
    pub requires_index: u16,
    pub requires_flags: u16,
    pub requires_version_index: u16,
}

/// One exported package of a module and who it is exported to.
#[derive(Debug)]
pub struct AttributeModuleExportsEntry {
    pub exports_index: u16,
    pub exports_flags: u16,
    pub exports_to_index: Vec<u16>,
}

/// One opened package of a module and who it is opened to.
#[derive(Debug)]
pub struct AttributeModuleOpensEntry {
    pub opens_index: u16,
    pub opens_flags: u16,
    pub opens_to_index: Vec<u16>,
}

/// One service a module provides, with its implementations.
#[derive(Debug)]
pub struct AttributeModuleProvidesEntry {
    pub provides_index: u16,
    pub provides_with_index: Vec<u16>,
}

/// A module declaration: requires, exports, opens, uses and provides groups.
#[derive(Debug)]
pub struct AttributeModule {
    pub attribute_name_index: u16,
    pub attribute_length: u32,
    pub module_name_index: u16,
    pub module_flags: u16,
    pub module_version_index: u16,
    pub requires: Vec<AttributeModuleRequiresEntry>,
    pub exports: Vec<AttributeModuleExportsEntry>,
    pub opens: Vec<AttributeModuleOpensEntry>,
    pub uses_index: Vec<u16>,
    pub provides: Vec<AttributeModuleProvidesEntry>,
}

/// The packages of a module.
#[derive(Debug)]
pub struct AttributeModulePackages {
    pub attribute_name_index: u16,
    pub attribute_length: u32,
    pub package_index: Vec<u16>,
}

/// The main class of a module.
#[derive(Debug)]
pub struct AttributeModuleMainClass {
    pub attribute_name_index: u16,
    pub attribute_length: u32,
    pub main_class_index: u16,
}

/// The nest a class belongs to.
#[derive(Debug)]
pub struct AttributeNestHost {
    pub attribute_name_index: u16,
    pub attribute_length: u32,
    pub host_class_index: u16,
}

/// The members of the nest a class hosts.
#[derive(Debug)]
pub struct AttributeNestMembers {
    pub attribute_name_index: u16,
    pub attribute_length: u32,
    pub classes: Vec<u16>,
}

/// One component of a record class, with its own nested attributes.
#[derive(Debug)]
pub struct AttributeRecordComponentInfo {
    pub name_index: u16,
    pub descriptor_index: u16,
    pub attributes: Vec<AttributeInfo>,
}

/// The components of a record class.
#[derive(Debug)]
pub struct AttributeRecord {
    pub attribute_name_index: u16,
    pub attribute_length: u32,
    pub components: Vec<AttributeRecordComponentInfo>,
}

/// The classes permitted to extend a sealed class.
#[derive(Debug)]
pub struct AttributePermittedSubclasses {
    pub attribute_name_index: u16,
    pub attribute_length: u32,
    pub classes: Vec<u16>,
}


/// The seventeen tag bytes that select a constant-pool entry kind, in the
/// order the format lists them.
pub open spec fn cp_tags() -> Seq<u8> {
    seq![1u8, 3u8, 4u8, 5u8, 6u8, 7u8, 8u8, 9u8, 10u8, 11u8, 12u8, 15u8, 16u8, 17u8, 18u8, 19u8, 20u8]
}

/// Whether `t` is one of the seventeen constant-pool tags.
pub open spec fn cp_tag_known(t: u8) -> bool {
    t == 1 || t == 3 || t == 4 || t == 5 || t == 6 || t == 7 || t == 8 || t == 9 || t == 10 || t
        == 11 || t == 12 || t == 15 || t == 16 || t == 17 || t == 18 || t == 19 || t == 20
}

/// The nine method-handle reference-kind bytes.
pub open spec fn mh_kinds() -> Seq<u8> {
    seq![1u8, 2u8, 3u8, 4u8, 5u8, 6u8, 7u8, 8u8, 9u8]
}

/// Whether `r` is the error for an unknown constant-pool tag `tag`: it names
/// the tag field, carries the offending value, and lists all seventeen valid
/// tags.
pub open spec fn is_unknown_cp_tag_error(
    r: Result<(CpInfo, usize), MalformedClassFile>,
    tag: u8,
) -> bool {
    match r {
        Err(MalformedClassFile::EntryNotOneOf { entry_name, value_read, values_allowed }) => {
            &&& entry_name == EntryName::ConstantPoolTag
            &&& value_read == tag as u64
            &&& values_allowed@ == cp_tags()
        },
        _ => false,
    }
}

/// Whether `r` is the error for a method-handle reference kind `kind` outside
/// 1 through 9: it names the reference-kind field, carries the offending
/// value, and lists all nine valid kinds.
pub open spec fn is_bad_mh_kind_error(
    r: Result<(CpInfo, usize), MalformedClassFile>,
    kind: u8,
) -> bool {
    match r {
        Err(MalformedClassFile::EntryNotOneOf { entry_name, value_read, values_allowed }) => {
            &&& entry_name == EntryName::ConstantPoolMethodHandleReferenceKind
            &&& value_read == kind as u64
            &&& values_allowed@ == mh_kinds()
        },
        _ => false,
    }
}

/// What the bytes look like where a well-formed constant-pool entry `w`
/// occupies `data` from `pos` on: the tag byte is `w`'s, and each payload
/// field sits where its read expects it.
proof fn lemma_cp_entry_facts(w: CpInfo, data: Seq<u8>, pos: int)
    requires
        wf_cp_entry(w),
        occurs_at(ser_cp_entry(w), data, pos),
    ensures
        pos + 1 <= data.len(),
        data[pos] == cp_entry_tag(w),
        w matches CpInfo::Utf8(x) ==> pos + 3 + x.bytes@.len() <= data.len() && u16_of(
            data[pos + 1],
            data[pos + 2],
        ) == x.bytes@.len() as u16 && data.subrange(pos + 3, pos + 3 + x.bytes@.len() as int)
            == x.bytes@,
        w matches CpInfo::MethodHandle(x) ==> pos + 4 <= data.len() && data[pos + 1]
            == mh_kind_value(x.reference_kind),
        (w is Integer || w is Float) ==> pos + 5 <= data.len(),
        (w is Long || w is Double) ==> pos + 9 <= data.len(),
        (w is Class || w is String || w is MethodType || w is Module || w is Package) ==> pos + 3
            <= data.len(),
        (w is FieldRef || w is MethodRef || w is InterfaceMethodRef || w is NameAndType || w
            is Dynamic || w is InvokeDynamic) ==> pos + 5 <= data.len(),
{
    assert(data.subrange(pos, pos + ser_cp_entry(w).len() as int)[0] == data[pos]);
    match w {
        CpInfo::Utf8(x) => {
            lemma_occurs_split(
                seq![1u8] + ser_u16(x.bytes@.len() as u16),
                x.bytes@,
                data,
                pos,
            );
            lemma_occurs_split(seq![1u8], ser_u16(x.bytes@.len() as u16), data, pos);
            lemma_u16_occurs(x.bytes@.len() as u16, data, pos + 1);
        },
        CpInfo::MethodHandle(x) => {
            assert(data.subrange(pos, pos + ser_cp_entry(w).len() as int)[1] == data[pos + 1]);
            assert(ser_cp_entry(w)[1] == mh_kind_value(x.reference_kind));
        },
        _ => {
        },
    }
}

/// Decodes one constant-pool entry at `pos`: a tag byte, then the payload the
/// tag selects.  On success the entry is well formed and serializes to
/// exactly the consumed bytes; and wherever a well-formed entry's bytes begin
/// at `pos`, success is owed.  An unknown tag and an out-of-range
/// method-handle reference kind fail with errors listing the allowed values,
/// and a text entry whose byte run violates the text encoding fails with
/// exactly that codec error.
pub fn read_constant_pool_entry(data: &Vec<u8>, pos: usize) -> (r: Result<
    (CpInfo, usize),
    MalformedClassFile,
>)
    requires
        pos <= data@.len(),
    ensures
        r matches Ok((e, end)) ==> {
            &&& pos < end <= data@.len()
            &&& wf_cp_entry(e)
            &&& ser_cp_entry(e) == data@.subrange(pos as int, end as int)
        },
        pos >= data@.len() ==> r == Err::<(CpInfo, usize), MalformedClassFile>(
            MalformedClassFile::UnexpectedEof,
        ),
        pos < data@.len() && !cp_tag_known(data@[pos as int]) ==> is_unknown_cp_tag_error(
            r,
            data@[pos as int],
        ),
        pos + 2 <= data@.len() && data@[pos as int] == 15 && !(1 <= data@[pos + 1] <= 9)
            ==> is_bad_mh_kind_error(r, data@[pos + 1]),
        cp_entry_at(data@, pos as int) ==> r is Ok,
        pos + 3 <= data@.len() && data@[pos as int] == 1 && pos + 3 + (u16_of(
            data@[pos + 1],
            data@[pos + 2],
        ) as int) <= data@.len() && (mutf8_decode(
            data@.subrange(pos + 3, pos + 3 + u16_of(data@[pos + 1], data@[pos + 2]) as int),
            0,
        ) is Err) ==> r == Err::<(CpInfo, usize), MalformedClassFile>(
            MalformedClassFile::ModifiedUtf8(
                mutf8_decode(
                    data@.subrange(
                        pos + 3,
                        pos + 3 + u16_of(data@[pos + 1], data@[pos + 2]) as int,
                    ),
                    0,
                )->Err_0,
            ),
        ),
{
    proof {
        if cp_entry_at(data@, pos as int) {
            let w = choose|e: CpInfo|
                wf_cp_entry(e) && occurs_at(ser_cp_entry(e), data@, pos as int);
            lemma_cp_entry_facts(w, data@, pos as int);
        }
    }
    let (tag, p1) = read_u8(data, pos)?;
    match tag {
        1 => {
            let (length, p2) = read_u16(data, p1)?;
            let (bytes, p3) = read_bytes(data, p2, length as usize)?;
            let converted = match modified_utf8_to_string(&bytes) {
                Ok(text) => text,
                Err(e) => {
                    return Err(MalformedClassFile::ModifiedUtf8(e));
                },
            };
            let e = CpInfo::Utf8(CpUtf8 { bytes, converted });
            proof {
                assert(seq![1u8] =~= data@.subrange(pos as int, p1 as int));
                lemma_concat_subranges(data@, pos as int, p1 as int, p2 as int);
                lemma_concat_subranges(data@, pos as int, p2 as int, p3 as int);
                assert(ser_cp_entry(e) == data@.subrange(pos as int, p3 as int));
            }
            Ok((e, p3))
        },
        3 => {
            let (b0, q1) = read_u8(data, p1)?;
            let (b1, q2) = read_u8(data, q1)?;
            let (b2, q3) = read_u8(data, q2)?;
            let (b3, p2) = read_u8(data, q3)?;
            let e = CpInfo::Integer(CpInteger { bytes: [b0, b1, b2, b3] });
            proof {
                assert(ser_cp_entry(e) =~= data@.subrange(pos as int, p2 as int));
            }
            Ok((e, p2))
        },
        4 => {
            let (b0, q1) = read_u8(data, p1)?;
            let (b1, q2) = read_u8(data, q1)?;
            let (b2, q3) = read_u8(data, q2)?;
            let (b3, p2) = read_u8(data, q3)?;
            let e = CpInfo::Float(CpFloat { bytes: [b0, b1, b2, b3] });
            proof {
                assert(ser_cp_entry(e) =~= data@.subrange(pos as int, p2 as int));
            }
            Ok((e, p2))
        },
        5 => {
            let (high_bytes, p2) = read_u32(data, p1)?;
            let (low_bytes, p3) = read_u32(data, p2)?;
            let e = CpInfo::Long(CpLong { high_bytes, low_bytes });
            proof {
                assert(seq![5u8] =~= data@.subrange(pos as int, p1 as int));
                lemma_concat_subranges(data@, pos as int, p1 as int, p2 as int);
                lemma_concat_subranges(data@, pos as int, p2 as int, p3 as int);
                assert(ser_cp_entry(e) == data@.subrange(pos as int, p3 as int));
            }
            Ok((e, p3))
        },
        6 => {
            let (high_bytes, p2) = read_u32(data, p1)?;
            let (low_bytes, p3) = read_u32(data, p2)?;
            let e = CpInfo::Double(CpDouble { high_bytes, low_bytes });
            proof {
                assert(seq![6u8] =~= data@.subrange(pos as int, p1 as int));
                lemma_concat_subranges(data@, pos as int, p1 as int, p2 as int);
                lemma_concat_subranges(data@, pos as int, p2 as int, p3 as int);
                assert(ser_cp_entry(e) == data@.subrange(pos as int, p3 as int));
            }
            Ok((e, p3))
        },
        7 => {
            let (name_index, p2) = read_u16(data, p1)?;
            let e = CpInfo::Class(CpClass { name_index });
            proof {
                assert(seq![7u8] =~= data@.subrange(pos as int, p1 as int));
                lemma_concat_subranges(data@, pos as int, p1 as int, p2 as int);
                assert(ser_cp_entry(e) == data@.subrange(pos as int, p2 as int));
            }
            Ok((e, p2))
        },
        8 => {
            let (string_index, p2) = read_u16(data, p1)?;
            let e = CpInfo::String(CpString { string_index });
            proof {
                assert(seq![8u8] =~= data@.subrange(pos as int, p1 as int));
                lemma_concat_subranges(data@, pos as int, p1 as int, p2 as int);
                assert(ser_cp_entry(e) == data@.subrange(pos as int, p2 as int));
            }
            Ok((e, p2))
        },
        9 => {
            let (class_index, p2) = read_u16(data, p1)?;
            let (name_and_type_index, p3) = read_u16(data, p2)?;
            let e = CpInfo::FieldRef(CpFieldRef { class_index, name_and_type_index });
            proof {
                assert(seq![9u8] =~= data@.subrange(pos as int, p1 as int));
                lemma_concat_subranges(data@, pos as int, p1 as int, p2 as int);
                lemma_concat_subranges(data@, pos as int, p2 as int, p3 as int);
                assert(ser_cp_entry(e) == data@.subrange(pos as int, p3 as int));
            }
            Ok((e, p3))
        },
        10 => {
            let (class_index, p2) = read_u16(data, p1)?;
            let (name_and_type_index, p3) = read_u16(data, p2)?;
            let e = CpInfo::MethodRef(CpMethodRef { class_index, name_and_type_index });
            proof {
                assert(seq![10u8] =~= data@.subrange(pos as int, p1 as int));
                lemma_concat_subranges(data@, pos as int, p1 as int, p2 as int);
                lemma_concat_subranges(data@, pos as int, p2 as int, p3 as int);
                assert(ser_cp_entry(e) == data@.subrange(pos as int, p3 as int));
            }
            Ok((e, p3))
        },
        11 => {
            let (class_index, p2) = read_u16(data, p1)?;
            let (name_and_type_index, p3) = read_u16(data, p2)?;
            let e = CpInfo::InterfaceMethodRef(
                CpInterfaceMethodRef { class_index, name_and_type_index },
            );
            proof {
                assert(seq![11u8] =~= data@.subrange(pos as int, p1 as int));
                lemma_concat_subranges(data@, pos as int, p1 as int, p2 as int);
                lemma_concat_subranges(data@, pos as int, p2 as int, p3 as int);
                assert(ser_cp_entry(e) == data@.subrange(pos as int, p3 as int));
            }
            Ok((e, p3))
        },
        12 => {
            let (name_index, p2) = read_u16(data, p1)?;
            let (descriptor_index, p3) = read_u16(data, p2)?;
            let e = CpInfo::NameAndType(CpNameAndType { name_index, descriptor_index });
            proof {
                assert(seq![12u8] =~= data@.subrange(pos as int, p1 as int));
                lemma_concat_subranges(data@, pos as int, p1 as int, p2 as int);
                lemma_concat_subranges(data@, pos as int, p2 as int, p3 as int);
                assert(ser_cp_entry(e) == data@.subrange(pos as int, p3 as int));
            }
            Ok((e, p3))
        },
        15 => {
            let (kind_byte, p2) = read_u8(data, p1)?;
            let reference_kind = match MethodHandleReferenceKind::try_from(kind_byte) {
                Ok(kind) => kind,
                Err(_) => {
                    return Err(
                        MalformedClassFile::entry_not_one_of(
                            EntryName::ConstantPoolMethodHandleReferenceKind,
                            kind_byte as u64,
                            vec![1u8, 2u8, 3u8, 4u8, 5u8, 6u8, 7u8, 8u8, 9u8],
                        ),
                    );
                },
            };
            let (reference_index, p3) = read_u16(data, p2)?;
            let e = CpInfo::MethodHandle(CpMethodHandle { reference_kind, reference_index });
            proof {
                assert(seq![15u8, mh_kind_value(reference_kind)] =~= data@.subrange(
                    pos as int,
                    p2 as int,
                ));
                lemma_concat_subranges(data@, pos as int, p2 as int, p3 as int);
                assert(ser_cp_entry(e) == data@.subrange(pos as int, p3 as int));
            }
            Ok((e, p3))
        },
        16 => {
            let (descriptor_index, p2) = read_u16(data, p1)?;
            let e = CpInfo::MethodType(CpMethodType { descriptor_index });
            proof {
                assert(seq![16u8] =~= data@.subrange(pos as int, p1 as int));
                lemma_concat_subranges(data@, pos as int, p1 as int, p2 as int);
                assert(ser_cp_entry(e) == data@.subrange(pos as int, p2 as int));
            }
            Ok((e, p2))
        },
        17 => {
            let (bootstrap_method_attr_index, p2) = read_u16(data, p1)?;
            let (name_and_type_index, p3) = read_u16(data, p2)?;
            let e = CpInfo::Dynamic(CpDynamic { bootstrap_method_attr_index, name_and_type_index });
            proof {
                assert(seq![17u8] =~= data@.subrange(pos as int, p1 as int));
                lemma_concat_subranges(data@, pos as int, p1 as int, p2 as int);
                lemma_concat_subranges(data@, pos as int, p2 as int, p3 as int);
                assert(ser_cp_entry(e) == data@.subrange(pos as int, p3 as int));
            }
            Ok((e, p3))
        },
        18 => {
            let (bootstrap_method_attr_index, p2) = read_u16(data, p1)?;
            let (name_and_type_index, p3) = read_u16(data, p2)?;
            let e = CpInfo::InvokeDynamic(
                CpInvokeDynamic { bootstrap_method_attr_index, name_and_type_index },
            );
            proof {
                assert(seq![18u8] =~= data@.subrange(pos as int, p1 as int));
                lemma_concat_subranges(data@, pos as int, p1 as int, p2 as int);
                lemma_concat_subranges(data@, pos as int, p2 as int, p3 as int);
                assert(ser_cp_entry(e) == data@.subrange(pos as int, p3 as int));
            }
            Ok((e, p3))
        },
        19 => {
            let (name_index, p2) = read_u16(data, p1)?;
            let e = CpInfo::Module(CpModule { name_index });
            proof {
                assert(seq![19u8] =~= data@.subrange(pos as int, p1 as int));
                lemma_concat_subranges(data@, pos as int, p1 as int, p2 as int);
                assert(ser_cp_entry(e) == data@.subrange(pos as int, p2 as int));
            }
            Ok((e, p2))
        },
        20 => {
            let (name_index, p2) = read_u16(data, p1)?;
            let e = CpInfo::Package(CpPackage { name_index });
            proof {
                assert(seq![20u8] =~= data@.subrange(pos as int, p1 as int));
                lemma_concat_subranges(data@, pos as int, p1 as int, p2 as int);
                assert(ser_cp_entry(e) == data@.subrange(pos as int, p2 as int));
            }
            Ok((e, p2))
        },
        _ => {
            Err(
                MalformedClassFile::entry_not_one_of(
                    EntryName::ConstantPoolTag,
                    tag as u64,
                    vec![
                        1u8,
                        3u8,
                        4u8,
                        5u8,
                        6u8,
                        7u8,
                        8u8,
                        9u8,
                        10u8,
                        11u8,
                        12u8,
                        15u8,
                        16u8,
                        17u8,
                        18u8,
                        19u8,
                        20u8,
                    ],
                ),
            )
        },
    }
}

/// Decodes the constant pool.  The pool is 1-indexed: a placeholder entry is
/// put at index 0 and `constant_pool_count - 1` entries are read, so a pool
/// declared with count N holds exactly N entries.  (A declared count of 0,
/// which the format does not produce, yields just the placeholder.)
pub fn read_constant_pool(data: &Vec<u8>, pos: usize, constant_pool_count: u16) -> (r: Result<
    (Vec<CpInfo>, usize),
    MalformedClassFile,
>)
    requires
        pos <= data@.len(),
    ensures
        r matches Ok((pool, end)) ==> {
            &&& pos <= end <= data@.len()
            &&& pool@.len() == (if constant_pool_count == 0 {
                1int
            } else {
                constant_pool_count as int
            })
            &&& (pool@[0] matches CpInfo::Integer(d) && d.bytes@ == seq![0u8, 0u8, 0u8, 0u8])
            &&& (forall|i: int| 1 <= i < pool@.len() ==> wf_cp_entry(#[trigger] pool@[i]))
            &&& ser_cp_seq(pool@.drop_first()) == data@.subrange(pos as int, end as int)
        },
        cp_entries_at(
            data@,
            pos as int,
            if constant_pool_count == 0 {
                0int
            } else {
                constant_pool_count - 1
            },
        ) ==> r is Ok,
{
    let mut constant_pool: Vec<CpInfo> = Vec::new();
    constant_pool.push(CpInfo::Integer(CpInteger { bytes: [0u8; 4] }));
    let entries: u16 = if constant_pool_count == 0 {
        0
    } else {
        constant_pool_count - 1
    };
    let ghost decodable = cp_entries_at(data@, pos as int, entries as int);
    let ghost w: Seq<CpInfo> = if decodable {
        choose|l: Seq<CpInfo>|
            l.len() == entries as int && (forall|i: int|
                0 <= i < l.len() ==> wf_cp_entry(#[trigger] l[i])) && occurs_at(
                ser_cp_seq(l),
                data@,
                pos as int,
            )
    } else {
        Seq::empty()
    };
    let mut p = pos;
    let mut k: u16 = 0;
    proof {
        assert(constant_pool@.drop_first() =~= Seq::<CpInfo>::empty());
        assert(ser_cp_seq(constant_pool@.drop_first()) =~= data@.subrange(pos as int, pos as int));
        if decodable {
            assert(w.skip(0) =~= w);
        }
    }
    while k < entries
        invariant
            pos <= p <= data@.len(),
            k <= entries,
            decodable == cp_entries_at(data@, pos as int, entries as int),
            entries as int == (if constant_pool_count == 0 {
                0int
            } else {
                constant_pool_count - 1
            }),
            constant_pool@.len() == 1 + k,
            (constant_pool@[0] matches CpInfo::Integer(d) && d.bytes@ == seq![
                0u8,
                0u8,
                0u8,
                0u8,
            ]),
            forall|i: int| 1 <= i < constant_pool@.len() ==> wf_cp_entry(
                #[trigger] constant_pool@[i],
            ),
            ser_cp_seq(constant_pool@.drop_first()) == data@.subrange(pos as int, p as int),
            decodable ==> w.len() == entries as int && (forall|i: int|
                0 <= i < w.len() ==> wf_cp_entry(#[trigger] w[i])) && occurs_at(
                ser_cp_seq(w.skip(k as int)),
                data@,
                p as int,
            ),
        decreases entries - k,
    {
        proof {
            if decodable {
                assert(w.skip(k as int)[0] == w[k as int]);
                assert(w.skip(k as int).drop_first() =~= w.skip(k as int + 1));
                lemma_occurs_split(
                    ser_cp_entry(w[k as int]),
                    ser_cp_seq(w.skip(k as int + 1)),
                    data@,
                    p as int,
                );
                assert(cp_entry_at(data@, p as int));
            }
        }
        let (e, p2) = read_constant_pool_entry(data, p)?;
        proof {
            lemma_ser_cp_seq_snoc(constant_pool@.drop_first(), e);
            assert(constant_pool@.push(e).drop_first() =~= constant_pool@.drop_first().push(e));
            lemma_concat_subranges(data@, pos as int, p as int, p2 as int);
            if decodable {
                let hl = ser_cp_entry(w[k as int]).len() as int;
                let s1 = data@.subrange(p2 as int, data@.len() as int);
                let s2 = data@.subrange(p + hl, data@.len() as int);
                assert(ser_cp_entry(e) + s1 =~= data@.subrange(p as int, data@.len() as int));
                assert(ser_cp_entry(w[k as int]) + s2 =~= data@.subrange(
                    p as int,
                    data@.len() as int,
                ));
                lemma_cp_entry_unamb(e, w[k as int], s1, s2);
            }
        }
        constant_pool.push(e);
        p = p2;
        k = k + 1;
    }
    Ok((constant_pool, p))
}


/// Whether `t` selects some stack-map frame kind: every value up to 127 and
/// from 247 up does; 128 through 246 select nothing.
pub open spec fn frame_type_known(t: u8) -> bool {
    t <= 127 || t >= 247
}

/// What the bytes look like where a verification-type descriptor occupies
/// `data` from `q` on.
proof fn lemma_vtype_facts(v: VerificationTypeInfo, data: Seq<u8>, q: int)
    requires
        occurs_at(ser_vtype(v), data, q),
    ensures
        0 <= q < data.len(),
        data[q] == vtype_tag(v),
        (v is ObjectVariable || v is UninitializedVariable) ==> q + 3 <= data.len(),
{
    assert(data.subrange(q, q + ser_vtype(v).len() as int)[0] == data[q]);
}

/// What the bytes look like where a well-formed stack-map frame occupies
/// `data` from `pos` on.
proof fn lemma_frame_facts(w: StackMapFrame, data: Seq<u8>, pos: int)
    requires
        wf_frame(w),
        occurs_at(ser_frame(w), data, pos),
    ensures
        0 <= pos < data.len(),
        data[pos] == frame_tag(w),
        w matches StackMapFrame::SameLocals1StackItemFrame(x) ==> occurs_at(
            ser_vtype(x.stack_entry),
            data,
            pos + 1,
        ),
        w matches StackMapFrame::SameLocals1StackItemFrameExtended(x) ==> pos + 3 <= data.len()
            && occurs_at(ser_vtype(x.stack_entry), data, pos + 3),
        (w is ChopFrame || w is SameFrameExtended) ==> pos + 3 <= data.len(),
        w matches StackMapFrame::AppendFrame(x) ==> pos + 3 <= data.len() && occurs_at(
            ser_vtype_seq(x.locals@),
            data,
            pos + 3,
        ),
        w matches StackMapFrame::FullFrame(x) ==> pos + 5 <= data.len() && u16_of(
            data[pos + 3],
            data[pos + 4],
        ) == x.locals@.len() as u16 && occurs_at(ser_vtype_seq(x.locals@), data, pos + 5)
            && occurs_at(
            ser_u16(x.stack@.len() as u16) + ser_vtype_seq(x.stack@),
            data,
            pos + 5 + ser_vtype_seq(x.locals@).len(),
        ),
{
    assert(data.subrange(pos, pos + ser_frame(w).len() as int)[0] == data[pos]);
    match w {
        StackMapFrame::SameLocals1StackItemFrame(x) => {
            lemma_occurs_split(seq![x.frame_type], ser_vtype(x.stack_entry), data, pos);
        },
        StackMapFrame::SameLocals1StackItemFrameExtended(x) => {
            lemma_occurs_split(
                seq![x.frame_type] + ser_u16(x.offset_delta),
                ser_vtype(x.stack_entry),
                data,
                pos,
            );
        },
        StackMapFrame::AppendFrame(x) => {
            lemma_occurs_split(
                seq![x.frame_type] + ser_u16(x.offset_delta),
                ser_vtype_seq(x.locals@),
                data,
                pos,
            );
        },
        StackMapFrame::FullFrame(x) => {
            assert((seq![x.frame_type] + ser_u16(x.offset_delta) + ser_u16(
                x.locals@.len() as u16,
            ) + (ser_vtype_seq(x.locals@) + (ser_u16(x.stack@.len() as u16) + ser_vtype_seq(
                x.stack@,
            )))) =~= ser_frame(w));
            lemma_occurs_split(
                seq![x.frame_type] + ser_u16(x.offset_delta) + ser_u16(x.locals@.len() as u16),
                ser_vtype_seq(x.locals@) + (ser_u16(x.stack@.len() as u16) + ser_vtype_seq(
                    x.stack@,
                )),
                data,
                pos,
            );
            lemma_occurs_split(
                seq![x.frame_type] + ser_u16(x.offset_delta),
                ser_u16(x.locals@.len() as u16),
                data,
                pos,
            );
            assert((seq![x.frame_type] + ser_u16(x.offset_delta) + ser_u16(
                x.locals@.len() as u16,
            )) =~= (seq![x.frame_type] + ser_u16(x.offset_delta)) + ser_u16(
                x.locals@.len() as u16,
            ));
            lemma_u16_occurs(x.locals@.len() as u16, data, pos + 3);
            lemma_occurs_split(
                ser_vtype_seq(x.locals@),
                ser_u16(x.stack@.len() as u16) + ser_vtype_seq(x.stack@),
                data,
                pos + 5,
            );
        },
        _ => {
        },
    }
}

/// Decodes one verification-type descriptor: a tag byte 0 through 8, of
/// which 7 carries a pool index and 8 a bytecode offset.  The contract is
/// exact: it says on which inputs each outcome comes.
pub fn read_verification_type_info(data: &Vec<u8>, pos: usize) -> (r: Result<
    (VerificationTypeInfo, usize),
    MalformedClassFile,
>)
    requires
        pos <= data@.len(),
    ensures
        r matches Ok((v, end)) ==> {
            &&& pos < end <= data@.len()
            &&& ser_vtype(v) == data@.subrange(pos as int, end as int)
        },
        pos >= data@.len() ==> r == Err::<(VerificationTypeInfo, usize), MalformedClassFile>(
            MalformedClassFile::UnexpectedEof,
        ),
        pos < data@.len() && data@[pos as int] > 8 ==> r == Err::<
            (VerificationTypeInfo, usize),
            MalformedClassFile,
        >(MalformedClassFile::UnknownVerificationTypeTag { tag: data@[pos as int] }),
        pos < data@.len() && data@[pos as int] <= 6 ==> r is Ok,
        pos + 3 <= data@.len() && (data@[pos as int] == 7 || data@[pos as int] == 8) ==> r is Ok,
        pos < data@.len() && (data@[pos as int] == 7 || data@[pos as int] == 8) && pos + 3
            > data@.len() ==> r == Err::<(VerificationTypeInfo, usize), MalformedClassFile>(
            MalformedClassFile::UnexpectedEof,
        ),
{
    let (tag, p1) = read_u8(data, pos)?;
    match tag {
        0 => {
            let v = VerificationTypeInfo::TopVariable(VerificationTypeTopVariableInfo {});
            proof {
                assert(ser_vtype(v) =~= data@.subrange(pos as int, p1 as int));
            }
            Ok((v, p1))
        },
        1 => {
            let v = VerificationTypeInfo::IntegerVariable(VerificationTypeIntegerVariableInfo {});
            proof {
                assert(ser_vtype(v) =~= data@.subrange(pos as int, p1 as int));
            }
            Ok((v, p1))
        },
        2 => {
            let v = VerificationTypeInfo::FloatVariable(VerificationTypeFloatVariableInfo {});
            proof {
                assert(ser_vtype(v) =~= data@.subrange(pos as int, p1 as int));
            }
            Ok((v, p1))
        },
        5 => {
            let v = VerificationTypeInfo::NullVariable(VerificationTypeNullVariableInfo {});
            proof {
                assert(ser_vtype(v) =~= data@.subrange(pos as int, p1 as int));
            }
            Ok((v, p1))
        },
        6 => {
            let v = VerificationTypeInfo::UninitializedThisVariable(
                VerificationTypeUninitializedThisVariableInfo {},
            );
            proof {
                assert(ser_vtype(v) =~= data@.subrange(pos as int, p1 as int));
            }
            Ok((v, p1))
        },
        7 => {
            let (cpool_index, p2) = read_u16(data, p1)?;
            let v = VerificationTypeInfo::ObjectVariable(
                VerificationTypeObjectVariableInfo { cpool_index },
            );
            proof {
                assert(seq![7u8] =~= data@.subrange(pos as int, p1 as int));
                lemma_concat_subranges(data@, pos as int, p1 as int, p2 as int);
                assert(ser_vtype(v) == data@.subrange(pos as int, p2 as int));
            }
            Ok((v, p2))
        },
        8 => {
            let (offset, p2) = read_u16(data, p1)?;
            let v = VerificationTypeInfo::UninitializedVariable(
                VerificationTypeUninitializedVariableInfo { offset },
            );
            proof {
                assert(seq![8u8] =~= data@.subrange(pos as int, p1 as int));
                lemma_concat_subranges(data@, pos as int, p1 as int, p2 as int);
                assert(ser_vtype(v) == data@.subrange(pos as int, p2 as int));
            }
            Ok((v, p2))
        },
        4 => {
            let v = VerificationTypeInfo::LongVariable(VerificationTypeLongVariableInfo {});
            proof {
                assert(ser_vtype(v) =~= data@.subrange(pos as int, p1 as int));
            }
            Ok((v, p1))
        },
        3 => {
            let v = VerificationTypeInfo::DoubleVariable(VerificationTypeDoubleVariableInfo {});
            proof {
                assert(ser_vtype(v) =~= data@.subrange(pos as int, p1 as int));
            }
            Ok((v, p1))
        },
        _ => Err(MalformedClassFile::UnknownVerificationTypeTag { tag }),
    }
}

/// Decodes a counted run of verification-type descriptors.
fn read_verification_types(data: &Vec<u8>, pos: usize, count: u16) -> (r: Result<
    (Vec<VerificationTypeInfo>, usize),
    MalformedClassFile,
>)
    requires
        pos <= data@.len(),
    ensures
        r matches Ok((l, end)) ==> {
            &&& pos <= end <= data@.len()
            &&& l@.len() == count
            &&& ser_vtype_seq(l@) == data@.subrange(pos as int, end as int)
        },
        vtypes_at(data@, pos as int, count as int) ==> r is Ok,
{
    let mut l: Vec<VerificationTypeInfo> = Vec::new();
    let ghost decodable = vtypes_at(data@, pos as int, count as int);
    let ghost w: Seq<VerificationTypeInfo> = if decodable {
        choose|l_g: Seq<VerificationTypeInfo>| l_g.len() == count as int && occurs_at(ser_vtype_seq(l_g), data@, pos as int)
    } else {
        Seq::empty()
    };
    let mut p = pos;
    let mut k: u16 = 0;
    proof {
        assert(ser_vtype_seq(l@) =~= data@.subrange(pos as int, pos as int));
        if decodable {
            assert(w.skip(0) =~= w);
        }
    }
    while k < count
        invariant
            decodable == (vtypes_at(data@, pos as int, count as int)),
            decodable ==> w.len() == (count as int) && true && occurs_at(
                ser_vtype_seq(w.skip(k as int)),
                data@,
                p as int,
            ),
            pos <= p <= data@.len(),
            k <= count,
            l@.len() == k,
            ser_vtype_seq(l@) == data@.subrange(pos as int, p as int),
        decreases count - k,
    {
        proof {
            if decodable {
                assert(w.skip(k as int)[0] == w[k as int]);
                assert(w.skip(k as int).drop_first() =~= w.skip(k as int + 1));
                lemma_occurs_split(
                    ser_vtype(w[k as int]),
                    ser_vtype_seq(w.skip(k as int + 1)),
                    data@,
                    p as int,
                );
                lemma_vtype_facts(w[k as int], data@, p as int);
            }
        }
        let (v, p2) = read_verification_type_info(data, p)?;
        proof {
            if decodable {
                let s1 = data@.subrange(p2 as int, data@.len() as int);
                let s2 = data@.subrange(
                    p + ser_vtype(w[k as int]).len(),
                    data@.len() as int,
                );
                assert(ser_vtype(v) + s1 =~= data@.subrange(p as int, data@.len() as int));
                assert(ser_vtype(w[k as int]) + s2 =~= data@.subrange(
                    p as int,
                    data@.len() as int,
                ));
                lemma_vtype_unamb(v, w[k as int], s1, s2);
            }
            lemma_ser_vtype_seq_snoc(l@, v);
            lemma_concat_subranges(data@, pos as int, p as int, p2 as int);
        }
        l.push(v);
        p = p2;
        k = k + 1;
    }
    Ok((l, p))
}

/// Decodes one stack-map frame: the leading byte selects the kind by exact
/// value or range, and the payload follows.  On success the frame is well
/// formed and serializes to exactly the consumed bytes; a leading byte in
/// 128 through 246 fails naming it.
pub fn read_stack_map_frame(data: &Vec<u8>, pos: usize) -> (r: Result<
    (StackMapFrame, usize),
    MalformedClassFile,
>)
    requires
        pos <= data@.len(),
    ensures
        r matches Ok((f, end)) ==> {
            &&& pos < end <= data@.len()
            &&& wf_frame(f)
            &&& ser_frame(f) == data@.subrange(pos as int, end as int)
        },
        pos >= data@.len() ==> r == Err::<(StackMapFrame, usize), MalformedClassFile>(
            MalformedClassFile::UnexpectedEof,
        ),
        pos < data@.len() && !frame_type_known(data@[pos as int]) ==> r == Err::<
            (StackMapFrame, usize),
            MalformedClassFile,
        >(MalformedClassFile::UnknownStackMapFrameType { frame_type: data@[pos as int] }),
        frame_at(data@, pos as int) ==> r is Ok,
{
    proof {
        if frame_at(data@, pos as int) {
            let w = choose|f: StackMapFrame|
                wf_frame(f) && occurs_at(ser_frame(f), data@, pos as int);
            lemma_frame_facts(w, data@, pos as int);
            if w is SameLocals1StackItemFrame {
                lemma_vtype_facts(w->SameLocals1StackItemFrame_0.stack_entry, data@, pos + 1);
            }
            if w is SameLocals1StackItemFrameExtended {
                lemma_vtype_facts(
                    w->SameLocals1StackItemFrameExtended_0.stack_entry,
                    data@,
                    pos + 3,
                );
            }
            if w is AppendFrame {
                let x = w->AppendFrame_0;
                assert(vtypes_at(data@, pos + 3, x.locals@.len() as int)) by {
                    assert(occurs_at(ser_vtype_seq(x.locals@), data@, pos + 3));
                }
            }
            if w is FullFrame {
                let x = w->FullFrame_0;
                assert(vtypes_at(data@, pos + 5, x.locals@.len() as int)) by {
                    assert(occurs_at(ser_vtype_seq(x.locals@), data@, pos + 5));
                }
            }
        }
    }
    let (frame_type, p1) = read_u8(data, pos)?;
    if frame_type <= 63 {
        let f = StackMapFrame::SameFrame(StackMapSameFrame { frame_type });
        proof {
            assert(ser_frame(f) =~= data@.subrange(pos as int, p1 as int));
        }
        Ok((f, p1))
    } else if frame_type <= 127 {
        let (stack_entry, p2) = read_verification_type_info(data, p1)?;
        let f = StackMapFrame::SameLocals1StackItemFrame(
            StackMapSameLocals1StackItemFrame { frame_type, stack_entry },
        );
        proof {
            assert(seq![frame_type] =~= data@.subrange(pos as int, p1 as int));
            lemma_concat_subranges(data@, pos as int, p1 as int, p2 as int);
            assert(ser_frame(f) == data@.subrange(pos as int, p2 as int));
        }
        Ok((f, p2))
    } else if frame_type == 247 {
        let (offset_delta, p2) = read_u16(data, p1)?;
        let (stack_entry, p3) = read_verification_type_info(data, p2)?;
        let f = StackMapFrame::SameLocals1StackItemFrameExtended(
            StackMapSameLocals1StackItemFrameExtended { frame_type, offset_delta, stack_entry },
        );
        proof {
            assert(seq![frame_type] =~= data@.subrange(pos as int, p1 as int));
            lemma_concat_subranges(data@, pos as int, p1 as int, p2 as int);
            lemma_concat_subranges(data@, pos as int, p2 as int, p3 as int);
            assert(ser_frame(f) == data@.subrange(pos as int, p3 as int));
        }
        Ok((f, p3))
    } else if 248 <= frame_type && frame_type <= 250 {
        let (offset_delta, p2) = read_u16(data, p1)?;
        let f = StackMapFrame::ChopFrame(StackMapChopFrame { frame_type, offset_delta });
        proof {
            assert(seq![frame_type] =~= data@.subrange(pos as int, p1 as int));
            lemma_concat_subranges(data@, pos as int, p1 as int, p2 as int);
            assert(ser_frame(f) == data@.subrange(pos as int, p2 as int));
        }
        Ok((f, p2))
    } else if frame_type == 251 {
        let (offset_delta, p2) = read_u16(data, p1)?;
        let f = StackMapFrame::SameFrameExtended(
            StackMapSameFrameExtended { frame_type, offset_delta },
        );
        proof {
            assert(seq![frame_type] =~= data@.subrange(pos as int, p1 as int));
            lemma_concat_subranges(data@, pos as int, p1 as int, p2 as int);
            assert(ser_frame(f) == data@.subrange(pos as int, p2 as int));
        }
        Ok((f, p2))
    } else if 252 <= frame_type && frame_type <= 254 {
        let (offset_delta, p2) = read_u16(data, p1)?;
        let number_of_locals: u16 = (frame_type - 251) as u16;
        let (locals, p3) = read_verification_types(data, p2, number_of_locals)?;
        let f = StackMapFrame::AppendFrame(StackMapAppendFrame { frame_type, offset_delta, locals });
        proof {
            assert(seq![frame_type] =~= data@.subrange(pos as int, p1 as int));
            lemma_concat_subranges(data@, pos as int, p1 as int, p2 as int);
            lemma_concat_subranges(data@, pos as int, p2 as int, p3 as int);
            assert(ser_frame(f) == data@.subrange(pos as int, p3 as int));
        }
        Ok((f, p3))
    } else if frame_type == 255 {
        let (offset_delta, p2) = read_u16(data, p1)?;
        let (number_of_locals, p3) = read_u16(data, p2)?;
        let (locals, p4) = read_verification_types(data, p3, number_of_locals)?;
        proof {
            if frame_at(data@, pos as int) {
                let w = choose|f: StackMapFrame|
                    wf_frame(f) && occurs_at(ser_frame(f), data@, pos as int);
                lemma_frame_facts(w, data@, pos as int);
                let x = w->FullFrame_0;
                let s1 = data@.subrange(p4 as int, data@.len() as int);
                let s2 = data@.subrange(
                    pos + 5 + ser_vtype_seq(x.locals@).len(),
                    data@.len() as int,
                );
                assert(ser_vtype_seq(locals@) + s1 =~= data@.subrange(
                    p3 as int,
                    data@.len() as int,
                ));
                assert(ser_vtype_seq(x.locals@) + s2 =~= data@.subrange(
                    p3 as int,
                    data@.len() as int,
                ));
                assert(locals@.len() == x.locals@.len());
                lemma_vtype_seq_unamb(locals@, x.locals@, s1, s2);
                lemma_occurs_split(
                    ser_u16(x.stack@.len() as u16),
                    ser_vtype_seq(x.stack@),
                    data@,
                    pos + 5 + ser_vtype_seq(x.locals@).len(),
                );
                lemma_u16_occurs(
                    x.stack@.len() as u16,
                    data@,
                    pos + 5 + ser_vtype_seq(x.locals@).len(),
                );
                assert(vtypes_at(data@, p4 + 2, x.stack@.len() as int)) by {
                    assert(occurs_at(
                        ser_vtype_seq(x.stack@),
                        data@,
                        pos + 5 + ser_vtype_seq(x.locals@).len() + 2,
                    ));
                }
            }
        }
        let (number_of_stack_items, p5) = read_u16(data, p4)?;
        let (stack, p6) = read_verification_types(data, p5, number_of_stack_items)?;
        let f = StackMapFrame::FullFrame(
            StackMapFullFrame { frame_type, offset_delta, locals, stack },
        );
        proof {
            assert(seq![frame_type] =~= data@.subrange(pos as int, p1 as int));
            lemma_concat_subranges(data@, pos as int, p1 as int, p2 as int);
            lemma_concat_subranges(data@, pos as int, p2 as int, p3 as int);
            lemma_concat_subranges(data@, pos as int, p3 as int, p4 as int);
            lemma_concat_subranges(data@, pos as int, p4 as int, p5 as int);
            lemma_concat_subranges(data@, pos as int, p5 as int, p6 as int);
            assert(ser_frame(f) == data@.subrange(pos as int, p6 as int));
        }
        Ok((f, p6))
    } else {
        Err(MalformedClassFile::UnknownStackMapFrameType { frame_type })
    }
}


/// Whether `t` is one of the thirteen element-value tag characters.
pub open spec fn elem_tag_known(t: u8) -> bool {
    t == 66 || t == 67 || t == 68 || t == 70 || t == 73 || t == 74 || t == 83 || t == 90 || t
        == 115 || t == 101 || t == 99 || t == 64 || t == 91
}

/// Whether `t` selects some type-annotation target shape.
pub open spec fn target_type_known(t: u8) -> bool {
    ||| t <= 0x01
    ||| t == 0x10
    ||| 0x11 <= t <= 0x17
    ||| 0x40 <= t <= 0x4B
}

/// What the bytes look like where a well-formed element value occupies
/// `data` from `pos` on.
proof fn lemma_elem_value_facts(w: AttributeAnnotationsElementValue, data: Seq<u8>, pos: int)
    requires
        wf_elem_value(w),
        occurs_at(ser_elem_value(w), data, pos),
    ensures
        0 <= pos < data.len(),
        data[pos] == elem_value_tag(w),
        !(w is EnumClass || w is AnnotationInterface || w is ArrayType) ==> pos + 3 <= data.len(),
        w is EnumClass ==> pos + 5 <= data.len(),
        w is AnnotationInterface ==> annotation_at(data, pos + 1),
        w matches AttributeAnnotationsElementValue::ArrayType(x) ==> pos + 3 <= data.len()
            && u16_of(data[pos + 1], data[pos + 2]) == x.values@.len() as u16 && elem_values_at(
            data,
            pos + 3,
            x.values@.len() as int,
        ),
    decreases w,
{
    assert(data.subrange(pos, pos + ser_elem_value(w).len() as int)[0] == data[pos]);
    match w {
        AttributeAnnotationsElementValue::AnnotationInterface(x) => {
            lemma_occurs_split(seq![64u8], ser_annotation(x.annotation_value), data, pos);
            assert(annotation_at(data, pos + 1)) by {
                assert(wf_annotation(x.annotation_value) && occurs_at(
                    ser_annotation(x.annotation_value),
                    data,
                    pos + 1,
                ));
            }
        },
        AttributeAnnotationsElementValue::ArrayType(x) => {
            lemma_occurs_split(
                seq![91u8] + ser_u16(x.values@.len() as u16),
                ser_elem_value_seq(x.values@),
                data,
                pos,
            );
            lemma_occurs_split(seq![91u8], ser_u16(x.values@.len() as u16), data, pos);
            lemma_u16_occurs(x.values@.len() as u16, data, pos + 1);
            assert(elem_values_at(data, pos + 3, x.values@.len() as int)) by {
                assert(occurs_at(ser_elem_value_seq(x.values@), data, pos + 3));
            }
        },
        _ => {
        },
    }
}

/// What the bytes look like where a well-formed element-value pair occupies
/// `data` from `pos` on.
proof fn lemma_elem_pair_facts(w: AttributeAnnotationsElementValuePair, data: Seq<u8>, pos: int)
    requires
        wf_elem_pair(w),
        occurs_at(ser_elem_pair(w), data, pos),
    ensures
        0 <= pos,
        pos + 2 <= data.len(),
        elem_value_at(data, pos + 2),
    decreases w,
{
    lemma_occurs_split(ser_u16(w.element_name_index), ser_elem_value(w.element_value), data, pos);
    assert(elem_value_at(data, pos + 2)) by {
        assert(wf_elem_value(w.element_value) && occurs_at(
            ser_elem_value(w.element_value),
            data,
            pos + 2,
        ));
    }
}

/// What the bytes look like where a well-formed annotation occupies `data`
/// from `pos` on.
proof fn lemma_annotation_facts(w: AttributeRuntimeAnnotationsEntry, data: Seq<u8>, pos: int)
    requires
        wf_annotation(w),
        occurs_at(ser_annotation(w), data, pos),
    ensures
        0 <= pos,
        pos + 4 <= data.len(),
        u16_of(data[pos + 2], data[pos + 3]) == w.element_value_pairs@.len() as u16,
        elem_pairs_at(data, pos + 4, w.element_value_pairs@.len() as int),
    decreases w,
{
    lemma_occurs_split(
        ser_u16(w.type_index) + ser_u16(w.element_value_pairs@.len() as u16),
        ser_elem_pair_seq(w.element_value_pairs@),
        data,
        pos,
    );
    lemma_occurs_split(
        ser_u16(w.type_index),
        ser_u16(w.element_value_pairs@.len() as u16),
        data,
        pos,
    );
    lemma_u16_occurs(w.element_value_pairs@.len() as u16, data, pos + 2);
    assert(elem_pairs_at(data, pos + 4, w.element_value_pairs@.len() as int)) by {
        assert(occurs_at(ser_elem_pair_seq(w.element_value_pairs@), data, pos + 4));
    }
}

/// What the bytes look like where a well-formed type annotation occupies
/// `data` from `pos` on.  `tlen` and `plen` below name the target info's and
/// type path's byte lengths.
proof fn lemma_type_annotation_facts(
    w: AttributeRuntimeTypeAnnotationsEntry,
    data: Seq<u8>,
    pos: int,
)
    requires
        wf_type_annotation(w),
        occurs_at(ser_type_annotation(w), data, pos),
    ensures
        0 <= pos < data.len(),
        data[pos] == w.target_type,
        (w.target_info is TypeParameterTarget || w.target_info is FormalParameterTarget)
            ==> pos + 2 <= data.len(),
        w.target_info is TypeParameterBoundTarget ==> pos + 3 <= data.len(),
        (w.target_info is SuperTypeTarget || w.target_info is ThrowsTarget || w.target_info
            is CatchTarget || w.target_info is OffsetTarget) ==> pos + 3 <= data.len(),
        w.target_info is TypeArgumentTarget ==> pos + 4 <= data.len(),
        w.target_info matches AttributeRuntimeTypeAnnotationsEntryTargetInfo::LocalvarTarget(x)
            ==> pos + 3 <= data.len() && u16_of(data[pos + 1], data[pos + 2])
            == x.table@.len() as u16 && pos + 3 + 6 * x.table@.len() <= data.len(),
        data[pos + 1 + ser_target_info(w.target_info).len()] == w.target_path@.len() as u8,
        pos + 2 + ser_target_info(w.target_info).len() + 2 * w.target_path@.len() + 4
            <= data.len(),
        u16_of(
            data[pos + 4 + ser_target_info(w.target_info).len() + 2 * w.target_path@.len()],
            data[pos + 5 + ser_target_info(w.target_info).len() + 2 * w.target_path@.len()],
        ) == w.element_value_pairs@.len() as u16,
        elem_pairs_at(
            data,
            pos + 6 + ser_target_info(w.target_info).len() + 2 * w.target_path@.len(),
            w.element_value_pairs@.len() as int,
        ),
    decreases w,
{
    let tser = ser_target_info(w.target_info);
    let tlen = tser.len() as int;
    let plen = w.target_path@.len() as int;
    crate::unamb::lemma_type_path_seq_len(w.target_path@);
    assert((seq![w.target_type] + tser + seq![w.target_path@.len() as u8] + ser_type_path_seq(
        w.target_path@,
    ) + ser_u16(w.type_index) + ser_u16(w.element_value_pairs@.len() as u16)) + ser_elem_pair_seq(
        w.element_value_pairs@,
    ) =~= ser_type_annotation(w));
    lemma_occurs_split(
        seq![w.target_type] + tser + seq![w.target_path@.len() as u8] + ser_type_path_seq(
            w.target_path@,
        ) + ser_u16(w.type_index) + ser_u16(w.element_value_pairs@.len() as u16),
        ser_elem_pair_seq(w.element_value_pairs@),
        data,
        pos,
    );
    lemma_occurs_split(
        seq![w.target_type] + tser + seq![w.target_path@.len() as u8] + ser_type_path_seq(
            w.target_path@,
        ) + ser_u16(w.type_index),
        ser_u16(w.element_value_pairs@.len() as u16),
        data,
        pos,
    );
    lemma_occurs_split(
        seq![w.target_type] + tser + seq![w.target_path@.len() as u8] + ser_type_path_seq(
            w.target_path@,
        ),
        ser_u16(w.type_index),
        data,
        pos,
    );
    lemma_occurs_split(
        seq![w.target_type] + tser + seq![w.target_path@.len() as u8],
        ser_type_path_seq(w.target_path@),
        data,
        pos,
    );
    lemma_occurs_split(seq![w.target_type] + tser, seq![w.target_path@.len() as u8], data, pos);
    lemma_occurs_split(seq![w.target_type], tser, data, pos);
    lemma_u8_occurs(w.target_type, data, pos);
    lemma_u8_occurs(w.target_path@.len() as u8, data, pos + 1 + tlen);
    lemma_u16_occurs(w.element_value_pairs@.len() as u16, data, pos + 4 + tlen + 2 * plen);
    assert(elem_pairs_at(data, pos + 6 + tlen + 2 * plen, w.element_value_pairs@.len() as int))
        by {
        assert(occurs_at(
            ser_elem_pair_seq(w.element_value_pairs@),
            data,
            pos + 6 + tlen + 2 * plen,
        ));
    }
    match w.target_info {
        AttributeRuntimeTypeAnnotationsEntryTargetInfo::LocalvarTarget(x) => {
            crate::unamb::lemma_localvar_target_seq_len(x.table@);
            lemma_occurs_split(
                ser_u16(x.table@.len() as u16),
                ser_localvar_target_seq(x.table@),
                data,
                pos + 1,
            );
            lemma_u16_occurs(x.table@.len() as u16, data, pos + 1);
        },
        _ => {
        },
    }
}

/// Decodes one annotation element value: an ASCII tag character selects the
/// payload; an array tag nests element values and an annotation tag nests a
/// whole annotation.  On success the value is well formed and serializes to
/// exactly the consumed bytes; an unknown tag fails naming it.
pub fn read_annotations_element_value(data: &Vec<u8>, pos: usize) -> (r: Result<
    (AttributeAnnotationsElementValue, usize),
    MalformedClassFile,
>)
    requires
        pos <= data@.len(),
    ensures
        r matches Ok((v, end)) ==> {
            &&& pos < end <= data@.len()
            &&& wf_elem_value(v)
            &&& ser_elem_value(v) == data@.subrange(pos as int, end as int)
        },
        pos >= data@.len() ==> r == Err::<
            (AttributeAnnotationsElementValue, usize),
            MalformedClassFile,
        >(MalformedClassFile::UnexpectedEof),
        pos < data@.len() && !elem_tag_known(data@[pos as int]) ==> r == Err::<
            (AttributeAnnotationsElementValue, usize),
            MalformedClassFile,
        >(MalformedClassFile::UnknownElementValueTag { tag: data@[pos as int] }),
        elem_value_at(data@, pos as int) ==> r is Ok,
    decreases data@.len() - pos, 0int,
{
    proof {
        if elem_value_at(data@, pos as int) {
            let w = choose|v: AttributeAnnotationsElementValue|
                wf_elem_value(v) && occurs_at(ser_elem_value(v), data@, pos as int);
            lemma_elem_value_facts(w, data@, pos as int);
        }
    }
    let (tag, p1) = read_u8(data, pos)?;
    match tag {
        66 => {
            let (const_value_index, p2) = read_u16(data, p1)?;
            let v = AttributeAnnotationsElementValue::Byte(
                AttributeAnnotationsElementValueByte { const_value_index },
            );
            proof {
                assert(seq![66u8] =~= data@.subrange(pos as int, p1 as int));
                lemma_concat_subranges(data@, pos as int, p1 as int, p2 as int);
                assert(ser_elem_value(v) == data@.subrange(pos as int, p2 as int));
            }
            Ok((v, p2))
        },
        67 => {
            let (const_value_index, p2) = read_u16(data, p1)?;
            let v = AttributeAnnotationsElementValue::Char(
                AttributeAnnotationsElementValueChar { const_value_index },
            );
            proof {
                assert(seq![67u8] =~= data@.subrange(pos as int, p1 as int));
                lemma_concat_subranges(data@, pos as int, p1 as int, p2 as int);
                assert(ser_elem_value(v) == data@.subrange(pos as int, p2 as int));
            }
            Ok((v, p2))
        },
        68 => {
            let (const_value_index, p2) = read_u16(data, p1)?;
            let v = AttributeAnnotationsElementValue::Double(
                AttributeAnnotationsElementValueDouble { const_value_index },
            );
            proof {
                assert(seq![68u8] =~= data@.subrange(pos as int, p1 as int));
                lemma_concat_subranges(data@, pos as int, p1 as int, p2 as int);
                assert(ser_elem_value(v) == data@.subrange(pos as int, p2 as int));
            }
            Ok((v, p2))
        },
        70 => {
            let (const_value_index, p2) = read_u16(data, p1)?;
            let v = AttributeAnnotationsElementValue::Float(
                AttributeAnnotationsElementValueFloat { const_value_index },
            );
            proof {
                assert(seq![70u8] =~= data@.subrange(pos as int, p1 as int));
                lemma_concat_subranges(data@, pos as int, p1 as int, p2 as int);
                assert(ser_elem_value(v) == data@.subrange(pos as int, p2 as int));
            }
            Ok((v, p2))
        },
        73 => {
            let (const_value_index, p2) = read_u16(data, p1)?;
            let v = AttributeAnnotationsElementValue::Int(
                AttributeAnnotationsElementValueInt { const_value_index },
            );
            proof {
                assert(seq![73u8] =~= data@.subrange(pos as int, p1 as int));
                lemma_concat_subranges(data@, pos as int, p1 as int, p2 as int);
                assert(ser_elem_value(v) == data@.subrange(pos as int, p2 as int));
            }
            Ok((v, p2))
        },
        74 => {
            let (const_value_index, p2) = read_u16(data, p1)?;
            let v = AttributeAnnotationsElementValue::Long(
                AttributeAnnotationsElementValueLong { const_value_index },
            );
            proof {
                assert(seq![74u8] =~= data@.subrange(pos as int, p1 as int));
                lemma_concat_subranges(data@, pos as int, p1 as int, p2 as int);
                assert(ser_elem_value(v) == data@.subrange(pos as int, p2 as int));
            }
            Ok((v, p2))
        },
        83 => {
            let (const_value_index, p2) = read_u16(data, p1)?;
            let v = AttributeAnnotationsElementValue::Short(
                AttributeAnnotationsElementValueShort { const_value_index },
            );
            proof {
                assert(seq![83u8] =~= data@.subrange(pos as int, p1 as int));
                lemma_concat_subranges(data@, pos as int, p1 as int, p2 as int);
                assert(ser_elem_value(v) == data@.subrange(pos as int, p2 as int));
            }
            Ok((v, p2))
        },
        90 => {
            let (const_value_index, p2) = read_u16(data, p1)?;
            let v = AttributeAnnotationsElementValue::Boolean(
                AttributeAnnotationsElementValueBoolean { const_value_index },
            );
            proof {
                assert(seq![90u8] =~= data@.subrange(pos as int, p1 as int));
                lemma_concat_subranges(data@, pos as int, p1 as int, p2 as int);
                assert(ser_elem_value(v) == data@.subrange(pos as int, p2 as int));
            }
            Ok((v, p2))
        },
        115 => {
            let (const_value_index, p2) = read_u16(data, p1)?;
            let v = AttributeAnnotationsElementValue::String(
                AttributeAnnotationsElementValueString { const_value_index },
            );
            proof {
                assert(seq![115u8] =~= data@.subrange(pos as int, p1 as int));
                lemma_concat_subranges(data@, pos as int, p1 as int, p2 as int);
                assert(ser_elem_value(v) == data@.subrange(pos as int, p2 as int));
            }
            Ok((v, p2))
        },
        101 => {
            let (type_name_index, p2) = read_u16(data, p1)?;
            let (const_name_index, p3) = read_u16(data, p2)?;
            let v = AttributeAnnotationsElementValue::EnumClass(
                AttributeAnnotationsElementValueEnumClass { type_name_index, const_name_index },
            );
            proof {
                assert(seq![101u8] =~= data@.subrange(pos as int, p1 as int));
                lemma_concat_subranges(data@, pos as int, p1 as int, p2 as int);
                lemma_concat_subranges(data@, pos as int, p2 as int, p3 as int);
                assert(ser_elem_value(v) == data@.subrange(pos as int, p3 as int));
            }
            Ok((v, p3))
        },
        99 => {
            let (class_info_index, p2) = read_u16(data, p1)?;
            let v = AttributeAnnotationsElementValue::Class(
                AttributeAnnotationsElementValueClass { class_info_index },
            );
            proof {
                assert(seq![99u8] =~= data@.subrange(pos as int, p1 as int));
                lemma_concat_subranges(data@, pos as int, p1 as int, p2 as int);
                assert(ser_elem_value(v) == data@.subrange(pos as int, p2 as int));
            }
            Ok((v, p2))
        },
        64 => {
            let (annotation_value, p2) = read_runtime_annotations_entry(data, p1)?;
            let v = AttributeAnnotationsElementValue::AnnotationInterface(
                AttributeAnnotationsElementValueAnnotationInterface { annotation_value },
            );
            proof {
                assert(seq![64u8] =~= data@.subrange(pos as int, p1 as int));
                lemma_concat_subranges(data@, pos as int, p1 as int, p2 as int);
                assert(ser_elem_value(v) == data@.subrange(pos as int, p2 as int));
            }
            Ok((v, p2))
        },
        91 => {
            let (num_values, p2) = read_u16(data, p1)?;
            let (values, p3) = read_element_values(data, p2, num_values)?;
            let v = AttributeAnnotationsElementValue::ArrayType(
                AttributeAnnotationsElementValueArrayType { values },
            );
            proof {
                assert(seq![91u8] =~= data@.subrange(pos as int, p1 as int));
                lemma_concat_subranges(data@, pos as int, p1 as int, p2 as int);
                lemma_concat_subranges(data@, pos as int, p2 as int, p3 as int);
                assert(ser_elem_value(v) == data@.subrange(pos as int, p3 as int));
            }
            Ok((v, p3))
        },
        _ => Err(MalformedClassFile::UnknownElementValueTag { tag }),
    }
}

/// Decodes a counted run of element values.
fn read_element_values(data: &Vec<u8>, pos: usize, count: u16) -> (r: Result<
    (Vec<AttributeAnnotationsElementValue>, usize),
    MalformedClassFile,
>)
    requires
        pos <= data@.len(),
    ensures
        r matches Ok((l, end)) ==> {
            &&& pos <= end <= data@.len()
            &&& l@.len() == count
            &&& wf_elem_value_seq(l@)
            &&& ser_elem_value_seq(l@) == data@.subrange(pos as int, end as int)
        },
        elem_values_at(data@, pos as int, count as int) ==> r is Ok,
    decreases data@.len() - pos, 1int,
{
    let mut l: Vec<AttributeAnnotationsElementValue> = Vec::new();
    let ghost decodable = elem_values_at(data@, pos as int, count as int);
    let ghost w: Seq<AttributeAnnotationsElementValue> = if decodable {
        choose|l_g: Seq<AttributeAnnotationsElementValue>| l_g.len() == count as int && wf_elem_value_seq(l_g) && occurs_at(ser_elem_value_seq(l_g), data@, pos as int)
    } else {
        Seq::empty()
    };
    let mut p = pos;
    let mut k: u16 = 0;
    proof {
        assert(ser_elem_value_seq(l@) =~= data@.subrange(pos as int, pos as int));
        if decodable {
            assert(w.skip(0) =~= w);
        }
    }
    while k < count
        invariant
            decodable == (elem_values_at(data@, pos as int, count as int)),
            decodable ==> w.len() == (count as int) && wf_elem_value_seq(w) && occurs_at(
                ser_elem_value_seq(w.skip(k as int)),
                data@,
                p as int,
            ),
            pos <= p <= data@.len(),
            k <= count,
            l@.len() == k,
            wf_elem_value_seq(l@),
            ser_elem_value_seq(l@) == data@.subrange(pos as int, p as int),
        decreases count - k,
    {
        proof {
            if decodable {
                assert(w.skip(k as int)[0] == w[k as int]);
                assert(w.skip(k as int).drop_first() =~= w.skip(k as int + 1));
                lemma_occurs_split(
                    ser_elem_value(w[k as int]),
                    ser_elem_value_seq(w.skip(k as int + 1)),
                    data@,
                    p as int,
                );
                assert(elem_value_at(data@, p as int)) by {
                    assert(wf_elem_value(w[k as int]) && occurs_at(ser_elem_value(w[k as int]), data@, p as int));
                }
            }
        }
        let (v, p2) = read_annotations_element_value(data, p)?;
        proof {
            if decodable {
                let s1 = data@.subrange(p2 as int, data@.len() as int);
                let s2 = data@.subrange(
                    p + ser_elem_value(w[k as int]).len(),
                    data@.len() as int,
                );
                assert(ser_elem_value(v) + s1 =~= data@.subrange(p as int, data@.len() as int));
                assert(ser_elem_value(w[k as int]) + s2 =~= data@.subrange(
                    p as int,
                    data@.len() as int,
                ));
                lemma_elem_value_unamb(v, w[k as int], s1, s2);
            }
            lemma_ser_elem_value_seq_snoc(l@, v);
            lemma_concat_subranges(data@, pos as int, p as int, p2 as int);
            assert(forall|i: int|
                0 <= i < l@.push(v).len() ==> wf_elem_value(#[trigger] l@.push(v)[i]));
        }
        l.push(v);
        p = p2;
        k = k + 1;
    }
    Ok((l, p))
}

/// Decodes one named element-value pair.
pub fn read_annotations_element_value_pair(data: &Vec<u8>, pos: usize) -> (r: Result<
    (AttributeAnnotationsElementValuePair, usize),
    MalformedClassFile,
>)
    requires
        pos <= data@.len(),
    ensures
        r matches Ok((v, end)) ==> {
            &&& pos < end <= data@.len()
            &&& wf_elem_pair(v)
            &&& ser_elem_pair(v) == data@.subrange(pos as int, end as int)
        },
        elem_pair_at(data@, pos as int) ==> r is Ok,
    decreases data@.len() - pos, 1int,
{
    proof {
        if elem_pair_at(data@, pos as int) {
            let w = choose|p_g: AttributeAnnotationsElementValuePair|
                wf_elem_pair(p_g) && occurs_at(ser_elem_pair(p_g), data@, pos as int);
            lemma_elem_pair_facts(w, data@, pos as int);
        }
    }
    let (element_name_index, p1) = read_u16(data, pos)?;
    let (element_value, p2) = read_annotations_element_value(data, p1)?;
    let v = AttributeAnnotationsElementValuePair { element_name_index, element_value };
    proof {
        lemma_concat_subranges(data@, pos as int, p1 as int, p2 as int);
        assert(ser_elem_pair(v) == data@.subrange(pos as int, p2 as int));
    }
    Ok((v, p2))
}

/// Decodes a counted run of element-value pairs.
fn read_element_value_pairs(data: &Vec<u8>, pos: usize, count: u16) -> (r: Result<
    (Vec<AttributeAnnotationsElementValuePair>, usize),
    MalformedClassFile,
>)
    requires
        pos <= data@.len(),
    ensures
        r matches Ok((l, end)) ==> {
            &&& pos <= end <= data@.len()
            &&& l@.len() == count
            &&& wf_elem_pair_seq(l@)
            &&& ser_elem_pair_seq(l@) == data@.subrange(pos as int, end as int)
        },
        elem_pairs_at(data@, pos as int, count as int) ==> r is Ok,
    decreases data@.len() - pos, 2int,
{
    let mut l: Vec<AttributeAnnotationsElementValuePair> = Vec::new();
    let ghost decodable = elem_pairs_at(data@, pos as int, count as int);
    let ghost w: Seq<AttributeAnnotationsElementValuePair> = if decodable {
        choose|l_g: Seq<AttributeAnnotationsElementValuePair>| l_g.len() == count as int && wf_elem_pair_seq(l_g) && occurs_at(ser_elem_pair_seq(l_g), data@, pos as int)
    } else {
        Seq::empty()
    };
    let mut p = pos;
    let mut k: u16 = 0;
    proof {
        assert(ser_elem_pair_seq(l@) =~= data@.subrange(pos as int, pos as int));
        if decodable {
            assert(w.skip(0) =~= w);
        }
    }
    while k < count
        invariant
            decodable == (elem_pairs_at(data@, pos as int, count as int)),
            decodable ==> w.len() == (count as int) && wf_elem_pair_seq(w) && occurs_at(
                ser_elem_pair_seq(w.skip(k as int)),
                data@,
                p as int,
            ),
            pos <= p <= data@.len(),
            k <= count,
            l@.len() == k,
            wf_elem_pair_seq(l@),
            ser_elem_pair_seq(l@) == data@.subrange(pos as int, p as int),
        decreases count - k,
    {
        proof {
            if decodable {
                assert(w.skip(k as int)[0] == w[k as int]);
                assert(w.skip(k as int).drop_first() =~= w.skip(k as int + 1));
                lemma_occurs_split(
                    ser_elem_pair(w[k as int]),
                    ser_elem_pair_seq(w.skip(k as int + 1)),
                    data@,
                    p as int,
                );
                assert(elem_pair_at(data@, p as int)) by {
                    assert(wf_elem_pair(w[k as int]) && occurs_at(ser_elem_pair(w[k as int]), data@, p as int));
                }
            }
        }
        let (v, p2) = read_annotations_element_value_pair(data, p)?;
        proof {
            if decodable {
                let s1 = data@.subrange(p2 as int, data@.len() as int);
                let s2 = data@.subrange(
                    p + ser_elem_pair(w[k as int]).len(),
                    data@.len() as int,
                );
                assert(ser_elem_pair(v) + s1 =~= data@.subrange(p as int, data@.len() as int));
                assert(ser_elem_pair(w[k as int]) + s2 =~= data@.subrange(
                    p as int,
                    data@.len() as int,
                ));
                lemma_elem_pair_unamb(v, w[k as int], s1, s2);
            }
            lemma_ser_elem_pair_seq_snoc(l@, v);
            lemma_concat_subranges(data@, pos as int, p as int, p2 as int);
            assert(forall|i: int|
                0 <= i < l@.push(v).len() ==> wf_elem_pair(#[trigger] l@.push(v)[i]));
        }
        l.push(v);
        p = p2;
        k = k + 1;
    }
    Ok((l, p))
}

/// Decodes one annotation: its type index and its counted element-value
/// pairs.
pub fn read_runtime_annotations_entry(data: &Vec<u8>, pos: usize) -> (r: Result<
    (AttributeRuntimeAnnotationsEntry, usize),
    MalformedClassFile,
>)
    requires
        pos <= data@.len(),
    ensures
        r matches Ok((e, end)) ==> {
            &&& pos < end <= data@.len()
            &&& wf_annotation(e)
            &&& ser_annotation(e) == data@.subrange(pos as int, end as int)
        },
        annotation_at(data@, pos as int) ==> r is Ok,
    decreases data@.len() - pos, 3int,
{
    proof {
        if annotation_at(data@, pos as int) {
            let w = choose|e_g: AttributeRuntimeAnnotationsEntry|
                wf_annotation(e_g) && occurs_at(ser_annotation(e_g), data@, pos as int);
            lemma_annotation_facts(w, data@, pos as int);
        }
    }
    let (type_index, p1) = read_u16(data, pos)?;
    let (num_element_value_pairs, p2) = read_u16(data, p1)?;
    let (element_value_pairs, p3) = read_element_value_pairs(data, p2, num_element_value_pairs)?;
    let e = AttributeRuntimeAnnotationsEntry { type_index, element_value_pairs };
    proof {
        lemma_concat_subranges(data@, pos as int, p1 as int, p2 as int);
        lemma_concat_subranges(data@, pos as int, p2 as int, p3 as int);
        assert(ser_annotation(e) == data@.subrange(pos as int, p3 as int));
    }
    Ok((e, p3))
}

/// Decodes a counted run of annotations.
fn read_runtime_annotations(data: &Vec<u8>, pos: usize, count: u16) -> (r: Result<
    (Vec<AttributeRuntimeAnnotationsEntry>, usize),
    MalformedClassFile,
>)
    requires
        pos <= data@.len(),
    ensures
        r matches Ok((l, end)) ==> {
            &&& pos <= end <= data@.len()
            &&& l@.len() == count
            &&& wf_annotation_seq(l@)
            &&& ser_annotation_seq(l@) == data@.subrange(pos as int, end as int)
        },
        annotations_at(data@, pos as int, count as int) ==> r is Ok,
{
    let mut l: Vec<AttributeRuntimeAnnotationsEntry> = Vec::new();
    let ghost decodable = annotations_at(data@, pos as int, count as int);
    let ghost w: Seq<AttributeRuntimeAnnotationsEntry> = if decodable {
        choose|l_g: Seq<AttributeRuntimeAnnotationsEntry>| l_g.len() == count as int && wf_annotation_seq(l_g) && occurs_at(ser_annotation_seq(l_g), data@, pos as int)
    } else {
        Seq::empty()
    };
    let mut p = pos;
    let mut k: u16 = 0;
    proof {
        assert(ser_annotation_seq(l@) =~= data@.subrange(pos as int, pos as int));
        if decodable {
            assert(w.skip(0) =~= w);
        }
    }
    while k < count
        invariant
            decodable == (annotations_at(data@, pos as int, count as int)),
            decodable ==> w.len() == (count as int) && wf_annotation_seq(w) && occurs_at(
                ser_annotation_seq(w.skip(k as int)),
                data@,
                p as int,
            ),
            pos <= p <= data@.len(),
            k <= count,
            l@.len() == k,
            wf_annotation_seq(l@),
            ser_annotation_seq(l@) == data@.subrange(pos as int, p as int),
        decreases count - k,
    {
        proof {
            if decodable {
                assert(w.skip(k as int)[0] == w[k as int]);
                assert(w.skip(k as int).drop_first() =~= w.skip(k as int + 1));
                lemma_occurs_split(
                    ser_annotation(w[k as int]),
                    ser_annotation_seq(w.skip(k as int + 1)),
                    data@,
                    p as int,
                );
                assert(annotation_at(data@, p as int)) by {
                    assert(wf_annotation(w[k as int]) && occurs_at(ser_annotation(w[k as int]), data@, p as int));
                }
            }
        }
        let (e, p2) = read_runtime_annotations_entry(data, p)?;
        proof {
            if decodable {
                let s1 = data@.subrange(p2 as int, data@.len() as int);
                let s2 = data@.subrange(
                    p + ser_annotation(w[k as int]).len(),
                    data@.len() as int,
                );
                assert(ser_annotation(e) + s1 =~= data@.subrange(p as int, data@.len() as int));
                assert(ser_annotation(w[k as int]) + s2 =~= data@.subrange(
                    p as int,
                    data@.len() as int,
                ));
                lemma_annotation_unamb(e, w[k as int], s1, s2);
            }
            lemma_ser_annotation_seq_snoc(l@, e);
            lemma_concat_subranges(data@, pos as int, p as int, p2 as int);
            assert(forall|i: int|
                0 <= i < l@.push(e).len() ==> wf_annotation(#[trigger] l@.push(e)[i]));
        }
        l.push(e);
        p = p2;
        k = k + 1;
    }
    Ok((l, p))
}

/// Decodes per-parameter annotation groups: for each of `count` parameters, a
/// two-byte annotation count and that many annotations.
fn read_parameter_annotation_groups(data: &Vec<u8>, pos: usize, count: u8) -> (r: Result<
    (Vec<Vec<AttributeRuntimeAnnotationsEntry>>, usize),
    MalformedClassFile,
>)
    requires
        pos <= data@.len(),
    ensures
        r matches Ok((l, end)) ==> {
            &&& pos <= end <= data@.len()
            &&& l@.len() == count
            &&& wf_annotation_groups(l@)
            &&& ser_annotation_groups(l@) == data@.subrange(pos as int, end as int)
        },
        annotation_groups_at(data@, pos as int, count as int) ==> r is Ok,
{
    let mut l: Vec<Vec<AttributeRuntimeAnnotationsEntry>> = Vec::new();
    let ghost decodable = annotation_groups_at(data@, pos as int, count as int);
    let ghost w: Seq<Vec<AttributeRuntimeAnnotationsEntry>> = if decodable {
        choose|l_g: Seq<Vec<AttributeRuntimeAnnotationsEntry>>| l_g.len() == count as int && wf_annotation_groups(l_g) && occurs_at(ser_annotation_groups(l_g), data@, pos as int)
    } else {
        Seq::empty()
    };
    let mut p = pos;
    let mut k: u8 = 0;
    proof {
        assert(ser_annotation_groups(l@) =~= data@.subrange(pos as int, pos as int));
        if decodable {
            assert(w.skip(0) =~= w);
        }
    }
    while k < count
        invariant
            decodable == (annotation_groups_at(data@, pos as int, count as int)),
            decodable ==> w.len() == (count as int) && wf_annotation_groups(w) && occurs_at(
                ser_annotation_groups(w.skip(k as int)),
                data@,
                p as int,
            ),
            pos <= p <= data@.len(),
            k <= count,
            l@.len() == k,
            wf_annotation_groups(l@),
            ser_annotation_groups(l@) == data@.subrange(pos as int, p as int),
        decreases count - k,
    {
        proof {
            if decodable {
                assert(w.skip(k as int)[0] == w[k as int]);
                assert(w.skip(k as int).drop_first() =~= w.skip(k as int + 1));
                assert(ser_annotation_groups(w.skip(k as int)) =~= (ser_u16(
                    w[k as int]@.len() as u16,
                ) + ser_annotation_seq(w[k as int]@)) + ser_annotation_groups(
                    w.skip(k as int + 1),
                ));
                lemma_occurs_split(
                    ser_u16(w[k as int]@.len() as u16) + ser_annotation_seq(w[k as int]@),
                    ser_annotation_groups(w.skip(k as int + 1)),
                    data@,
                    p as int,
                );
                lemma_occurs_split(
                    ser_u16(w[k as int]@.len() as u16),
                    ser_annotation_seq(w[k as int]@),
                    data@,
                    p as int,
                );
                lemma_u16_occurs(w[k as int]@.len() as u16, data@, p as int);
                assert(annotations_at(data@, p + 2, w[k as int]@.len() as int)) by {
                    assert(occurs_at(ser_annotation_seq(w[k as int]@), data@, p + 2));
                }
            }
        }
        let (num_annotations, p1) = read_u16(data, p)?;
        let (annotations, p2) = read_runtime_annotations(data, p1, num_annotations)?;
        proof {
            if decodable {
                let s1 = data@.subrange(p2 as int, data@.len() as int);
                let s2 = data@.subrange(
                    p + 2 + ser_annotation_seq(w[k as int]@).len(),
                    data@.len() as int,
                );
                assert(ser_annotation_seq(annotations@) + s1 =~= data@.subrange(
                    p1 as int,
                    data@.len() as int,
                ));
                assert(ser_annotation_seq(w[k as int]@) + s2 =~= data@.subrange(
                    p1 as int,
                    data@.len() as int,
                ));
                assert(annotations@.len() == w[k as int]@.len());
                lemma_annotation_seq_unamb(annotations@, w[k as int]@, s1, s2);
            }
            lemma_ser_annotation_groups_snoc(l@, annotations);
            lemma_concat_subranges(data@, p as int, p1 as int, p2 as int);
            lemma_concat_subranges(data@, pos as int, p as int, p2 as int);
            assert(forall|i: int|
                0 <= i < l@.push(annotations).len() ==> ((#[trigger] l@.push(annotations)[i])@.len()
                    <= 0xFFFF && wf_annotation_seq(l@.push(annotations)[i]@)));
        }
        l.push(annotations);
        p = p2;
        k = k + 1;
    }
    Ok((l, p))
}

/// Decodes a counted run of rows of a local-variable target's table.
fn read_localvar_target_table(data: &Vec<u8>, pos: usize, count: u16) -> (r: Result<
    (Vec<AttributeRuntimeTypeAnnotationsEntryLocalvarTargetTableEntry>, usize),
    MalformedClassFile,
>)
    requires
        pos <= data@.len(),
    ensures
        r matches Ok((l, end)) ==> {
            &&& pos <= end <= data@.len()
            &&& l@.len() == count
            &&& ser_localvar_target_seq(l@) == data@.subrange(pos as int, end as int)
        },
        pos + 6 * (count as int) <= data@.len() ==> r is Ok,
{
    let mut l: Vec<AttributeRuntimeTypeAnnotationsEntryLocalvarTargetTableEntry> = Vec::new();
    let mut p = pos;
    let mut k: u16 = 0;
    proof {
        assert(ser_localvar_target_seq(l@) =~= data@.subrange(pos as int, pos as int));
    }
    while k < count
        invariant
            p as int == pos + 6 * (k as int),
            pos <= p <= data@.len(),
            k <= count,
            l@.len() == k,
            ser_localvar_target_seq(l@) == data@.subrange(pos as int, p as int),
        decreases count - k,
    {
        let (start_pc, p1) = read_u16(data, p)?;
        let (length, p2) = read_u16(data, p1)?;
        let (index, p3) = read_u16(data, p2)?;
        let e = AttributeRuntimeTypeAnnotationsEntryLocalvarTargetTableEntry {
            start_pc,
            length,
            index,
        };
        proof {
            lemma_ser_localvar_target_seq_snoc(l@, e);
            lemma_concat_subranges(data@, p as int, p1 as int, p2 as int);
            lemma_concat_subranges(data@, p as int, p2 as int, p3 as int);
            assert(ser_localvar_target_entry(e) == data@.subrange(p as int, p3 as int));
            lemma_concat_subranges(data@, pos as int, p as int, p3 as int);
        }
        l.push(e);
        p = p3;
        k = k + 1;
    }
    Ok((l, p))
}

/// Decodes a counted run of type-path steps.
fn read_type_path(data: &Vec<u8>, pos: usize, count: u8) -> (r: Result<
    (Vec<AttributeRuntimeVisibleTypeAnnotationsEntryTargetPathEntry>, usize),
    MalformedClassFile,
>)
    requires
        pos <= data@.len(),
    ensures
        r matches Ok((l, end)) ==> {
            &&& pos <= end <= data@.len()
            &&& l@.len() == count
            &&& ser_type_path_seq(l@) == data@.subrange(pos as int, end as int)
        },
        pos + 2 * (count as int) <= data@.len() ==> r is Ok,
{
    let mut l: Vec<AttributeRuntimeVisibleTypeAnnotationsEntryTargetPathEntry> = Vec::new();
    let mut p = pos;
    let mut k: u8 = 0;
    proof {
        assert(ser_type_path_seq(l@) =~= data@.subrange(pos as int, pos as int));
    }
    while k < count
        invariant
            p as int == pos + 2 * (k as int),
            pos <= p <= data@.len(),
            k <= count,
            l@.len() == k,
            ser_type_path_seq(l@) == data@.subrange(pos as int, p as int),
        decreases count - k,
    {
        let (type_path_kind, p1) = read_u8(data, p)?;
        let (type_argument_index, p2) = read_u8(data, p1)?;
        let e = AttributeRuntimeVisibleTypeAnnotationsEntryTargetPathEntry {
            type_path_kind,
            type_argument_index,
        };
        proof {
            lemma_ser_type_path_seq_snoc(l@, e);
            assert(ser_type_path_entry(e) =~= data@.subrange(p as int, p2 as int));
            lemma_concat_subranges(data@, pos as int, p as int, p2 as int);
        }
        l.push(e);
        p = p2;
        k = k + 1;
    }
    Ok((l, p))
}

/// Decodes one type annotation: a target-type byte selecting one of ten
/// target shapes, the target's payload, a type path, the annotated type and
/// the element-value pairs.  An unknown target-type byte fails naming it.
pub fn read_runtime_type_annotations_entry(data: &Vec<u8>, pos: usize) -> (r: Result<
    (AttributeRuntimeTypeAnnotationsEntry, usize),
    MalformedClassFile,
>)
    requires
        pos <= data@.len(),
    ensures
        r matches Ok((e, end)) ==> {
            &&& pos < end <= data@.len()
            &&& wf_type_annotation(e)
            &&& ser_type_annotation(e) == data@.subrange(pos as int, end as int)
        },
        pos >= data@.len() ==> r == Err::<
            (AttributeRuntimeTypeAnnotationsEntry, usize),
            MalformedClassFile,
        >(MalformedClassFile::UnexpectedEof),
        pos < data@.len() && !target_type_known(data@[pos as int]) ==> r == Err::<
            (AttributeRuntimeTypeAnnotationsEntry, usize),
            MalformedClassFile,
        >(MalformedClassFile::UnknownTargetType { target_type: data@[pos as int] }),
        type_annotation_at(data@, pos as int) ==> r is Ok,
{
    proof {
        if type_annotation_at(data@, pos as int) {
            let w = choose|e_g: AttributeRuntimeTypeAnnotationsEntry|
                wf_type_annotation(e_g) && occurs_at(ser_type_annotation(e_g), data@, pos as int);
            lemma_type_annotation_facts(w, data@, pos as int);
        }
    }
    let (target_type, p1) = read_u8(data, pos)?;
    let target_info: AttributeRuntimeTypeAnnotationsEntryTargetInfo;
    let p2: usize;
    if target_type == 0x00 || target_type == 0x01 {
        let (type_parameter_index, q) = read_u8(data, p1)?;
        target_info = AttributeRuntimeTypeAnnotationsEntryTargetInfo::TypeParameterTarget(
            AttributeRuntimeTypeAnnotationsEntryTypeParameterTarget { type_parameter_index },
        );
        p2 = q;
        proof {
            assert(ser_target_info(target_info) =~= data@.subrange(p1 as int, p2 as int));
        }
    } else if target_type == 0x10 {
        let (supertype_index, q) = read_u16(data, p1)?;
        target_info = AttributeRuntimeTypeAnnotationsEntryTargetInfo::SuperTypeTarget(
            AttributeRuntimeTypeAnnotationsEntrySuperTypeTarget { supertype_index },
        );
        p2 = q;
    } else if target_type == 0x11 || target_type == 0x12 {
        let (type_parameter_index, q1) = read_u8(data, p1)?;
        let (bound_index, q) = read_u8(data, q1)?;
        target_info = AttributeRuntimeTypeAnnotationsEntryTargetInfo::TypeParameterBoundTarget(
            AttributeRuntimeTypeAnnotationsEntryTypeParameterBoundTarget {
                type_parameter_index,
                bound_index,
            },
        );
        p2 = q;
        proof {
            assert(ser_target_info(target_info) =~= data@.subrange(p1 as int, p2 as int));
        }
    } else if target_type == 0x13 || target_type == 0x14 || target_type == 0x15 {
        target_info = AttributeRuntimeTypeAnnotationsEntryTargetInfo::EmptyTarget(
            AttributeRuntimeTypeAnnotationsEntryEmptyTarget {},
        );
        p2 = p1;
        proof {
            assert(ser_target_info(target_info) =~= data@.subrange(p1 as int, p2 as int));
        }
    } else if target_type == 0x16 {
        let (formal_parameter_index, q) = read_u8(data, p1)?;
        target_info = AttributeRuntimeTypeAnnotationsEntryTargetInfo::FormalParameterTarget(
            AttributeRuntimeTypeAnnotationsEntryFormalParameterTarget { formal_parameter_index },
        );
        p2 = q;
        proof {
            assert(ser_target_info(target_info) =~= data@.subrange(p1 as int, p2 as int));
        }
    } else if target_type == 0x17 {
        let (throws_type_index, q) = read_u16(data, p1)?;
        target_info = AttributeRuntimeTypeAnnotationsEntryTargetInfo::ThrowsTarget(
            AttributeRuntimeTypeAnnotationsEntryThrowsTarget { throws_type_index },
        );
        p2 = q;
    } else if target_type == 0x40 || target_type == 0x41 {
        let (table_length, q1) = read_u16(data, p1)?;
        let (table, q) = read_localvar_target_table(data, q1, table_length)?;
        target_info = AttributeRuntimeTypeAnnotationsEntryTargetInfo::LocalvarTarget(
            AttributeRuntimeTypeAnnotationsEntryLocalvarTarget { table },
        );
        p2 = q;
        proof {
            lemma_concat_subranges(data@, p1 as int, q1 as int, q as int);
            crate::unamb::lemma_localvar_target_seq_len(table@);
            if type_annotation_at(data@, pos as int) {
                let w = choose|e_g: AttributeRuntimeTypeAnnotationsEntry|
                    wf_type_annotation(e_g) && occurs_at(
                        ser_type_annotation(e_g),
                        data@,
                        pos as int,
                    );
                if w.target_info is LocalvarTarget {
                    crate::unamb::lemma_localvar_target_seq_len(
                        w.target_info->LocalvarTarget_0.table@,
                    );
                }
            }
        }
    } else if target_type == 0x42 {
        let (exception_table_index, q) = read_u16(data, p1)?;
        target_info = AttributeRuntimeTypeAnnotationsEntryTargetInfo::CatchTarget(
            AttributeRuntimeTypeAnnotationsEntryCatchTarget { exception_table_index },
        );
        p2 = q;
    } else if target_type == 0x43 || target_type == 0x44 || target_type == 0x45 || target_type
        == 0x46 {
        let (offset, q) = read_u16(data, p1)?;
        target_info = AttributeRuntimeTypeAnnotationsEntryTargetInfo::OffsetTarget(
            AttributeRuntimeTypeAnnotationsEntryOffsetTarget { offset },
        );
        p2 = q;
    } else if target_type == 0x47 || target_type == 0x48 || target_type == 0x49 || target_type
        == 0x4A || target_type == 0x4B {
        let (offset, q1) = read_u16(data, p1)?;
        let (type_argument_index, q) = read_u8(data, q1)?;
        target_info = AttributeRuntimeTypeAnnotationsEntryTargetInfo::TypeArgumentTarget(
            AttributeRuntimeTypeAnnotationsEntryTypeArgumentTarget { offset, type_argument_index },
        );
        p2 = q;
        proof {
            assert(seq![data@[q1 as int]] =~= data@.subrange(q1 as int, q as int));
            lemma_concat_subranges(data@, p1 as int, q1 as int, q as int);
        }
    } else {
        return Err(MalformedClassFile::UnknownTargetType { target_type });
    }
    let (path_length, p3) = read_u8(data, p2)?;
    let (target_path, p4) = read_type_path(data, p3, path_length)?;
    proof {
        crate::unamb::lemma_type_path_seq_len(target_path@);
    }
    let (type_index, p5) = read_u16(data, p4)?;
    let (num_element_value_pairs, p6) = read_u16(data, p5)?;
    let (element_value_pairs, p7) = read_element_value_pairs(data, p6, num_element_value_pairs)?;
    let e = AttributeRuntimeTypeAnnotationsEntry {
        target_type,
        target_info,
        target_path,
        type_index,
        element_value_pairs,
    };
    proof {
        assert(seq![target_type] =~= data@.subrange(pos as int, p1 as int));
        assert(ser_target_info(target_info) == data@.subrange(p1 as int, p2 as int));
        lemma_concat_subranges(data@, pos as int, p1 as int, p2 as int);
        assert(seq![e.target_path@.len() as u8] =~= data@.subrange(p2 as int, p3 as int));
        lemma_concat_subranges(data@, pos as int, p2 as int, p3 as int);
        lemma_concat_subranges(data@, pos as int, p3 as int, p4 as int);
        lemma_concat_subranges(data@, pos as int, p4 as int, p5 as int);
        lemma_concat_subranges(data@, pos as int, p5 as int, p6 as int);
        lemma_concat_subranges(data@, pos as int, p6 as int, p7 as int);
        assert(ser_type_annotation(e) == data@.subrange(pos as int, p7 as int));
    }
    Ok((e, p7))
}

/// Decodes a counted run of type annotations.
fn read_runtime_type_annotations(data: &Vec<u8>, pos: usize, count: u16) -> (r: Result<
    (Vec<AttributeRuntimeTypeAnnotationsEntry>, usize),
    MalformedClassFile,
>)
    requires
        pos <= data@.len(),
    ensures
        r matches Ok((l, end)) ==> {
            &&& pos <= end <= data@.len()
            &&& l@.len() == count
            &&& wf_type_annotation_seq(l@)
            &&& ser_type_annotation_seq(l@) == data@.subrange(pos as int, end as int)
        },
        type_annotations_at(data@, pos as int, count as int) ==> r is Ok,
{
    let mut l: Vec<AttributeRuntimeTypeAnnotationsEntry> = Vec::new();
    let ghost decodable = type_annotations_at(data@, pos as int, count as int);
    let ghost w: Seq<AttributeRuntimeTypeAnnotationsEntry> = if decodable {
        choose|l_g: Seq<AttributeRuntimeTypeAnnotationsEntry>| l_g.len() == count as int && wf_type_annotation_seq(l_g) && occurs_at(ser_type_annotation_seq(l_g), data@, pos as int)
    } else {
        Seq::empty()
    };
    let mut p = pos;
    let mut k: u16 = 0;
    proof {
        assert(ser_type_annotation_seq(l@) =~= data@.subrange(pos as int, pos as int));
        if decodable {
            assert(w.skip(0) =~= w);
        }
    }
    while k < count
        invariant
            decodable == (type_annotations_at(data@, pos as int, count as int)),
            decodable ==> w.len() == (count as int) && wf_type_annotation_seq(w) && occurs_at(
                ser_type_annotation_seq(w.skip(k as int)),
                data@,
                p as int,
            ),
            pos <= p <= data@.len(),
            k <= count,
            l@.len() == k,
            wf_type_annotation_seq(l@),
            ser_type_annotation_seq(l@) == data@.subrange(pos as int, p as int),
        decreases count - k,
    {
        proof {
            if decodable {
                assert(w.skip(k as int)[0] == w[k as int]);
                assert(w.skip(k as int).drop_first() =~= w.skip(k as int + 1));
                lemma_occurs_split(
                    ser_type_annotation(w[k as int]),
                    ser_type_annotation_seq(w.skip(k as int + 1)),
                    data@,
                    p as int,
                );
                assert(type_annotation_at(data@, p as int)) by {
                    assert(wf_type_annotation(w[k as int]) && occurs_at(ser_type_annotation(w[k as int]), data@, p as int));
                }
            }
        }
        let (e, p2) = read_runtime_type_annotations_entry(data, p)?;
        proof {
            if decodable {
                let s1 = data@.subrange(p2 as int, data@.len() as int);
                let s2 = data@.subrange(
                    p + ser_type_annotation(w[k as int]).len(),
                    data@.len() as int,
                );
                assert(ser_type_annotation(e) + s1 =~= data@.subrange(p as int, data@.len() as int));
                assert(ser_type_annotation(w[k as int]) + s2 =~= data@.subrange(
                    p as int,
                    data@.len() as int,
                ));
                lemma_type_annotation_unamb(e, w[k as int], s1, s2);
            }
            lemma_ser_type_annotation_seq_snoc(l@, e);
            lemma_concat_subranges(data@, pos as int, p as int, p2 as int);
            assert(forall|i: int|
                0 <= i < l@.push(e).len() ==> wf_type_annotation(#[trigger] l@.push(e)[i]));
        }
        l.push(e);
        p = p2;
        k = k + 1;
    }
    Ok((l, p))
}


/// Decodes a counted run of big-endian two-byte integers.
fn read_u16_run(data: &Vec<u8>, pos: usize, count: u16) -> (r: Result<
    (Vec<u16>, usize),
    MalformedClassFile,
>)
    requires
        pos <= data@.len(),
    ensures
        r matches Ok((l, end)) ==> {
            &&& pos <= end <= data@.len()
            &&& l@.len() == count
            &&& ser_u16_seq(l@) == data@.subrange(pos as int, end as int)
        },
        pos + 2 * (count as int) <= data@.len() ==> r is Ok,
{
    let mut l: Vec<u16> = Vec::new();
    let mut p = pos;
    let mut k: u16 = 0;
    proof {
        assert(ser_u16_seq(l@) =~= data@.subrange(pos as int, pos as int));
    }
    while k < count
        invariant
            p as int == pos + 2 * (k as int),
            pos <= p <= data@.len(),
            k <= count,
            l@.len() == k,
            ser_u16_seq(l@) == data@.subrange(pos as int, p as int),
        decreases count - k,
    {
        let (v, p2) = read_u16(data, p)?;
        proof {
            lemma_ser_u16_seq_snoc(l@, v);
            lemma_concat_subranges(data@, pos as int, p as int, p2 as int);
        }
        l.push(v);
        p = p2;
        k = k + 1;
    }
    Ok((l, p))
}

fn read_exception_table(data: &Vec<u8>, pos: usize, count: u16) -> (r: Result<
    (Vec<ExceptionTableEntry>, usize),
    MalformedClassFile,
>)
    requires
        pos <= data@.len(),
    ensures
        r matches Ok((l, end)) ==> {
            &&& pos <= end <= data@.len()
            &&& l@.len() == count
            &&& ser_exception_seq(l@) == data@.subrange(pos as int, end as int)
        },
        pos + 8 * (count as int) <= data@.len() ==> r is Ok,
{
    let mut l: Vec<ExceptionTableEntry> = Vec::new();
    let mut p = pos;
    let mut k: u16 = 0;
    proof {
        assert(ser_exception_seq(l@) =~= data@.subrange(pos as int, pos as int));
    }
    while k < count
        invariant
            p as int == pos + 8 * (k as int),
            pos <= p <= data@.len(),
            k <= count,
            l@.len() == k,
            ser_exception_seq(l@) == data@.subrange(pos as int, p as int),
        decreases count - k,
    {
        let (start_pc, q1) = read_u16(data, p)?;
        let (end_pc, q2) = read_u16(data, q1)?;
        let (handler_pc, q3) = read_u16(data, q2)?;
        let (catch_type, q4) = read_u16(data, q3)?;
        let e = ExceptionTableEntry { start_pc, end_pc, handler_pc, catch_type };
        proof {
            lemma_ser_exception_seq_snoc(l@, e);
            lemma_concat_subranges(data@, p as int, q1 as int, q2 as int);
            lemma_concat_subranges(data@, p as int, q2 as int, q3 as int);
            lemma_concat_subranges(data@, p as int, q3 as int, q4 as int);
            assert(ser_exception_entry(e) == data@.subrange(p as int, q4 as int));
            lemma_concat_subranges(data@, pos as int, p as int, q4 as int);
        }
        l.push(e);
        p = q4;
        k = k + 1;
    }
    Ok((l, p))
}

fn read_inner_classes(data: &Vec<u8>, pos: usize, count: u16) -> (r: Result<
    (Vec<AttributeInnerClassesClass>, usize),
    MalformedClassFile,
>)
    requires
        pos <= data@.len(),
    ensures
        r matches Ok((l, end)) ==> {
            &&& pos <= end <= data@.len()
            &&& l@.len() == count
            &&& ser_inner_class_seq(l@) == data@.subrange(pos as int, end as int)
        },
        pos + 8 * (count as int) <= data@.len() ==> r is Ok,
{
    let mut l: Vec<AttributeInnerClassesClass> = Vec::new();
    let mut p = pos;
    let mut k: u16 = 0;
    proof {
        assert(ser_inner_class_seq(l@) =~= data@.subrange(pos as int, pos as int));
    }
    while k < count
        invariant
            p as int == pos + 8 * (k as int),
            pos <= p <= data@.len(),
            k <= count,
            l@.len() == k,
            ser_inner_class_seq(l@) == data@.subrange(pos as int, p as int),
        decreases count - k,
    {
        let (inner_class_info_index, q1) = read_u16(data, p)?;
        let (outer_class_info_index, q2) = read_u16(data, q1)?;
        let (inner_name_index, q3) = read_u16(data, q2)?;
        let (inner_class_access_flags, q4) = read_u16(data, q3)?;
        let e = AttributeInnerClassesClass { inner_class_info_index, outer_class_info_index, inner_name_index, inner_class_access_flags };
        proof {
            lemma_ser_inner_class_seq_snoc(l@, e);
            lemma_concat_subranges(data@, p as int, q1 as int, q2 as int);
            lemma_concat_subranges(data@, p as int, q2 as int, q3 as int);
            lemma_concat_subranges(data@, p as int, q3 as int, q4 as int);
            assert(ser_inner_class(e) == data@.subrange(p as int, q4 as int));
            lemma_concat_subranges(data@, pos as int, p as int, q4 as int);
        }
        l.push(e);
        p = q4;
        k = k + 1;
    }
    Ok((l, p))
}

fn read_line_number_table(data: &Vec<u8>, pos: usize, count: u16) -> (r: Result<
    (Vec<AttributeLineNumberTableEntry>, usize),
    MalformedClassFile,
>)
    requires
        pos <= data@.len(),
    ensures
        r matches Ok((l, end)) ==> {
            &&& pos <= end <= data@.len()
            &&& l@.len() == count
            &&& ser_line_number_seq(l@) == data@.subrange(pos as int, end as int)
        },
        pos + 4 * (count as int) <= data@.len() ==> r is Ok,
{
    let mut l: Vec<AttributeLineNumberTableEntry> = Vec::new();
    let mut p = pos;
    let mut k: u16 = 0;
    proof {
        assert(ser_line_number_seq(l@) =~= data@.subrange(pos as int, pos as int));
    }
    while k < count
        invariant
            p as int == pos + 4 * (k as int),
            pos <= p <= data@.len(),
            k <= count,
            l@.len() == k,
            ser_line_number_seq(l@) == data@.subrange(pos as int, p as int),
        decreases count - k,
    {
        let (start_pc, q1) = read_u16(data, p)?;
        let (line_number, q2) = read_u16(data, q1)?;
        let e = AttributeLineNumberTableEntry { start_pc, line_number };
        proof {
            lemma_ser_line_number_seq_snoc(l@, e);
            lemma_concat_subranges(data@, p as int, q1 as int, q2 as int);
            assert(ser_line_number_entry(e) == data@.subrange(p as int, q2 as int));
            lemma_concat_subranges(data@, pos as int, p as int, q2 as int);
        }
        l.push(e);
        p = q2;
        k = k + 1;
    }
    Ok((l, p))
}

fn read_local_variable_table(data: &Vec<u8>, pos: usize, count: u16) -> (r: Result<
    (Vec<AttributeLocalVariableTableEntry>, usize),
    MalformedClassFile,
>)
    requires
        pos <= data@.len(),
    ensures
        r matches Ok((l, end)) ==> {
            &&& pos <= end <= data@.len()
            &&& l@.len() == count
            &&& ser_local_var_seq(l@) == data@.subrange(pos as int, end as int)
        },
        pos + 10 * (count as int) <= data@.len() ==> r is Ok,
{
    let mut l: Vec<AttributeLocalVariableTableEntry> = Vec::new();
    let mut p = pos;
    let mut k: u16 = 0;
    proof {
        assert(ser_local_var_seq(l@) =~= data@.subrange(pos as int, pos as int));
    }
    while k < count
        invariant
            p as int == pos + 10 * (k as int),
            pos <= p <= data@.len(),
            k <= count,
            l@.len() == k,
            ser_local_var_seq(l@) == data@.subrange(pos as int, p as int),
        decreases count - k,
    {
        let (start_pc, q1) = read_u16(data, p)?;
        let (length, q2) = read_u16(data, q1)?;
        let (name_index, q3) = read_u16(data, q2)?;
        let (descriptor_index, q4) = read_u16(data, q3)?;
        let (index, q5) = read_u16(data, q4)?;
        let e = AttributeLocalVariableTableEntry { start_pc, length, name_index, descriptor_index, index };
        proof {
            lemma_ser_local_var_seq_snoc(l@, e);
            lemma_concat_subranges(data@, p as int, q1 as int, q2 as int);
            lemma_concat_subranges(data@, p as int, q2 as int, q3 as int);
            lemma_concat_subranges(data@, p as int, q3 as int, q4 as int);
            lemma_concat_subranges(data@, p as int, q4 as int, q5 as int);
            assert(ser_local_var_entry(e) == data@.subrange(p as int, q5 as int));
            lemma_concat_subranges(data@, pos as int, p as int, q5 as int);
        }
        l.push(e);
        p = q5;
        k = k + 1;
    }
    Ok((l, p))
}

fn read_local_variable_type_table(data: &Vec<u8>, pos: usize, count: u16) -> (r: Result<
    (Vec<AttributeLocalVariableTypeTableEntry>, usize),
    MalformedClassFile,
>)
    requires
        pos <= data@.len(),
    ensures
        r matches Ok((l, end)) ==> {
            &&& pos <= end <= data@.len()
            &&& l@.len() == count
            &&& ser_local_var_type_seq(l@) == data@.subrange(pos as int, end as int)
        },
        pos + 10 * (count as int) <= data@.len() ==> r is Ok,
{
    let mut l: Vec<AttributeLocalVariableTypeTableEntry> = Vec::new();
    let mut p = pos;
    let mut k: u16 = 0;
    proof {
        assert(ser_local_var_type_seq(l@) =~= data@.subrange(pos as int, pos as int));
    }
    while k < count
        invariant
            p as int == pos + 10 * (k as int),
            pos <= p <= data@.len(),
            k <= count,
            l@.len() == k,
            ser_local_var_type_seq(l@) == data@.subrange(pos as int, p as int),
        decreases count - k,
    {
        let (start_pc, q1) = read_u16(data, p)?;
        let (length, q2) = read_u16(data, q1)?;
        let (name_index, q3) = read_u16(data, q2)?;
        let (signature_index, q4) = read_u16(data, q3)?;
        let (index, q5) = read_u16(data, q4)?;
        let e = AttributeLocalVariableTypeTableEntry { start_pc, length, name_index, signature_index, index };
        proof {
            lemma_ser_local_var_type_seq_snoc(l@, e);
            lemma_concat_subranges(data@, p as int, q1 as int, q2 as int);
            lemma_concat_subranges(data@, p as int, q2 as int, q3 as int);
            lemma_concat_subranges(data@, p as int, q3 as int, q4 as int);
            lemma_concat_subranges(data@, p as int, q4 as int, q5 as int);
            assert(ser_local_var_type_entry(e) == data@.subrange(p as int, q5 as int));
            lemma_concat_subranges(data@, pos as int, p as int, q5 as int);
        }
        l.push(e);
        p = q5;
        k = k + 1;
    }
    Ok((l, p))
}

fn read_method_parameters(data: &Vec<u8>, pos: usize, count: u8) -> (r: Result<
    (Vec<AttributeMethodParametersEntry>, usize),
    MalformedClassFile,
>)
    requires
        pos <= data@.len(),
    ensures
        r matches Ok((l, end)) ==> {
            &&& pos <= end <= data@.len()
            &&& l@.len() == count
            &&& ser_method_param_seq(l@) == data@.subrange(pos as int, end as int)
        },
        pos + 4 * (count as int) <= data@.len() ==> r is Ok,
{
    let mut l: Vec<AttributeMethodParametersEntry> = Vec::new();
    let mut p = pos;
    let mut k: u8 = 0;
    proof {
        assert(ser_method_param_seq(l@) =~= data@.subrange(pos as int, pos as int));
    }
    while k < count
        invariant
            p as int == pos + 4 * (k as int),
            pos <= p <= data@.len(),
            k <= count,
            l@.len() == k,
            ser_method_param_seq(l@) == data@.subrange(pos as int, p as int),
        decreases count - k,
    {
        let (name_index, q1) = read_u16(data, p)?;
        let (access_flags, q2) = read_u16(data, q1)?;
        let e = AttributeMethodParametersEntry { name_index, access_flags };
        proof {
            lemma_ser_method_param_seq_snoc(l@, e);
            lemma_concat_subranges(data@, p as int, q1 as int, q2 as int);
            assert(ser_method_param(e) == data@.subrange(p as int, q2 as int));
            lemma_concat_subranges(data@, pos as int, p as int, q2 as int);
        }
        l.push(e);
        p = q2;
        k = k + 1;
    }
    Ok((l, p))
}

fn read_module_requires(data: &Vec<u8>, pos: usize, count: u16) -> (r: Result<
    (Vec<AttributeModuleRequiresEntry>, usize),
    MalformedClassFile,
>)
    requires
        pos <= data@.len(),
    ensures
        r matches Ok((l, end)) ==> {
            &&& pos <= end <= data@.len()
            &&& l@.len() == count
            &&& ser_module_requires_seq(l@) == data@.subrange(pos as int, end as int)
        },
        pos + 6 * (count as int) <= data@.len() ==> r is Ok,
{
    let mut l: Vec<AttributeModuleRequiresEntry> = Vec::new();
    let mut p = pos;
    let mut k: u16 = 0;
    proof {
        assert(ser_module_requires_seq(l@) =~= data@.subrange(pos as int, pos as int));
    }
    while k < count
        invariant
            p as int == pos + 6 * (k as int),
            pos <= p <= data@.len(),
            k <= count,
            l@.len() == k,
            ser_module_requires_seq(l@) == data@.subrange(pos as int, p as int),
        decreases count - k,
    {
        let (requires_index, q1) = read_u16(data, p)?;
        let (requires_flags, q2) = read_u16(data, q1)?;
        let (requires_version_index, q3) = read_u16(data, q2)?;
        let e = AttributeModuleRequiresEntry { requires_index, requires_flags, requires_version_index };
        proof {
            lemma_ser_module_requires_seq_snoc(l@, e);
            lemma_concat_subranges(data@, p as int, q1 as int, q2 as int);
            lemma_concat_subranges(data@, p as int, q2 as int, q3 as int);
            assert(ser_module_requires(e) == data@.subrange(p as int, q3 as int));
            lemma_concat_subranges(data@, pos as int, p as int, q3 as int);
        }
        l.push(e);
        p = q3;
        k = k + 1;
    }
    Ok((l, p))
}

/// Decodes a counted run of bootstrap-method rows, each with its counted
/// argument list.
fn read_bootstrap_methods(data: &Vec<u8>, pos: usize, count: u16) -> (r: Result<
    (Vec<AttributeBootstrapMethodsEntry>, usize),
    MalformedClassFile,
>)
    requires
        pos <= data@.len(),
    ensures
        r matches Ok((l, end)) ==> {
            &&& pos <= end <= data@.len()
            &&& l@.len() == count
            &&& (forall|i: int|
                0 <= i < l@.len() ==> (#[trigger] l@[i]).bootstrap_arguments@.len() <= 0xFFFF)
            &&& ser_bootstrap_seq(l@) == data@.subrange(pos as int, end as int)
        },
        bootstrap_entries_at(data@, pos as int, count as int) ==> r is Ok,
{
    let mut l: Vec<AttributeBootstrapMethodsEntry> = Vec::new();
    let ghost decodable = bootstrap_entries_at(data@, pos as int, count as int);
    let ghost w: Seq<AttributeBootstrapMethodsEntry> = if decodable {
        choose|l_g: Seq<AttributeBootstrapMethodsEntry>| l_g.len() == count as int && (forall|i: int| 0 <= i < l_g.len() ==> (#[trigger] l_g[i]).bootstrap_arguments@.len() <= 0xFFFF) && occurs_at(ser_bootstrap_seq(l_g), data@, pos as int)
    } else {
        Seq::empty()
    };
    let mut p = pos;
    let mut k: u16 = 0;
    proof {
        assert(ser_bootstrap_seq(l@) =~= data@.subrange(pos as int, pos as int));
        if decodable {
            assert(w.skip(0) =~= w);
        }
    }
    while k < count
        invariant
            decodable == (bootstrap_entries_at(data@, pos as int, count as int)),
            decodable ==> w.len() == (count as int) && (forall|i: int| 0 <= i < w.len() ==> (#[trigger] w[i]).bootstrap_arguments@.len() <= 0xFFFF) && occurs_at(
                ser_bootstrap_seq(w.skip(k as int)),
                data@,
                p as int,
            ),
            pos <= p <= data@.len(),
            k <= count,
            l@.len() == k,
            forall|i: int|
                0 <= i < l@.len() ==> (#[trigger] l@[i]).bootstrap_arguments@.len() <= 0xFFFF,
            ser_bootstrap_seq(l@) == data@.subrange(pos as int, p as int),
        decreases count - k,
    {
        proof {
            if decodable {
                assert(w.skip(k as int)[0] == w[k as int]);
                assert(w.skip(k as int).drop_first() =~= w.skip(k as int + 1));
                assert(ser_bootstrap_seq(w.skip(k as int)) =~= ser_bootstrap_entry(w[k as int])
                    + ser_bootstrap_seq(w.skip(k as int + 1)));
                lemma_occurs_split(
                    ser_bootstrap_entry(w[k as int]),
                    ser_bootstrap_seq(w.skip(k as int + 1)),
                    data@,
                    p as int,
                );
                assert(ser_bootstrap_entry(w[k as int]) =~= ser_u16(
                    w[k as int].bootstrap_method_ref,
                ) + ser_u16(w[k as int].bootstrap_arguments@.len() as u16) + ser_u16_seq(
                    w[k as int].bootstrap_arguments@,
                ));
                lemma_occurs_split(
                    ser_u16(w[k as int].bootstrap_method_ref) + ser_u16(
                        w[k as int].bootstrap_arguments@.len() as u16,
                    ),
                    ser_u16_seq(w[k as int].bootstrap_arguments@),
                    data@,
                    p as int,
                );
                lemma_occurs_split(
                    ser_u16(w[k as int].bootstrap_method_ref),
                    ser_u16(w[k as int].bootstrap_arguments@.len() as u16),
                    data@,
                    p as int,
                );
                lemma_u16_occurs(w[k as int].bootstrap_arguments@.len() as u16, data@, p + 2);
                crate::unamb::lemma_u16_seq_len(w[k as int].bootstrap_arguments@);
            }
        }
        let (bootstrap_method_ref, q1) = read_u16(data, p)?;
        let (num_bootstrap_arguments, q2) = read_u16(data, q1)?;
        let (bootstrap_arguments, q3) = read_u16_run(data, q2, num_bootstrap_arguments)?;
        let e = AttributeBootstrapMethodsEntry { bootstrap_method_ref, bootstrap_arguments };
        proof {
            if decodable {
                crate::unamb::lemma_u16_seq_len(bootstrap_arguments@);
            }
            lemma_ser_bootstrap_seq_snoc(l@, e);
            lemma_concat_subranges(data@, p as int, q1 as int, q2 as int);
            lemma_concat_subranges(data@, p as int, q2 as int, q3 as int);
            assert(ser_bootstrap_entry(e) == data@.subrange(p as int, q3 as int));
            lemma_concat_subranges(data@, pos as int, p as int, q3 as int);
        }
        l.push(e);
        p = q3;
        k = k + 1;
    }
    Ok((l, p))
}

/// Decodes a counted run of exports rows, each with its counted
/// target-module list.
fn read_module_exports(data: &Vec<u8>, pos: usize, count: u16) -> (r: Result<
    (Vec<AttributeModuleExportsEntry>, usize),
    MalformedClassFile,
>)
    requires
        pos <= data@.len(),
    ensures
        r matches Ok((l, end)) ==> {
            &&& pos <= end <= data@.len()
            &&& l@.len() == count
            &&& (forall|i: int| 0 <= i < l@.len() ==> (#[trigger] l@[i]).exports_to_index@.len() <= 0xFFFF)
            &&& ser_module_exports_seq(l@) == data@.subrange(pos as int, end as int)
        },
        module_exports_at(data@, pos as int, count as int) ==> r is Ok,
{
    let mut l: Vec<AttributeModuleExportsEntry> = Vec::new();
    let ghost decodable = module_exports_at(data@, pos as int, count as int);
    let ghost w: Seq<AttributeModuleExportsEntry> = if decodable {
        choose|l_g: Seq<AttributeModuleExportsEntry>| l_g.len() == count as int && (forall|i: int| 0 <= i < l_g.len() ==> (#[trigger] l_g[i]).exports_to_index@.len() <= 0xFFFF) && occurs_at(ser_module_exports_seq(l_g), data@, pos as int)
    } else {
        Seq::empty()
    };
    let mut p = pos;
    let mut k: u16 = 0;
    proof {
        assert(ser_module_exports_seq(l@) =~= data@.subrange(pos as int, pos as int));
        if decodable {
            assert(w.skip(0) =~= w);
        }
    }
    while k < count
        invariant
            decodable == (module_exports_at(data@, pos as int, count as int)),
            decodable ==> w.len() == (count as int) && (forall|i: int| 0 <= i < w.len() ==> (#[trigger] w[i]).exports_to_index@.len() <= 0xFFFF) && occurs_at(
                ser_module_exports_seq(w.skip(k as int)),
                data@,
                p as int,
            ),
            pos <= p <= data@.len(),
            k <= count,
            l@.len() == k,
            forall|i: int| 0 <= i < l@.len() ==> (#[trigger] l@[i]).exports_to_index@.len() <= 0xFFFF,
            ser_module_exports_seq(l@) == data@.subrange(pos as int, p as int),
        decreases count - k,
    {
        proof {
            if decodable {
                assert(w.skip(k as int)[0] == w[k as int]);
                assert(w.skip(k as int).drop_first() =~= w.skip(k as int + 1));
                assert(ser_module_exports_seq(w.skip(k as int)) =~= ser_module_exports(w[k as int])
                    + ser_module_exports_seq(w.skip(k as int + 1)));
                lemma_occurs_split(
                    ser_module_exports(w[k as int]),
                    ser_module_exports_seq(w.skip(k as int + 1)),
                    data@,
                    p as int,
                );
                assert(ser_module_exports(w[k as int]) =~= ser_u16(w[k as int].exports_index) + ser_u16(
                    w[k as int].exports_flags,
                ) + ser_u16(w[k as int].exports_to_index@.len() as u16) + ser_u16_seq(
                    w[k as int].exports_to_index@,
                ));
                lemma_occurs_split(
                    ser_u16(w[k as int].exports_index) + ser_u16(w[k as int].exports_flags) + ser_u16(
                        w[k as int].exports_to_index@.len() as u16,
                    ),
                    ser_u16_seq(w[k as int].exports_to_index@),
                    data@,
                    p as int,
                );
                lemma_occurs_split(
                    ser_u16(w[k as int].exports_index) + ser_u16(w[k as int].exports_flags),
                    ser_u16(w[k as int].exports_to_index@.len() as u16),
                    data@,
                    p as int,
                );
                lemma_u16_occurs(w[k as int].exports_to_index@.len() as u16, data@, p + 4);
                crate::unamb::lemma_u16_seq_len(w[k as int].exports_to_index@);
            }
        }
        let (exports_index, q1) = read_u16(data, p)?;
        let (exports_flags, q2) = read_u16(data, q1)?;
        let (to_count, q3) = read_u16(data, q2)?;
        let (exports_to_index, q4) = read_u16_run(data, q3, to_count)?;
        proof {
            if decodable {
                crate::unamb::lemma_u16_seq_len(exports_to_index@);
            }
        }
        let e = AttributeModuleExportsEntry { exports_index, exports_flags, exports_to_index };
        proof {
            lemma_ser_module_exports_seq_snoc(l@, e);
            lemma_concat_subranges(data@, p as int, q1 as int, q2 as int);
            lemma_concat_subranges(data@, p as int, q2 as int, q3 as int);
            lemma_concat_subranges(data@, p as int, q3 as int, q4 as int);
            assert(ser_module_exports(e) == data@.subrange(p as int, q4 as int));
            lemma_concat_subranges(data@, pos as int, p as int, q4 as int);
        }
        l.push(e);
        p = q4;
        k = k + 1;
    }
    Ok((l, p))
}

/// Decodes a counted run of opens rows, each with its counted
/// target-module list.
fn read_module_opens(data: &Vec<u8>, pos: usize, count: u16) -> (r: Result<
    (Vec<AttributeModuleOpensEntry>, usize),
    MalformedClassFile,
>)
    requires
        pos <= data@.len(),
    ensures
        r matches Ok((l, end)) ==> {
            &&& pos <= end <= data@.len()
            &&& l@.len() == count
            &&& (forall|i: int| 0 <= i < l@.len() ==> (#[trigger] l@[i]).opens_to_index@.len() <= 0xFFFF)
            &&& ser_module_opens_seq(l@) == data@.subrange(pos as int, end as int)
        },
        module_opens_at(data@, pos as int, count as int) ==> r is Ok,
{
    let mut l: Vec<AttributeModuleOpensEntry> = Vec::new();
    let ghost decodable = module_opens_at(data@, pos as int, count as int);
    let ghost w: Seq<AttributeModuleOpensEntry> = if decodable {
        choose|l_g: Seq<AttributeModuleOpensEntry>| l_g.len() == count as int && (forall|i: int| 0 <= i < l_g.len() ==> (#[trigger] l_g[i]).opens_to_index@.len() <= 0xFFFF) && occurs_at(ser_module_opens_seq(l_g), data@, pos as int)
    } else {
        Seq::empty()
    };
    let mut p = pos;
    let mut k: u16 = 0;
    proof {
        assert(ser_module_opens_seq(l@) =~= data@.subrange(pos as int, pos as int));
        if decodable {
            assert(w.skip(0) =~= w);
        }
    }
    while k < count
        invariant
            decodable == (module_opens_at(data@, pos as int, count as int)),
            decodable ==> w.len() == (count as int) && (forall|i: int| 0 <= i < w.len() ==> (#[trigger] w[i]).opens_to_index@.len() <= 0xFFFF) && occurs_at(
                ser_module_opens_seq(w.skip(k as int)),
                data@,
                p as int,
            ),
            pos <= p <= data@.len(),
            k <= count,
            l@.len() == k,
            forall|i: int| 0 <= i < l@.len() ==> (#[trigger] l@[i]).opens_to_index@.len() <= 0xFFFF,
            ser_module_opens_seq(l@) == data@.subrange(pos as int, p as int),
        decreases count - k,
    {
        proof {
            if decodable {
                assert(w.skip(k as int)[0] == w[k as int]);
                assert(w.skip(k as int).drop_first() =~= w.skip(k as int + 1));
                assert(ser_module_opens_seq(w.skip(k as int)) =~= ser_module_opens(w[k as int])
                    + ser_module_opens_seq(w.skip(k as int + 1)));
                lemma_occurs_split(
                    ser_module_opens(w[k as int]),
                    ser_module_opens_seq(w.skip(k as int + 1)),
                    data@,
                    p as int,
                );
                assert(ser_module_opens(w[k as int]) =~= ser_u16(w[k as int].opens_index) + ser_u16(
                    w[k as int].opens_flags,
                ) + ser_u16(w[k as int].opens_to_index@.len() as u16) + ser_u16_seq(
                    w[k as int].opens_to_index@,
                ));
                lemma_occurs_split(
                    ser_u16(w[k as int].opens_index) + ser_u16(w[k as int].opens_flags) + ser_u16(
                        w[k as int].opens_to_index@.len() as u16,
                    ),
                    ser_u16_seq(w[k as int].opens_to_index@),
                    data@,
                    p as int,
                );
                lemma_occurs_split(
                    ser_u16(w[k as int].opens_index) + ser_u16(w[k as int].opens_flags),
                    ser_u16(w[k as int].opens_to_index@.len() as u16),
                    data@,
                    p as int,
                );
                lemma_u16_occurs(w[k as int].opens_to_index@.len() as u16, data@, p + 4);
                crate::unamb::lemma_u16_seq_len(w[k as int].opens_to_index@);
            }
        }
        let (opens_index, q1) = read_u16(data, p)?;
        let (opens_flags, q2) = read_u16(data, q1)?;
        let (to_count, q3) = read_u16(data, q2)?;
        let (opens_to_index, q4) = read_u16_run(data, q3, to_count)?;
        proof {
            if decodable {
                crate::unamb::lemma_u16_seq_len(opens_to_index@);
            }
        }
        let e = AttributeModuleOpensEntry { opens_index, opens_flags, opens_to_index };
        proof {
            lemma_ser_module_opens_seq_snoc(l@, e);
            lemma_concat_subranges(data@, p as int, q1 as int, q2 as int);
            lemma_concat_subranges(data@, p as int, q2 as int, q3 as int);
            lemma_concat_subranges(data@, p as int, q3 as int, q4 as int);
            assert(ser_module_opens(e) == data@.subrange(p as int, q4 as int));
            lemma_concat_subranges(data@, pos as int, p as int, q4 as int);
        }
        l.push(e);
        p = q4;
        k = k + 1;
    }
    Ok((l, p))
}

/// Decodes a counted run of provides rows, each with its counted
/// implementation list.
fn read_module_provides(data: &Vec<u8>, pos: usize, count: u16) -> (r: Result<
    (Vec<AttributeModuleProvidesEntry>, usize),
    MalformedClassFile,
>)
    requires
        pos <= data@.len(),
    ensures
        r matches Ok((l, end)) ==> {
            &&& pos <= end <= data@.len()
            &&& l@.len() == count
            &&& (forall|i: int|
                0 <= i < l@.len() ==> (#[trigger] l@[i]).provides_with_index@.len() <= 0xFFFF)
            &&& ser_module_provides_seq(l@) == data@.subrange(pos as int, end as int)
        },
        module_provides_at(data@, pos as int, count as int) ==> r is Ok,
{
    let mut l: Vec<AttributeModuleProvidesEntry> = Vec::new();
    let ghost decodable = module_provides_at(data@, pos as int, count as int);
    let ghost w: Seq<AttributeModuleProvidesEntry> = if decodable {
        choose|l_g: Seq<AttributeModuleProvidesEntry>| l_g.len() == count as int && (forall|i: int| 0 <= i < l_g.len() ==> (#[trigger] l_g[i]).provides_with_index@.len() <= 0xFFFF) && occurs_at(ser_module_provides_seq(l_g), data@, pos as int)
    } else {
        Seq::empty()
    };
    let mut p = pos;
    let mut k: u16 = 0;
    proof {
        assert(ser_module_provides_seq(l@) =~= data@.subrange(pos as int, pos as int));
        if decodable {
            assert(w.skip(0) =~= w);
        }
    }
    while k < count
        invariant
            decodable == (module_provides_at(data@, pos as int, count as int)),
            decodable ==> w.len() == (count as int) && (forall|i: int| 0 <= i < w.len() ==> (#[trigger] w[i]).provides_with_index@.len() <= 0xFFFF) && occurs_at(
                ser_module_provides_seq(w.skip(k as int)),
                data@,
                p as int,
            ),
            pos <= p <= data@.len(),
            k <= count,
            l@.len() == k,
            forall|i: int|
                0 <= i < l@.len() ==> (#[trigger] l@[i]).provides_with_index@.len() <= 0xFFFF,
            ser_module_provides_seq(l@) == data@.subrange(pos as int, p as int),
        decreases count - k,
    {
        proof {
            if decodable {
                assert(w.skip(k as int)[0] == w[k as int]);
                assert(w.skip(k as int).drop_first() =~= w.skip(k as int + 1));
                assert(ser_module_provides_seq(w.skip(k as int)) =~= ser_module_provides(
                    w[k as int],
                ) + ser_module_provides_seq(w.skip(k as int + 1)));
                lemma_occurs_split(
                    ser_module_provides(w[k as int]),
                    ser_module_provides_seq(w.skip(k as int + 1)),
                    data@,
                    p as int,
                );
                assert(ser_module_provides(w[k as int]) =~= ser_u16(
                    w[k as int].provides_index,
                ) + ser_u16(w[k as int].provides_with_index@.len() as u16) + ser_u16_seq(
                    w[k as int].provides_with_index@,
                ));
                lemma_occurs_split(
                    ser_u16(w[k as int].provides_index) + ser_u16(
                        w[k as int].provides_with_index@.len() as u16,
                    ),
                    ser_u16_seq(w[k as int].provides_with_index@),
                    data@,
                    p as int,
                );
                lemma_occurs_split(
                    ser_u16(w[k as int].provides_index),
                    ser_u16(w[k as int].provides_with_index@.len() as u16),
                    data@,
                    p as int,
                );
                lemma_u16_occurs(w[k as int].provides_with_index@.len() as u16, data@, p + 2);
                crate::unamb::lemma_u16_seq_len(w[k as int].provides_with_index@);
            }
        }
        let (provides_index, q1) = read_u16(data, p)?;
        let (provides_with_count, q2) = read_u16(data, q1)?;
        let (provides_with_index, q3) = read_u16_run(data, q2, provides_with_count)?;
        proof {
            if decodable {
                crate::unamb::lemma_u16_seq_len(provides_with_index@);
            }
        }
        let e = AttributeModuleProvidesEntry { provides_index, provides_with_index };
        proof {
            lemma_ser_module_provides_seq_snoc(l@, e);
            lemma_concat_subranges(data@, p as int, q1 as int, q2 as int);
            lemma_concat_subranges(data@, p as int, q2 as int, q3 as int);
            assert(ser_module_provides(e) == data@.subrange(p as int, q3 as int));
            lemma_concat_subranges(data@, pos as int, p as int, q3 as int);
        }
        l.push(e);
        p = q3;
        k = k + 1;
    }
    Ok((l, p))
}


/// Decodes a counted run of stack-map frames.
fn read_stack_map_frames(data: &Vec<u8>, pos: usize, count: u16) -> (r: Result<
    (Vec<StackMapFrame>, usize),
    MalformedClassFile,
>)
    requires
        pos <= data@.len(),
    ensures
        r matches Ok((l, end)) ==> {
            &&& pos <= end <= data@.len()
            &&& l@.len() == count
            &&& wf_frame_seq(l@)
            &&& ser_frame_seq(l@) == data@.subrange(pos as int, end as int)
        },
        frames_at(data@, pos as int, count as int) ==> r is Ok,
{
    let mut l: Vec<StackMapFrame> = Vec::new();
    let ghost decodable = frames_at(data@, pos as int, count as int);
    let ghost w: Seq<StackMapFrame> = if decodable {
        choose|l_g: Seq<StackMapFrame>| l_g.len() == count as int && wf_frame_seq(l_g) && occurs_at(ser_frame_seq(l_g), data@, pos as int)
    } else {
        Seq::empty()
    };
    let mut p = pos;
    let mut k: u16 = 0;
    proof {
        assert(ser_frame_seq(l@) =~= data@.subrange(pos as int, pos as int));
        if decodable {
            assert(w.skip(0) =~= w);
        }
    }
    while k < count
        invariant
            decodable == (frames_at(data@, pos as int, count as int)),
            decodable ==> w.len() == (count as int) && wf_frame_seq(w) && occurs_at(
                ser_frame_seq(w.skip(k as int)),
                data@,
                p as int,
            ),
            pos <= p <= data@.len(),
            k <= count,
            l@.len() == k,
            wf_frame_seq(l@),
            ser_frame_seq(l@) == data@.subrange(pos as int, p as int),
        decreases count - k,
    {
        proof {
            if decodable {
                assert(w.skip(k as int)[0] == w[k as int]);
                assert(w.skip(k as int).drop_first() =~= w.skip(k as int + 1));
                lemma_occurs_split(
                    ser_frame(w[k as int]),
                    ser_frame_seq(w.skip(k as int + 1)),
                    data@,
                    p as int,
                );
                assert(frame_at(data@, p as int)) by {
                    assert(wf_frame(w[k as int]) && occurs_at(ser_frame(w[k as int]), data@, p as int));
                }
            }
        }
        let (f, p2) = read_stack_map_frame(data, p)?;
        proof {
            if decodable {
                let s1 = data@.subrange(p2 as int, data@.len() as int);
                let s2 = data@.subrange(
                    p + ser_frame(w[k as int]).len(),
                    data@.len() as int,
                );
                assert(ser_frame(f) + s1 =~= data@.subrange(p as int, data@.len() as int));
                assert(ser_frame(w[k as int]) + s2 =~= data@.subrange(
                    p as int,
                    data@.len() as int,
                ));
                lemma_frame_unamb(f, w[k as int], s1, s2);
            }
            lemma_ser_frame_seq_snoc(l@, f);
            lemma_concat_subranges(data@, pos as int, p as int, p2 as int);
            assert(forall|i: int| 0 <= i < l@.push(f).len() ==> wf_frame(#[trigger] l@.push(f)[i]));
        }
        l.push(f);
        p = p2;
        k = k + 1;
    }
    Ok((l, p))
}

/// Whether two strings hold the same text.  Relies on the standard library's
/// equality of `String`, which vstd specifies.
fn str_eq(s: &String, lit: &str) -> (b: bool)
    ensures
        b <==> s@ == lit@,
{
    let other: String = lit.to_owned();
    *s == other
}

/// Decodes one attribute record: a two-byte name index resolved through the
/// constant pool to one of the twenty-nine known attribute names, a declared
/// four-byte length, and the payload the name selects.  On success the
/// attribute is well formed, its stored name index resolves (recursively for
/// nested attributes) to exactly the name of its variant, and it serializes
/// to the consumed bytes.  A name index that does not lead to a text entry,
/// and a resolved name that is not one of the known names, fail with errors
/// carrying the index or the name.  The declared length is kept but never
/// checked against the bytes the payload actually occupies, as the format's
/// readers conventionally ignore it.
#[verifier::loop_isolation(false)]
#[verifier::rlimit(100)]
pub fn read_attribute(data: &Vec<u8>, pos: usize, constant_pool: &Vec<CpInfo>) -> (r: Result<
    (AttributeInfo, usize),
    MalformedClassFile,
>)
    requires
        pos <= data@.len(),
    ensures
        r matches Ok((a, end)) ==> {
            &&& pos < end <= data@.len()
            &&& wf_attr(a)
            &&& attr_resolves(a, constant_pool@)
            &&& ser_attr(a) == data@.subrange(pos as int, end as int)
        },
        pos + 6 > data@.len() ==> r == Err::<(AttributeInfo, usize), MalformedClassFile>(
            MalformedClassFile::UnexpectedEof,
        ),
        pos + 6 <= data@.len() && (u16_of(data@[pos as int], data@[pos + 1]) as int)
            >= constant_pool@.len() ==> r == Err::<(AttributeInfo, usize), MalformedClassFile>(
            MalformedClassFile::AttributeNameNotUtf8 {
                attribute_name_index: u16_of(data@[pos as int], data@[pos + 1]),
            },
        ),
        pos + 6 <= data@.len() && (u16_of(data@[pos as int], data@[pos + 1]) as int)
            < constant_pool@.len() && !(constant_pool@[u16_of(
            data@[pos as int],
            data@[pos + 1],
        ) as int] is Utf8) ==> r == Err::<(AttributeInfo, usize), MalformedClassFile>(
            MalformedClassFile::AttributeNameNotUtf8 {
                attribute_name_index: u16_of(data@[pos as int], data@[pos + 1]),
            },
        ),
        pos + 6 <= data@.len() && (u16_of(data@[pos as int], data@[pos + 1]) as int)
            < constant_pool@.len() && (constant_pool@[u16_of(
            data@[pos as int],
            data@[pos + 1],
        ) as int] matches CpInfo::Utf8(u) && !attribute_name_known(u.converted@)) ==> (r matches Err(e)
            && e matches MalformedClassFile::UnknownAttributeName { name } && name@
            == constant_pool@[u16_of(data@[pos as int], data@[pos + 1]) as int]->Utf8_0.converted@),
    decreases data@.len() - pos, 0int, 0int,
{
    let (attribute_name_index, p1) = read_u16(data, pos)?;
    let (attribute_length, p2) = read_u32(data, p1)?;
    if attribute_name_index as usize >= constant_pool.len() {
        return Err(MalformedClassFile::AttributeNameNotUtf8 { attribute_name_index });
    }
    let name: &String = match &constant_pool[attribute_name_index as usize] {
        CpInfo::Utf8(cp_utf8) => &cp_utf8.converted,
        _ => {
            return Err(MalformedClassFile::AttributeNameNotUtf8 { attribute_name_index });
        },
    };
    proof {
        lemma_concat_subranges(data@, pos as int, p1 as int, p2 as int);
    }
    if str_eq(name, "ConstantValue") {
        let (constantvalue_index, p3) = read_u16(data, p2)?;
        let a = AttributeInfo::ConstantValue(
            AttributeConstantValue { attribute_name_index, attribute_length, constantvalue_index, },
        );
        proof {
            lemma_concat_subranges(data@, pos as int, p2 as int, p3 as int);
            assert(ser_attr(a) == data@.subrange(pos as int, p3 as int));
        }
        return Ok((a, p3));
    }
    if str_eq(name, "Code") {
        let (max_stack, p3) = read_u16(data, p2)?;
        let (max_locals, p4) = read_u16(data, p3)?;
        let (code_length, p5) = read_u32(data, p4)?;
        let (code, p6) = read_bytes(data, p5, code_length as usize)?;
        let (exception_table_length, p7) = read_u16(data, p6)?;
        let (exception_table, p8) = read_exception_table(data, p7, exception_table_length)?;
        proof {
            crate::unamb::lemma_exception_seq_len(exception_table@);
        }
        let (attributes_count, p9) = read_u16(data, p8)?;
        let (attributes, p10) = read_attributes(data, p9, attributes_count, constant_pool)?;
        let a = AttributeInfo::Code(
            AttributeCode {
                attribute_name_index,
                attribute_length,
                max_stack,
                max_locals,
                code,
                exception_table,
                attributes,
            },
        );
        proof {
            lemma_concat_subranges(data@, pos as int, p2 as int, p3 as int);
            lemma_concat_subranges(data@, pos as int, p3 as int, p4 as int);
            lemma_concat_subranges(data@, pos as int, p4 as int, p5 as int);
            lemma_concat_subranges(data@, pos as int, p5 as int, p6 as int);
            lemma_concat_subranges(data@, pos as int, p6 as int, p7 as int);
            lemma_concat_subranges(data@, pos as int, p7 as int, p8 as int);
            lemma_concat_subranges(data@, pos as int, p8 as int, p9 as int);
            lemma_concat_subranges(data@, pos as int, p9 as int, p10 as int);
            assert(ser_attr(a) == data@.subrange(pos as int, p10 as int));
        }
        return Ok((a, p10));
    }
    if str_eq(name, "StackMapTable") {
        let (n, p3) = read_u16(data, p2)?;
        let (entries, p4) = read_stack_map_frames(data, p3, n)?;
        let a = AttributeInfo::StackMapTable(
            AttributeStackMapTable { attribute_name_index, attribute_length, entries },
        );
        proof {
            lemma_concat_subranges(data@, pos as int, p2 as int, p3 as int);
            lemma_concat_subranges(data@, pos as int, p3 as int, p4 as int);
            assert(ser_attr(a) == data@.subrange(pos as int, p4 as int));
        }
        return Ok((a, p4));
    }
    if str_eq(name, "Exceptions") {
        let (n, p3) = read_u16(data, p2)?;
        let (exception_index_table, p4) = read_u16_run(data, p3, n)?;
        let a = AttributeInfo::Exceptions(
            AttributeExceptions { attribute_name_index, attribute_length, exception_index_table },
        );
        proof {
            lemma_concat_subranges(data@, pos as int, p2 as int, p3 as int);
            lemma_concat_subranges(data@, pos as int, p3 as int, p4 as int);
            assert(ser_attr(a) == data@.subrange(pos as int, p4 as int));
        }
        return Ok((a, p4));
    }
    if str_eq(name, "InnerClasses") {
        let (n, p3) = read_u16(data, p2)?;
        let (classes, p4) = read_inner_classes(data, p3, n)?;
        let a = AttributeInfo::InnerClasses(
            AttributeInnerClasses { attribute_name_index, attribute_length, classes },
        );
        proof {
            lemma_concat_subranges(data@, pos as int, p2 as int, p3 as int);
            lemma_concat_subranges(data@, pos as int, p3 as int, p4 as int);
            assert(ser_attr(a) == data@.subrange(pos as int, p4 as int));
        }
        return Ok((a, p4));
    }
    if str_eq(name, "EnclosingMethod") {
        let (class_index, p3) = read_u16(data, p2)?;
        let (method_index, p4) = read_u16(data, p3)?;
        let a = AttributeInfo::EnclosingMethod(
            AttributeEnclosingMethod { attribute_name_index, attribute_length, class_index, method_index, },
        );
        proof {
            lemma_concat_subranges(data@, pos as int, p2 as int, p3 as int);
            lemma_concat_subranges(data@, pos as int, p3 as int, p4 as int);
            assert(ser_attr(a) == data@.subrange(pos as int, p4 as int));
        }
        return Ok((a, p4));
    }
    if str_eq(name, "Synthetic") {
        let a = AttributeInfo::Synthetic(
            AttributeSynthetic { attribute_name_index, attribute_length },
        );
        proof {
            assert(ser_attr(a) == data@.subrange(pos as int, p2 as int));
        }
        return Ok((a, p2));
    }
    if str_eq(name, "Signature") {
        let (signature_index, p3) = read_u16(data, p2)?;
        let a = AttributeInfo::Signature(
            AttributeSignature { attribute_name_index, attribute_length, signature_index, },
        );
        proof {
            lemma_concat_subranges(data@, pos as int, p2 as int, p3 as int);
            assert(ser_attr(a) == data@.subrange(pos as int, p3 as int));
        }
        return Ok((a, p3));
    }
    if str_eq(name, "SourceFile") {
        let (sourcefile_index, p3) = read_u16(data, p2)?;
        let a = AttributeInfo::SourceFile(
            AttributeSourceFile { attribute_name_index, attribute_length, sourcefile_index, },
        );
        proof {
            lemma_concat_subranges(data@, pos as int, p2 as int, p3 as int);
            assert(ser_attr(a) == data@.subrange(pos as int, p3 as int));
        }
        return Ok((a, p3));
    }
    if str_eq(name, "SourceDebugExtension") {
        let (debug_extension, p3) = read_bytes(data, p2, attribute_length as usize)?;
        let a = AttributeInfo::SourceDebugExtension(
            AttributeSourceDebugExtension { attribute_name_index, attribute_length, debug_extension },
        );
        proof {
            lemma_concat_subranges(data@, pos as int, p2 as int, p3 as int);
            assert(ser_attr(a) == data@.subrange(pos as int, p3 as int));
        }
        return Ok((a, p3));
    }
    if str_eq(name, "LineNumberTable") {
        let (n, p3) = read_u16(data, p2)?;
        let (line_number_table, p4) = read_line_number_table(data, p3, n)?;
        let a = AttributeInfo::LineNumberTable(
            AttributeLineNumberTable { attribute_name_index, attribute_length, line_number_table },
        );
        proof {
            lemma_concat_subranges(data@, pos as int, p2 as int, p3 as int);
            lemma_concat_subranges(data@, pos as int, p3 as int, p4 as int);
            assert(ser_attr(a) == data@.subrange(pos as int, p4 as int));
        }
        return Ok((a, p4));
    }
    if str_eq(name, "LocalVariableTable") {
        let (n, p3) = read_u16(data, p2)?;
        let (local_variable_table, p4) = read_local_variable_table(data, p3, n)?;
        let a = AttributeInfo::LocalVariableTable(
            AttributeLocalVariableTable { attribute_name_index, attribute_length, local_variable_table },
        );
        proof {
            lemma_concat_subranges(data@, pos as int, p2 as int, p3 as int);
            lemma_concat_subranges(data@, pos as int, p3 as int, p4 as int);
            assert(ser_attr(a) == data@.subrange(pos as int, p4 as int));
        }
        return Ok((a, p4));
    }
    if str_eq(name, "LocalVariableTypeTable") {
        let (n, p3) = read_u16(data, p2)?;
        let (local_variable_table, p4) = read_local_variable_type_table(data, p3, n)?;
        let a = AttributeInfo::LocalVariableTypeTable(
            AttributeLocalVariableTypeTable { attribute_name_index, attribute_length, local_variable_table },
        );
        proof {
            lemma_concat_subranges(data@, pos as int, p2 as int, p3 as int);
            lemma_concat_subranges(data@, pos as int, p3 as int, p4 as int);
            assert(ser_attr(a) == data@.subrange(pos as int, p4 as int));
        }
        return Ok((a, p4));
    }
    if str_eq(name, "Deprecated") {
        let a = AttributeInfo::Deprecated(
            AttributeDeprecated { attribute_name_index, attribute_length },
        );
        proof {
            assert(ser_attr(a) == data@.subrange(pos as int, p2 as int));
        }
        return Ok((a, p2));
    }
    if str_eq(name, "RuntimeVisibleAnnotations") {
        let (n, p3) = read_u16(data, p2)?;
        let (annotations, p4) = read_runtime_annotations(data, p3, n)?;
        let a = AttributeInfo::RuntimeVisibleAnnotations(
            AttributeRuntimeVisibleAnnotations { attribute_name_index, attribute_length, annotations },
        );
        proof {
            lemma_concat_subranges(data@, pos as int, p2 as int, p3 as int);
            lemma_concat_subranges(data@, pos as int, p3 as int, p4 as int);
            assert(ser_attr(a) == data@.subrange(pos as int, p4 as int));
        }
        return Ok((a, p4));
    }
    if str_eq(name, "RuntimeInvisibleAnnotations") {
        let (n, p3) = read_u16(data, p2)?;
        let (annotations, p4) = read_runtime_annotations(data, p3, n)?;
        let a = AttributeInfo::RuntimeInvisibleAnnotations(
            AttributeRuntimeInvisibleAnnotations { attribute_name_index, attribute_length, annotations },
        );
        proof {
            lemma_concat_subranges(data@, pos as int, p2 as int, p3 as int);
            lemma_concat_subranges(data@, pos as int, p3 as int, p4 as int);
            assert(ser_attr(a) == data@.subrange(pos as int, p4 as int));
        }
        return Ok((a, p4));
    }
    if str_eq(name, "RuntimeVisibleParameterAnnotations") {
        let (n, p3) = read_u8(data, p2)?;
        let (parameter_annotations, p4) = read_parameter_annotation_groups(data, p3, n)?;
        let a = AttributeInfo::RuntimeVisibleParameterAnnotations(
            AttributeRuntimeVisibleParameterAnnotations { attribute_name_index, attribute_length, parameter_annotations },
        );
        proof {
            assert(seq![n] =~= data@.subrange(p2 as int, p3 as int));
            lemma_concat_subranges(data@, pos as int, p2 as int, p3 as int);
            lemma_concat_subranges(data@, pos as int, p3 as int, p4 as int);
            assert(ser_attr(a) == data@.subrange(pos as int, p4 as int));
        }
        return Ok((a, p4));
    }
    if str_eq(name, "RuntimeInvisibleParameterAnnotations") {
        let (n, p3) = read_u8(data, p2)?;
        let (parameter_annotations, p4) = read_parameter_annotation_groups(data, p3, n)?;
        let a = AttributeInfo::RuntimeInvisibleParameterAnnotations(
            AttributeRuntimeInvisibleParameterAnnotations { attribute_name_index, attribute_length, parameter_annotations },
        );
        proof {
            assert(seq![n] =~= data@.subrange(p2 as int, p3 as int));
            lemma_concat_subranges(data@, pos as int, p2 as int, p3 as int);
            lemma_concat_subranges(data@, pos as int, p3 as int, p4 as int);
            assert(ser_attr(a) == data@.subrange(pos as int, p4 as int));
        }
        return Ok((a, p4));
    }
    if str_eq(name, "RuntimeVisibleTypeAnnotations") {
        let (n, p3) = read_u16(data, p2)?;
        let (annotations, p4) = read_runtime_type_annotations(data, p3, n)?;
        let a = AttributeInfo::RuntimeVisibleTypeAnnotations(
            AttributeRuntimeVisibleTypeAnnotations { attribute_name_index, attribute_length, annotations },
        );
        proof {
            lemma_concat_subranges(data@, pos as int, p2 as int, p3 as int);
            lemma_concat_subranges(data@, pos as int, p3 as int, p4 as int);
            assert(ser_attr(a) == data@.subrange(pos as int, p4 as int));
        }
        return Ok((a, p4));
    }
    if str_eq(name, "RuntimeInvisibleTypeAnnotations") {
        let (n, p3) = read_u16(data, p2)?;
        let (annotations, p4) = read_runtime_type_annotations(data, p3, n)?;
        let a = AttributeInfo::RuntimeInvisibleTypeAnnotations(
            AttributeRuntimeInvisibleTypeAnnotations { attribute_name_index, attribute_length, annotations },
        );
        proof {
            lemma_concat_subranges(data@, pos as int, p2 as int, p3 as int);
            lemma_concat_subranges(data@, pos as int, p3 as int, p4 as int);
            assert(ser_attr(a) == data@.subrange(pos as int, p4 as int));
        }
        return Ok((a, p4));
    }
    if str_eq(name, "AnnotationDefault") {
        let (default_value, p3) = read_annotations_element_value(data, p2)?;
        let a = AttributeInfo::AnnotationDefault(
            AttributeAnnotationDefault { attribute_name_index, attribute_length, default_value },
        );
        proof {
            lemma_concat_subranges(data@, pos as int, p2 as int, p3 as int);
            assert(ser_attr(a) == data@.subrange(pos as int, p3 as int));
        }
        return Ok((a, p3));
    }
    if str_eq(name, "BootstrapMethods") {
        let (n, p3) = read_u16(data, p2)?;
        let (bootstrap_methods, p4) = read_bootstrap_methods(data, p3, n)?;
        let a = AttributeInfo::BootstrapMethods(
            AttributeBootstrapMethods { attribute_name_index, attribute_length, bootstrap_methods },
        );
        proof {
            lemma_concat_subranges(data@, pos as int, p2 as int, p3 as int);
            lemma_concat_subranges(data@, pos as int, p3 as int, p4 as int);
            assert(ser_attr(a) == data@.subrange(pos as int, p4 as int));
        }
        return Ok((a, p4));
    }
    if str_eq(name, "MethodParameters") {
        let (n, p3) = read_u8(data, p2)?;
        let (parameters, p4) = read_method_parameters(data, p3, n)?;
        let a = AttributeInfo::MethodParameters(
            AttributeMethodParameters { attribute_name_index, attribute_length, parameters },
        );
        proof {
            assert(seq![n] =~= data@.subrange(p2 as int, p3 as int));
            lemma_concat_subranges(data@, pos as int, p2 as int, p3 as int);
            lemma_concat_subranges(data@, pos as int, p3 as int, p4 as int);
            assert(ser_attr(a) == data@.subrange(pos as int, p4 as int));
        }
        return Ok((a, p4));
    }
    if str_eq(name, "Module") {
        let (module_name_index, p3) = read_u16(data, p2)?;
        let (module_flags, p4) = read_u16(data, p3)?;
        let (module_version_index, p5) = read_u16(data, p4)?;
        let (requires_count, p6) = read_u16(data, p5)?;
        let (requires_list, p7) = read_module_requires(data, p6, requires_count)?;
        let (exports_count, p8) = read_u16(data, p7)?;
        let (exports, p9) = read_module_exports(data, p8, exports_count)?;
        let (opens_count, p10) = read_u16(data, p9)?;
        let (opens, p11) = read_module_opens(data, p10, opens_count)?;
        let (uses_count, p12) = read_u16(data, p11)?;
        let (uses_index, p13) = read_u16_run(data, p12, uses_count)?;
        let (provides_count, p14) = read_u16(data, p13)?;
        let (provides, p15) = read_module_provides(data, p14, provides_count)?;
        let a = AttributeInfo::Module(
            AttributeModule {
                attribute_name_index,
                attribute_length,
                module_name_index,
                module_flags,
                module_version_index,
                requires: requires_list,
                exports,
                opens,
                uses_index,
                provides,
            },
        );
        proof {
            lemma_concat_subranges(data@, pos as int, p2 as int, p3 as int);
            lemma_concat_subranges(data@, pos as int, p3 as int, p4 as int);
            lemma_concat_subranges(data@, pos as int, p4 as int, p5 as int);
            lemma_concat_subranges(data@, pos as int, p5 as int, p6 as int);
            lemma_concat_subranges(data@, pos as int, p6 as int, p7 as int);
            lemma_concat_subranges(data@, pos as int, p7 as int, p8 as int);
            lemma_concat_subranges(data@, pos as int, p8 as int, p9 as int);
            lemma_concat_subranges(data@, pos as int, p9 as int, p10 as int);
            lemma_concat_subranges(data@, pos as int, p10 as int, p11 as int);
            lemma_concat_subranges(data@, pos as int, p11 as int, p12 as int);
            lemma_concat_subranges(data@, pos as int, p12 as int, p13 as int);
            lemma_concat_subranges(data@, pos as int, p13 as int, p14 as int);
            lemma_concat_subranges(data@, pos as int, p14 as int, p15 as int);
            assert(ser_attr(a) == data@.subrange(pos as int, p15 as int));
        }
        return Ok((a, p15));
    }
    if str_eq(name, "ModulePackages") {
        let (n, p3) = read_u16(data, p2)?;
        let (package_index, p4) = read_u16_run(data, p3, n)?;
        let a = AttributeInfo::ModulePackages(
            AttributeModulePackages { attribute_name_index, attribute_length, package_index },
        );
        proof {
            lemma_concat_subranges(data@, pos as int, p2 as int, p3 as int);
            lemma_concat_subranges(data@, pos as int, p3 as int, p4 as int);
            assert(ser_attr(a) == data@.subrange(pos as int, p4 as int));
        }
        return Ok((a, p4));
    }
    if str_eq(name, "ModuleMainClass") {
        let (main_class_index, p3) = read_u16(data, p2)?;
        let a = AttributeInfo::ModuleMainClass(
            AttributeModuleMainClass { attribute_name_index, attribute_length, main_class_index, },
        );
        proof {
            lemma_concat_subranges(data@, pos as int, p2 as int, p3 as int);
            assert(ser_attr(a) == data@.subrange(pos as int, p3 as int));
        }
        return Ok((a, p3));
    }
    if str_eq(name, "NestHost") {
        let (host_class_index, p3) = read_u16(data, p2)?;
        let a = AttributeInfo::NestHost(
            AttributeNestHost { attribute_name_index, attribute_length, host_class_index, },
        );
        proof {
            lemma_concat_subranges(data@, pos as int, p2 as int, p3 as int);
            assert(ser_attr(a) == data@.subrange(pos as int, p3 as int));
        }
        return Ok((a, p3));
    }
    if str_eq(name, "NestMembers") {
        let (n, p3) = read_u16(data, p2)?;
        let (classes, p4) = read_u16_run(data, p3, n)?;
        let a = AttributeInfo::NestMembers(
            AttributeNestMembers { attribute_name_index, attribute_length, classes },
        );
        proof {
            lemma_concat_subranges(data@, pos as int, p2 as int, p3 as int);
            lemma_concat_subranges(data@, pos as int, p3 as int, p4 as int);
            assert(ser_attr(a) == data@.subrange(pos as int, p4 as int));
        }
        return Ok((a, p4));
    }
    if str_eq(name, "Record") {
        let (components_count, p3) = read_u16(data, p2)?;
        let mut components: Vec<AttributeRecordComponentInfo> = Vec::new();
        let mut p = p3;
        let mut k: u16 = 0;
        proof {
            lemma_concat_subranges(data@, pos as int, p2 as int, p3 as int);
            assert(ser_component_seq(components@) =~= data@.subrange(p3 as int, p3 as int));
        }
        while k < components_count
            invariant
                pos < p3 <= p <= data@.len(),
                k <= components_count,
                components@.len() == k,
                wf_component_seq(components@),
                forall|i: int|
                    0 <= i < components@.len() ==> attr_seq_resolves(
                        (#[trigger] components@[i]).attributes@,
                        constant_pool@,
                    ),
                ser_component_seq(components@) == data@.subrange(p3 as int, p as int),
            decreases components_count - k,
        {
            let (name_index, q1) = read_u16(data, p)?;
            let (descriptor_index, q2) = read_u16(data, q1)?;
            let (attributes_count, q3) = read_u16(data, q2)?;
            let (attributes, q4) = read_attributes(data, q3, attributes_count, constant_pool)?;
            let c = AttributeRecordComponentInfo { name_index, descriptor_index, attributes };
            proof {
                lemma_ser_component_seq_snoc(components@, c);
                lemma_concat_subranges(data@, p as int, q1 as int, q2 as int);
                lemma_concat_subranges(data@, p as int, q2 as int, q3 as int);
                lemma_concat_subranges(data@, p as int, q3 as int, q4 as int);
                assert(ser_component(c) == data@.subrange(p as int, q4 as int));
                lemma_concat_subranges(data@, p3 as int, p as int, q4 as int);
                assert(forall|i: int|
                    0 <= i < components@.push(c).len() ==> wf_component(
                        #[trigger] components@.push(c)[i],
                    ));
                assert(forall|i: int|
                    0 <= i < components@.push(c).len() ==> attr_seq_resolves(
                        (#[trigger] components@.push(c)[i]).attributes@,
                        constant_pool@,
                    ));
            }
            components.push(c);
            p = q4;
            k = k + 1;
        }
        let a = AttributeInfo::Record(
            AttributeRecord { attribute_name_index, attribute_length, components },
        );
        proof {
            lemma_concat_subranges(data@, pos as int, p3 as int, p as int);
            assert(ser_attr(a) == data@.subrange(pos as int, p as int));
        }
        return Ok((a, p));
    }
    if str_eq(name, "PermittedSubclasses") {
        let (n, p3) = read_u16(data, p2)?;
        let (classes, p4) = read_u16_run(data, p3, n)?;
        let a = AttributeInfo::PermittedSubclasses(
            AttributePermittedSubclasses { attribute_name_index, attribute_length, classes },
        );
        proof {
            lemma_concat_subranges(data@, pos as int, p2 as int, p3 as int);
            lemma_concat_subranges(data@, pos as int, p3 as int, p4 as int);
            assert(ser_attr(a) == data@.subrange(pos as int, p4 as int));
        }
        return Ok((a, p4));
    }
    Err(MalformedClassFile::UnknownAttributeName { name: name.clone() })
}

/// Decodes a counted run of attribute records.
pub fn read_attributes(
    data: &Vec<u8>,
    pos: usize,
    attributes_count: u16,
    constant_pool: &Vec<CpInfo>,
) -> (r: Result<(Vec<AttributeInfo>, usize), MalformedClassFile>)
    requires
        pos <= data@.len(),
    ensures
        r matches Ok((l, end)) ==> {
            &&& pos <= end <= data@.len()
            &&& l@.len() == attributes_count
            &&& wf_attr_seq(l@)
            &&& attr_seq_resolves(l@, constant_pool@)
            &&& ser_attr_seq(l@) == data@.subrange(pos as int, end as int)
        },
    decreases data@.len() - pos, 1int, 0int,
{
    let mut attributes: Vec<AttributeInfo> = Vec::new();
    let mut p = pos;
    let mut k: u16 = 0;
    proof {
        assert(ser_attr_seq(attributes@) =~= data@.subrange(pos as int, pos as int));
    }
    while k < attributes_count
        invariant
            pos <= p <= data@.len(),
            k <= attributes_count,
            attributes@.len() == k,
            wf_attr_seq(attributes@),
            attr_seq_resolves(attributes@, constant_pool@),
            ser_attr_seq(attributes@) == data@.subrange(pos as int, p as int),
        decreases attributes_count - k,
    {
        let (a, p2) = read_attribute(data, p, constant_pool)?;
        proof {
            lemma_ser_attr_seq_snoc(attributes@, a);
            lemma_concat_subranges(data@, pos as int, p as int, p2 as int);
            assert(forall|i: int|
                0 <= i < attributes@.push(a).len() ==> wf_attr(#[trigger] attributes@.push(a)[i]));
            assert(forall|i: int|
                0 <= i < attributes@.push(a).len() ==> attr_resolves(
                    #[trigger] attributes@.push(a)[i],
                    constant_pool@,
                ));
        }
        attributes.push(a);
        p = p2;
        k = k + 1;
    }
    Ok((attributes, p))
}


/// Decodes the counted run of direct-superinterface pool indices.
pub fn read_interfaces(data: &Vec<u8>, pos: usize, interfaces_count: u16) -> (r: Result<
    (Vec<u16>, usize),
    MalformedClassFile,
>)
    requires
        pos <= data@.len(),
    ensures
        r matches Ok((l, end)) ==> {
            &&& pos <= end <= data@.len()
            &&& l@.len() == interfaces_count
            &&& ser_u16_seq(l@) == data@.subrange(pos as int, end as int)
        },
        pos + 2 * (interfaces_count as int) <= data@.len() ==> r is Ok,
{
    read_u16_run(data, pos, interfaces_count)
}

/// Decodes one field record: flags, name, descriptor and its counted
/// attribute list.
pub fn read_field(data: &Vec<u8>, pos: usize, constant_pool: &Vec<CpInfo>) -> (r: Result<
    (FieldInfo, usize),
    MalformedClassFile,
>)
    requires
        pos <= data@.len(),
    ensures
        r matches Ok((f, end)) ==> {
            &&& pos < end <= data@.len()
            &&& wf_field(f)
            &&& attr_seq_resolves(f.attributes@, constant_pool@)
            &&& ser_field(f) == data@.subrange(pos as int, end as int)
        },
{
    let (access_flags, p1) = read_u16(data, pos)?;
    let (name_index, p2) = read_u16(data, p1)?;
    let (descriptor_index, p3) = read_u16(data, p2)?;
    let (attributes_count, p4) = read_u16(data, p3)?;
    let (attributes, p5) = read_attributes(data, p4, attributes_count, constant_pool)?;
    let f = FieldInfo { access_flags, name_index, descriptor_index, attributes };
    proof {
        lemma_concat_subranges(data@, pos as int, p1 as int, p2 as int);
        lemma_concat_subranges(data@, pos as int, p2 as int, p3 as int);
        lemma_concat_subranges(data@, pos as int, p3 as int, p4 as int);
        lemma_concat_subranges(data@, pos as int, p4 as int, p5 as int);
        assert(ser_field(f) == data@.subrange(pos as int, p5 as int));
    }
    Ok((f, p5))
}

/// Decodes the counted run of field records.
pub fn read_fields(
    data: &Vec<u8>,
    pos: usize,
    fields_count: u16,
    constant_pool: &Vec<CpInfo>,
) -> (r: Result<(Vec<FieldInfo>, usize), MalformedClassFile>)
    requires
        pos <= data@.len(),
    ensures
        r matches Ok((l, end)) ==> {
            &&& pos <= end <= data@.len()
            &&& l@.len() == fields_count
            &&& (forall|i: int| 0 <= i < l@.len() ==> wf_field(#[trigger] l@[i]))
            &&& (forall|i: int|
                0 <= i < l@.len() ==> attr_seq_resolves(
                    (#[trigger] l@[i]).attributes@,
                    constant_pool@,
                ))
            &&& ser_field_seq(l@) == data@.subrange(pos as int, end as int)
        },
{
    let mut fields: Vec<FieldInfo> = Vec::new();
    let mut p = pos;
    let mut k: u16 = 0;
    proof {
        assert(ser_field_seq(fields@) =~= data@.subrange(pos as int, pos as int));
    }
    while k < fields_count
        invariant
            pos <= p <= data@.len(),
            k <= fields_count,
            fields@.len() == k,
            forall|i: int| 0 <= i < fields@.len() ==> wf_field(#[trigger] fields@[i]),
            forall|i: int|
                0 <= i < fields@.len() ==> attr_seq_resolves(
                    (#[trigger] fields@[i]).attributes@,
                    constant_pool@,
                ),
            ser_field_seq(fields@) == data@.subrange(pos as int, p as int),
        decreases fields_count - k,
    {
        let (f, p2) = read_field(data, p, constant_pool)?;
        proof {
            lemma_ser_field_seq_snoc(fields@, f);
            lemma_concat_subranges(data@, pos as int, p as int, p2 as int);
            assert(forall|i: int|
                0 <= i < fields@.push(f).len() ==> wf_field(#[trigger] fields@.push(f)[i]));
            assert(forall|i: int|
                0 <= i < fields@.push(f).len() ==> attr_seq_resolves(
                    (#[trigger] fields@.push(f)[i]).attributes@,
                    constant_pool@,
                ));
        }
        fields.push(f);
        p = p2;
        k = k + 1;
    }
    Ok((fields, p))
}

/// Decodes one method record: flags, name, descriptor and its counted
/// attribute list.
pub fn read_method(data: &Vec<u8>, pos: usize, constant_pool: &Vec<CpInfo>) -> (r: Result<
    (MethodInfo, usize),
    MalformedClassFile,
>)
    requires
        pos <= data@.len(),
    ensures
        r matches Ok((m, end)) ==> {
            &&& pos < end <= data@.len()
            &&& wf_method(m)
            &&& attr_seq_resolves(m.attributes@, constant_pool@)
            &&& ser_method(m) == data@.subrange(pos as int, end as int)
        },
{
    let (access_flags, p1) = read_u16(data, pos)?;
    let (name_index, p2) = read_u16(data, p1)?;
    let (descriptor_index, p3) = read_u16(data, p2)?;
    let (attributes_count, p4) = read_u16(data, p3)?;
    let (attributes, p5) = read_attributes(data, p4, attributes_count, constant_pool)?;
    let m = MethodInfo { access_flags, name_index, descriptor_index, attributes };
    proof {
        lemma_concat_subranges(data@, pos as int, p1 as int, p2 as int);
        lemma_concat_subranges(data@, pos as int, p2 as int, p3 as int);
        lemma_concat_subranges(data@, pos as int, p3 as int, p4 as int);
        lemma_concat_subranges(data@, pos as int, p4 as int, p5 as int);
        assert(ser_method(m) == data@.subrange(pos as int, p5 as int));
    }
    Ok((m, p5))
}

/// Decodes the counted run of method records.
pub fn read_methods(
    data: &Vec<u8>,
    pos: usize,
    methods_count: u16,
    constant_pool: &Vec<CpInfo>,
) -> (r: Result<(Vec<MethodInfo>, usize), MalformedClassFile>)
    requires
        pos <= data@.len(),
    ensures
        r matches Ok((l, end)) ==> {
            &&& pos <= end <= data@.len()
            &&& l@.len() == methods_count
            &&& (forall|i: int| 0 <= i < l@.len() ==> wf_method(#[trigger] l@[i]))
            &&& (forall|i: int|
                0 <= i < l@.len() ==> attr_seq_resolves(
                    (#[trigger] l@[i]).attributes@,
                    constant_pool@,
                ))
            &&& ser_method_seq(l@) == data@.subrange(pos as int, end as int)
        },
{
    let mut methods: Vec<MethodInfo> = Vec::new();
    let mut p = pos;
    let mut k: u16 = 0;
    proof {
        assert(ser_method_seq(methods@) =~= data@.subrange(pos as int, pos as int));
    }
    while k < methods_count
        invariant
            pos <= p <= data@.len(),
            k <= methods_count,
            methods@.len() == k,
            forall|i: int| 0 <= i < methods@.len() ==> wf_method(#[trigger] methods@[i]),
            forall|i: int|
                0 <= i < methods@.len() ==> attr_seq_resolves(
                    (#[trigger] methods@[i]).attributes@,
                    constant_pool@,
                ),
            ser_method_seq(methods@) == data@.subrange(pos as int, p as int),
        decreases methods_count - k,
    {
        let (m, p2) = read_method(data, p, constant_pool)?;
        proof {
            lemma_ser_method_seq_snoc(methods@, m);
            lemma_concat_subranges(data@, pos as int, p as int, p2 as int);
            assert(forall|i: int|
                0 <= i < methods@.push(m).len() ==> wf_method(#[trigger] methods@.push(m)[i]));
            assert(forall|i: int|
                0 <= i < methods@.push(m).len() ==> attr_seq_resolves(
                    (#[trigger] methods@.push(m)[i]).attributes@,
                    constant_pool@,
                ));
        }
        methods.push(m);
        p = p2;
        k = k + 1;
    }
    Ok((methods, p))
}

/// Whether `r` is the error for a wrong magic number `read`: it names the
/// magic field and carries the expected and the offending value.
pub open spec fn is_wrong_magic_error(r: Result<ClassFile, MalformedClassFile>, read: u32) -> bool {
    r == Err::<ClassFile, MalformedClassFile>(
        MalformedClassFile::EntryWrongValue {
            entry_name: EntryName::Magic,
            value_read: read as u64,
            value_expected: 0xCAFEBABE,
        },
    )
}

/// Decodes a whole class file from an in-memory byte run: the magic number,
/// the version, the constant pool, the flags and class references, the
/// interfaces, the fields, the methods and the top-level attributes, in one
/// strictly forward pass.
///
/// On success the decoded structure is well formed, every attribute name
/// resolves in the decoded pool, and its serialization is an initial segment
/// of the input, so re-encoding it reproduces the consumed bytes exactly.
/// An input whose first four bytes are not the magic number fails with the
/// expected-versus-read error before anything further is examined, and an
/// input shorter than four bytes fails with exhaustion.
pub fn parse_class_file(data: &Vec<u8>) -> (r: Result<ClassFile, MalformedClassFile>)
    ensures
        r matches Ok(c) ==> {
            &&& wf_class_file(c)
            &&& class_file_resolves(c)
            &&& is_prefix_of(ser_class_file(c), data@)
        },
        data@.len() >= 4 && u32_of(data@[0], data@[1], data@[2], data@[3]) != 0xCAFEBABE
            ==> is_wrong_magic_error(r, u32_of(data@[0], data@[1], data@[2], data@[3])),
        data@.len() < 4 ==> r == Err::<ClassFile, MalformedClassFile>(
            MalformedClassFile::UnexpectedEof,
        ),
{
    let (magic, p1) = read_u32(data, 0)?;
    if magic != 0xCAFEBABE {
        return Err(
            MalformedClassFile::entry_wrong_value(EntryName::Magic, magic as u64, 0xCAFEBABE),
        );
    }
    let (minor_version, p2) = read_u16(data, p1)?;
    let (major_version, p3) = read_u16(data, p2)?;
    let (constant_pool_count, p4) = read_u16(data, p3)?;
    let (constant_pool, p5) = read_constant_pool(data, p4, constant_pool_count)?;
    let (access_flags, p6) = read_u16(data, p5)?;
    let (this_class, p7) = read_u16(data, p6)?;
    let (super_class, p8) = read_u16(data, p7)?;
    let (interfaces_count, p9) = read_u16(data, p8)?;
    let (interfaces, p10) = read_interfaces(data, p9, interfaces_count)?;
    let (fields_count, p11) = read_u16(data, p10)?;
    let (fields, p12) = read_fields(data, p11, fields_count, &constant_pool)?;
    let (methods_count, p13) = read_u16(data, p12)?;
    let (methods, p14) = read_methods(data, p13, methods_count, &constant_pool)?;
    let (attributes_count, p15) = read_u16(data, p14)?;
    let (attributes, p16) = read_attributes(data, p15, attributes_count, &constant_pool)?;
    let c = ClassFile {
        magic,
        minor_version,
        major_version,
        constant_pool_count,
        constant_pool,
        access_flags,
        this_class,
        super_class,
        interfaces,
        fields,
        methods,
        attributes,
    };
    proof {
        lemma_concat_subranges(data@, 0, p1 as int, p2 as int);
        lemma_concat_subranges(data@, 0, p2 as int, p3 as int);
        lemma_concat_subranges(data@, 0, p3 as int, p4 as int);
        lemma_concat_subranges(data@, 0, p4 as int, p5 as int);
        lemma_concat_subranges(data@, 0, p5 as int, p6 as int);
        lemma_concat_subranges(data@, 0, p6 as int, p7 as int);
        lemma_concat_subranges(data@, 0, p7 as int, p8 as int);
        lemma_concat_subranges(data@, 0, p8 as int, p9 as int);
        lemma_concat_subranges(data@, 0, p9 as int, p10 as int);
        lemma_concat_subranges(data@, 0, p10 as int, p11 as int);
        lemma_concat_subranges(data@, 0, p11 as int, p12 as int);
        lemma_concat_subranges(data@, 0, p12 as int, p13 as int);
        lemma_concat_subranges(data@, 0, p13 as int, p14 as int);
        lemma_concat_subranges(data@, 0, p14 as int, p15 as int);
        lemma_concat_subranges(data@, 0, p15 as int, p16 as int);
        assert(ser_class_file(c) == data@.subrange(0, p16 as int));
        assert(ser_class_file(c).len() == p16 as int);
        assert(is_prefix_of(ser_class_file(c), data@));
    }
    Ok(c)
}

} // verus!
