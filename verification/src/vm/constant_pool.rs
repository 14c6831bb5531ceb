use vstd::prelude::*;

verus! {

/// A `CONSTANT_Class` entry: the index of the class's name.
#[derive(Debug, Clone, Copy, PartialEq, Eq)]
pub struct ClassReference {
    pub name_index: u16,
}

/// A `CONSTANT_String` entry: the index of its characters.
#[derive(Debug, Clone, Copy, PartialEq, Eq)]
pub struct StringReference {
    pub string_index: u16,
}

/// A `CONSTANT_Methodref` or `CONSTANT_InterfaceMethodref` entry.
#[derive(Debug, Clone, Copy, PartialEq, Eq)]
pub struct MethodReference {
    pub class_index: u16,
    pub name_and_type_index: u16,
}

/// A `CONSTANT_Fieldref` entry.
#[derive(Debug, Clone, Copy, PartialEq, Eq)]
pub struct FieldReference {
    pub class_index: u16,
    pub name_and_type_index: u16,
}

/// A `CONSTANT_NameAndType` entry.
#[derive(Debug, Clone, Copy, PartialEq, Eq)]
pub struct NameAndTypeReference {
    pub name_index: u16,
    pub descriptor_index: u16,
}

/// An entry of the run-time constant pool. `Dummy` fills index 0, which no
/// constant occupies. Of the numeric constants, the integer kinds are kept.
#[derive(Debug, PartialEq, Eq)]
pub enum ConstantInfo {
    Dummy,
    Utf8(String),
    Integer(i32),
    Long(i64),
    Class(ClassReference),
    String(StringReference),
    MethodRef(MethodReference),
    FieldRef(FieldReference),
    InterfaceRef(MethodReference),
    NameAndType(NameAndTypeReference),
}

/// The mathematical value of an entry: text as a sequence of characters.
pub enum SpecConstantInfo {
    Dummy,
    Utf8(Seq<char>),
    Integer(i32),
    Long(i64),
    Class(ClassReference),
    String(StringReference),
    MethodRef(MethodReference),
    FieldRef(FieldReference),
    InterfaceRef(MethodReference),
    NameAndType(NameAndTypeReference),
}

impl View for ConstantInfo {
    type V = SpecConstantInfo;

    open spec fn view(&self) -> SpecConstantInfo {
        match self {
            ConstantInfo::Dummy => SpecConstantInfo::Dummy,
            ConstantInfo::Utf8(s) => SpecConstantInfo::Utf8(s@),
            ConstantInfo::Integer(v) => SpecConstantInfo::Integer(*v),
            ConstantInfo::Long(v) => SpecConstantInfo::Long(*v),
            ConstantInfo::Class(r) => SpecConstantInfo::Class(*r),
            ConstantInfo::String(r) => SpecConstantInfo::String(*r),
            ConstantInfo::MethodRef(r) => SpecConstantInfo::MethodRef(*r),
            ConstantInfo::FieldRef(r) => SpecConstantInfo::FieldRef(*r),
            ConstantInfo::InterfaceRef(r) => SpecConstantInfo::InterfaceRef(*r),
            ConstantInfo::NameAndType(r) => SpecConstantInfo::NameAndType(*r),
        }
    }
}

/// The values of a sequence of entries.
pub open spec fn entries_view(cs: Seq<ConstantInfo>) -> Seq<SpecConstantInfo> {
    cs.map_values(|c: ConstantInfo| c@)
}

} // verus!
