use vstd::prelude::*;

use crate::class_file::cursor::Cursor;
use crate::class_file::{ParseError, Stop, error_of, spec_bytes, spec_u16, spec_u8, stop_on};

verus! {

/// The tag byte that opens each constant-pool entry (JVMS 4.4).
#[derive(Debug, Clone, Copy, PartialEq, Eq)]
pub enum ConstantTag {
    Utf8,
    Integer,
    Float,
    Long,
    Double,
    Class,
    String,
    FieldRef,
    MethodRef,
    InterfaceMethodRef,
    NameAndType,
    MethodHandle,
    MethodType,
    Dynamic,
    InvokeDynamic,
    Module,
    Package,
}

/// The tag that a byte denotes, if any.
pub open spec fn spec_constant_tag(b: u8) -> Option<ConstantTag> {
    if b == 1 {
        Some(ConstantTag::Utf8)
    } else if b == 3 {
        Some(ConstantTag::Integer)
    } else if b == 4 {
        Some(ConstantTag::Float)
    } else if b == 5 {
        Some(ConstantTag::Long)
    } else if b == 6 {
        Some(ConstantTag::Double)
    } else if b == 7 {
        Some(ConstantTag::Class)
    } else if b == 8 {
        Some(ConstantTag::String)
    } else if b == 9 {
        Some(ConstantTag::FieldRef)
    } else if b == 10 {
        Some(ConstantTag::MethodRef)
    } else if b == 11 {
        Some(ConstantTag::InterfaceMethodRef)
    } else if b == 12 {
        Some(ConstantTag::NameAndType)
    } else if b == 15 {
        Some(ConstantTag::MethodHandle)
    } else if b == 16 {
        Some(ConstantTag::MethodType)
    } else if b == 17 {
        Some(ConstantTag::Dynamic)
    } else if b == 18 {
        Some(ConstantTag::InvokeDynamic)
    } else if b == 19 {
        Some(ConstantTag::Module)
    } else if b == 20 {
        Some(ConstantTag::Package)
    } else {
        None
    }
}

/// The number that stands for a tag in a class file.
pub open spec fn spec_tag_number(t: ConstantTag) -> u8 {
    match t {
        ConstantTag::Utf8 => 1,
        ConstantTag::Integer => 3,
        ConstantTag::Float => 4,
        ConstantTag::Long => 5,
        ConstantTag::Double => 6,
        ConstantTag::Class => 7,
        ConstantTag::String => 8,
        ConstantTag::FieldRef => 9,
        ConstantTag::MethodRef => 10,
        ConstantTag::InterfaceMethodRef => 11,
        ConstantTag::NameAndType => 12,
        ConstantTag::MethodHandle => 15,
        ConstantTag::MethodType => 16,
        ConstantTag::Dynamic => 17,
        ConstantTag::InvokeDynamic => 18,
        ConstantTag::Module => 19,
        ConstantTag::Package => 20,
    }
}

/// Law: a tag and its number determine each other.
pub proof fn law_tag_number_round_trip(t: ConstantTag, b: u8)
    ensures
        spec_constant_tag(spec_tag_number(t)) == Some(t),
        spec_constant_tag(b) matches Some(t2) ==> spec_tag_number(t2) == b,
{
}

/// The tags whose entries this reader does not decode.
pub open spec fn spec_tag_unsupported(t: ConstantTag) -> bool {
    !(t is Utf8 || t is Class || t is String || t is FieldRef || t is MethodRef
        || t is InterfaceMethodRef || t is NameAndType)
}

impl ConstantTag {
    /// The tag a byte denotes; any other byte is given back as the error.
    pub fn try_from_primitive(number: u8) -> (res: Result<ConstantTag, u8>)
        ensures
            match spec_constant_tag(number) {
                Some(t) => res == Ok::<ConstantTag, u8>(t),
                None => res == Err::<ConstantTag, u8>(number),
            },
    {
        match number {
            1 => Ok(ConstantTag::Utf8),
            3 => Ok(ConstantTag::Integer),
            4 => Ok(ConstantTag::Float),
            5 => Ok(ConstantTag::Long),
            6 => Ok(ConstantTag::Double),
            7 => Ok(ConstantTag::Class),
            8 => Ok(ConstantTag::String),
            9 => Ok(ConstantTag::FieldRef),
            10 => Ok(ConstantTag::MethodRef),
            11 => Ok(ConstantTag::InterfaceMethodRef),
            12 => Ok(ConstantTag::NameAndType),
            15 => Ok(ConstantTag::MethodHandle),
            16 => Ok(ConstantTag::MethodType),
            17 => Ok(ConstantTag::Dynamic),
            18 => Ok(ConstantTag::InvokeDynamic),
            19 => Ok(ConstantTag::Module),
            20 => Ok(ConstantTag::Package),
            _ => Err(number),
        }
    }
}

/// One constant-pool entry. The reader never builds numeric entries (their tags
/// are not decoded); of those, the integer kinds are kept here for a pool built
/// by other means.
#[derive(Debug, PartialEq, Eq)]
pub enum ConstantInfo {
    Utf8(Vec<u8>),
    Integer(i32),
    Long(i64),
    Class(u16),
    String(u16),
    MethodRef { class_index: u16, name_and_type_index: u16 },
    FieldRef { class_index: u16, name_and_type_index: u16 },
    InterfaceRef { class_index: u16, name_and_type_index: u16 },
    NameAndType { name_index: u16, descriptor_index: u16 },
}

/// The mathematical value of a constant-pool entry.
pub enum SpecConstantInfo {
    Utf8(Seq<u8>),
    Integer(i32),
    Long(i64),
    Class(u16),
    String(u16),
    MethodRef { class_index: u16, name_and_type_index: u16 },
    FieldRef { class_index: u16, name_and_type_index: u16 },
    InterfaceRef { class_index: u16, name_and_type_index: u16 },
    NameAndType { name_index: u16, descriptor_index: u16 },
}

impl View for ConstantInfo {
    type V = SpecConstantInfo;

    open spec fn view(&self) -> SpecConstantInfo {
        match self {
            ConstantInfo::Utf8(b) => SpecConstantInfo::Utf8(b@),
            ConstantInfo::Integer(v) => SpecConstantInfo::Integer(*v),
            ConstantInfo::Long(v) => SpecConstantInfo::Long(*v),
            ConstantInfo::Class(i) => SpecConstantInfo::Class(*i),
            ConstantInfo::String(i) => SpecConstantInfo::String(*i),
            ConstantInfo::MethodRef { class_index, name_and_type_index } =>
                SpecConstantInfo::MethodRef {
                class_index: *class_index,
                name_and_type_index: *name_and_type_index,
            },
            ConstantInfo::FieldRef { class_index, name_and_type_index } =>
                SpecConstantInfo::FieldRef {
                class_index: *class_index,
                name_and_type_index: *name_and_type_index,
            },
            ConstantInfo::InterfaceRef { class_index, name_and_type_index } =>
                SpecConstantInfo::InterfaceRef {
                class_index: *class_index,
                name_and_type_index: *name_and_type_index,
            },
            ConstantInfo::NameAndType { name_index, descriptor_index } =>
                SpecConstantInfo::NameAndType {
                name_index: *name_index,
                descriptor_index: *descriptor_index,
            },
        }
    }
}

/// The values of a sequence of entries.
pub open spec fn constants_view(cs: Seq<ConstantInfo>) -> Seq<SpecConstantInfo> {
    cs.map_values(|c: ConstantInfo| c@)
}

/// Two big-endian `u16`s.
pub open spec fn spec_u16_pair(s: Seq<u8>) -> Result<((u16, u16), Seq<u8>), Stop> {
    match spec_u16(s) {
        Ok((a, r)) => match spec_u16(r) {
            Ok((b, r2)) => Ok(((a, b), r2)),
            Err(e) => Err(e),
        },
        Err(e) => Err(e),
    }
}

/// Reads one constant-pool entry (JVMS 4.4): its tag, then the fields that the tag calls for.
pub open spec fn spec_parse_constant(s: Seq<u8>) -> Result<(SpecConstantInfo, Seq<u8>), Stop> {
    match spec_u8(s) {
        Err(e) => Err(e),
        Ok((raw, r)) => match spec_constant_tag(raw) {
            None => Err(Stop::Error(ParseError::UnknownTag(raw))),
            Some(tag) => if spec_tag_unsupported(tag) {
                Err(Stop::Unsupported)
            } else if tag is Utf8 {
                match spec_u16(r) {
                    Ok((len, r2)) => match spec_bytes(r2, len as nat) {
                        Ok((b, r3)) => Ok((SpecConstantInfo::Utf8(b), r3)),
                        Err(e) => Err(e),
                    },
                    Err(e) => Err(e),
                }
            } else if tag is Class {
                match spec_u16(r) {
                    Ok((i, r2)) => Ok((SpecConstantInfo::Class(i), r2)),
                    Err(e) => Err(e),
                }
            } else if tag is String {
                match spec_u16(r) {
                    Ok((i, r2)) => Ok((SpecConstantInfo::String(i), r2)),
                    Err(e) => Err(e),
                }
            } else {
                match spec_u16_pair(r) {
                    Ok(((a, b), r2)) => Ok(
                        (
                            if tag is FieldRef {
                                SpecConstantInfo::FieldRef { class_index: a, name_and_type_index: b }
                            } else if tag is MethodRef {
                                SpecConstantInfo::MethodRef {
                                    class_index: a,
                                    name_and_type_index: b,
                                }
                            } else if tag is InterfaceMethodRef {
                                SpecConstantInfo::InterfaceRef {
                                    class_index: a,
                                    name_and_type_index: b,
                                }
                            } else {
                                SpecConstantInfo::NameAndType { name_index: a, descriptor_index: b }
                            },
                            r2,
                        ),
                    ),
                    Err(e) => Err(e),
                }
            },
        },
    }
}

/// Where reading stands once `spec_parse_constant(s)` has failed: just after
/// the tag byte when the tag is unknown or not decoded, and at the end when the
/// input ran out.
pub open spec fn spec_constant_stop(s: Seq<u8>) -> Seq<u8> {
    match spec_u8(s) {
        Ok((raw, r)) => match spec_constant_tag(raw) {
            None => r,
            Some(tag) => if spec_tag_unsupported(tag) {
                r
            } else {
                Seq::<u8>::empty()
            },
        },
        Err(_) => Seq::<u8>::empty(),
    }
}

/// Reads one constant-pool entry; the tags it does not decode stop it as unsupported.
pub(crate) fn read_constant(cursor: &mut Cursor) -> (res: Result<ConstantInfo, Stop>)
    ensures
        match spec_parse_constant(old(cursor)@) {
            Ok((c, rest)) => res matches Ok(v) && v@ == c && final(cursor)@ == rest,
            Err(e) => res == Err::<ConstantInfo, Stop>(e) && final(cursor)@ == spec_constant_stop(
                old(cursor)@,
            ),
        },
{
    let raw_tag = stop_on(cursor.u8())?;
    let tag = match ConstantTag::try_from_primitive(raw_tag) {
        Ok(t) => t,
        Err(_) => return Err(Stop::Error(ParseError::UnknownTag(raw_tag))),
    };
    match tag {
        ConstantTag::Utf8 => {
            let len = stop_on(cursor.u16())?;
            let bytes = stop_on(cursor.bytes(len as usize))?;
            Ok(ConstantInfo::Utf8(bytes))
        },
        ConstantTag::Class => Ok(ConstantInfo::Class(stop_on(cursor.u16())?)),
        ConstantTag::String => Ok(ConstantInfo::String(stop_on(cursor.u16())?)),
        ConstantTag::FieldRef => Ok(
            ConstantInfo::FieldRef {
                class_index: stop_on(cursor.u16())?,
                name_and_type_index: stop_on(cursor.u16())?,
            },
        ),
        ConstantTag::MethodRef => Ok(
            ConstantInfo::MethodRef {
                class_index: stop_on(cursor.u16())?,
                name_and_type_index: stop_on(cursor.u16())?,
            },
        ),
        ConstantTag::InterfaceMethodRef => Ok(
            ConstantInfo::InterfaceRef {
                class_index: stop_on(cursor.u16())?,
                name_and_type_index: stop_on(cursor.u16())?,
            },
        ),
        ConstantTag::NameAndType => Ok(
            ConstantInfo::NameAndType {
                name_index: stop_on(cursor.u16())?,
                descriptor_index: stop_on(cursor.u16())?,
            },
        ),
        _ => Err(Stop::Unsupported),
    }
}

impl ConstantInfo {
    /// Reads one constant-pool entry. The tags of numeric, method-handle,
    /// dynamic, module and package entries are not decoded: `requires` leaves
    /// those inputs out.
    pub fn read(cursor: &mut Cursor) -> (res: Result<ConstantInfo, ParseError>)
        requires
            spec_parse_constant(old(cursor)@) != Err::<(SpecConstantInfo, Seq<u8>), Stop>(
                Stop::Unsupported,
            ),
        ensures
            match spec_parse_constant(old(cursor)@) {
                Ok((c, rest)) => res matches Ok(v) && v@ == c && final(cursor)@ == rest,
                Err(Stop::Error(e)) => res == Err::<ConstantInfo, ParseError>(e) && final(cursor)@
                    == spec_constant_stop(old(cursor)@),
                Err(Stop::Unsupported) => false,
            },
    {
        error_of(read_constant(cursor))
    }
}

} // verus!
