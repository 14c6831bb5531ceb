use vstd::prelude::*;

use crate::class_file::attribute::{
    AttributeInfo,
    SpecAttributeInfo,
    attributes_view,
    read_attributes,
    lemma_attributes_supported,
    spec_attributes_stop,
    spec_parse_attributes,
};
use crate::class_file::constant_pool::{ConstantInfo, SpecConstantInfo, constants_view};
use crate::class_file::cursor::Cursor;
use crate::class_file::{ParseError, Stop, error_of, spec_u16, stop_on};

verus! {

/// A field of a class (JVMS 4.5).
#[derive(Debug, PartialEq, Eq)]
pub struct FieldInfo {
    pub access_flags: u16,
    pub name_index: u16,
    pub descriptor_index: u16,
    pub attributes: Vec<AttributeInfo>,
}

/// A method of a class (JVMS 4.6).
#[derive(Debug, PartialEq, Eq)]
pub struct MethodInfo {
    pub access_flags: u16,
    pub name_index: u16,
    pub descriptor_index: u16,
    pub attributes: Vec<AttributeInfo>,
}

/// The mathematical value of a field or a method: both have the same layout.
pub struct SpecMemberInfo {
    pub access_flags: u16,
    pub name_index: u16,
    pub descriptor_index: u16,
    pub attributes: Seq<SpecAttributeInfo>,
}

impl View for FieldInfo {
    type V = SpecMemberInfo;

    open spec fn view(&self) -> SpecMemberInfo {
        SpecMemberInfo {
            access_flags: self.access_flags,
            name_index: self.name_index,
            descriptor_index: self.descriptor_index,
            attributes: attributes_view(self.attributes@),
        }
    }
}

impl View for MethodInfo {
    type V = SpecMemberInfo;

    open spec fn view(&self) -> SpecMemberInfo {
        SpecMemberInfo {
            access_flags: self.access_flags,
            name_index: self.name_index,
            descriptor_index: self.descriptor_index,
            attributes: attributes_view(self.attributes@),
        }
    }
}

/// Reads a `field_info` or `method_info`: flags, name index, descriptor index,
/// then its attributes.
pub open spec fn spec_parse_member(cp: Seq<SpecConstantInfo>, s: Seq<u8>) -> Result<
    (SpecMemberInfo, Seq<u8>),
    Stop,
> {
    match spec_u16(s) {
        Err(e) => Err(e),
        Ok((access_flags, r1)) => match spec_u16(r1) {
            Err(e) => Err(e),
            Ok((name_index, r2)) => match spec_u16(r2) {
                Err(e) => Err(e),
                Ok((descriptor_index, r3)) => match spec_u16(r3) {
                    Err(e) => Err(e),
                    Ok((count, r4)) => match spec_parse_attributes(cp, r4, count as nat) {
                        Err(e) => Err(e),
                        Ok((attributes, r5)) => Ok(
                            (
                                SpecMemberInfo {
                                    access_flags,
                                    name_index,
                                    descriptor_index,
                                    attributes,
                                },
                                r5,
                            ),
                        ),
                    },
                },
            },
        },
    }
}

/// Where reading stands once `spec_parse_member(cp, s)` has failed: at the end
/// when the input ran out in the four leading numbers, else where its
/// attributes stopped.
pub open spec fn spec_member_stop(cp: Seq<SpecConstantInfo>, s: Seq<u8>) -> Seq<u8> {
    match spec_u16(s) {
        Err(_) => Seq::<u8>::empty(),
        Ok((_access_flags, r1)) => match spec_u16(r1) {
            Err(_) => Seq::<u8>::empty(),
            Ok((_name_index, r2)) => match spec_u16(r2) {
                Err(_) => Seq::<u8>::empty(),
                Ok((_descriptor_index, r3)) => match spec_u16(r3) {
                    Err(_) => Seq::<u8>::empty(),
                    Ok((count, r4)) => spec_attributes_stop(cp, r4, count as nat),
                },
            },
        },
    }
}

/// A field or method never stops as unsupported.
pub proof fn lemma_member_supported(cp: Seq<SpecConstantInfo>, s: Seq<u8>)
    ensures
        spec_parse_member(cp, s) != Err::<(SpecMemberInfo, Seq<u8>), Stop>(Stop::Unsupported),
{
    if let Ok((_a, r1)) = spec_u16(s) {
        if let Ok((_n, r2)) = spec_u16(r1) {
            if let Ok((_d, r3)) = spec_u16(r2) {
                if let Ok((count, r4)) = spec_u16(r3) {
                    lemma_attributes_supported(cp, r4, count as nat);
                }
            }
        }
    }
}

pub open spec fn member_parser(cp: Seq<SpecConstantInfo>) -> spec_fn(Seq<u8>) -> Result<
    (SpecMemberInfo, Seq<u8>),
    Stop,
> {
    |s: Seq<u8>| spec_parse_member(cp, s)
}

/// Reads the four fields shared by fields and methods.
pub(crate) fn read_member(constant_pool: &[ConstantInfo], cursor: &mut Cursor) -> (res: Result<
    (u16, u16, u16, Vec<AttributeInfo>),
    Stop,
>)
    ensures
        final(cursor)@.len() <= old(cursor)@.len(),
        match spec_parse_member(constants_view(constant_pool@), old(cursor)@) {
            Ok((m, rest)) => res matches Ok((a, n, d, attrs)) && m == (SpecMemberInfo {
                access_flags: a,
                name_index: n,
                descriptor_index: d,
                attributes: attributes_view(attrs@),
            }) && final(cursor)@ == rest,
            Err(e) => res == Err::<(u16, u16, u16, Vec<AttributeInfo>), Stop>(e) && final(cursor)@
                == spec_member_stop(constants_view(constant_pool@), old(cursor)@),
        },
{
    let access_flags = stop_on(cursor.u16())?;
    let name_index = stop_on(cursor.u16())?;
    let descriptor_index = stop_on(cursor.u16())?;
    let attributes_count = stop_on(cursor.u16())?;
    let attributes = read_attributes(constant_pool, cursor, attributes_count)?;
    Ok((access_flags, name_index, descriptor_index, attributes))
}

impl FieldInfo {
    /// Reads one `field_info`.
    pub fn read(constant_pool: &[ConstantInfo], cursor: &mut Cursor) -> (res: Result<
        FieldInfo,
        ParseError,
    >)
        ensures
            final(cursor)@.len() <= old(cursor)@.len(),
            match spec_parse_member(constants_view(constant_pool@), old(cursor)@) {
                Ok((m, rest)) => res matches Ok(f) && f@ == m && final(cursor)@ == rest,
                Err(Stop::Error(e)) => res == Err::<FieldInfo, ParseError>(e) && final(cursor)@
                    == spec_member_stop(constants_view(constant_pool@), old(cursor)@),
                Err(Stop::Unsupported) => false,
            },
    {
        proof {
            lemma_member_supported(constants_view(constant_pool@), cursor@);
        }
        let (access_flags, name_index, descriptor_index, attributes) = error_of(
            read_member(constant_pool, cursor),
        )?;
        Ok(FieldInfo { access_flags, name_index, descriptor_index, attributes })
    }
}

impl MethodInfo {
    /// Reads one `method_info`.
    pub fn read(constant_pool: &[ConstantInfo], cursor: &mut Cursor) -> (res: Result<
        MethodInfo,
        ParseError,
    >)
        ensures
            final(cursor)@.len() <= old(cursor)@.len(),
            match spec_parse_member(constants_view(constant_pool@), old(cursor)@) {
                Ok((m, rest)) => res matches Ok(f) && f@ == m && final(cursor)@ == rest,
                Err(Stop::Error(e)) => res == Err::<MethodInfo, ParseError>(e) && final(cursor)@
                    == spec_member_stop(constants_view(constant_pool@), old(cursor)@),
                Err(Stop::Unsupported) => false,
            },
    {
        proof {
            lemma_member_supported(constants_view(constant_pool@), cursor@);
        }
        let (access_flags, name_index, descriptor_index, attributes) = error_of(
            read_member(constant_pool, cursor),
        )?;
        Ok(MethodInfo { access_flags, name_index, descriptor_index, attributes })
    }
}

} // verus!
