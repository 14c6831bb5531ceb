//! A reader for the `class` file format (JVMS chapter 4).
pub mod attribute;
pub mod bytes;
pub mod class_text;
pub mod constant_pool;
pub mod cursor;
pub mod display;
pub mod laws;
pub mod layout;
pub mod member;

use vstd::prelude::*;

use crate::class_file::attribute::{
    AttributeInfo,
    SpecAttributeInfo,
    attributes_view,
    read_attributes,
    spec_parse_attributes,
};
use crate::class_file::bytes::{spec_take_bytes, spec_take_u16, spec_take_u32, spec_take_u8};
pub use crate::class_file::bytes::{
    lemma_repeat_done,
    lemma_repeat_step,
    spec_repeat,
    spec_repeat_from,
};
use crate::class_file::constant_pool::{
    ConstantInfo,
    SpecConstantInfo,
    constants_view,
    read_constant,
    spec_parse_constant,
};
use crate::class_file::cursor::Cursor;
use crate::class_file::member::{FieldInfo, MethodInfo, SpecMemberInfo, member_parser, read_member};

verus! {

/// Why a class file was refused.
#[derive(Debug, Clone, Copy, PartialEq, Eq)]
pub enum ParseError {
    WrongMagic,
    UnexpectedEof,
    UnknownTag(u8),
    TrailingBytes,
    MissingAttributeInConstantPoll,
    AttributeShouldBeUtf8,
}

/// How reading a piece of a class file can stop short: with a `ParseError`,
/// or on an input the reader does not handle at all, where reading cannot go
/// on (a constant of a numeric, method-handle, dynamic, module or package kind).
#[derive(Debug, Clone, Copy, PartialEq, Eq)]
pub enum Stop {
    Error(ParseError),
    Unsupported,
}

/// A read's error as a stop.
pub fn stop_on<T>(r: Result<T, ParseError>) -> (s: Result<T, Stop>)
    ensures
        match r {
            Ok(v) => s == Ok::<T, Stop>(v),
            Err(e) => s == Err::<T, Stop>(Stop::Error(e)),
        },
{
    match r {
        Ok(v) => Ok(v),
        Err(e) => Err(Stop::Error(e)),
    }
}

/// A stop that is an error, as that error.
pub fn error_of<T>(r: Result<T, Stop>) -> (s: Result<T, ParseError>)
    requires
        r != Err::<T, Stop>(Stop::Unsupported),
    ensures
        match r {
            Ok(v) => s == Ok::<T, ParseError>(v),
            Err(Stop::Error(e)) => s == Err::<T, ParseError>(e),
            Err(Stop::Unsupported) => false,
        },
{
    match r {
        Ok(v) => Ok(v),
        Err(Stop::Error(e)) => Err(e),
        Err(Stop::Unsupported) => Err(ParseError::UnexpectedEof),
    }
}

/// Falling short of bytes.
pub open spec fn eof() -> Stop {
    Stop::Error(ParseError::UnexpectedEof)
}

/// A read that can only fall short of bytes, as a class-file read.
pub open spec fn or_eof<T>(r: Option<(T, Seq<u8>)>) -> Result<(T, Seq<u8>), Stop> {
    match r {
        Some(x) => Ok(x),
        None => Err(eof()),
    }
}

pub open spec fn spec_u8(s: Seq<u8>) -> Result<(u8, Seq<u8>), Stop> {
    or_eof(spec_take_u8(s))
}

pub open spec fn spec_u16(s: Seq<u8>) -> Result<(u16, Seq<u8>), Stop> {
    or_eof(spec_take_u16(s))
}

pub open spec fn spec_u32(s: Seq<u8>) -> Result<(u32, Seq<u8>), Stop> {
    or_eof(spec_take_u32(s))
}

pub open spec fn spec_bytes(s: Seq<u8>, n: nat) -> Result<(Seq<u8>, Seq<u8>), Stop> {
    or_eof(spec_take_bytes(s, n))
}

/// A parsed class file (JVMS 4.1). `constant_pool` holds the entries from
/// index 1 on, so entry `i` sits at position `i - 1`.
#[derive(Debug, PartialEq, Eq)]
pub struct ClassFile {
    pub minor_version: u16,
    pub major_version: u16,
    pub constant_pool: Vec<ConstantInfo>,
    pub access_flags: u16,
    pub this_class: u16,
    pub super_class: u16,
    pub interfaces: Vec<u16>,
    pub fields: Vec<FieldInfo>,
    pub methods: Vec<MethodInfo>,
    pub attributes: Vec<AttributeInfo>,
}

/// The mathematical value of a class file.
pub struct SpecClassFile {
    pub minor_version: u16,
    pub major_version: u16,
    pub constant_pool: Seq<SpecConstantInfo>,
    pub access_flags: u16,
    pub this_class: u16,
    pub super_class: u16,
    pub interfaces: Seq<u16>,
    pub fields: Seq<SpecMemberInfo>,
    pub methods: Seq<SpecMemberInfo>,
    pub attributes: Seq<SpecAttributeInfo>,
}

impl View for ClassFile {
    type V = SpecClassFile;

    open spec fn view(&self) -> SpecClassFile {
        SpecClassFile {
            minor_version: self.minor_version,
            major_version: self.major_version,
            constant_pool: constants_view(self.constant_pool@),
            access_flags: self.access_flags,
            this_class: self.this_class,
            super_class: self.super_class,
            interfaces: self.interfaces@,
            fields: self.fields@.map_values(|f: FieldInfo| f@),
            methods: self.methods@.map_values(|m: MethodInfo| m@),
            attributes: attributes_view(self.attributes@),
        }
    }
}

/// The first four bytes of every class file, big-endian.
pub open spec fn spec_magic() -> u32 {
    0xCAFEBABE
}

pub open spec fn constant_parser() -> spec_fn(Seq<u8>) -> Result<(SpecConstantInfo, Seq<u8>), Stop> {
    |s: Seq<u8>| spec_parse_constant(s)
}

pub open spec fn u16_parser() -> spec_fn(Seq<u8>) -> Result<(u16, Seq<u8>), Stop> {
    |s: Seq<u8>| spec_u16(s)
}

/// The number of entries read for a `constant_pool_count` of `count`:
/// the pool's indices run from 1 to `count - 1`.
pub open spec fn spec_pool_entries(count: u16) -> nat {
    if count >= 1 {
        (count - 1) as nat
    } else {
        0
    }
}

/// Everything after the constant pool: flags, this and super class, interfaces,
/// fields, methods and attributes; then nothing may follow.
pub open spec fn spec_parse_class_body(cp: Seq<SpecConstantInfo>, s: Seq<u8>) -> Result<
    (u16, u16, u16, Seq<u16>, Seq<SpecMemberInfo>, Seq<SpecMemberInfo>, Seq<SpecAttributeInfo>),
    Stop,
> {
    match spec_u16(s) {
        Err(e) => Err(e),
        Ok((access_flags, r1)) => match spec_u16(r1) {
            Err(e) => Err(e),
            Ok((this_class, r2)) => match spec_u16(r2) {
                Err(e) => Err(e),
                Ok((super_class, r3)) => match spec_u16(r3) {
                    Err(e) => Err(e),
                    Ok((ic, r4)) => match spec_repeat(r4, ic as nat, u16_parser()) {
                        Err(e) => Err(e),
                        Ok((interfaces, r5)) => match spec_u16(r5) {
                            Err(e) => Err(e),
                            Ok((fc, r6)) => match spec_repeat(r6, fc as nat, member_parser(cp)) {
                                Err(e) => Err(e),
                                Ok((fields, r7)) => match spec_u16(r7) {
                                    Err(e) => Err(e),
                                    Ok((mc, r8)) => match spec_repeat(
                                        r8,
                                        mc as nat,
                                        member_parser(cp),
                                    ) {
                                        Err(e) => Err(e),
                                        Ok((methods, r9)) => match spec_u16(r9) {
                                            Err(e) => Err(e),
                                            Ok((ac, r10)) => match spec_parse_attributes(
                                                cp,
                                                r10,
                                                ac as nat,
                                            ) {
                                                Err(e) => Err(e),
                                                Ok((attributes, r11)) => if r11.len() > 0 {
                                                    Err(Stop::Error(ParseError::TrailingBytes))
                                                } else {
                                                    Ok(
                                                        (
                                                            access_flags,
                                                            this_class,
                                                            super_class,
                                                            interfaces,
                                                            fields,
                                                            methods,
                                                            attributes,
                                                        ),
                                                    )
                                                },
                                            },
                                        },
                                    },
                                },
                            },
                        },
                    },
                },
            },
        },
    }
}

/// What reading a whole class file gives (JVMS 4.1).
pub open spec fn spec_parse_class_file(s: Seq<u8>) -> Result<SpecClassFile, Stop> {
    match spec_u32(s) {
        Err(e) => Err(e),
        Ok((magic, r1)) => if magic != spec_magic() {
            Err(Stop::Error(ParseError::WrongMagic))
        } else {
            match spec_u16(r1) {
                Err(e) => Err(e),
                Ok((minor_version, r2)) => match spec_u16(r2) {
                    Err(e) => Err(e),
                    Ok((major_version, r3)) => match spec_u16(r3) {
                        Err(e) => Err(e),
                        Ok((count, r4)) => match spec_repeat(
                            r4,
                            spec_pool_entries(count),
                            constant_parser(),
                        ) {
                            Err(e) => Err(e),
                            Ok((cp, r5)) => match spec_parse_class_body(cp, r5) {
                                Err(e) => Err(e),
                                Ok(
                                    (
                                        access_flags,
                                        this_class,
                                        super_class,
                                        interfaces,
                                        fields,
                                        methods,
                                        attributes,
                                    ),
                                ) => Ok(
                                    SpecClassFile {
                                        minor_version,
                                        major_version,
                                        constant_pool: cp,
                                        access_flags,
                                        this_class,
                                        super_class,
                                        interfaces,
                                        fields,
                                        methods,
                                        attributes,
                                    },
                                ),
                            },
                        },
                    },
                },
            }
        },
    }
}

/// Reads the constant pool's `count - 1` entries.
fn read_constant_pool(cursor: &mut Cursor, count: u16) -> (res: Result<Vec<ConstantInfo>, Stop>)
    ensures
        match spec_repeat(old(cursor)@, spec_pool_entries(count), constant_parser()) {
            Ok((cp, rest)) => res matches Ok(v) && constants_view(v@) == cp && final(cursor)@
                == rest,
            Err(e) => res == Err::<Vec<ConstantInfo>, Stop>(e),
        },
{
    let ghost start = cursor@;
    let ghost n = spec_pool_entries(count);
    let mut constant_pool: Vec<ConstantInfo> = Vec::new();
    let mut i: u16 = 1;
    proof {
        assert(constants_view(constant_pool@) =~= Seq::<SpecConstantInfo>::empty());
        assert(Seq::<SpecConstantInfo>::empty() + Seq::<SpecConstantInfo>::empty() =~= Seq::<
            SpecConstantInfo,
        >::empty());
    }
    while i < count
        invariant
            1 <= i,
            i <= count || count == 0,
            start == old(cursor)@,
            n == spec_pool_entries(count),
            spec_repeat(start, n, constant_parser()) == spec_repeat_from(
                constants_view(constant_pool@),
                cursor@,
                (if count >= i { count - i } else { 0 }) as nat,
                constant_parser(),
            ),
        decreases count - i,
    {
        proof {
            lemma_repeat_step(
                constants_view(constant_pool@),
                cursor@,
                (count - i) as nat,
                constant_parser(),
            );
        }
        let c = read_constant(cursor)?;
        let ghost old_pool = constant_pool@;
        constant_pool.push(c);
        proof {
            assert(constants_view(constant_pool@) =~= constants_view(old_pool).push(c@));
        }
        i = i + 1;
    }
    proof {
        lemma_repeat_done(constants_view(constant_pool@), cursor@, constant_parser());
    }
    Ok(constant_pool)
}

/// Reads `n` interface indices.
fn read_interfaces(cursor: &mut Cursor, n: u16) -> (res: Result<Vec<u16>, ParseError>)
    ensures
        match spec_repeat(old(cursor)@, n as nat, u16_parser()) {
            Ok((v, rest)) => res matches Ok(r) && r@ == v && final(cursor)@ == rest,
            Err(Stop::Error(e)) => res == Err::<Vec<u16>, ParseError>(e),
            Err(Stop::Unsupported) => false,
        },
{
    let ghost start = cursor@;
    let mut interfaces: Vec<u16> = Vec::new();
    let mut i: u16 = 0;
    proof {
        assert(Seq::<u16>::empty() + Seq::<u16>::empty() =~= Seq::<u16>::empty());
    }
    while i < n
        invariant
            i <= n,
            start == old(cursor)@,
            spec_repeat(start, n as nat, u16_parser()) == spec_repeat_from(
                interfaces@,
                cursor@,
                (n - i) as nat,
                u16_parser(),
            ),
        decreases n - i,
    {
        proof {
            lemma_repeat_step(interfaces@, cursor@, (n - i) as nat, u16_parser());
        }
        interfaces.push(cursor.u16()?);
        i = i + 1;
    }
    proof {
        lemma_repeat_done(interfaces@, cursor@, u16_parser());
    }
    Ok(interfaces)
}

/// Reads `n` fields.
fn read_fields(constant_pool: &[ConstantInfo], cursor: &mut Cursor, n: u16) -> (res: Result<
    Vec<FieldInfo>,
    Stop,
>)
    ensures
        match spec_repeat(old(cursor)@, n as nat, member_parser(constants_view(constant_pool@))) {
            Ok((v, rest)) => res matches Ok(r) && r@.map_values(|f: FieldInfo| f@) == v
                && final(cursor)@ == rest,
            Err(e) => res == Err::<Vec<FieldInfo>, Stop>(e),
        },
{
    let ghost cp = constants_view(constant_pool@);
    let ghost start = cursor@;
    let mut fields: Vec<FieldInfo> = Vec::new();
    let mut i: u16 = 0;
    proof {
        assert(fields@.map_values(|f: FieldInfo| f@) =~= Seq::<SpecMemberInfo>::empty());
        assert(Seq::<SpecMemberInfo>::empty() + Seq::<SpecMemberInfo>::empty() =~= Seq::<
            SpecMemberInfo,
        >::empty());
    }
    while i < n
        invariant
            i <= n,
            start == old(cursor)@,
            cp == constants_view(constant_pool@),
            spec_repeat(start, n as nat, member_parser(cp)) == spec_repeat_from(
                fields@.map_values(|f: FieldInfo| f@),
                cursor@,
                (n - i) as nat,
                member_parser(cp),
            ),
        decreases n - i,
    {
        proof {
            lemma_repeat_step(
                fields@.map_values(|f: FieldInfo| f@),
                cursor@,
                (n - i) as nat,
                member_parser(cp),
            );
        }
        let (access_flags, name_index, descriptor_index, attributes) = read_member(
            constant_pool,
            cursor,
        )?;
        let f = FieldInfo { access_flags, name_index, descriptor_index, attributes };
        let ghost old_fields = fields@;
        fields.push(f);
        proof {
            assert(fields@.map_values(|f: FieldInfo| f@) =~= old_fields.map_values(
                |f: FieldInfo| f@,
            ).push(f@));
        }
        i = i + 1;
    }
    proof {
        lemma_repeat_done(fields@.map_values(|f: FieldInfo| f@), cursor@, member_parser(cp));
    }
    Ok(fields)
}

/// Reads `n` methods.
fn read_methods(constant_pool: &[ConstantInfo], cursor: &mut Cursor, n: u16) -> (res: Result<
    Vec<MethodInfo>,
    Stop,
>)
    ensures
        match spec_repeat(old(cursor)@, n as nat, member_parser(constants_view(constant_pool@))) {
            Ok((v, rest)) => res matches Ok(r) && r@.map_values(|m: MethodInfo| m@) == v
                && final(cursor)@ == rest,
            Err(e) => res == Err::<Vec<MethodInfo>, Stop>(e),
        },
{
    let ghost cp = constants_view(constant_pool@);
    let ghost start = cursor@;
    let mut methods: Vec<MethodInfo> = Vec::new();
    let mut i: u16 = 0;
    proof {
        assert(methods@.map_values(|m: MethodInfo| m@) =~= Seq::<SpecMemberInfo>::empty());
        assert(Seq::<SpecMemberInfo>::empty() + Seq::<SpecMemberInfo>::empty() =~= Seq::<
            SpecMemberInfo,
        >::empty());
    }
    while i < n
        invariant
            i <= n,
            start == old(cursor)@,
            cp == constants_view(constant_pool@),
            spec_repeat(start, n as nat, member_parser(cp)) == spec_repeat_from(
                methods@.map_values(|m: MethodInfo| m@),
                cursor@,
                (n - i) as nat,
                member_parser(cp),
            ),
        decreases n - i,
    {
        proof {
            lemma_repeat_step(
                methods@.map_values(|m: MethodInfo| m@),
                cursor@,
                (n - i) as nat,
                member_parser(cp),
            );
        }
        let (access_flags, name_index, descriptor_index, attributes) = read_member(
            constant_pool,
            cursor,
        )?;
        let m = MethodInfo { access_flags, name_index, descriptor_index, attributes };
        let ghost old_methods = methods@;
        methods.push(m);
        proof {
            assert(methods@.map_values(|m: MethodInfo| m@) =~= old_methods.map_values(
                |m: MethodInfo| m@,
            ).push(m@));
        }
        i = i + 1;
    }
    proof {
        lemma_repeat_done(methods@.map_values(|m: MethodInfo| m@), cursor@, member_parser(cp));
    }
    Ok(methods)
}

impl ClassFile {
    /// Accepts exactly the class-file magic number `0xCAFEBABE`.
    pub fn validate_magic(val: u32) -> (res: Result<(), ParseError>)
        ensures
            val == spec_magic() ==> res is Ok,
            val != spec_magic() ==> res == Err::<(), ParseError>(ParseError::WrongMagic),
    {
        if val == 0xCAFEBABE {
            Ok(())
        } else {
            Err(ParseError::WrongMagic)
        }
    }

    /// Parses a whole class file, telling apart the inputs this reader does
    /// not handle (constant-pool entries of kinds it does not decode) from those
    /// it refuses with a `ParseError`.
    pub fn parse(value: Vec<u8>) -> (res: Result<ClassFile, Stop>)
        ensures
            match spec_parse_class_file(value@) {
                Ok(c) => res matches Ok(r) && r@ == c,
                Err(e) => res == Err::<ClassFile, Stop>(e),
            },
    {
        let mut cursor = Cursor::new(value.as_slice());
        let magic = stop_on(cursor.u32())?;
        stop_on(ClassFile::validate_magic(magic))?;
        let minor_version = stop_on(cursor.u16())?;
        let major_version = stop_on(cursor.u16())?;
        let constant_pool_count = stop_on(cursor.u16())?;
        let constant_pool = read_constant_pool(&mut cursor, constant_pool_count)?;
        let access_flags = stop_on(cursor.u16())?;
        let this_class = stop_on(cursor.u16())?;
        let super_class = stop_on(cursor.u16())?;
        let interfaces_count = stop_on(cursor.u16())?;
        let interfaces = stop_on(read_interfaces(&mut cursor, interfaces_count))?;
        let fields_count = stop_on(cursor.u16())?;
        let fields = read_fields(constant_pool.as_slice(), &mut cursor, fields_count)?;
        let methods_count = stop_on(cursor.u16())?;
        let methods = read_methods(constant_pool.as_slice(), &mut cursor, methods_count)?;
        let attributes_count = stop_on(cursor.u16())?;
        let attributes = read_attributes(constant_pool.as_slice(), &mut cursor, attributes_count)?;
        if cursor.u8().is_ok() {
            Err(Stop::Error(ParseError::TrailingBytes))
        } else {
            Ok(
                ClassFile {
                    minor_version,
                    major_version,
                    constant_pool,
                    access_flags,
                    this_class,
                    super_class,
                    interfaces,
                    fields,
                    methods,
                    attributes,
                },
            )
        }
    }

    /// Parses a whole class file. Constant-pool entries of the kinds this reader
    /// does not decode are left out by `requires`.
    pub fn try_from(value: Vec<u8>) -> (res: Result<ClassFile, ParseError>)
        requires
            spec_parse_class_file(value@) != Err::<SpecClassFile, Stop>(Stop::Unsupported),
        ensures
            match spec_parse_class_file(value@) {
                Ok(c) => res matches Ok(r) && r@ == c,
                Err(Stop::Error(e)) => res == Err::<ClassFile, ParseError>(e),
                Err(Stop::Unsupported) => false,
            },
    {
        error_of(ClassFile::parse(value))
    }
}

} // verus!
