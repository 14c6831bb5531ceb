use vstd::prelude::*;

use crate::class_file::constant_pool::{ConstantInfo, SpecConstantInfo, constants_view};
use crate::class_file::cursor::Cursor;
use crate::class_file::bytes::spec_take_u16;
use crate::class_file::{
    or_eof,
    ParseError,
    Stop,
    error_of,
    lemma_repeat_done,
    lemma_repeat_step,
    spec_bytes,
    spec_repeat,
    spec_repeat_from,
    spec_u16,
    spec_u32,
    stop_on,
};

verus! {

/// One row of a `Code` attribute's exception table.
#[derive(Debug, Clone, Copy, PartialEq, Eq)]
pub struct ExceptionTableEntry {
    pub start_pc: u16,
    pub end_pc: u16,
    pub handler_pc: u16,
    pub catch_type: u16,
}

/// One row of a `LineNumberTable` attribute.
#[derive(Debug, Clone, Copy, PartialEq, Eq)]
pub struct LineNumberEntry {
    pub start_pc: u16,
    pub line_number: u16,
}

/// One row of a `LocalVariableTable` attribute.
#[derive(Debug, Clone, Copy, PartialEq, Eq)]
pub struct LocalVariableEntry {
    pub start_pc: u16,
    pub length: u16,
    pub name_index: u16,
    pub descriptor_index: u16,
    pub index: u16,
}

/// An attribute of a class, field, method or `Code` attribute (JVMS 4.7).
/// Attributes this reader does not decode keep their raw bytes.
#[derive(Debug, PartialEq, Eq)]
pub enum AttributeInfo {
    Code {
        max_stack: u16,
        max_locals: u16,
        code: Vec<u8>,
        exception_table: Vec<ExceptionTableEntry>,
        attributes: Vec<AttributeInfo>,
    },
    LineNumberTable(Vec<LineNumberEntry>),
    LocalVariableTable(Vec<LocalVariableEntry>),
    Unsupported { name_index: u16, data: Vec<u8> },
    SourceFile { sourcefile_index: u16 },
}

/// The mathematical value of an attribute.
pub enum SpecAttributeInfo {
    Code {
        max_stack: u16,
        max_locals: u16,
        code: Seq<u8>,
        exception_table: Seq<ExceptionTableEntry>,
        attributes: Seq<SpecAttributeInfo>,
    },
    LineNumberTable(Seq<LineNumberEntry>),
    LocalVariableTable(Seq<LocalVariableEntry>),
    Unsupported { name_index: u16, data: Seq<u8> },
    SourceFile { sourcefile_index: u16 },
}

impl AttributeInfo {
    pub open spec fn spec_view(&self) -> SpecAttributeInfo
        decreases self,
    {
        match self {
            AttributeInfo::Code { max_stack, max_locals, code, exception_table, attributes } =>
                SpecAttributeInfo::Code {
                max_stack: *max_stack,
                max_locals: *max_locals,
                code: code@,
                exception_table: exception_table@,
                attributes: attributes_view(attributes@),
            },
            AttributeInfo::LineNumberTable(t) => SpecAttributeInfo::LineNumberTable(t@),
            AttributeInfo::LocalVariableTable(t) => SpecAttributeInfo::LocalVariableTable(t@),
            AttributeInfo::Unsupported { name_index, data } => SpecAttributeInfo::Unsupported {
                name_index: *name_index,
                data: data@,
            },
            AttributeInfo::SourceFile { sourcefile_index } => SpecAttributeInfo::SourceFile {
                sourcefile_index: *sourcefile_index,
            },
        }
    }
}

/// The values of a sequence of attributes.
pub open spec fn attributes_view(s: Seq<AttributeInfo>) -> Seq<SpecAttributeInfo>
    decreases s,
{
    if s.len() == 0 {
        Seq::<SpecAttributeInfo>::empty()
    } else {
        seq![s[0].spec_view()] + attributes_view(s.drop_first())
    }
}

impl View for AttributeInfo {
    type V = SpecAttributeInfo;

    open spec fn view(&self) -> SpecAttributeInfo {
        self.spec_view()
    }
}

pub proof fn lemma_attributes_view(s: Seq<AttributeInfo>)
    ensures
        attributes_view(s).len() == s.len(),
        forall|i: int| 0 <= i < s.len() ==> #[trigger] attributes_view(s)[i] == s[i].spec_view(),
    decreases s.len(),
{
    if s.len() > 0 {
        lemma_attributes_view(s.drop_first());
        assert forall|i: int| 0 <= i < s.len() implies #[trigger] attributes_view(s)[i]
            == s[i].spec_view() by {
            if i > 0 {
                assert(attributes_view(s)[i] == attributes_view(s.drop_first())[i - 1]);
            }
        }
    }
}

pub proof fn lemma_attributes_view_push(s: Seq<AttributeInfo>, a: AttributeInfo)
    ensures
        attributes_view(s.push(a)) == attributes_view(s).push(a.spec_view()),
{
    lemma_attributes_view(s);
    lemma_attributes_view(s.push(a));
    assert(attributes_view(s.push(a)) =~= attributes_view(s).push(a.spec_view()));
}

// ---------------------------------------------------------------------------
// Attribute names
// ---------------------------------------------------------------------------
/// `Code`
pub open spec fn spec_name_code() -> Seq<u8> {
    seq![0x43u8, 0x6f, 0x64, 0x65]
}

/// `LocalVariableTable`
pub open spec fn spec_name_local_variable_table() -> Seq<u8> {
    seq![
        0x4cu8, 0x6f, 0x63, 0x61, 0x6c, 0x56, 0x61, 0x72, 0x69, 0x61, 0x62, 0x6c, 0x65, 0x54,
        0x61, 0x62, 0x6c, 0x65,
    ]
}

/// `LineNumberTable`
pub open spec fn spec_name_line_number_table() -> Seq<u8> {
    seq![
        0x4cu8, 0x69, 0x6e, 0x65, 0x4e, 0x75, 0x6d, 0x62, 0x65, 0x72, 0x54, 0x61, 0x62, 0x6c,
        0x65,
    ]
}

/// `SourceFile`
pub open spec fn spec_name_source_file() -> Seq<u8> {
    seq![0x53u8, 0x6f, 0x75, 0x72, 0x63, 0x65, 0x46, 0x69, 0x6c, 0x65]
}

/// The attribute kinds this reader decodes.
#[derive(Debug, Clone, Copy, PartialEq, Eq)]
pub enum AttributeKind {
    LineNumberTable,
    Code,
    LocalVariableTable,
    SourceFile,
    Other,
}

/// The kind an attribute name stands for.
pub open spec fn spec_attribute_kind(name: Seq<u8>) -> AttributeKind {
    if name == spec_name_line_number_table() {
        AttributeKind::LineNumberTable
    } else if name == spec_name_code() {
        AttributeKind::Code
    } else if name == spec_name_local_variable_table() {
        AttributeKind::LocalVariableTable
    } else if name == spec_name_source_file() {
        AttributeKind::SourceFile
    } else {
        AttributeKind::Other
    }
}

/// Whether two byte strings are equal.
pub fn bytes_equal(a: &[u8], b: &[u8]) -> (r: bool)
    ensures
        r == (a@ == b@),
{
    if a.len() != b.len() {
        return false;
    }
    let mut i: usize = 0;
    while i < a.len()
        invariant
            a@.len() == b@.len(),
            i <= a@.len(),
            forall|j: int| 0 <= j < i ==> a@[j] == b@[j],
        decreases a@.len() - i,
    {
        if a[i] != b[i] {
            return false;
        }
        i = i + 1;
    }
    assert(a@ =~= b@);
    true
}

/// The kind of attribute a name denotes.
pub fn attribute_kind(name: &[u8]) -> (k: AttributeKind)
    ensures
        k == spec_attribute_kind(name@),
{
    let line_number_table: Vec<u8> = vec![
        0x4c, 0x69, 0x6e, 0x65, 0x4e, 0x75, 0x6d, 0x62, 0x65, 0x72, 0x54, 0x61, 0x62, 0x6c, 0x65,
    ];
    let code: Vec<u8> = vec![0x43, 0x6f, 0x64, 0x65];
    let local_variable_table: Vec<u8> = vec![
        0x4c, 0x6f, 0x63, 0x61, 0x6c, 0x56, 0x61, 0x72, 0x69, 0x61, 0x62, 0x6c, 0x65, 0x54, 0x61,
        0x62, 0x6c, 0x65,
    ];
    let source_file: Vec<u8> = vec![0x53, 0x6f, 0x75, 0x72, 0x63, 0x65, 0x46, 0x69, 0x6c, 0x65];
    assert(line_number_table@ == spec_name_line_number_table());
    assert(code@ == spec_name_code());
    assert(local_variable_table@ == spec_name_local_variable_table());
    assert(source_file@ == spec_name_source_file());
    if bytes_equal(name, line_number_table.as_slice()) {
        AttributeKind::LineNumberTable
    } else if bytes_equal(name, code.as_slice()) {
        AttributeKind::Code
    } else if bytes_equal(name, local_variable_table.as_slice()) {
        AttributeKind::LocalVariableTable
    } else if bytes_equal(name, source_file.as_slice()) {
        AttributeKind::SourceFile
    } else {
        AttributeKind::Other
    }
}

// ---------------------------------------------------------------------------
// The attribute grammar
// ---------------------------------------------------------------------------
/// The name an attribute's name index refers to: a `Utf8` entry. Index `i`
/// denotes the entry at position `i - 1` of the pool as read.
pub open spec fn spec_attribute_name(cp: Seq<SpecConstantInfo>, name_index: u16) -> Option<
    Seq<u8>,
> {
    let i = name_index as int - 1;
    if 0 <= i < cp.len() {
        match cp[i] {
            SpecConstantInfo::Utf8(b) => Some(b),
            _ => None,
        }
    } else {
        None
    }
}

pub open spec fn spec_line_number_entry(s: Seq<u8>) -> Option<(LineNumberEntry, Seq<u8>)> {
    match spec_take_u16(s) {
        Some((start_pc, r1)) => match spec_take_u16(r1) {
            Some((line_number, r2)) => Some((LineNumberEntry { start_pc, line_number }, r2)),
            None => None,
        },
        None => None,
    }
}

pub open spec fn spec_local_variable_entry(s: Seq<u8>) -> Option<(LocalVariableEntry, Seq<u8>)> {
    match spec_take_u16(s) {
        Some((start_pc, r1)) => match spec_take_u16(r1) {
            Some((length, r2)) => match spec_take_u16(r2) {
                Some((name_index, r3)) => match spec_take_u16(r3) {
                    Some((descriptor_index, r4)) => match spec_take_u16(r4) {
                        Some((index, r5)) => Some(
                            (
                                LocalVariableEntry {
                                    start_pc,
                                    length,
                                    name_index,
                                    descriptor_index,
                                    index,
                                },
                                r5,
                            ),
                        ),
                        None => None,
                    },
                    None => None,
                },
                None => None,
            },
            None => None,
        },
        None => None,
    }
}

pub open spec fn spec_exception_entry(s: Seq<u8>) -> Option<(ExceptionTableEntry, Seq<u8>)> {
    match spec_take_u16(s) {
        Some((start_pc, r1)) => match spec_take_u16(r1) {
            Some((end_pc, r2)) => match spec_take_u16(r2) {
                Some((handler_pc, r3)) => match spec_take_u16(r3) {
                    Some((catch_type, r4)) => Some(
                        (ExceptionTableEntry { start_pc, end_pc, handler_pc, catch_type }, r4),
                    ),
                    None => None,
                },
                None => None,
            },
            None => None,
        },
        None => None,
    }
}

pub open spec fn line_number_entry_parser() -> spec_fn(Seq<u8>) -> Result<
    (LineNumberEntry, Seq<u8>),
    Stop,
> {
    |s: Seq<u8>| or_eof(spec_line_number_entry(s))
}

pub open spec fn local_variable_entry_parser() -> spec_fn(Seq<u8>) -> Result<
    (LocalVariableEntry, Seq<u8>),
    Stop,
> {
    |s: Seq<u8>| or_eof(spec_local_variable_entry(s))
}

pub open spec fn exception_entry_parser() -> spec_fn(Seq<u8>) -> Result<
    (ExceptionTableEntry, Seq<u8>),
    Stop,
> {
    |s: Seq<u8>| or_eof(spec_exception_entry(s))
}

/// Reads one attribute: name index, length, then a body that depends on the name.
pub open spec fn spec_parse_attribute(cp: Seq<SpecConstantInfo>, s: Seq<u8>) -> Result<
    (SpecAttributeInfo, Seq<u8>),
    Stop,
>
    decreases s.len(), 0nat,
{
    match spec_u16(s) {
        Err(e) => Err(e),
        Ok((name_index, r1)) => match spec_u32(r1) {
            Err(e) => Err(e),
            Ok((length, r2)) => match spec_attribute_name(cp, name_index) {
                None => Err(Stop::Error(ParseError::AttributeShouldBeUtf8)),
                Some(name) => match spec_attribute_kind(name) {
                    AttributeKind::LineNumberTable => match spec_u16(r2) {
                        Ok((n, r3)) => match spec_repeat(
                            r3,
                            n as nat,
                            line_number_entry_parser(),
                        ) {
                            Ok((t, r4)) => Ok((SpecAttributeInfo::LineNumberTable(t), r4)),
                            Err(e) => Err(e),
                        },
                        Err(e) => Err(e),
                    },
                    AttributeKind::Code => if r2.len() < s.len() {
                        spec_parse_code(cp, r2)
                    } else {
                        Err(Stop::Unsupported)
                    },
                    AttributeKind::LocalVariableTable => match spec_u16(r2) {
                        Ok((n, r3)) => match spec_repeat(
                            r3,
                            n as nat,
                            local_variable_entry_parser(),
                        ) {
                            Ok((t, r4)) => Ok((SpecAttributeInfo::LocalVariableTable(t), r4)),
                            Err(e) => Err(e),
                        },
                        Err(e) => Err(e),
                    },
                    AttributeKind::SourceFile => match spec_u16(r2) {
                        Ok((i, r3)) => Ok(
                            (SpecAttributeInfo::SourceFile { sourcefile_index: i }, r3),
                        ),
                        Err(e) => Err(e),
                    },
                    AttributeKind::Other => match spec_bytes(r2, length as nat) {
                        Ok((data, r3)) => Ok(
                            (SpecAttributeInfo::Unsupported { name_index, data }, r3),
                        ),
                        Err(e) => Err(e),
                    },
                },
            },
        },
    }
}

/// The body of a `Code` attribute (JVMS 4.7.3), after its name and length.
pub open spec fn spec_parse_code(cp: Seq<SpecConstantInfo>, s: Seq<u8>) -> Result<
    (SpecAttributeInfo, Seq<u8>),
    Stop,
>
    decreases s.len(), 0nat,
{
    match spec_u16(s) {
        Err(e) => Err(e),
        Ok((max_stack, r1)) => match spec_u16(r1) {
            Err(e) => Err(e),
            Ok((max_locals, r2)) => match spec_u32(r2) {
                Err(e) => Err(e),
                Ok((code_length, r3)) => match spec_bytes(r3, code_length as nat) {
                    Err(e) => Err(e),
                    Ok((code, r4)) => match spec_u16(r4) {
                        Err(e) => Err(e),
                        Ok((etl, r5)) => match spec_repeat(
                            r5,
                            etl as nat,
                            exception_entry_parser(),
                        ) {
                            Err(e) => Err(e),
                            Ok((exception_table, r6)) => match spec_u16(r6) {
                                Err(e) => Err(e),
                                Ok((count, r7)) => if r7.len() < s.len() {
                                    match spec_parse_attributes(cp, r7, count as nat) {
                                        Ok((attributes, r8)) => Ok(
                                            (
                                                SpecAttributeInfo::Code {
                                                    max_stack,
                                                    max_locals,
                                                    code,
                                                    exception_table,
                                                    attributes,
                                                },
                                                r8,
                                            ),
                                        ),
                                        Err(e) => Err(e),
                                    }
                                } else {
                                    Err(Stop::Unsupported)
                                },
                            },
                        },
                    },
                },
            },
        },
    }
}

/// `n` attributes one after another.
pub open spec fn spec_parse_attributes(cp: Seq<SpecConstantInfo>, s: Seq<u8>, n: nat) -> Result<
    (Seq<SpecAttributeInfo>, Seq<u8>),
    Stop,
>
    decreases s.len(), n + 1,
{
    if n == 0 {
        Ok((Seq::<SpecAttributeInfo>::empty(), s))
    } else {
        match spec_parse_attribute(cp, s) {
            Ok((a, r)) => if r.len() <= s.len() {
                match spec_parse_attributes(cp, r, (n - 1) as nat) {
                    Ok((rest, r2)) => Ok((seq![a] + rest, r2)),
                    Err(e) => Err(e),
                }
            } else {
                Err(Stop::Unsupported)
            },
            Err(e) => Err(e),
        }
    }
}

/// Where reading stands once `spec_parse_attribute(cp, s)` has failed: just
/// after the six header bytes when the name index names no `Utf8` entry, where
/// a nested attribute of a `Code` attribute stopped, and at the end when the
/// input ran out.
pub open spec fn spec_attribute_stop(cp: Seq<SpecConstantInfo>, s: Seq<u8>) -> Seq<u8>
    decreases s.len(), 0nat,
{
    match spec_u16(s) {
        Err(_) => Seq::<u8>::empty(),
        Ok((name_index, r1)) => match spec_u32(r1) {
            Err(_) => Seq::<u8>::empty(),
            Ok((_length, r2)) => match spec_attribute_name(cp, name_index) {
                None => r2,
                Some(name) => if spec_attribute_kind(name) is Code && r2.len() < s.len() {
                    spec_code_stop(cp, r2)
                } else {
                    Seq::<u8>::empty()
                },
            },
        },
    }
}

/// Where reading stands once `spec_parse_code(cp, s)` has failed.
pub open spec fn spec_code_stop(cp: Seq<SpecConstantInfo>, s: Seq<u8>) -> Seq<u8>
    decreases s.len(), 0nat,
{
    match spec_u16(s) {
        Err(_) => Seq::<u8>::empty(),
        Ok((_max_stack, r1)) => match spec_u16(r1) {
            Err(_) => Seq::<u8>::empty(),
            Ok((_max_locals, r2)) => match spec_u32(r2) {
                Err(_) => Seq::<u8>::empty(),
                Ok((code_length, r3)) => match spec_bytes(r3, code_length as nat) {
                    Err(_) => Seq::<u8>::empty(),
                    Ok((_code, r4)) => match spec_u16(r4) {
                        Err(_) => Seq::<u8>::empty(),
                        Ok((etl, r5)) => match spec_repeat(
                            r5,
                            etl as nat,
                            exception_entry_parser(),
                        ) {
                            Err(_) => Seq::<u8>::empty(),
                            Ok((_table, r6)) => match spec_u16(r6) {
                                Err(_) => Seq::<u8>::empty(),
                                Ok((count, r7)) => if r7.len() < s.len() {
                                    spec_attributes_stop(cp, r7, count as nat)
                                } else {
                                    Seq::<u8>::empty()
                                },
                            },
                        },
                    },
                },
            },
        },
    }
}

/// Where reading stands once `spec_parse_attributes(cp, s, n)` has failed: where
/// the first attribute that failed stopped.
pub open spec fn spec_attributes_stop(cp: Seq<SpecConstantInfo>, s: Seq<u8>, n: nat) -> Seq<u8>
    decreases s.len(), n + 1,
{
    if n == 0 {
        s
    } else {
        match spec_parse_attribute(cp, s) {
            Err(_) => spec_attribute_stop(cp, s),
            Ok((_a, r)) => if r.len() <= s.len() {
                spec_attributes_stop(cp, r, (n - 1) as nat)
            } else {
                s
            },
        }
    }
}

/// `spec_parse_attributes`, given the attributes already read.
pub open spec fn spec_attributes_from(
    cp: Seq<SpecConstantInfo>,
    done: Seq<SpecAttributeInfo>,
    s: Seq<u8>,
    n: nat,
) -> Result<(Seq<SpecAttributeInfo>, Seq<u8>), Stop> {
    match spec_parse_attributes(cp, s, n) {
        Ok((vs, r)) => Ok((done + vs, r)),
        Err(e) => Err(e),
    }
}

pub proof fn lemma_attributes_step(
    cp: Seq<SpecConstantInfo>,
    done: Seq<SpecAttributeInfo>,
    s: Seq<u8>,
    n: nat,
)
    requires
        n > 0,
    ensures
        spec_parse_attribute(cp, s) matches Ok((v, r)) ==> r.len() <= s.len()
            ==> spec_attributes_from(cp, done, s, n) == spec_attributes_from(
            cp,
            done.push(v),
            r,
            (n - 1) as nat,
        ),
        spec_parse_attribute(cp, s) matches Err(e) ==> spec_attributes_from(cp, done, s, n)
            == Err::<(Seq<SpecAttributeInfo>, Seq<u8>), Stop>(e),
{
    if let Ok((v, r)) = spec_parse_attribute(cp, s) {
        if let Ok((vs, r2)) = spec_parse_attributes(cp, r, (n - 1) as nat) {
            assert(done + (seq![v] + vs) == done.push(v) + vs);
        }
    }
}

/// A reader that never stops as unsupported and never grows its input keeps
/// both when repeated.
proof fn lemma_repeat_supported<T>(s: Seq<u8>, n: nat, p: spec_fn(Seq<u8>) -> Result<(T, Seq<u8>), Stop>)
    requires
        forall|x: Seq<u8>|
            #![trigger p(x)]
            p(x) != Err::<(T, Seq<u8>), Stop>(Stop::Unsupported) && (p(x) matches Ok((_v, r))
                ==> r.len() <= x.len()),
    ensures
        spec_repeat(s, n, p) != Err::<(Seq<T>, Seq<u8>), Stop>(Stop::Unsupported),
        spec_repeat(s, n, p) matches Ok((_vs, r)) ==> r.len() <= s.len(),
    decreases n,
{
    if n > 0 {
        if let Ok((_v, r)) = p(s) {
            lemma_repeat_supported(r, (n - 1) as nat, p);
        }
    }
}

proof fn lemma_entry_parsers_supported()
    ensures
        forall|x: Seq<u8>|
            #![trigger line_number_entry_parser()(x)]
            line_number_entry_parser()(x) != Err::<(LineNumberEntry, Seq<u8>), Stop>(
                Stop::Unsupported,
            ) && (line_number_entry_parser()(x) matches Ok((_v, r)) ==> r.len() <= x.len()),
        forall|x: Seq<u8>|
            #![trigger local_variable_entry_parser()(x)]
            local_variable_entry_parser()(x) != Err::<(LocalVariableEntry, Seq<u8>), Stop>(
                Stop::Unsupported,
            ) && (local_variable_entry_parser()(x) matches Ok((_v, r)) ==> r.len() <= x.len()),
        forall|x: Seq<u8>|
            #![trigger exception_entry_parser()(x)]
            exception_entry_parser()(x) != Err::<(ExceptionTableEntry, Seq<u8>), Stop>(
                Stop::Unsupported,
            ) && (exception_entry_parser()(x) matches Ok((_v, r)) ==> r.len() <= x.len()),
{
}

/// An attribute never stops as unsupported, and reading one consumes input.
pub proof fn lemma_attribute_supported(cp: Seq<SpecConstantInfo>, s: Seq<u8>)
    ensures
        spec_parse_attribute(cp, s) != Err::<(SpecAttributeInfo, Seq<u8>), Stop>(Stop::Unsupported),
        spec_parse_attribute(cp, s) matches Ok((_a, r)) ==> r.len() < s.len(),
    decreases s.len(), 0nat,
{
    lemma_entry_parsers_supported();
    if let Ok((name_index, r1)) = spec_u16(s) {
        if let Ok((length, r2)) = spec_u32(r1) {
            if let Some(name) = spec_attribute_name(cp, name_index) {
                if let Ok((n, r3)) = spec_u16(r2) {
                    lemma_repeat_supported(r3, n as nat, line_number_entry_parser());
                    lemma_repeat_supported(r3, n as nat, local_variable_entry_parser());
                }
                if spec_attribute_kind(name) is Code {
                    lemma_code_supported(cp, r2);
                }
            }
        }
    }
}

/// The body of a `Code` attribute never stops as unsupported, and consumes input.
pub proof fn lemma_code_supported(cp: Seq<SpecConstantInfo>, s: Seq<u8>)
    ensures
        spec_parse_code(cp, s) != Err::<(SpecAttributeInfo, Seq<u8>), Stop>(Stop::Unsupported),
        spec_parse_code(cp, s) matches Ok((_a, r)) ==> r.len() < s.len(),
    decreases s.len(), 0nat,
{
    lemma_entry_parsers_supported();
    if let Ok((_max_stack, r1)) = spec_u16(s) {
        if let Ok((_max_locals, r2)) = spec_u16(r1) {
            if let Ok((code_length, r3)) = spec_u32(r2) {
                if let Ok((_code, r4)) = spec_bytes(r3, code_length as nat) {
                    if let Ok((etl, r5)) = spec_u16(r4) {
                        lemma_repeat_supported(r5, etl as nat, exception_entry_parser());
                        if let Ok((_table, r6)) = spec_repeat(
                            r5,
                            etl as nat,
                            exception_entry_parser(),
                        ) {
                            if let Ok((count, r7)) = spec_u16(r6) {
                                lemma_attributes_supported(cp, r7, count as nat);
                            }
                        }
                    }
                }
            }
        }
    }
}

/// A run of attributes never stops as unsupported, and does not grow its input.
pub proof fn lemma_attributes_supported(cp: Seq<SpecConstantInfo>, s: Seq<u8>, n: nat)
    ensures
        spec_parse_attributes(cp, s, n) != Err::<(Seq<SpecAttributeInfo>, Seq<u8>), Stop>(
            Stop::Unsupported,
        ),
        spec_parse_attributes(cp, s, n) matches Ok((_a, r)) ==> r.len() <= s.len(),
    decreases s.len(), n + 1,
{
    if n > 0 {
        lemma_attribute_supported(cp, s);
        if let Ok((_a, r)) = spec_parse_attribute(cp, s) {
            lemma_attributes_supported(cp, r, (n - 1) as nat);
        }
    }
}

// ---------------------------------------------------------------------------
// Reading
// ---------------------------------------------------------------------------
/// Reads the `n` rows of a `LineNumberTable`.
fn read_line_numbers(cursor: &mut Cursor, n: u16) -> (res: Result<Vec<LineNumberEntry>, ParseError>)
    ensures
        final(cursor)@.len() <= old(cursor)@.len(),
        match spec_repeat(old(cursor)@, n as nat, line_number_entry_parser()) {
            Ok((t, rest)) => res matches Ok(v) && v@ == t && final(cursor)@ == rest,
            Err(Stop::Error(e)) => res == Err::<Vec<LineNumberEntry>, ParseError>(e),
            Err(Stop::Unsupported) => false,
        },
        res is Err ==> final(cursor)@ == Seq::<u8>::empty(),
{
    let ghost start = cursor@;
    let mut table: Vec<LineNumberEntry> = Vec::new();
    let mut i: u16 = 0;
    proof {
        lemma_repeat_done(Seq::<LineNumberEntry>::empty(), start, line_number_entry_parser());
        assert(Seq::<LineNumberEntry>::empty() + Seq::<LineNumberEntry>::empty() =~= Seq::<
            LineNumberEntry,
        >::empty());
    }
    while i < n
        invariant
            i <= n,
            cursor@.len() <= start.len(),
            start == old(cursor)@,
            spec_repeat(start, n as nat, line_number_entry_parser()) == spec_repeat_from(
                table@,
                cursor@,
                (n - i) as nat,
                line_number_entry_parser(),
            ),
        decreases n - i,
    {
        proof {
            lemma_repeat_step(table@, cursor@, (n - i) as nat, line_number_entry_parser());
        }
        let start_pc = cursor.u16()?;
        let line_number = cursor.u16()?;
        table.push(LineNumberEntry { start_pc, line_number });
        i = i + 1;
    }
    proof {
        lemma_repeat_done(table@, cursor@, line_number_entry_parser());
    }
    Ok(table)
}

fn read_local_variables(cursor: &mut Cursor, n: u16) -> (res: Result<
    Vec<LocalVariableEntry>,
    ParseError,
>)
    ensures
        final(cursor)@.len() <= old(cursor)@.len(),
        match spec_repeat(old(cursor)@, n as nat, local_variable_entry_parser()) {
            Ok((t, rest)) => res matches Ok(v) && v@ == t && final(cursor)@ == rest,
            Err(Stop::Error(e)) => res == Err::<Vec<LocalVariableEntry>, ParseError>(e),
            Err(Stop::Unsupported) => false,
        },
        res is Err ==> final(cursor)@ == Seq::<u8>::empty(),
{
    let ghost start = cursor@;
    let mut table: Vec<LocalVariableEntry> = Vec::new();
    let mut i: u16 = 0;
    proof {
        assert(Seq::<LocalVariableEntry>::empty() + Seq::<LocalVariableEntry>::empty() =~= Seq::<
            LocalVariableEntry,
        >::empty());
    }
    while i < n
        invariant
            i <= n,
            cursor@.len() <= start.len(),
            start == old(cursor)@,
            spec_repeat(start, n as nat, local_variable_entry_parser()) == spec_repeat_from(
                table@,
                cursor@,
                (n - i) as nat,
                local_variable_entry_parser(),
            ),
        decreases n - i,
    {
        proof {
            lemma_repeat_step(table@, cursor@, (n - i) as nat, local_variable_entry_parser());
        }
        let start_pc = cursor.u16()?;
        let length = cursor.u16()?;
        let name_index = cursor.u16()?;
        let descriptor_index = cursor.u16()?;
        let index = cursor.u16()?;
        table.push(LocalVariableEntry { start_pc, length, name_index, descriptor_index, index });
        i = i + 1;
    }
    proof {
        lemma_repeat_done(table@, cursor@, local_variable_entry_parser());
    }
    Ok(table)
}

fn read_exception_table(cursor: &mut Cursor, n: u16) -> (res: Result<
    Vec<ExceptionTableEntry>,
    ParseError,
>)
    ensures
        final(cursor)@.len() <= old(cursor)@.len(),
        match spec_repeat(old(cursor)@, n as nat, exception_entry_parser()) {
            Ok((t, rest)) => res matches Ok(v) && v@ == t && final(cursor)@ == rest,
            Err(Stop::Error(e)) => res == Err::<Vec<ExceptionTableEntry>, ParseError>(e),
            Err(Stop::Unsupported) => false,
        },
        res is Err ==> final(cursor)@ == Seq::<u8>::empty(),
{
    let ghost start = cursor@;
    let mut table: Vec<ExceptionTableEntry> = Vec::new();
    let mut i: u16 = 0;
    proof {
        assert(Seq::<ExceptionTableEntry>::empty() + Seq::<ExceptionTableEntry>::empty() =~= Seq::<
            ExceptionTableEntry,
        >::empty());
    }
    while i < n
        invariant
            i <= n,
            cursor@.len() <= start.len(),
            start == old(cursor)@,
            spec_repeat(start, n as nat, exception_entry_parser()) == spec_repeat_from(
                table@,
                cursor@,
                (n - i) as nat,
                exception_entry_parser(),
            ),
        decreases n - i,
    {
        proof {
            lemma_repeat_step(table@, cursor@, (n - i) as nat, exception_entry_parser());
        }
        let start_pc = cursor.u16()?;
        let end_pc = cursor.u16()?;
        let handler_pc = cursor.u16()?;
        let catch_type = cursor.u16()?;
        table.push(ExceptionTableEntry { start_pc, end_pc, handler_pc, catch_type });
        i = i + 1;
    }
    proof {
        lemma_repeat_done(table@, cursor@, exception_entry_parser());
    }
    Ok(table)
}

/// The bytes of the `Utf8` entry that an attribute's name index refers to.
fn attribute_name<'a>(constant_pool: &'a [ConstantInfo], name_index: u16) -> (res: Option<&'a [u8]>)
    ensures
        match spec_attribute_name(constants_view(constant_pool@), name_index) {
            Some(b) => res matches Some(r) && r@ == b,
            None => res is None,
        },
{
    if name_index == 0 {
        return None;
    }
    let i = (name_index - 1) as usize;
    if i < constant_pool.len() {
        match &constant_pool[i] {
            ConstantInfo::Utf8(bytes) => Some(bytes.as_slice()),
            _ => None,
        }
    } else {
        None
    }
}

/// Reads one attribute (JVMS 4.7).
fn read_attribute(constant_pool: &[ConstantInfo], cursor: &mut Cursor) -> (res: Result<
    AttributeInfo,
    Stop,
>)
    ensures
        final(cursor)@.len() <= old(cursor)@.len(),
        match spec_parse_attribute(constants_view(constant_pool@), old(cursor)@) {
            Ok((a, rest)) => res matches Ok(v) && v@ == a && final(cursor)@ == rest,
            Err(e) => res == Err::<AttributeInfo, Stop>(e) && final(cursor)@ == spec_attribute_stop(
                constants_view(constant_pool@),
                old(cursor)@,
            ),
        },
    decreases old(cursor)@.len(),
{
    let ghost cp = constants_view(constant_pool@);
    let ghost s = cursor@;
    let attribute_name_index = stop_on(cursor.u16())?;
    let attribute_length = stop_on(cursor.u32())? as usize;
    let ghost r2 = cursor@;
    let utf8 = match attribute_name(constant_pool, attribute_name_index) {
        Some(bytes) => bytes,
        None => return Err(Stop::Error(ParseError::AttributeShouldBeUtf8)),
    };
    match attribute_kind(utf8) {
        AttributeKind::LineNumberTable => {
            let n = stop_on(cursor.u16())?;
            let table = stop_on(read_line_numbers(cursor, n))?;
            Ok(AttributeInfo::LineNumberTable(table))
        },
        AttributeKind::Code => {
            assert(r2.len() < s.len());
            let max_stack = stop_on(cursor.u16())?;
            let max_locals = stop_on(cursor.u16())?;
            let code_length = stop_on(cursor.u32())? as usize;
            let mut code = vec![0u8; code_length];
            stop_on(cursor.read_exact(code.as_mut_slice()))?;
            let exception_table_length = stop_on(cursor.u16())?;
            let exception_table = stop_on(read_exception_table(cursor, exception_table_length))?;
            let attributes_count = stop_on(cursor.u16())?;
            let ghost r7 = cursor@;
            let ghost target = spec_parse_attributes(cp, r7, attributes_count as nat);
            assert(spec_parse_attribute(cp, s) == match target {
                Ok((attrs, r8)) => Ok(
                    (
                        SpecAttributeInfo::Code {
                            max_stack,
                            max_locals,
                            code: code@,
                            exception_table: exception_table@,
                            attributes: attrs,
                        },
                        r8,
                    ),
                ),
                Err(e) => Err(e),
            });
            assert(spec_attribute_stop(cp, s) == spec_attributes_stop(
                cp,
                r7,
                attributes_count as nat,
            ));
            let mut attributes: Vec<AttributeInfo> = Vec::new();
            let mut i: u16 = 0;
            proof {
                assert(Seq::<SpecAttributeInfo>::empty() + Seq::<SpecAttributeInfo>::empty()
                    =~= Seq::<SpecAttributeInfo>::empty());
            }
            while i < attributes_count
                invariant
                    i <= attributes_count,
                    cursor@.len() <= r7.len(),
                    r7.len() < s.len(),
                    s == old(cursor)@,
                    cp == constants_view(constant_pool@),
                    target == spec_parse_attributes(cp, r7, attributes_count as nat),
                    target matches Err(e) ==> spec_parse_attribute(cp, s) == Err::<
                        (SpecAttributeInfo, Seq<u8>),
                        Stop,
                    >(e),
                    spec_attribute_stop(cp, s) == spec_attributes_stop(
                        cp,
                        cursor@,
                        (attributes_count - i) as nat,
                    ),
                    target == spec_attributes_from(
                        cp,
                        attributes_view(attributes@),
                        cursor@,
                        (attributes_count - i) as nat,
                    ),
                decreases attributes_count - i,
            {
                proof {
                    lemma_attributes_step(
                        cp,
                        attributes_view(attributes@),
                        cursor@,
                        (attributes_count - i) as nat,
                    );
                }
                let attribute = read_attribute(constant_pool, cursor)?;
                proof {
                    lemma_attributes_view_push(attributes@, attribute);
                }
                attributes.push(attribute);
                i = i + 1;
            }
            proof {
                assert(attributes_view(attributes@) + Seq::<SpecAttributeInfo>::empty()
                    =~= attributes_view(attributes@));
            }
            Ok(
                AttributeInfo::Code {
                    max_stack,
                    max_locals,
                    code,
                    exception_table,
                    attributes,
                },
            )
        },
        AttributeKind::LocalVariableTable => {
            let n = stop_on(cursor.u16())?;
            let table = stop_on(read_local_variables(cursor, n))?;
            Ok(AttributeInfo::LocalVariableTable(table))
        },
        AttributeKind::SourceFile => Ok(
            AttributeInfo::SourceFile { sourcefile_index: stop_on(cursor.u16())? },
        ),
        AttributeKind::Other => {
            let mut buf = vec![0u8; attribute_length];
            stop_on(cursor.read_exact(buf.as_mut_slice()))?;
            Ok(AttributeInfo::Unsupported { name_index: attribute_name_index, data: buf })
        },
    }
}

impl AttributeInfo {
    /// Reads one attribute (JVMS 4.7). `constant_pool` holds the pool's entries
    /// from index 1 on; the attribute's name must be one of its `Utf8` entries,
    /// and a name index that names none (0 among them) is `AttributeShouldBeUtf8`.
    pub fn read(constant_pool: &[ConstantInfo], cursor: &mut Cursor) -> (res: Result<
        AttributeInfo,
        ParseError,
    >)
        ensures
            final(cursor)@.len() <= old(cursor)@.len(),
            match spec_parse_attribute(constants_view(constant_pool@), old(cursor)@) {
                Ok((a, rest)) => res matches Ok(v) && v@ == a && final(cursor)@ == rest,
                Err(Stop::Error(e)) => res == Err::<AttributeInfo, ParseError>(e) && final(cursor)@
                    == spec_attribute_stop(constants_view(constant_pool@), old(cursor)@),
                Err(Stop::Unsupported) => false,
            },
    {
        proof {
            lemma_attribute_supported(constants_view(constant_pool@), cursor@);
        }
        error_of(read_attribute(constant_pool, cursor))
    }
}

/// Reads `n` attributes one after another.
pub fn read_attributes(constant_pool: &[ConstantInfo], cursor: &mut Cursor, n: u16) -> (res: Result<
    Vec<AttributeInfo>,
    Stop,
>)
    ensures
        final(cursor)@.len() <= old(cursor)@.len(),
        match spec_parse_attributes(constants_view(constant_pool@), old(cursor)@, n as nat) {
            Ok((attrs, rest)) => res matches Ok(v) && attributes_view(v@) == attrs
                && final(cursor)@ == rest,
            Err(e) => res == Err::<Vec<AttributeInfo>, Stop>(e) && final(cursor)@
                == spec_attributes_stop(constants_view(constant_pool@), old(cursor)@, n as nat),
        },
{
    let ghost cp = constants_view(constant_pool@);
    let ghost start = cursor@;
    let mut attributes: Vec<AttributeInfo> = Vec::new();
    let mut i: u16 = 0;
    proof {
        assert(Seq::<SpecAttributeInfo>::empty() + Seq::<SpecAttributeInfo>::empty() =~= Seq::<
            SpecAttributeInfo,
        >::empty());
    }
    while i < n
        invariant
            i <= n,
            cursor@.len() <= start.len(),
            start == old(cursor)@,
            cp == constants_view(constant_pool@),
            spec_attributes_stop(cp, start, n as nat) == spec_attributes_stop(
                cp,
                cursor@,
                (n - i) as nat,
            ),
            spec_parse_attributes(cp, start, n as nat) == spec_attributes_from(
                cp,
                attributes_view(attributes@),
                cursor@,
                (n - i) as nat,
            ),
        decreases n - i,
    {
        proof {
            lemma_attributes_step(cp, attributes_view(attributes@), cursor@, (n - i) as nat);
        }
        let attribute = read_attribute(constant_pool, cursor)?;
        proof {
            lemma_attributes_view_push(attributes@, attribute);
        }
        attributes.push(attribute);
        i = i + 1;
    }
    proof {
        assert(attributes_view(attributes@) + Seq::<SpecAttributeInfo>::empty() =~= attributes_view(
            attributes@,
        ));
    }
    Ok(attributes)
}

} // verus!
