use vstd::prelude::*;

use crate::class_file::attribute::{
    ExceptionTableEntry,
    LineNumberEntry,
    LocalVariableEntry,
    spec_exception_entry,
    spec_line_number_entry,
    spec_local_variable_entry,
};
use crate::class_file::bytes::{lemma_repeat_done, lemma_repeat_step, spec_repeat, spec_repeat_from};
use crate::vm::class_file::{JvmError, or_eof, spec_bytes, spec_u16, spec_u32};
use crate::vm::constant_pool::SpecConstantInfo;
use crate::vm::cursor::Cursor;
use crate::vm::runtime_constant_pool::{RuntimeConstantPool, spec_get_utf8};

verus! {

/// An attribute of a class (JVMS 4.7): its source file, or raw bytes.
#[derive(Debug, Clone, PartialEq, Eq)]
pub enum ClassAttribute {
    SourceFile { sourcefile_index: u16 },
    Unknown { name_index: u16, info: Vec<u8> },
}

/// An attribute of a method: its `Code`, or raw bytes.
#[derive(Debug, Clone, PartialEq, Eq)]
pub enum MethodAttribute {
    Code {
        max_stack: u16,
        max_locals: u16,
        code: Vec<u8>,
        exception_table: Vec<ExceptionTableEntry>,
        attributes: Vec<CodeAttribute>,
    },
    Unknown { name_index: u16, info: Vec<u8> },
}

/// An attribute of a `Code` attribute: its line numbers, its local variables, or raw bytes.
#[derive(Debug, Clone, PartialEq, Eq)]
pub enum CodeAttribute {
    LineNumberTable(Vec<LineNumberEntry>),
    LocalVariableTable(Vec<LocalVariableEntry>),
    Unknown { name_index: u16, info: Vec<u8> },
}

pub enum SpecClassAttribute {
    SourceFile { sourcefile_index: u16 },
    Unknown { name_index: u16, info: Seq<u8> },
}

pub enum SpecCodeAttribute {
    LineNumberTable(Seq<LineNumberEntry>),
    LocalVariableTable(Seq<LocalVariableEntry>),
    Unknown { name_index: u16, info: Seq<u8> },
}

pub enum SpecMethodAttribute {
    Code {
        max_stack: u16,
        max_locals: u16,
        code: Seq<u8>,
        exception_table: Seq<ExceptionTableEntry>,
        attributes: Seq<SpecCodeAttribute>,
    },
    Unknown { name_index: u16, info: Seq<u8> },
}

impl View for ClassAttribute {
    type V = SpecClassAttribute;

    open spec fn view(&self) -> SpecClassAttribute {
        match self {
            ClassAttribute::SourceFile { sourcefile_index } => SpecClassAttribute::SourceFile {
                sourcefile_index: *sourcefile_index,
            },
            ClassAttribute::Unknown { name_index, info } => SpecClassAttribute::Unknown {
                name_index: *name_index,
                info: info@,
            },
        }
    }
}

impl View for CodeAttribute {
    type V = SpecCodeAttribute;

    open spec fn view(&self) -> SpecCodeAttribute {
        match self {
            CodeAttribute::LineNumberTable(t) => SpecCodeAttribute::LineNumberTable(t@),
            CodeAttribute::LocalVariableTable(t) => SpecCodeAttribute::LocalVariableTable(t@),
            CodeAttribute::Unknown { name_index, info } => SpecCodeAttribute::Unknown {
                name_index: *name_index,
                info: info@,
            },
        }
    }
}

/// The values of a sequence of `Code` sub-attributes.
pub open spec fn code_attributes_view(s: Seq<CodeAttribute>) -> Seq<SpecCodeAttribute> {
    s.map_values(|a: CodeAttribute| a@)
}

impl View for MethodAttribute {
    type V = SpecMethodAttribute;

    open spec fn view(&self) -> SpecMethodAttribute {
        match self {
            MethodAttribute::Code { max_stack, max_locals, code, exception_table, attributes } =>
                SpecMethodAttribute::Code {
                max_stack: *max_stack,
                max_locals: *max_locals,
                code: code@,
                exception_table: exception_table@,
                attributes: code_attributes_view(attributes@),
            },
            MethodAttribute::Unknown { name_index, info } => SpecMethodAttribute::Unknown {
                name_index: *name_index,
                info: info@,
            },
        }
    }
}

pub open spec fn line_number_entry_parser() -> spec_fn(Seq<u8>) -> Result<
    (LineNumberEntry, Seq<u8>),
    JvmError,
> {
    |s: Seq<u8>| or_eof(spec_line_number_entry(s))
}

pub open spec fn local_variable_entry_parser() -> spec_fn(Seq<u8>) -> Result<
    (LocalVariableEntry, Seq<u8>),
    JvmError,
> {
    |s: Seq<u8>| or_eof(spec_local_variable_entry(s))
}

pub open spec fn exception_entry_parser() -> spec_fn(Seq<u8>) -> Result<
    (ExceptionTableEntry, Seq<u8>),
    JvmError,
> {
    |s: Seq<u8>| or_eof(spec_exception_entry(s))
}

/// The name index and length that open every attribute, and the attribute's name.
pub open spec fn spec_attribute_header(cp: Seq<SpecConstantInfo>, s: Seq<u8>) -> Result<
    ((u16, u32, Seq<char>), Seq<u8>),
    JvmError,
> {
    match spec_u16(s) {
        Err(e) => Err(e),
        Ok((name_index, r1)) => match spec_u32(r1) {
            Err(e) => Err(e),
            Ok((length, r2)) => match spec_get_utf8(cp, name_index) {
                Err(e) => Err(e),
                Ok(name) => Ok(((name_index, length, name), r2)),
            },
        },
    }
}

/// Reads a class attribute: `SourceFile` is decoded, any other name keeps its bytes.
pub open spec fn spec_parse_class_attribute(cp: Seq<SpecConstantInfo>, s: Seq<u8>) -> Result<
    (SpecClassAttribute, Seq<u8>),
    JvmError,
> {
    match spec_attribute_header(cp, s) {
        Err(e) => Err(e),
        Ok(((name_index, length, name), r)) => if name == "SourceFile"@ {
            match spec_u16(r) {
                Ok((i, r2)) => Ok((SpecClassAttribute::SourceFile { sourcefile_index: i }, r2)),
                Err(e) => Err(e),
            }
        } else {
            match spec_bytes(r, length as nat) {
                Ok((info, r2)) => Ok((SpecClassAttribute::Unknown { name_index, info }, r2)),
                Err(e) => Err(e),
            }
        },
    }
}

/// Reads an attribute of a `Code` attribute.
pub open spec fn spec_parse_code_attribute(cp: Seq<SpecConstantInfo>, s: Seq<u8>) -> Result<
    (SpecCodeAttribute, Seq<u8>),
    JvmError,
> {
    match spec_attribute_header(cp, s) {
        Err(e) => Err(e),
        Ok(((name_index, length, name), r)) => if name == "LineNumberTable"@ {
            match spec_u16(r) {
                Ok((n, r2)) => match spec_repeat(r2, n as nat, line_number_entry_parser()) {
                    Ok((t, r3)) => Ok((SpecCodeAttribute::LineNumberTable(t), r3)),
                    Err(e) => Err(e),
                },
                Err(e) => Err(e),
            }
        } else if name == "LocalVariableTable"@ {
            match spec_u16(r) {
                Ok((n, r2)) => match spec_repeat(r2, n as nat, local_variable_entry_parser()) {
                    Ok((t, r3)) => Ok((SpecCodeAttribute::LocalVariableTable(t), r3)),
                    Err(e) => Err(e),
                },
                Err(e) => Err(e),
            }
        } else {
            match spec_bytes(r, length as nat) {
                Ok((info, r2)) => Ok((SpecCodeAttribute::Unknown { name_index, info }, r2)),
                Err(e) => Err(e),
            }
        },
    }
}

pub open spec fn code_attribute_parser(cp: Seq<SpecConstantInfo>) -> spec_fn(Seq<u8>) -> Result<
    (SpecCodeAttribute, Seq<u8>),
    JvmError,
> {
    |s: Seq<u8>| spec_parse_code_attribute(cp, s)
}

/// The body of a `Code` attribute, after its name and length.
pub open spec fn spec_parse_code_body(cp: Seq<SpecConstantInfo>, s: Seq<u8>) -> Result<
    (SpecMethodAttribute, Seq<u8>),
    JvmError,
> {
    match spec_u16(s) {
        Err(e) => Err(e),
        Ok((max_stack, r1)) => match spec_u16(r1) {
            Err(e) => Err(e),
            Ok((max_locals, r2)) => match spec_u32(r2) {
                Err(e) => Err(e),
                Ok((code_length, r3)) => match spec_bytes(r3, code_length as nat) {
                    Err(e) => Err(e),
                    Ok((code, r4)) => match spec_u16(r4) {
                        Err(e) => Err(e),
                        Ok((etl, r5)) => match spec_repeat(
                            r5,
                            etl as nat,
                            exception_entry_parser(),
                        ) {
                            Err(e) => Err(e),
                            Ok((exception_table, r6)) => match spec_u16(r6) {
                                Err(e) => Err(e),
                                Ok((count, r7)) => match spec_repeat(
                                    r7,
                                    count as nat,
                                    code_attribute_parser(cp),
                                ) {
                                    Ok((attributes, r8)) => Ok(
                                        (
                                            SpecMethodAttribute::Code {
                                                max_stack,
                                                max_locals,
                                                code,
                                                exception_table,
                                                attributes,
                                            },
                                            r8,
                                        ),
                                    ),
                                    Err(e) => Err(e),
                                },
                            },
                        },
                    },
                },
            },
        },
    }
}

/// Reads a method attribute: `Code` is decoded, any other name keeps its bytes.
pub open spec fn spec_parse_method_attribute(cp: Seq<SpecConstantInfo>, s: Seq<u8>) -> Result<
    (SpecMethodAttribute, Seq<u8>),
    JvmError,
> {
    match spec_attribute_header(cp, s) {
        Err(e) => Err(e),
        Ok(((name_index, length, name), r)) => if name == "Code"@ {
            spec_parse_code_body(cp, r)
        } else {
            match spec_bytes(r, length as nat) {
                Ok((info, r2)) => Ok((SpecMethodAttribute::Unknown { name_index, info }, r2)),
                Err(e) => Err(e),
            }
        },
    }
}

/// Where reading stands once an attribute's header has failed: just after its
/// six bytes when the name is not a `Utf8` entry, at the end when the input ran out.
pub open spec fn spec_header_stop(cp: Seq<SpecConstantInfo>, s: Seq<u8>) -> Seq<u8> {
    match spec_u16(s) {
        Err(_) => Seq::<u8>::empty(),
        Ok((name_index, r1)) => match spec_u32(r1) {
            Err(_) => Seq::<u8>::empty(),
            Ok((_length, r2)) => match spec_get_utf8(cp, name_index) {
                Err(_) => r2,
                Ok(_) => Seq::<u8>::empty(),
            },
        },
    }
}

/// Where reading stands once a class attribute or an attribute of a `Code`
/// attribute has failed: where its header stopped, else at the end (its body
/// can only run out of input).
pub open spec fn spec_simple_attribute_stop(cp: Seq<SpecConstantInfo>, s: Seq<u8>) -> Seq<u8> {
    match spec_attribute_header(cp, s) {
        Err(_) => spec_header_stop(cp, s),
        Ok(_) => Seq::<u8>::empty(),
    }
}

/// Where reading stands once `n` attributes of a `Code` attribute have failed:
/// where the first one that failed stopped.
pub open spec fn spec_code_attributes_stop(cp: Seq<SpecConstantInfo>, s: Seq<u8>, n: nat) -> Seq<u8>
    decreases n,
{
    if n == 0 {
        s
    } else {
        match spec_parse_code_attribute(cp, s) {
            Err(_) => spec_simple_attribute_stop(cp, s),
            Ok((_a, r)) => spec_code_attributes_stop(cp, r, (n - 1) as nat),
        }
    }
}

/// Where reading stands once the body of a `Code` attribute has failed.
pub open spec fn spec_code_body_stop(cp: Seq<SpecConstantInfo>, s: Seq<u8>) -> Seq<u8> {
    match spec_u16(s) {
        Err(_) => Seq::<u8>::empty(),
        Ok((_max_stack, r1)) => match spec_u16(r1) {
            Err(_) => Seq::<u8>::empty(),
            Ok((_max_locals, r2)) => match spec_u32(r2) {
                Err(_) => Seq::<u8>::empty(),
                Ok((code_length, r3)) => match spec_bytes(r3, code_length as nat) {
                    Err(_) => Seq::<u8>::empty(),
                    Ok((_code, r4)) => match spec_u16(r4) {
                        Err(_) => Seq::<u8>::empty(),
                        Ok((etl, r5)) => match spec_repeat(
                            r5,
                            etl as nat,
                            exception_entry_parser(),
                        ) {
                            Err(_) => Seq::<u8>::empty(),
                            Ok((_table, r6)) => match spec_u16(r6) {
                                Err(_) => Seq::<u8>::empty(),
                                Ok((count, r7)) => spec_code_attributes_stop(cp, r7, count as nat),
                            },
                        },
                    },
                },
            },
        },
    }
}

/// Where reading stands once a method attribute has failed.
pub open spec fn spec_method_attribute_stop(cp: Seq<SpecConstantInfo>, s: Seq<u8>) -> Seq<u8> {
    match spec_attribute_header(cp, s) {
        Err(_) => spec_header_stop(cp, s),
        Ok(((_name_index, _length, name), r)) => if name == "Code"@ {
            spec_code_body_stop(cp, r)
        } else {
            Seq::<u8>::empty()
        },
    }
}

/// Whether a string's characters are those of `lit`.
pub(crate) fn text_is(name: &String, lit: &str) -> (r: bool)
    ensures
        r == (name@ == lit@),
{
    let other = lit.to_owned();
    *name == other
}

/// Reads the `n` rows of a `LineNumberTable`.
fn read_line_numbers(cursor: &mut Cursor, n: u16) -> (res: Result<Vec<LineNumberEntry>, JvmError>)
    ensures
        final(cursor)@.len() <= old(cursor)@.len(),
        match spec_repeat(old(cursor)@, n as nat, line_number_entry_parser()) {
            Ok((t, rest)) => res matches Ok(v) && v@ == t && final(cursor)@ == rest,
            Err(e) => res == Err::<Vec<LineNumberEntry>, JvmError>(e) && final(cursor)@ == Seq::<u8>::empty(),
        },
{
    let ghost start = cursor@;
    let mut table: Vec<LineNumberEntry> = Vec::new();
    let mut i: u16 = 0;
    proof {
        lemma_repeat_done(Seq::<LineNumberEntry>::empty(), start, line_number_entry_parser());
        assert(Seq::<LineNumberEntry>::empty() + Seq::<LineNumberEntry>::empty() =~= Seq::<
            LineNumberEntry,
        >::empty());
    }
    while i < n
        invariant
            i <= n,
            cursor@.len() <= start.len(),
            start == old(cursor)@,
            spec_repeat(start, n as nat, line_number_entry_parser()) == spec_repeat_from(
                table@,
                cursor@,
                (n - i) as nat,
                line_number_entry_parser(),
            ),
        decreases n - i,
    {
        proof {
            lemma_repeat_step(table@, cursor@, (n - i) as nat, line_number_entry_parser());
        }
        let start_pc = cursor.u16()?;
        let line_number = cursor.u16()?;
        table.push(LineNumberEntry { start_pc, line_number });
        i = i + 1;
    }
    proof {
        lemma_repeat_done(table@, cursor@, line_number_entry_parser());
    }
    Ok(table)
}

fn read_local_variables(cursor: &mut Cursor, n: u16) -> (res: Result<
    Vec<LocalVariableEntry>,
    JvmError,
>)
    ensures
        final(cursor)@.len() <= old(cursor)@.len(),
        match spec_repeat(old(cursor)@, n as nat, local_variable_entry_parser()) {
            Ok((t, rest)) => res matches Ok(v) && v@ == t && final(cursor)@ == rest,
            Err(e) => res == Err::<Vec<LocalVariableEntry>, JvmError>(e) && final(cursor)@ == Seq::<u8>::empty(),
        },
{
    let ghost start = cursor@;
    let mut table: Vec<LocalVariableEntry> = Vec::new();
    let mut i: u16 = 0;
    proof {
        assert(Seq::<LocalVariableEntry>::empty() + Seq::<LocalVariableEntry>::empty() =~= Seq::<
            LocalVariableEntry,
        >::empty());
    }
    while i < n
        invariant
            i <= n,
            cursor@.len() <= start.len(),
            start == old(cursor)@,
            spec_repeat(start, n as nat, local_variable_entry_parser()) == spec_repeat_from(
                table@,
                cursor@,
                (n - i) as nat,
                local_variable_entry_parser(),
            ),
        decreases n - i,
    {
        proof {
            lemma_repeat_step(table@, cursor@, (n - i) as nat, local_variable_entry_parser());
        }
        let start_pc = cursor.u16()?;
        let length = cursor.u16()?;
        let name_index = cursor.u16()?;
        let descriptor_index = cursor.u16()?;
        let index = cursor.u16()?;
        table.push(LocalVariableEntry { start_pc, length, name_index, descriptor_index, index });
        i = i + 1;
    }
    proof {
        lemma_repeat_done(table@, cursor@, local_variable_entry_parser());
    }
    Ok(table)
}

pub(crate) fn read_exception_table(cursor: &mut Cursor, n: u16) -> (res: Result<
    Vec<ExceptionTableEntry>,
    JvmError,
>)
    ensures
        final(cursor)@.len() <= old(cursor)@.len(),
        match spec_repeat(old(cursor)@, n as nat, exception_entry_parser()) {
            Ok((t, rest)) => res matches Ok(v) && v@ == t && final(cursor)@ == rest,
            Err(e) => res == Err::<Vec<ExceptionTableEntry>, JvmError>(e) && final(cursor)@ == Seq::<u8>::empty(),
        },
{
    let ghost start = cursor@;
    let mut table: Vec<ExceptionTableEntry> = Vec::new();
    let mut i: u16 = 0;
    proof {
        assert(Seq::<ExceptionTableEntry>::empty() + Seq::<ExceptionTableEntry>::empty() =~= Seq::<
            ExceptionTableEntry,
        >::empty());
    }
    while i < n
        invariant
            i <= n,
            cursor@.len() <= start.len(),
            start == old(cursor)@,
            spec_repeat(start, n as nat, exception_entry_parser()) == spec_repeat_from(
                table@,
                cursor@,
                (n - i) as nat,
                exception_entry_parser(),
            ),
        decreases n - i,
    {
        proof {
            lemma_repeat_step(table@, cursor@, (n - i) as nat, exception_entry_parser());
        }
        let start_pc = cursor.u16()?;
        let end_pc = cursor.u16()?;
        let handler_pc = cursor.u16()?;
        let catch_type = cursor.u16()?;
        table.push(ExceptionTableEntry { start_pc, end_pc, handler_pc, catch_type });
        i = i + 1;
    }
    proof {
        lemma_repeat_done(table@, cursor@, exception_entry_parser());
    }
    Ok(table)
}

/// Reads an attribute's name index and length, and looks its name up.
pub(crate) fn read_header<'p>(constant_pool: &'p RuntimeConstantPool, cursor: &mut Cursor) -> (res: Result<
    (u16, usize, &'p String),
    JvmError,
>)
    ensures
        final(cursor)@.len() <= old(cursor)@.len(),
        match spec_attribute_header(constant_pool@, old(cursor)@) {
            Ok(((ni, len, name), rest)) => res matches Ok((a, b, c)) && a == ni && b == len
                && c@ == name && final(cursor)@ == rest,
            Err(e) => res == Err::<(u16, usize, &String), JvmError>(e) && final(cursor)@
                == spec_header_stop(constant_pool@, old(cursor)@),
        },
{
    let attribute_name_index = cursor.u16()?;
    let attribute_length = cursor.u32()? as usize;
    let name = constant_pool.get_utf8(attribute_name_index)?;
    Ok((attribute_name_index, attribute_length, name))
}

impl ClassAttribute {
    /// Reads one class attribute; its name is looked up in `constant_pool`.
    pub fn read(constant_pool: &RuntimeConstantPool, cursor: &mut Cursor) -> (res: Result<
        ClassAttribute,
        JvmError,
    >)
        ensures
            final(cursor)@.len() <= old(cursor)@.len(),
            match spec_parse_class_attribute(constant_pool@, old(cursor)@) {
                Ok((a, rest)) => res matches Ok(v) && v@ == a && final(cursor)@ == rest,
                Err(e) => res == Err::<ClassAttribute, JvmError>(e) && final(cursor)@
                    == spec_simple_attribute_stop(constant_pool@, old(cursor)@),
            },
    {
        let (attribute_name_index, attribute_length, name) = read_header(constant_pool, cursor)?;
        if text_is(name, "SourceFile") {
            Ok(ClassAttribute::SourceFile { sourcefile_index: cursor.u16()? })
        } else {
            let mut buf = vec![0u8; attribute_length];
            cursor.read_exact(buf.as_mut_slice())?;
            Ok(ClassAttribute::Unknown { name_index: attribute_name_index, info: buf })
        }
    }
}

impl CodeAttribute {
    /// Reads one attribute of a `Code` attribute.
    pub fn read(constant_pool: &RuntimeConstantPool, cursor: &mut Cursor) -> (res: Result<
        CodeAttribute,
        JvmError,
    >)
        ensures
            final(cursor)@.len() <= old(cursor)@.len(),
            match spec_parse_code_attribute(constant_pool@, old(cursor)@) {
                Ok((a, rest)) => res matches Ok(v) && v@ == a && final(cursor)@ == rest,
                Err(e) => res == Err::<CodeAttribute, JvmError>(e) && final(cursor)@
                    == spec_simple_attribute_stop(constant_pool@, old(cursor)@),
            },
    {
        let (attribute_name_index, attribute_length, name) = read_header(constant_pool, cursor)?;
        if text_is(name, "LineNumberTable") {
            let n = cursor.u16()?;
            let table = read_line_numbers(cursor, n)?;
            Ok(CodeAttribute::LineNumberTable(table))
        } else if text_is(name, "LocalVariableTable") {
            let n = cursor.u16()?;
            let table = read_local_variables(cursor, n)?;
            Ok(CodeAttribute::LocalVariableTable(table))
        } else {
            let mut buf = vec![0u8; attribute_length];
            cursor.read_exact(buf.as_mut_slice())?;
            Ok(CodeAttribute::Unknown { name_index: attribute_name_index, info: buf })
        }
    }
}

/// Reads the `n` attributes of a `Code` attribute.
pub(crate) fn read_code_attributes(constant_pool: &RuntimeConstantPool, cursor: &mut Cursor, n: u16) -> (res:
    Result<Vec<CodeAttribute>, JvmError>)
    ensures
        final(cursor)@.len() <= old(cursor)@.len(),
        match spec_repeat(old(cursor)@, n as nat, code_attribute_parser(constant_pool@)) {
            Ok((t, rest)) => res matches Ok(v) && code_attributes_view(v@) == t && final(cursor)@
                == rest,
            Err(e) => res == Err::<Vec<CodeAttribute>, JvmError>(e) && final(cursor)@
                == spec_code_attributes_stop(constant_pool@, old(cursor)@, n as nat),
        },
{
    let ghost start = cursor@;
    let ghost cp = constant_pool@;
    let mut attributes: Vec<CodeAttribute> = Vec::new();
    let mut i: u16 = 0;
    proof {
        assert(code_attributes_view(attributes@) =~= Seq::<SpecCodeAttribute>::empty());
        assert(Seq::<SpecCodeAttribute>::empty() + Seq::<SpecCodeAttribute>::empty() =~= Seq::<
            SpecCodeAttribute,
        >::empty());
    }
    while i < n
        invariant
            i <= n,
            cursor@.len() <= start.len(),
            start == old(cursor)@,
            cp == constant_pool@,
            spec_code_attributes_stop(cp, start, n as nat) == spec_code_attributes_stop(
                cp,
                cursor@,
                (n - i) as nat,
            ),
            spec_repeat(start, n as nat, code_attribute_parser(cp)) == spec_repeat_from(
                code_attributes_view(attributes@),
                cursor@,
                (n - i) as nat,
                code_attribute_parser(cp),
            ),
        decreases n - i,
    {
        proof {
            lemma_repeat_step(
                code_attributes_view(attributes@),
                cursor@,
                (n - i) as nat,
                code_attribute_parser(cp),
            );
        }
        let a = CodeAttribute::read(constant_pool, cursor)?;
        let ghost old_attributes = attributes@;
        attributes.push(a);
        proof {
            assert(code_attributes_view(attributes@) =~= code_attributes_view(old_attributes).push(
                a@,
            ));
        }
        i = i + 1;
    }
    proof {
        lemma_repeat_done(code_attributes_view(attributes@), cursor@, code_attribute_parser(cp));
    }
    Ok(attributes)
}

impl MethodAttribute {
    /// Reads one method attribute.
    pub fn read(constant_pool: &RuntimeConstantPool, cursor: &mut Cursor) -> (res: Result<
        MethodAttribute,
        JvmError,
    >)
        ensures
            final(cursor)@.len() <= old(cursor)@.len(),
            match spec_parse_method_attribute(constant_pool@, old(cursor)@) {
                Ok((a, rest)) => res matches Ok(v) && v@ == a && final(cursor)@ == rest,
                Err(e) => res == Err::<MethodAttribute, JvmError>(e) && final(cursor)@
                    == spec_method_attribute_stop(constant_pool@, old(cursor)@),
            },
    {
        let (attribute_name_index, attribute_length, name) = read_header(constant_pool, cursor)?;
        if text_is(name, "Code") {
            let max_stack = cursor.u16()?;
            let max_locals = cursor.u16()?;
            let code_length = cursor.u32()? as usize;
            let mut code = vec![0u8; code_length];
            cursor.read_exact(code.as_mut_slice())?;
            let exception_table_length = cursor.u16()?;
            let exception_table = read_exception_table(cursor, exception_table_length)?;
            let attributes_count = cursor.u16()?;
            let attributes = read_code_attributes(constant_pool, cursor, attributes_count)?;
            Ok(
                MethodAttribute::Code {
                    max_stack,
                    max_locals,
                    code,
                    exception_table,
                    attributes,
                },
            )
        } else {
            let mut buf = vec![0u8; attribute_length];
            cursor.read_exact(buf.as_mut_slice())?;
            Ok(MethodAttribute::Unknown { name_index: attribute_name_index, info: buf })
        }
    }
}

} // verus!
