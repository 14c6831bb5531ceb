use vstd::prelude::*;

pub use crate::class_file::attribute::ExceptionTableEntry;
use crate::class_file::bytes::{lemma_repeat_done, lemma_repeat_step, spec_repeat, spec_repeat_from};
use crate::vm::attribute::{
    CodeAttribute as CodeAttributeInfo,
    SpecCodeAttribute,
    code_attribute_parser,
    code_attributes_view,
    exception_entry_parser,
    read_code_attributes,
    read_exception_table,
    read_header,
    spec_attribute_header,
    spec_code_body_stop,
    spec_method_attribute_stop,
    text_is,
};
use crate::vm::class_file::{JvmError, spec_bytes, spec_u16, spec_u32, spec_u8};
use crate::vm::constant_pool::SpecConstantInfo;
use crate::vm::cursor::Cursor;
use crate::vm::runtime_constant_pool::RuntimeConstantPool;

verus! {

/// The `Code` attribute of a method (JVMS 4.7.3).
#[derive(Debug, Clone, PartialEq, Eq)]
pub struct CodeAttribute {
    pub max_stack: u16,
    pub max_locals: u16,
    pub code: Vec<u8>,
    pub exception_table: Vec<ExceptionTableEntry>,
    pub attributes: Vec<CodeAttributeInfo>,
}

/// One parameter of a `MethodParameters` attribute (JVMS 4.7.24).
#[derive(Debug, Clone, Copy, PartialEq, Eq)]
pub struct MethodParameterEntry {
    pub name_index: u16,
    pub access_flags: u16,
}

/// An attribute of a method (JVMS 4.7).
#[derive(Debug, Clone, PartialEq, Eq)]
pub enum MethodAttribute {
    Code(CodeAttribute),
    Exceptions(Vec<u16>),
    RuntimeVisibleParameterAnnotations,
    RuntimeInvisibleParameterAnnotations,
    AnnotationsDefault,
    MethodParameters(Vec<MethodParameterEntry>),
}

/// The mathematical value of a `Code` attribute.
pub struct SpecCode {
    pub max_stack: u16,
    pub max_locals: u16,
    pub code: Seq<u8>,
    pub exception_table: Seq<ExceptionTableEntry>,
    pub attributes: Seq<SpecCodeAttribute>,
}

/// The mathematical value of a method attribute.
pub enum SpecMethodAttribute {
    Code(SpecCode),
    Exceptions(Seq<u16>),
    RuntimeVisibleParameterAnnotations,
    RuntimeInvisibleParameterAnnotations,
    AnnotationsDefault,
    MethodParameters(Seq<MethodParameterEntry>),
}

impl View for CodeAttribute {
    type V = SpecCode;

    open spec fn view(&self) -> SpecCode {
        SpecCode {
            max_stack: self.max_stack,
            max_locals: self.max_locals,
            code: self.code@,
            exception_table: self.exception_table@,
            attributes: code_attributes_view(self.attributes@),
        }
    }
}

impl View for MethodAttribute {
    type V = SpecMethodAttribute;

    open spec fn view(&self) -> SpecMethodAttribute {
        match self {
            MethodAttribute::Code(c) => SpecMethodAttribute::Code(c@),
            MethodAttribute::Exceptions(e) => SpecMethodAttribute::Exceptions(e@),
            MethodAttribute::RuntimeVisibleParameterAnnotations =>
                SpecMethodAttribute::RuntimeVisibleParameterAnnotations,
            MethodAttribute::RuntimeInvisibleParameterAnnotations =>
                SpecMethodAttribute::RuntimeInvisibleParameterAnnotations,
            MethodAttribute::AnnotationsDefault => SpecMethodAttribute::AnnotationsDefault,
            MethodAttribute::MethodParameters(p) => SpecMethodAttribute::MethodParameters(p@),
        }
    }
}

impl MethodParameterEntry {
    pub fn new(name_index: u16, access_flags: u16) -> (e: Self)
        ensures
            e.name_index == name_index,
            e.access_flags == access_flags,
    {
        Self { name_index, access_flags }
    }
}

/// The body of a `Code` attribute, after its name and length.
pub open spec fn spec_parse_code(cp: Seq<SpecConstantInfo>, s: Seq<u8>) -> Result<
    (SpecCode, Seq<u8>),
    JvmError,
> {
    match spec_u16(s) {
        Err(e) => Err(e),
        Ok((max_stack, r1)) => match spec_u16(r1) {
            Err(e) => Err(e),
            Ok((max_locals, r2)) => match spec_u32(r2) {
                Err(e) => Err(e),
                Ok((code_length, r3)) => match spec_bytes(r3, code_length as nat) {
                    Err(e) => Err(e),
                    Ok((code, r4)) => match spec_u16(r4) {
                        Err(e) => Err(e),
                        Ok((etl, r5)) => match spec_repeat(
                            r5,
                            etl as nat,
                            exception_entry_parser(),
                        ) {
                            Err(e) => Err(e),
                            Ok((exception_table, r6)) => match spec_u16(r6) {
                                Err(e) => Err(e),
                                Ok((count, r7)) => match spec_repeat(
                                    r7,
                                    count as nat,
                                    code_attribute_parser(cp),
                                ) {
                                    Ok((attributes, r8)) => Ok(
                                        (
                                            SpecCode {
                                                max_stack,
                                                max_locals,
                                                code,
                                                exception_table,
                                                attributes,
                                            },
                                            r8,
                                        ),
                                    ),
                                    Err(e) => Err(e),
                                },
                            },
                        },
                    },
                },
            },
        },
    }
}

pub open spec fn parameter_parser() -> spec_fn(Seq<u8>) -> Result<(MethodParameterEntry, Seq<u8>), JvmError> {
    |s: Seq<u8>| match spec_u16(s) {
        Ok((name_index, r1)) => match spec_u16(r1) {
            Ok((access_flags, r2)) => Ok((MethodParameterEntry { name_index, access_flags }, r2)),
            Err(e) => Err(e),
        },
        Err(e) => Err(e),
    }
}

pub open spec fn index_parser() -> spec_fn(Seq<u8>) -> Result<(u16, Seq<u8>), JvmError> {
    |s: Seq<u8>| spec_u16(s)
}

/// Reads a method attribute. `None` stands for the attributes this reader does
/// not handle: all but `Code`, `Exceptions` and `MethodParameters`.
pub open spec fn spec_parse_method_attribute(cp: Seq<SpecConstantInfo>, s: Seq<u8>) -> Option<
    Result<(SpecMethodAttribute, Seq<u8>), JvmError>,
> {
    match spec_attribute_header(cp, s) {
        Err(e) => Some(Err(e)),
        Ok(((_name_index, _length, name), r)) => if name == "Code"@ {
            Some(
                match spec_parse_code(cp, r) {
                    Ok((c, r2)) => Ok((SpecMethodAttribute::Code(c), r2)),
                    Err(e) => Err(e),
                },
            )
        } else if name == "MethodParameters"@ {
            Some(
                match spec_u8(r) {
                    Ok((n, r2)) => match spec_repeat(r2, n as nat, parameter_parser()) {
                        Ok((ps, r3)) => Ok((SpecMethodAttribute::MethodParameters(ps), r3)),
                        Err(e) => Err(e),
                    },
                    Err(e) => Err(e),
                },
            )
        } else if name == "Exceptions"@ {
            Some(
                match spec_u16(r) {
                    Ok((n, r2)) => match spec_repeat(r2, n as nat, index_parser()) {
                        Ok((xs, r3)) => Ok((SpecMethodAttribute::Exceptions(xs), r3)),
                        Err(e) => Err(e),
                    },
                    Err(e) => Err(e),
                },
            )
        } else {
            None
        },
    }
}

impl CodeAttribute {
    /// Reads the body of a `Code` attribute.
    pub fn read(pool: &RuntimeConstantPool, cursor: &mut Cursor) -> (res: Result<
        CodeAttribute,
        JvmError,
    >)
        ensures
            final(cursor)@.len() <= old(cursor)@.len(),
            match spec_parse_code(pool@, old(cursor)@) {
                Ok((c, rest)) => res matches Ok(v) && v@ == c && final(cursor)@ == rest,
                Err(e) => res == Err::<CodeAttribute, JvmError>(e) && final(cursor)@
                    == spec_code_body_stop(pool@, old(cursor)@),
            },
    {
        let max_stack = cursor.u16()?;
        let max_locals = cursor.u16()?;
        let code_length = cursor.u32()? as usize;
        let mut code = vec![0u8; code_length];
        cursor.read_exact(code.as_mut_slice())?;
        let exception_table_length = cursor.u16()?;
        let exception_table = read_exception_table(cursor, exception_table_length)?;
        let attributes_count = cursor.u16()?;
        let attributes = read_code_attributes(pool, cursor, attributes_count)?;
        Ok(Self { max_stack, max_locals, code, exception_table, attributes })
    }
}

/// Reads the `n` parameters of a `MethodParameters` attribute.
fn read_parameters(cursor: &mut Cursor, n: u8) -> (res: Result<Vec<MethodParameterEntry>, JvmError>)
    ensures
        match spec_repeat(old(cursor)@, n as nat, parameter_parser()) {
            Ok((t, rest)) => res matches Ok(v) && v@ == t && final(cursor)@ == rest,
            Err(e) => res == Err::<Vec<MethodParameterEntry>, JvmError>(e) && final(cursor)@ == Seq::<u8>::empty(),
        },
{
    let ghost start = cursor@;
    let mut parameters: Vec<MethodParameterEntry> = Vec::new();
    let mut i: u8 = 0;
    proof {
        assert(Seq::<MethodParameterEntry>::empty() + Seq::<MethodParameterEntry>::empty() =~= Seq::<
            MethodParameterEntry,
        >::empty());
    }
    while i < n
        invariant
            i <= n,
            start == old(cursor)@,
            spec_repeat(start, n as nat, parameter_parser()) == spec_repeat_from(
                parameters@,
                cursor@,
                (n - i) as nat,
                parameter_parser(),
            ),
        decreases n - i,
    {
        proof {
            lemma_repeat_step(parameters@, cursor@, (n - i) as nat, parameter_parser());
        }
        parameters.push(MethodParameterEntry::new(cursor.u16()?, cursor.u16()?));
        i = i + 1;
    }
    proof {
        lemma_repeat_done(parameters@, cursor@, parameter_parser());
    }
    Ok(parameters)
}

/// Reads the `n` class indices of an `Exceptions` attribute.
fn read_exception_indices(cursor: &mut Cursor, n: u16) -> (res: Result<Vec<u16>, JvmError>)
    ensures
        match spec_repeat(old(cursor)@, n as nat, index_parser()) {
            Ok((t, rest)) => res matches Ok(v) && v@ == t && final(cursor)@ == rest,
            Err(e) => res == Err::<Vec<u16>, JvmError>(e) && final(cursor)@ == Seq::<u8>::empty(),
        },
{
    let ghost start = cursor@;
    let mut indices: Vec<u16> = Vec::new();
    let mut i: u16 = 0;
    proof {
        assert(Seq::<u16>::empty() + Seq::<u16>::empty() =~= Seq::<u16>::empty());
    }
    while i < n
        invariant
            i <= n,
            start == old(cursor)@,
            spec_repeat(start, n as nat, index_parser()) == spec_repeat_from(
                indices@,
                cursor@,
                (n - i) as nat,
                index_parser(),
            ),
        decreases n - i,
    {
        proof {
            lemma_repeat_step(indices@, cursor@, (n - i) as nat, index_parser());
        }
        indices.push(cursor.u16()?);
        i = i + 1;
    }
    proof {
        lemma_repeat_done(indices@, cursor@, index_parser());
    }
    Ok(indices)
}

impl MethodAttribute {
    /// Reads one method attribute. Only `Code`, `Exceptions` and
    /// `MethodParameters` are read here; `requires` leaves the other names out.
    pub fn read(pool: &RuntimeConstantPool, cursor: &mut Cursor) -> (res: Result<
        MethodAttribute,
        JvmError,
    >)
        requires
            spec_parse_method_attribute(pool@, old(cursor)@) is Some,
        ensures
            match spec_parse_method_attribute(pool@, old(cursor)@) {
                Some(Ok((a, rest))) => res matches Ok(v) && v@ == a && final(cursor)@ == rest,
                Some(Err(e)) => res == Err::<MethodAttribute, JvmError>(e) && final(cursor)@
                    == spec_method_attribute_stop(pool@, old(cursor)@),
                None => false,
            },
    {
        let (_attribute_name_index, _attribute_length, name) = read_header(pool, cursor)?;
        if text_is(name, "Code") {
            Ok(MethodAttribute::Code(CodeAttribute::read(pool, cursor)?))
        } else if text_is(name, "MethodParameters") {
            let parameters_count = cursor.u8()?;
            let parameters = read_parameters(cursor, parameters_count)?;
            Ok(MethodAttribute::MethodParameters(parameters))
        } else if text_is(name, "Exceptions") {
            let number_of_exceptions = cursor.u16()?;
            let exception_index_table = read_exception_indices(cursor, number_of_exceptions)?;
            Ok(MethodAttribute::Exceptions(exception_index_table))
        } else {
            // excluded by `requires`
            proof {
                assert(false);
            }
            Err(JvmError::TypeError)
        }
    }
}

} // verus!
