use vstd::prelude::*;

use crate::class_file::bytes::{spec_take_bytes, spec_take_u16, spec_take_u32, spec_take_u8};

verus! {

/// Why a method descriptor was refused, as the class-file layer reports it.
#[derive(Debug, Clone, Copy, PartialEq, Eq)]
pub enum MethodDescriptorErr {
    ShouldStartWithParentheses,
    MissingClosingParenthesis,
    UnexpectedEnd,
    InvalidType,
    TrailingCharacters,
}

/// Errors of the class-file layer of the virtual machine.
#[derive(Debug, Clone, Copy, PartialEq, Eq)]
pub enum JvmError {
    WrongMagic,
    UnexpectedEof,
    UnknownTag(u8),
    TrailingBytes,
    MissingAttributeInConstantPoll,
    TypeError,
    MethodDescriptor(MethodDescriptorErr),
    ConstantNotFoundInRuntimePool,
}

/// A read that can only fall short of bytes, as a virtual-machine read.
pub open spec fn or_eof<T>(r: Option<(T, Seq<u8>)>) -> Result<(T, Seq<u8>), JvmError> {
    match r {
        Some(x) => Ok(x),
        None => Err(JvmError::UnexpectedEof),
    }
}

pub open spec fn spec_u8(s: Seq<u8>) -> Result<(u8, Seq<u8>), JvmError> {
    or_eof(spec_take_u8(s))
}

pub open spec fn spec_u16(s: Seq<u8>) -> Result<(u16, Seq<u8>), JvmError> {
    or_eof(spec_take_u16(s))
}

pub open spec fn spec_u32(s: Seq<u8>) -> Result<(u32, Seq<u8>), JvmError> {
    or_eof(spec_take_u32(s))
}

pub open spec fn spec_bytes(s: Seq<u8>, n: nat) -> Result<(Seq<u8>, Seq<u8>), JvmError> {
    or_eof(spec_take_bytes(s, n))
}

} // verus!
