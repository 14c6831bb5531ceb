use vstd::prelude::*;

use crate::class_file::attribute::ExceptionTableEntry;
use crate::class_file::bytes::{be16_at, be32_at, lemma_repeat_fixed, spec_be_u16, spec_repeat};
use crate::class_file::layout::{exception_entry_of, lemma_be16_skip};
use crate::jclass::method;
use crate::vm::attribute::{
    SpecClassAttribute,
    SpecCodeAttribute,
    SpecMethodAttribute,
    exception_entry_parser,
    line_number_entry_parser,
    local_variable_entry_parser,
    spec_attribute_header,
    spec_parse_class_attribute,
    spec_parse_code_attribute,
    spec_parse_code_body,
};
use crate::vm::class_file::{JvmError, spec_bytes, spec_u16, spec_u32};
use crate::vm::constant_pool::SpecConstantInfo;
use crate::vm::runtime_constant_pool::spec_get_utf8;

verus! {

proof fn lemma_exception_entry_reader(x: Seq<u8>)
    ensures
        x.len() >= 8 ==> exception_entry_parser()(x) == Ok::<(ExceptionTableEntry, Seq<u8>), JvmError>(
            (exception_entry_of(x), x.skip(8)),
        ),
        x.len() < 8 ==> exception_entry_parser()(x) is Err,
{
    if x.len() >= 8 {
        assert(x.skip(2).skip(2) =~= x.skip(4));
        assert(x.skip(4).skip(2) =~= x.skip(6));
        assert(x.skip(6).skip(2) =~= x.skip(8));
    }
}

/// The rows of an exception table are the consecutive eight-byte groups of
/// the input, each holding start, end, handler and catch type in that order.
proof fn lemma_exception_rows(r: Seq<u8>, etl: nat)
    ensures
        spec_repeat(r, etl, exception_entry_parser()) matches Ok((t, _rest)) ==> {
            &&& t.len() == etl
            &&& r.len() >= 8 * etl
            &&& forall|i: int|
                0 <= i < etl ==> {
                    &&& (#[trigger] t[i]).start_pc == be16_at(r, 8 * i)
                    &&& t[i].end_pc == be16_at(r, 8 * i + 2)
                    &&& t[i].handler_pc == be16_at(r, 8 * i + 4)
                    &&& t[i].catch_type == be16_at(r, 8 * i + 6)
                }
        },
{
    assert forall|x: Seq<u8>|
        #![trigger exception_entry_parser()(x)]
        (x.len() >= 8 ==> exception_entry_parser()(x) == Ok::<
            (ExceptionTableEntry, Seq<u8>),
            JvmError,
        >((exception_entry_of(x), x.skip(8)))) && (x.len() < 8 ==> exception_entry_parser()(x) is Err) by {
        lemma_exception_entry_reader(x);
    }
    lemma_repeat_fixed(r, etl, exception_entry_parser(), 8, |x: Seq<u8>| exception_entry_of(x));
    if let Ok((t, _rest)) = spec_repeat(r, etl, exception_entry_parser()) {
        assert forall|i: int| 0 <= i < etl implies {
            &&& (#[trigger] t[i]).start_pc == be16_at(r, 8 * i)
            &&& t[i].end_pc == be16_at(r, 8 * i + 2)
            &&& t[i].handler_pc == be16_at(r, 8 * i + 4)
            &&& t[i].catch_type == be16_at(r, 8 * i + 6)
        } by {
            let k = 8 * i;
            assert(t[i] == exception_entry_of(r.skip(k)));
            assert(r.skip(k).skip(2) =~= r.skip(k + 2));
            assert(r.skip(k).skip(4) =~= r.skip(k + 4));
            assert(r.skip(k).skip(6) =~= r.skip(k + 6));
            lemma_be16_skip(r, k);
            lemma_be16_skip(r, k + 2);
            lemma_be16_skip(r, k + 4);
            lemma_be16_skip(r, k + 6);
        }
    }
}

/// Law: an attribute's header is its name index (a big-endian `u16` at byte 0)
/// and its length (a `u32` at byte 2), six bytes in all, and its name is the
/// `Utf8` entry the name index refers to.
pub proof fn law_attribute_header_layout(cp: Seq<SpecConstantInfo>, s: Seq<u8>)
    ensures
        spec_attribute_header(cp, s) matches Ok(((name_index, length, name), r)) ==> {
            &&& name_index == be16_at(s, 0)
            &&& length == be32_at(s, 2)
            &&& r == s.skip(6)
            &&& spec_get_utf8(cp, name_index) == Ok::<Seq<char>, JvmError>(name)
        },
{
    if let Ok(((_n, _l, _name), _r)) = spec_attribute_header(cp, s) {
        lemma_be16_skip(s, 0);
        assert(s.skip(0) =~= s);
        assert(s.skip(2)[0] == s[2] && s.skip(2)[1] == s[3] && s.skip(2)[2] == s[4] && s.skip(2)[3]
            == s[5]);
        assert(s.skip(2).skip(4) =~= s.skip(6));
    }
}

/// Law: the body of a `Code` attribute, as the virtual machine reads it, holds
/// in order max_stack and max_locals (big-endian `u16`s at bytes 0 and 2), the
/// code length (a `u32` at byte 4), the code, the number of exception-table
/// rows and the rows, eight bytes each with start, end, handler and catch type
/// in that order (JVMS 4.7.3).
pub proof fn law_code_body_layout(cp: Seq<SpecConstantInfo>, s: Seq<u8>)
    ensures
        spec_parse_code_body(cp, s) matches Ok((a, _r)) ==> (a matches SpecMethodAttribute::Code {
            max_stack,
            max_locals,
            code,
            exception_table,
            attributes: _,
        } && {
            let n = code.len() as int;
            &&& max_stack == be16_at(s, 0)
            &&& max_locals == be16_at(s, 2)
            &&& n == be32_at(s, 4)
            &&& s.len() >= 10 + n + 8 * exception_table.len()
            &&& code == s.subrange(8, 8 + n)
            &&& exception_table.len() == be16_at(s, 8 + n)
            &&& forall|i: int|
                0 <= i < exception_table.len() ==> {
                    &&& (#[trigger] exception_table[i]).start_pc == be16_at(s, 10 + n + 8 * i)
                    &&& exception_table[i].end_pc == be16_at(s, 12 + n + 8 * i)
                    &&& exception_table[i].handler_pc == be16_at(s, 14 + n + 8 * i)
                    &&& exception_table[i].catch_type == be16_at(s, 16 + n + 8 * i)
                }
        }),
{
    if let Ok((_max_stack, r1)) = spec_u16(s) {
        if let Ok((_max_locals, r2)) = spec_u16(r1) {
            if let Ok((code_length, r3)) = spec_u32(r2) {
                if let Ok((code, r4)) = spec_bytes(r3, code_length as nat) {
                    if let Ok((etl, r5)) = spec_u16(r4) {
                        lemma_exception_rows(r5, etl as nat);
                        let n = code.len() as int;
                        lemma_be16_skip(s, 0);
                        lemma_be16_skip(s, 2);
                        assert(s.skip(0) =~= s);
                        assert(r2 =~= s.skip(4));
                        assert(r3 =~= s.skip(8));
                        assert(r2[0] == s[4] && r2[1] == s[5] && r2[2] == s[6] && r2[3] == s[7]);
                        assert(code =~= s.subrange(8, 8 + n));
                        assert(r4 =~= s.skip(8 + n));
                        lemma_be16_skip(s, 8 + n);
                        assert(r5 =~= s.skip(10 + n));
                        assert forall|k: int| 0 <= k && k + 2 <= r5.len() implies #[trigger] be16_at(
                            r5,
                            k,
                        ) == be16_at(s, 10 + n + k) by {}
                    }
                }
            }
        }
    }
}

/// Law: the method-attribute reader and the virtual machine's reader read the
/// body of a `Code` attribute alike: the same fields from the same bytes, the
/// same bytes left over, and the same error.
pub proof fn law_code_readers_agree(cp: Seq<SpecConstantInfo>, s: Seq<u8>)
    ensures
        match method::spec_parse_code(cp, s) {
            Ok((c, r)) => spec_parse_code_body(cp, s) == Ok::<(SpecMethodAttribute, Seq<u8>), JvmError>(
                (
                    SpecMethodAttribute::Code {
                        max_stack: c.max_stack,
                        max_locals: c.max_locals,
                        code: c.code,
                        exception_table: c.exception_table,
                        attributes: c.attributes,
                    },
                    r,
                ),
            ),
            Err(e) => spec_parse_code_body(cp, s) == Err::<(SpecMethodAttribute, Seq<u8>), JvmError>(e),
        },
{
}

/// Law: the method-attribute reader takes a `Code` attribute's max_stack and
/// max_locals from bytes 0 and 2 of its body and its code from byte 8 on, as
/// many bytes as the `u32` at byte 4 says.
pub proof fn law_method_code_layout(cp: Seq<SpecConstantInfo>, s: Seq<u8>)
    ensures
        method::spec_parse_code(cp, s) matches Ok((c, _r)) ==> {
            &&& c.max_stack == be16_at(s, 0)
            &&& c.max_locals == be16_at(s, 2)
            &&& c.code.len() == be32_at(s, 4)
            &&& c.code == s.subrange(8, 8 + c.code.len() as int)
            &&& c.exception_table.len() == be16_at(s, 8 + c.code.len() as int)
        },
{
    law_code_readers_agree(cp, s);
    law_code_body_layout(cp, s);
}

/// Law: the virtual machine reads a line-number row from four bytes (start pc,
/// then line number), a local-variable row from ten (start pc, length, name
/// index, descriptor index, slot index) and an exception-table row from eight
/// (start, end, handler, catch type), each field a big-endian `u16` in that
/// order; fewer bytes are refused.
pub proof fn law_row_layouts(s: Seq<u8>)
    ensures
        s.len() >= 4 ==> (line_number_entry_parser()(s) matches Ok((e, r)) && e.start_pc
            == be16_at(s, 0) && e.line_number == be16_at(s, 2) && r == s.skip(4)),
        s.len() < 4 ==> line_number_entry_parser()(s) is Err,
        s.len() >= 10 ==> (local_variable_entry_parser()(s) matches Ok((e, r)) && e.start_pc
            == be16_at(s, 0) && e.length == be16_at(s, 2) && e.name_index == be16_at(s, 4)
            && e.descriptor_index == be16_at(s, 6) && e.index == be16_at(s, 8) && r == s.skip(10)),
        s.len() < 10 ==> local_variable_entry_parser()(s) is Err,
        s.len() >= 8 ==> (exception_entry_parser()(s) matches Ok((e, r)) && e.start_pc == be16_at(
            s,
            0,
        ) && e.end_pc == be16_at(s, 2) && e.handler_pc == be16_at(s, 4) && e.catch_type
            == be16_at(s, 6) && r == s.skip(8)),
        s.len() < 8 ==> exception_entry_parser()(s) is Err,
{
    assert(s.skip(0) =~= s);
    if s.len() >= 4 {
        assert(s.skip(2).skip(2) =~= s.skip(4));
        lemma_be16_skip(s, 0);
        lemma_be16_skip(s, 2);
    }
    if s.len() >= 8 {
        assert(s.skip(4).skip(2) =~= s.skip(6));
        assert(s.skip(6).skip(2) =~= s.skip(8));
        lemma_be16_skip(s, 4);
        lemma_be16_skip(s, 6);
    }
    if s.len() >= 10 {
        assert(s.skip(8).skip(2) =~= s.skip(10));
        lemma_be16_skip(s, 8);
    }
}

/// Law: a class attribute's `SourceFile` index is the big-endian `u16` right
/// after its six-byte header; an attribute kept as bytes keeps its name index
/// (byte 0) and the `length` bytes after the header.
pub proof fn law_class_attribute_layout(cp: Seq<SpecConstantInfo>, s: Seq<u8>)
    ensures
        spec_parse_class_attribute(cp, s) matches Ok((a, _r)) ==> match a {
            SpecClassAttribute::SourceFile { sourcefile_index } => sourcefile_index == be16_at(s, 6),
            SpecClassAttribute::Unknown { name_index, info } => name_index == be16_at(s, 0)
                && info.len() == be32_at(s, 2) && info == s.subrange(6, 6 + info.len() as int),
        },
{
    law_attribute_header_layout(cp, s);
    if let Ok((a, _r)) = spec_parse_class_attribute(cp, s) {
        if s.len() >= 8 {
            lemma_be16_skip(s, 6);
        }
        if let SpecClassAttribute::Unknown { name_index, info } = a {
            assert(info =~= s.subrange(6, 6 + info.len() as int));
        }
    }
}

/// Law: an attribute of a `Code` attribute kept as bytes keeps its name index
/// (byte 0) and the `length` bytes after its six-byte header; a line-number or
/// local-variable table holds its row count right after the header.
pub proof fn law_code_attribute_layout(cp: Seq<SpecConstantInfo>, s: Seq<u8>)
    ensures
        spec_parse_code_attribute(cp, s) matches Ok((a, _r)) ==> match a {
            SpecCodeAttribute::LineNumberTable(t) => t.len() == be16_at(s, 6) && spec_repeat(
                s.skip(8),
                t.len(),
                line_number_entry_parser(),
            ) is Ok,
            SpecCodeAttribute::LocalVariableTable(t) => t.len() == be16_at(s, 6) && spec_repeat(
                s.skip(8),
                t.len(),
                local_variable_entry_parser(),
            ) is Ok,
            SpecCodeAttribute::Unknown { name_index, info } => name_index == be16_at(s, 0)
                && info.len() == be32_at(s, 2) && info == s.subrange(6, 6 + info.len() as int),
        },
{
    law_attribute_header_layout(cp, s);
    if let Ok((a, _r)) = spec_parse_code_attribute(cp, s) {
        if s.len() >= 8 {
            lemma_be16_skip(s, 6);
            assert(s.skip(6).skip(2) =~= s.skip(8));
            lemma_repeat_count(s.skip(8), be16_at(s, 6) as nat, line_number_entry_parser());
            lemma_repeat_count(s.skip(8), be16_at(s, 6) as nat, local_variable_entry_parser());
        }
        if let SpecCodeAttribute::Unknown { name_index, info } = a {
            assert(info =~= s.subrange(6, 6 + info.len() as int));
        }
    }
}

proof fn lemma_repeat_count<T>(s: Seq<u8>, n: nat, p: spec_fn(Seq<u8>) -> Result<(T, Seq<u8>), JvmError>)
    ensures
        spec_repeat(s, n, p) matches Ok((vs, _r)) ==> vs.len() == n,
    decreases n,
{
    if n > 0 {
        if let Ok((_v, r1)) = p(s) {
            lemma_repeat_count(r1, (n - 1) as nat, p);
        }
    }
}

/// Law: a method parameter is read from four bytes, its name index and then its
/// access flags, and an exception index from two (JVMS 4.7.24, 4.7.5).
pub proof fn law_method_parameter_layout(s: Seq<u8>)
    ensures
        s.len() >= 4 ==> (method::parameter_parser()(s) matches Ok((p, r)) && p.name_index
            == be16_at(s, 0) && p.access_flags == be16_at(s, 2) && r == s.skip(4)),
        s.len() >= 2 ==> (method::index_parser()(s) matches Ok((i, r)) && i == be16_at(s, 0) && r
            == s.skip(2)),
{
    assert(s.skip(0) =~= s);
    if s.len() >= 2 {
        lemma_be16_skip(s, 0);
    }
    if s.len() >= 4 {
        lemma_be16_skip(s, 2);
        assert(s.skip(2).skip(2) =~= s.skip(4));
    }
}

/// Law: a `MethodParameters` attribute holds its parameter count in the byte
/// after its six-byte header and then its parameters, four bytes each (name
/// index, access flags); an `Exceptions` attribute holds its count as a `u16`
/// after the header and then one class index per two bytes.
pub proof fn law_method_attribute_layout(cp: Seq<SpecConstantInfo>, s: Seq<u8>)
    ensures
        method::spec_parse_method_attribute(cp, s) matches Some(Ok((a, _r))) ==> match a {
            method::SpecMethodAttribute::MethodParameters(ps) => ps.len() == s[6] && s.len() >= 7
                + 4 * ps.len() && forall|i: int|
                0 <= i < ps.len() ==> (#[trigger] ps[i]).name_index == be16_at(s, 7 + 4 * i)
                    && ps[i].access_flags == be16_at(s, 9 + 4 * i),
            method::SpecMethodAttribute::Exceptions(xs) => xs.len() == be16_at(s, 6) && s.len()
                >= 8 + 2 * xs.len() && forall|i: int|
                0 <= i < xs.len() ==> #[trigger] xs[i] == be16_at(s, 8 + 2 * i),
            _ => true,
        },
{
    law_attribute_header_layout(cp, s);
    if s.len() >= 7 {
        let r = s.skip(7);
        assert(s.skip(6).skip(1) =~= r);
        assert(s.skip(6)[0] == s[6]);
        assert forall|x: Seq<u8>|
            #![trigger method::parameter_parser()(x)]
            (x.len() >= 4 ==> method::parameter_parser()(x) == Ok::<
                (method::MethodParameterEntry, Seq<u8>),
                JvmError,
            >(
                (
                    method::MethodParameterEntry {
                        name_index: spec_be_u16(x),
                        access_flags: spec_be_u16(x.skip(2)),
                    },
                    x.skip(4),
                ),
            )) && (x.len() < 4 ==> method::parameter_parser()(x) is Err) by {
            if x.len() >= 4 {
                assert(x.skip(2).skip(2) =~= x.skip(4));
            }
        }
        lemma_repeat_fixed(
            r,
            s[6] as nat,
            method::parameter_parser(),
            4,
            |x: Seq<u8>|
                method::MethodParameterEntry {
                    name_index: spec_be_u16(x),
                    access_flags: spec_be_u16(x.skip(2)),
                },
        );
        if let Ok((ps, _r3)) = spec_repeat(r, s[6] as nat, method::parameter_parser()) {
            assert forall|i: int| 0 <= i < ps.len() implies (#[trigger] ps[i]).name_index == be16_at(
                s,
                7 + 4 * i,
            ) && ps[i].access_flags == be16_at(s, 9 + 4 * i) by {
                assert(r.skip(4 * i) =~= s.skip(7 + 4 * i));
                assert(s.skip(7 + 4 * i).skip(2) =~= s.skip(9 + 4 * i));
                lemma_be16_skip(s, 7 + 4 * i);
                lemma_be16_skip(s, 9 + 4 * i);
            }
        }
    }
    if s.len() >= 8 {
        lemma_be16_skip(s, 6);
        let r = s.skip(8);
        assert(s.skip(6).skip(2) =~= r);
        assert forall|x: Seq<u8>|
            #![trigger method::index_parser()(x)]
            (x.len() >= 2 ==> method::index_parser()(x) == Ok::<(u16, Seq<u8>), JvmError>(
                (spec_be_u16(x), x.skip(2)),
            )) && (x.len() < 2 ==> method::index_parser()(x) is Err) by {}
        lemma_repeat_fixed(r, be16_at(s, 6) as nat, method::index_parser(), 2, |x: Seq<u8>| spec_be_u16(x));
        if let Ok((xs, _r3)) = spec_repeat(r, be16_at(s, 6) as nat, method::index_parser()) {
            assert forall|i: int| 0 <= i < xs.len() implies #[trigger] xs[i] == be16_at(s, 8 + 2 * i) by {
                assert(r.skip(2 * i) =~= s.skip(8 + 2 * i));
                lemma_be16_skip(s, 8 + 2 * i);
            }
        }
    }
}

} // verus!
