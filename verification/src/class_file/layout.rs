use vstd::prelude::*;

use crate::class_file::attribute::{
    ExceptionTableEntry,
    LineNumberEntry,
    LocalVariableEntry,
    SpecAttributeInfo,
    exception_entry_parser,
    line_number_entry_parser,
    local_variable_entry_parser,
    spec_parse_attribute,
    spec_parse_attributes,
    spec_parse_code,
};
use crate::class_file::member::spec_parse_member;
use crate::class_file::bytes::{be16_at, be32_at, lemma_repeat_fixed, spec_be_u16, spec_repeat};
use crate::class_file::constant_pool::{SpecConstantInfo, spec_parse_constant};
use crate::class_file::{
    Stop,
    constant_parser,
    spec_bytes,
    spec_parse_class_body,
    spec_parse_class_file,
    spec_pool_entries,
    spec_u16,
    spec_u32,
    u16_parser,
};

verus! {

/// A big-endian `u16` read from byte `k` on is the `u16` at byte `k`.
pub proof fn lemma_be16_skip(s: Seq<u8>, k: int)
    requires
        0 <= k,
        k + 2 <= s.len(),
    ensures
        spec_be_u16(s.skip(k)) as int == be16_at(s, k),
{
    assert(s.skip(k)[0] == s[k]);
    assert(s.skip(k)[1] == s[k + 1]);
}

/// An exception-table row as its eight bytes give it: start, end, handler and
/// catch type, each a big-endian `u16`, in that order.
pub open spec fn exception_entry_of(x: Seq<u8>) -> ExceptionTableEntry {
    ExceptionTableEntry {
        start_pc: spec_be_u16(x),
        end_pc: spec_be_u16(x.skip(2)),
        handler_pc: spec_be_u16(x.skip(4)),
        catch_type: spec_be_u16(x.skip(6)),
    }
}

proof fn lemma_exception_entry_reader(x: Seq<u8>)
    ensures
        x.len() >= 8 ==> exception_entry_parser()(x) == Ok::<(ExceptionTableEntry, Seq<u8>), Stop>(
            (exception_entry_of(x), x.skip(8)),
        ),
        x.len() < 8 ==> exception_entry_parser()(x) is Err,
{
    if x.len() >= 8 {
        assert(x.skip(2).skip(2) =~= x.skip(4));
        assert(x.skip(4).skip(2) =~= x.skip(6));
        assert(x.skip(6).skip(2) =~= x.skip(8));
    }
}

/// Law: one exception-table row is read from exactly eight bytes, whose four
/// big-endian `u16`s are, in order, its start pc, end pc, handler pc and catch
/// type (JVMS 4.7.3); fewer bytes are refused.
pub proof fn law_exception_entry_layout(s: Seq<u8>)
    ensures
        s.len() >= 8 ==> (exception_entry_parser()(s) matches Ok((e, r)) && e.start_pc == be16_at(
            s,
            0,
        ) && e.end_pc == be16_at(s, 2) && e.handler_pc == be16_at(s, 4) && e.catch_type
            == be16_at(s, 6) && r == s.skip(8)),
        s.len() < 8 ==> exception_entry_parser()(s) is Err,
{
    lemma_exception_entry_reader(s);
    if s.len() >= 8 {
        lemma_be16_skip(s, 0);
        lemma_be16_skip(s, 2);
        lemma_be16_skip(s, 4);
        lemma_be16_skip(s, 6);
        assert(s.skip(0) =~= s);
    }
}

/// The rows of an exception table, read one after another, are the
/// consecutive eight-byte groups of the input.
proof fn lemma_exception_rows(r: Seq<u8>, etl: nat)
    ensures
        spec_repeat(r, etl, exception_entry_parser()) matches Ok((t, _rest)) ==> {
            &&& t.len() == etl
            &&& r.len() >= 8 * etl
            &&& forall|i: int|
                0 <= i < etl ==> {
                    &&& (#[trigger] t[i]).start_pc == be16_at(r, 8 * i)
                    &&& t[i].end_pc == be16_at(r, 8 * i + 2)
                    &&& t[i].handler_pc == be16_at(r, 8 * i + 4)
                    &&& t[i].catch_type == be16_at(r, 8 * i + 6)
                }
        },
{
    assert forall|x: Seq<u8>|
        #![trigger exception_entry_parser()(x)]
        (x.len() >= 8 ==> exception_entry_parser()(x) == Ok::<(ExceptionTableEntry, Seq<u8>), Stop>(
            (exception_entry_of(x), x.skip(8)),
        )) && (x.len() < 8 ==> exception_entry_parser()(x) is Err) by {
        lemma_exception_entry_reader(x);
    }
    lemma_repeat_fixed(r, etl, exception_entry_parser(), 8, |x: Seq<u8>| exception_entry_of(x));
    if let Ok((t, _rest)) = spec_repeat(r, etl, exception_entry_parser()) {
        assert forall|i: int| 0 <= i < etl implies {
            &&& (#[trigger] t[i]).start_pc == be16_at(r, 8 * i)
            &&& t[i].end_pc == be16_at(r, 8 * i + 2)
            &&& t[i].handler_pc == be16_at(r, 8 * i + 4)
            &&& t[i].catch_type == be16_at(r, 8 * i + 6)
        } by {
            let k = 8 * i;
            assert(t[i] == exception_entry_of(r.skip(k)));
            assert(r.skip(k).skip(2) =~= r.skip(k + 2));
            assert(r.skip(k).skip(4) =~= r.skip(k + 4));
            assert(r.skip(k).skip(6) =~= r.skip(k + 6));
            lemma_be16_skip(r, k);
            lemma_be16_skip(r, k + 2);
            lemma_be16_skip(r, k + 4);
            lemma_be16_skip(r, k + 6);
        }
    }
}

/// Law: a `Code` attribute's body holds, in order, max_stack and max_locals
/// (big-endian `u16`s at bytes 0 and 2), the code length (a `u32` at byte 4),
/// the code itself, the number of exception-table rows and the rows, eight
/// bytes each, with start, end, handler and catch type in that order
/// (JVMS 4.7.3).
pub proof fn law_code_layout(cp: Seq<SpecConstantInfo>, s: Seq<u8>)
    ensures
        spec_parse_code(cp, s) matches Ok((a, _r)) ==> (a matches SpecAttributeInfo::Code {
            max_stack,
            max_locals,
            code,
            exception_table,
            attributes: _,
        } && {
            let n = code.len() as int;
            &&& max_stack == be16_at(s, 0)
            &&& max_locals == be16_at(s, 2)
            &&& n == be32_at(s, 4)
            &&& s.len() >= 10 + n + 8 * exception_table.len()
            &&& code == s.subrange(8, 8 + n)
            &&& exception_table.len() == be16_at(s, 8 + n)
            &&& forall|i: int|
                0 <= i < exception_table.len() ==> {
                    &&& (#[trigger] exception_table[i]).start_pc == be16_at(s, 10 + n + 8 * i)
                    &&& exception_table[i].end_pc == be16_at(s, 12 + n + 8 * i)
                    &&& exception_table[i].handler_pc == be16_at(s, 14 + n + 8 * i)
                    &&& exception_table[i].catch_type == be16_at(s, 16 + n + 8 * i)
                }
        }),
{
    if let Ok((_max_stack, r1)) = spec_u16(s) {
        if let Ok((_max_locals, r2)) = spec_u16(r1) {
            if let Ok((code_length, r3)) = spec_u32(r2) {
                if let Ok((code, r4)) = spec_bytes(r3, code_length as nat) {
                    if let Ok((etl, r5)) = spec_u16(r4) {
                        lemma_exception_rows(r5, etl as nat);
                        let n = code.len() as int;
                        lemma_be16_skip(s, 0);
                        lemma_be16_skip(s, 2);
                        assert(s.skip(0) =~= s);
                        assert(r2 =~= s.skip(4));
                        assert(r3 =~= s.skip(8));
                        assert(r2[0] == s[4] && r2[1] == s[5] && r2[2] == s[6] && r2[3] == s[7]);
                        assert(code =~= s.subrange(8, 8 + n));
                        assert(r4 =~= s.skip(8 + n));
                        lemma_be16_skip(s, 8 + n);
                        assert(r5 =~= s.skip(10 + n));
                        assert forall|k: int| 0 <= k && k + 2 <= r5.len() implies #[trigger] be16_at(
                            r5,
                            k,
                        ) == be16_at(s, 10 + n + k) by {}
                    }
                }
            }
        }
    }
}

/// `r` is what is left of `x` after some bytes of its front were read.
pub open spec fn is_rest_of(r: Seq<u8>, x: Seq<u8>) -> bool {
    r.len() <= x.len() && r == x.skip(x.len() - r.len())
}

proof fn lemma_repeat_rest<T>(s: Seq<u8>, n: nat, p: spec_fn(Seq<u8>) -> Result<(T, Seq<u8>), Stop>)
    requires
        forall|x: Seq<u8>| #[trigger] p(x) matches Ok((_v, r)) ==> is_rest_of(r, x),
    ensures
        spec_repeat(s, n, p) matches Ok((_vs, r)) ==> is_rest_of(r, s),
    decreases n,
{
    if n > 0 {
        if let Ok((_v, r1)) = p(s) {
            lemma_repeat_rest(r1, (n - 1) as nat, p);
            if let Ok((_vs, r2)) = spec_repeat(r1, (n - 1) as nat, p) {
                assert(r2 =~= s.skip(s.len() - r2.len()));
            }
        }
    } else {
        assert(s.skip(0) =~= s);
    }
}

proof fn lemma_constant_rest(x: Seq<u8>)
    ensures
        constant_parser()(x) matches Ok((_c, r)) ==> is_rest_of(r, x),
{
    if let Ok((_c, r)) = spec_parse_constant(x) {
        if x.len() >= 3 {
            assert(x.skip(1).skip(2) =~= x.skip(3));
        }
        if x.len() >= 5 {
            assert(x.skip(1).skip(2).skip(2) =~= x.skip(5));
        }
        assert(r =~= x.skip(x.len() - r.len()));
    }
}

proof fn lemma_u16_rows(r: Seq<u8>, n: nat)
    ensures
        spec_repeat(r, n, u16_parser()) matches Ok((t, _rest)) ==> {
            &&& t.len() == n
            &&& r.len() >= 2 * n
            &&& forall|i: int| 0 <= i < n ==> #[trigger] t[i] == be16_at(r, 2 * i)
        },
{
    assert forall|x: Seq<u8>|
        #![trigger u16_parser()(x)]
        (x.len() >= 2 ==> u16_parser()(x) == Ok::<(u16, Seq<u8>), Stop>((spec_be_u16(x), x.skip(2))))
            && (x.len() < 2 ==> u16_parser()(x) is Err) by {}
    lemma_repeat_fixed(r, n, u16_parser(), 2, |x: Seq<u8>| spec_be_u16(x));
    if let Ok((t, _rest)) = spec_repeat(r, n, u16_parser()) {
        assert forall|i: int| 0 <= i < n implies #[trigger] t[i] == be16_at(r, 2 * i) by {
            lemma_be16_skip(r, 2 * i);
        }
    }
}

/// Law: after the constant pool a class file holds, in order, its access
/// flags, this class and super class (big-endian `u16`s at bytes 0, 2 and 4),
/// the number of interfaces (byte 6) and the interfaces, two bytes each
/// (JVMS 4.1).
pub proof fn law_class_body_layout(cp: Seq<SpecConstantInfo>, s: Seq<u8>)
    ensures
        spec_parse_class_body(cp, s) matches Ok((access_flags, this_class, super_class, interfaces, _f, _m, _a))
            ==> {
            &&& access_flags == be16_at(s, 0)
            &&& this_class == be16_at(s, 2)
            &&& super_class == be16_at(s, 4)
            &&& interfaces.len() == be16_at(s, 6)
            &&& s.len() >= 8 + 2 * interfaces.len()
            &&& forall|i: int| 0 <= i < interfaces.len() ==> #[trigger] interfaces[i] == be16_at(s, 8 + 2 * i)
        },
{
    if let Ok((_a, r1)) = spec_u16(s) {
        if let Ok((_t, r2)) = spec_u16(r1) {
            if let Ok((_s, r3)) = spec_u16(r2) {
                if let Ok((ic, r4)) = spec_u16(r3) {
                    lemma_u16_rows(r4, ic as nat);
                    assert(s.skip(0) =~= s);
                    lemma_be16_skip(s, 0);
                    lemma_be16_skip(s, 2);
                    lemma_be16_skip(s, 4);
                    lemma_be16_skip(s, 6);
                    assert(r1 =~= s.skip(2));
                    assert(r2 =~= s.skip(4));
                    assert(r3 =~= s.skip(6));
                    assert(r4 =~= s.skip(8));
                    assert forall|k: int| 0 <= k && k + 2 <= r4.len() implies #[trigger] be16_at(
                        r4,
                        k,
                    ) == be16_at(s, 8 + k) by {}
                }
            }
        }
    }
}

/// Law: a class file opens with the magic number `0xCAFEBABE`, then its minor
/// and major versions (bytes 4 and 6) and the constant-pool count (byte 8),
/// one more than the number of entries read; everything after the entries is
/// read as the class body, which gives the class file's remaining fields.
pub proof fn law_class_file_layout(v: Seq<u8>)
    ensures
        spec_parse_class_file(v) matches Ok(c) ==> {
            &&& v.len() >= 10
            &&& be32_at(v, 0) == 0xCAFEBABE
            &&& c.minor_version == be16_at(v, 4)
            &&& c.major_version == be16_at(v, 6)
            &&& c.constant_pool.len() == (if be16_at(v, 8) >= 1 {
                be16_at(v, 8) - 1
            } else {
                0
            })
            &&& exists|k: int|
                10 <= k <= v.len() && spec_parse_class_body(c.constant_pool, #[trigger] v.skip(k))
                    == Ok::<_, Stop>(
                    (
                        c.access_flags,
                        c.this_class,
                        c.super_class,
                        c.interfaces,
                        c.fields,
                        c.methods,
                        c.attributes,
                    ),
                )
        },
{
    if let Ok(c) = spec_parse_class_file(v) {
        let r4 = v.skip(10);
        assert(v.skip(4).skip(2).skip(2).skip(2) =~= r4);
        assert(v.skip(4) =~= v.skip(4));
        lemma_be16_skip(v, 4);
        lemma_be16_skip(v, 6);
        lemma_be16_skip(v, 8);
        assert(v.skip(4).skip(2) =~= v.skip(6));
        assert(v.skip(4).skip(2).skip(2) =~= v.skip(8));
        let count = spec_be_u16(v.skip(8));
        assert forall|x: Seq<u8>|
            #[trigger] constant_parser()(x) matches Ok((_c, r)) ==> is_rest_of(r, x) by {
            lemma_constant_rest(x);
        }
        lemma_repeat_rest(r4, spec_pool_entries(count), constant_parser());
        lemma_repeat_len(r4, spec_pool_entries(count), constant_parser());
        if let Ok((cp, r5)) = spec_repeat(r4, spec_pool_entries(count), constant_parser()) {
            let k = v.len() - r5.len();
            assert(r5 =~= v.skip(k));
        }
    }
}

/// Repeating a reader `n` times gives `n` items.
proof fn lemma_repeat_len<T>(s: Seq<u8>, n: nat, p: spec_fn(Seq<u8>) -> Result<(T, Seq<u8>), Stop>)
    ensures
        spec_repeat(s, n, p) matches Ok((vs, _r)) ==> vs.len() == n,
    decreases n,
{
    if n > 0 {
        if let Ok((_v, r1)) = p(s) {
            lemma_repeat_len(r1, (n - 1) as nat, p);
        }
    }
}

/// Law: a line-number row is read from four bytes: its start pc and then its
/// line number, each a big-endian `u16`; fewer bytes are refused.
pub proof fn law_line_number_entry_layout(s: Seq<u8>)
    ensures
        s.len() >= 4 ==> (line_number_entry_parser()(s) matches Ok((e, r)) && e.start_pc == be16_at(
            s,
            0,
        ) && e.line_number == be16_at(s, 2) && r == s.skip(4)),
        s.len() < 4 ==> line_number_entry_parser()(s) is Err,
{
    if s.len() >= 4 {
        lemma_be16_skip(s, 0);
        lemma_be16_skip(s, 2);
        assert(s.skip(0) =~= s);
        assert(s.skip(2).skip(2) =~= s.skip(4));
    }
}

/// Law: a local-variable row is read from ten bytes: start pc, length, name
/// index, descriptor index and slot index, each a big-endian `u16`, in that
/// order; fewer bytes are refused.
pub proof fn law_local_variable_entry_layout(s: Seq<u8>)
    ensures
        s.len() >= 10 ==> (local_variable_entry_parser()(s) matches Ok((e, r)) && e.start_pc
            == be16_at(s, 0) && e.length == be16_at(s, 2) && e.name_index == be16_at(s, 4)
            && e.descriptor_index == be16_at(s, 6) && e.index == be16_at(s, 8) && r == s.skip(10)),
        s.len() < 10 ==> local_variable_entry_parser()(s) is Err,
{
    if s.len() >= 10 {
        assert(s.skip(0) =~= s);
        assert(s.skip(2).skip(2) =~= s.skip(4));
        assert(s.skip(4).skip(2) =~= s.skip(6));
        assert(s.skip(6).skip(2) =~= s.skip(8));
        assert(s.skip(8).skip(2) =~= s.skip(10));
        lemma_be16_skip(s, 0);
        lemma_be16_skip(s, 2);
        lemma_be16_skip(s, 4);
        lemma_be16_skip(s, 6);
        lemma_be16_skip(s, 8);
    }
}

/// Law: a constant-pool entry opens with its tag byte; a `Class` (tag 7) or
/// `String` (tag 8) holds the index in the next two bytes; a `Fieldref` (9),
/// `Methodref` (10) or `InterfaceMethodref` (11) holds its class index and then
/// its name-and-type index; a `NameAndType` (12) its name index and then its
/// descriptor index; a `Utf8` (1) its length in two bytes and then that many
/// bytes (JVMS 4.4).
pub proof fn law_constant_layout(s: Seq<u8>)
    ensures
        spec_parse_constant(s) matches Ok((c, r)) ==> match c {
            SpecConstantInfo::Utf8(b) => s[0] == 1 && b.len() == be16_at(s, 1) && b == s.subrange(
                3,
                3 + b.len() as int,
            ) && r == s.skip(3 + b.len() as int),
            SpecConstantInfo::Class(i) => s[0] == 7 && i == be16_at(s, 1) && r == s.skip(3),
            SpecConstantInfo::String(i) => s[0] == 8 && i == be16_at(s, 1) && r == s.skip(3),
            SpecConstantInfo::FieldRef { class_index, name_and_type_index } => s[0] == 9
                && class_index == be16_at(s, 1) && name_and_type_index == be16_at(s, 3) && r
                == s.skip(5),
            SpecConstantInfo::MethodRef { class_index, name_and_type_index } => s[0] == 10
                && class_index == be16_at(s, 1) && name_and_type_index == be16_at(s, 3) && r
                == s.skip(5),
            SpecConstantInfo::InterfaceRef { class_index, name_and_type_index } => s[0] == 11
                && class_index == be16_at(s, 1) && name_and_type_index == be16_at(s, 3) && r
                == s.skip(5),
            SpecConstantInfo::NameAndType { name_index, descriptor_index } => s[0] == 12
                && name_index == be16_at(s, 1) && descriptor_index == be16_at(s, 3) && r == s.skip(5),
            _ => false,
        },
{
    if let Ok((c, r)) = spec_parse_constant(s) {
        if s.len() >= 3 {
            lemma_be16_skip(s, 1);
            assert(s.skip(1).skip(2) =~= s.skip(3));
        }
        if s.len() >= 5 {
            lemma_be16_skip(s, 3);
            assert(s.skip(1).skip(2) =~= s.skip(3));
            assert(s.skip(3).skip(2) =~= s.skip(5));
        }
        if let SpecConstantInfo::Utf8(b) = c {
            assert(b =~= s.subrange(3, 3 + b.len() as int));
            assert(r =~= s.skip(3 + b.len() as int));
        }
    }
}

/// Law: a field or method opens with its access flags, name index and
/// descriptor index, big-endian `u16`s at bytes 0, 2 and 4, and the number of
/// its attributes at byte 6, whose attributes follow (JVMS 4.5, 4.6).
pub proof fn law_member_layout(cp: Seq<SpecConstantInfo>, s: Seq<u8>)
    ensures
        spec_parse_member(cp, s) matches Ok((m, _r)) ==> {
            &&& m.access_flags == be16_at(s, 0)
            &&& m.name_index == be16_at(s, 2)
            &&& m.descriptor_index == be16_at(s, 4)
            &&& spec_parse_attributes(cp, s.skip(8), be16_at(s, 6) as nat) matches Ok((a, _r2))
            &&& a == m.attributes
        },
{
    if let Ok((m, _r)) = spec_parse_member(cp, s) {
        assert(s.skip(0) =~= s);
        lemma_be16_skip(s, 0);
        lemma_be16_skip(s, 2);
        lemma_be16_skip(s, 4);
        lemma_be16_skip(s, 6);
        assert(s.skip(2).skip(2) =~= s.skip(4));
        assert(s.skip(4).skip(2) =~= s.skip(6));
        assert(s.skip(6).skip(2) =~= s.skip(8));
    }
}

/// Law: an attribute opens with its name index (a big-endian `u16` at byte 0)
/// and its length (a `u32` at byte 2). A `SourceFile` holds its index at byte 6;
/// an attribute kept as bytes holds its name index and the `length` bytes from
/// byte 6 on; a `LineNumberTable` holds its row count at byte 6 and then its
/// rows, four bytes each; a `LocalVariableTable` its row count at byte 6 and
/// then its rows, ten bytes each; a `Code` attribute its body from byte 6 on.
pub proof fn law_attribute_layout(cp: Seq<SpecConstantInfo>, s: Seq<u8>)
    ensures
        spec_parse_attribute(cp, s) matches Ok((a, _r)) ==> match a {
            SpecAttributeInfo::SourceFile { sourcefile_index } => sourcefile_index == be16_at(s, 6),
            SpecAttributeInfo::Unsupported { name_index, data } => name_index == be16_at(s, 0)
                && data.len() == be32_at(s, 2) && data == s.subrange(6, 6 + data.len() as int),
            SpecAttributeInfo::LineNumberTable(t) => t.len() == be16_at(s, 6) && s.len() >= 8 + 4
                * t.len() && forall|i: int|
                0 <= i < t.len() ==> (#[trigger] t[i]).start_pc == be16_at(s, 8 + 4 * i)
                    && t[i].line_number == be16_at(s, 10 + 4 * i),
            SpecAttributeInfo::LocalVariableTable(t) => t.len() == be16_at(s, 6) && s.len() >= 8
                + 10 * t.len() && forall|i: int|
                0 <= i < t.len() ==> (#[trigger] t[i]).start_pc == be16_at(s, 8 + 10 * i)
                    && t[i].length == be16_at(s, 10 + 10 * i) && t[i].name_index == be16_at(
                    s,
                    12 + 10 * i,
                ) && t[i].descriptor_index == be16_at(s, 14 + 10 * i) && t[i].index == be16_at(
                    s,
                    16 + 10 * i,
                ),
            SpecAttributeInfo::Code { .. } => spec_parse_code(cp, s.skip(6)) matches Ok((c, _r2))
                && c == a,
        },
{
    if let Ok((a, _r)) = spec_parse_attribute(cp, s) {
        assert(s.skip(0) =~= s);
        lemma_be16_skip(s, 0);
        assert(s.skip(2)[0] == s[2] && s.skip(2)[1] == s[3] && s.skip(2)[2] == s[4] && s.skip(2)[3]
            == s[5]);
        assert(s.skip(2).skip(4) =~= s.skip(6));
        let r2 = s.skip(6);
        if s.len() >= 8 {
            lemma_be16_skip(s, 6);
            assert(r2.skip(2) =~= s.skip(8));
            let r3 = s.skip(8);
            lemma_line_rows(r3, spec_be_u16(r2) as nat);
            lemma_local_rows(r3, spec_be_u16(r2) as nat);
            assert forall|k: int| 0 <= k && k + 2 <= r3.len() implies #[trigger] be16_at(r3, k)
                == be16_at(s, 8 + k) by {}
        }
        if let SpecAttributeInfo::Unsupported { name_index, data } = a {
            assert(data =~= s.subrange(6, 6 + data.len() as int));
        }
    }
}

proof fn lemma_line_rows(r: Seq<u8>, n: nat)
    ensures
        spec_repeat(r, n, line_number_entry_parser()) matches Ok((t, _rest)) ==> {
            &&& t.len() == n
            &&& r.len() >= 4 * n
            &&& forall|i: int|
                0 <= i < n ==> (#[trigger] t[i]).start_pc == be16_at(r, 4 * i) && t[i].line_number
                    == be16_at(r, 4 * i + 2)
        },
{
    assert forall|x: Seq<u8>|
        #![trigger line_number_entry_parser()(x)]
        (x.len() >= 4 ==> line_number_entry_parser()(x) == Ok::<(LineNumberEntry, Seq<u8>), Stop>(
            (LineNumberEntry { start_pc: spec_be_u16(x), line_number: spec_be_u16(x.skip(2)) }, x.skip(4)),
        )) && (x.len() < 4 ==> line_number_entry_parser()(x) is Err) by {
        if x.len() >= 4 {
            assert(x.skip(2).skip(2) =~= x.skip(4));
        }
    }
    lemma_repeat_fixed(
        r,
        n,
        line_number_entry_parser(),
        4,
        |x: Seq<u8>| LineNumberEntry { start_pc: spec_be_u16(x), line_number: spec_be_u16(x.skip(2)) },
    );
    if let Ok((t, _rest)) = spec_repeat(r, n, line_number_entry_parser()) {
        assert forall|i: int| 0 <= i < n implies (#[trigger] t[i]).start_pc == be16_at(r, 4 * i)
            && t[i].line_number == be16_at(r, 4 * i + 2) by {
            assert(r.skip(4 * i).skip(2) =~= r.skip(4 * i + 2));
            lemma_be16_skip(r, 4 * i);
            lemma_be16_skip(r, 4 * i + 2);
        }
    }
}

pub open spec fn local_variable_entry_of(x: Seq<u8>) -> LocalVariableEntry {
    LocalVariableEntry {
        start_pc: spec_be_u16(x),
        length: spec_be_u16(x.skip(2)),
        name_index: spec_be_u16(x.skip(4)),
        descriptor_index: spec_be_u16(x.skip(6)),
        index: spec_be_u16(x.skip(8)),
    }
}

proof fn lemma_local_rows(r: Seq<u8>, n: nat)
    ensures
        spec_repeat(r, n, local_variable_entry_parser()) matches Ok((t, _rest)) ==> {
            &&& t.len() == n
            &&& r.len() >= 10 * n
            &&& forall|i: int|
                0 <= i < n ==> (#[trigger] t[i]).start_pc == be16_at(r, 10 * i) && t[i].length
                    == be16_at(r, 10 * i + 2) && t[i].name_index == be16_at(r, 10 * i + 4)
                    && t[i].descriptor_index == be16_at(r, 10 * i + 6) && t[i].index == be16_at(
                    r,
                    10 * i + 8,
                )
        },
{
    assert forall|x: Seq<u8>|
        #![trigger local_variable_entry_parser()(x)]
        (x.len() >= 10 ==> local_variable_entry_parser()(x) == Ok::<
            (LocalVariableEntry, Seq<u8>),
            Stop,
        >((local_variable_entry_of(x), x.skip(10)))) && (x.len() < 10
            ==> local_variable_entry_parser()(x) is Err) by {
        if x.len() >= 10 {
            assert(x.skip(2).skip(2) =~= x.skip(4));
            assert(x.skip(4).skip(2) =~= x.skip(6));
            assert(x.skip(6).skip(2) =~= x.skip(8));
            assert(x.skip(8).skip(2) =~= x.skip(10));
        }
    }
    lemma_repeat_fixed(r, n, local_variable_entry_parser(), 10, |x: Seq<u8>| local_variable_entry_of(x));
    if let Ok((t, _rest)) = spec_repeat(r, n, local_variable_entry_parser()) {
        assert forall|i: int| 0 <= i < n implies (#[trigger] t[i]).start_pc == be16_at(r, 10 * i)
            && t[i].length == be16_at(r, 10 * i + 2) && t[i].name_index == be16_at(r, 10 * i + 4)
            && t[i].descriptor_index == be16_at(r, 10 * i + 6) && t[i].index == be16_at(
            r,
            10 * i + 8,
        ) by {
            let k = 10 * i;
            assert(r.skip(k).skip(2) =~= r.skip(k + 2));
            assert(r.skip(k).skip(4) =~= r.skip(k + 4));
            assert(r.skip(k).skip(6) =~= r.skip(k + 6));
            assert(r.skip(k).skip(8) =~= r.skip(k + 8));
            lemma_be16_skip(r, k);
            lemma_be16_skip(r, k + 2);
            lemma_be16_skip(r, k + 4);
            lemma_be16_skip(r, k + 6);
            lemma_be16_skip(r, k + 8);
        }
    }
}

} // verus!
