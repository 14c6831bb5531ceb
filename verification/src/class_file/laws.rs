use vstd::prelude::*;

use crate::class_file::attribute::{
    SpecAttributeInfo,
    exception_entry_parser,
    line_number_entry_parser,
    local_variable_entry_parser,
    spec_parse_attribute,
    spec_parse_attributes,
    spec_parse_code,
};
use crate::class_file::bytes::{
    spec_be_u16,
    spec_be_u32,
    spec_repeat,
    spec_take_bytes,
    spec_take_u16,
    spec_take_u32,
    spec_take_u8,
};
use crate::class_file::constant_pool::{SpecConstantInfo, spec_parse_constant, spec_u16_pair};
use crate::class_file::member::{member_parser, spec_parse_member};
use crate::class_file::{
    ParseError,
    Stop,
    SpecClassFile,
    constant_parser,
    spec_parse_class_body,
    spec_parse_class_file,
    spec_pool_entries,
    u16_parser,
};

verus! {

/// A reader keeps its result when more bytes follow its input: what it read is
/// the same, and the extra bytes are left over after it.
pub open spec fn spec_keeps_on_extension<T>(
    p: spec_fn(Seq<u8>) -> Result<(T, Seq<u8>), Stop>,
    s: Seq<u8>,
    t: Seq<u8>,
) -> bool {
    p(s) matches Ok((v, r)) ==> p(s + t) == Ok::<(T, Seq<u8>), Stop>((v, r + t))
}

proof fn lemma_take_u8_extends(s: Seq<u8>, t: Seq<u8>)
    ensures
        spec_take_u8(s) matches Some((v, r)) ==> spec_take_u8(s + t) == Some((v, r + t)),
{
    if s.len() >= 1 {
        assert((s + t).skip(1) == s.skip(1) + t);
    }
}

proof fn lemma_take_u16_extends(s: Seq<u8>, t: Seq<u8>)
    ensures
        spec_take_u16(s) matches Some((v, r)) ==> spec_take_u16(s + t) == Some((v, r + t)),
{
    if s.len() >= 2 {
        assert((s + t).skip(2) == s.skip(2) + t);
        assert(spec_be_u16(s + t) == spec_be_u16(s));
    }
}

proof fn lemma_take_u32_extends(s: Seq<u8>, t: Seq<u8>)
    ensures
        spec_take_u32(s) matches Some((v, r)) ==> spec_take_u32(s + t) == Some((v, r + t)),
{
    if s.len() >= 4 {
        assert((s + t).skip(4) == s.skip(4) + t);
        assert(spec_be_u32(s + t) == spec_be_u32(s));
    }
}

proof fn lemma_take_bytes_extends(s: Seq<u8>, n: nat, t: Seq<u8>)
    ensures
        spec_take_bytes(s, n) matches Some((v, r)) ==> spec_take_bytes(s + t, n) == Some(
            (v, r + t),
        ),
{
    if s.len() >= n {
        assert((s + t).skip(n as int) == s.skip(n as int) + t);
        assert((s + t).take(n as int) == s.take(n as int));
    }
}

/// A repetition of a reader that keeps its result on longer input keeps its result too.
proof fn lemma_repeat_extends<T>(
    s: Seq<u8>,
    n: nat,
    p: spec_fn(Seq<u8>) -> Result<(T, Seq<u8>), Stop>,
    t: Seq<u8>,
)
    requires
        forall|x: Seq<u8>| #[trigger] spec_keeps_on_extension(p, x, t),
    ensures
        spec_repeat(s, n, p) matches Ok((vs, r)) ==> spec_repeat(s + t, n, p) == Ok::<
            (Seq<T>, Seq<u8>),
            Stop,
        >((vs, r + t)),
    decreases n,
{
    if n > 0 {
        assert(spec_keeps_on_extension(p, s, t));
        if let Ok((v, r)) = p(s) {
            lemma_repeat_extends(r, (n - 1) as nat, p, t);
        }
    }
}

proof fn lemma_u16_parsers_extend(t: Seq<u8>)
    ensures
        forall|x: Seq<u8>| #[trigger] spec_keeps_on_extension(u16_parser(), x, t),
        forall|x: Seq<u8>| #[trigger] spec_keeps_on_extension(line_number_entry_parser(), x, t),
        forall|x: Seq<u8>| #[trigger] spec_keeps_on_extension(local_variable_entry_parser(), x, t),
        forall|x: Seq<u8>| #[trigger] spec_keeps_on_extension(exception_entry_parser(), x, t),
        forall|x: Seq<u8>| #[trigger] spec_keeps_on_extension(constant_parser(), x, t),
{
    assert forall|x: Seq<u8>| #[trigger] spec_keeps_on_extension(u16_parser(), x, t) by {
        lemma_take_u16_extends(x, t);
    }
    assert forall|x: Seq<u8>| #[trigger] spec_keeps_on_extension(line_number_entry_parser(), x, t) by {
        lemma_take_u16_extends(x, t);
        if let Some((a, r1)) = spec_take_u16(x) {
            lemma_take_u16_extends(r1, t);
        }
    }
    assert forall|x: Seq<u8>| #[trigger] spec_keeps_on_extension(local_variable_entry_parser(), x, t) by {
        lemma_take_u16_extends(x, t);
        if let Some((_, r1)) = spec_take_u16(x) {
            lemma_take_u16_extends(r1, t);
            if let Some((_, r2)) = spec_take_u16(r1) {
                lemma_take_u16_extends(r2, t);
                if let Some((_, r3)) = spec_take_u16(r2) {
                    lemma_take_u16_extends(r3, t);
                    if let Some((_, r4)) = spec_take_u16(r3) {
                        lemma_take_u16_extends(r4, t);
                    }
                }
            }
        }
    }
    assert forall|x: Seq<u8>| #[trigger] spec_keeps_on_extension(exception_entry_parser(), x, t) by {
        lemma_take_u16_extends(x, t);
        if let Some((_, r1)) = spec_take_u16(x) {
            lemma_take_u16_extends(r1, t);
            if let Some((_, r2)) = spec_take_u16(r1) {
                lemma_take_u16_extends(r2, t);
                if let Some((_, r3)) = spec_take_u16(r2) {
                    lemma_take_u16_extends(r3, t);
                }
            }
        }
    }
    assert forall|x: Seq<u8>| #[trigger] spec_keeps_on_extension(constant_parser(), x, t) by {
        lemma_constant_extends(x, t);
    }
}

proof fn lemma_constant_extends(s: Seq<u8>, t: Seq<u8>)
    ensures
        spec_keeps_on_extension(constant_parser(), s, t),
{
    lemma_take_u8_extends(s, t);
    if let Some((_, r)) = spec_take_u8(s) {
        lemma_take_u16_extends(r, t);
        if let Some((len, r2)) = spec_take_u16(r) {
            lemma_take_bytes_extends(r2, len as nat, t);
            lemma_take_u16_extends(r2, t);
        }
    }
}

proof fn lemma_attribute_extends(cp: Seq<SpecConstantInfo>, s: Seq<u8>, t: Seq<u8>)
    ensures
        spec_parse_attribute(cp, s) matches Ok((v, r)) ==> spec_parse_attribute(cp, s + t)
            == Ok::<(SpecAttributeInfo, Seq<u8>), Stop>((v, r + t)),
    decreases s.len(), 0nat,
{
    lemma_u16_parsers_extend(t);
    lemma_take_u16_extends(s, t);
    if let Some((name_index, r1)) = spec_take_u16(s) {
        lemma_take_u32_extends(r1, t);
        if let Some((length, r2)) = spec_take_u32(r1) {
            lemma_take_u16_extends(r2, t);
            lemma_take_bytes_extends(r2, length as nat, t);
            if let Some((n, r3)) = spec_take_u16(r2) {
                lemma_repeat_extends(r3, n as nat, line_number_entry_parser(), t);
                lemma_repeat_extends(r3, n as nat, local_variable_entry_parser(), t);
            }
            if r2.len() < s.len() {
                lemma_code_extends(cp, r2, t);
            }
        }
    }
}

proof fn lemma_code_extends(cp: Seq<SpecConstantInfo>, s: Seq<u8>, t: Seq<u8>)
    ensures
        spec_parse_code(cp, s) matches Ok((v, r)) ==> spec_parse_code(cp, s + t) == Ok::<
            (SpecAttributeInfo, Seq<u8>),
            Stop,
        >((v, r + t)),
    decreases s.len(), 0nat,
{
    lemma_u16_parsers_extend(t);
    lemma_take_u16_extends(s, t);
    if let Some((_, r1)) = spec_take_u16(s) {
        lemma_take_u16_extends(r1, t);
        if let Some((_, r2)) = spec_take_u16(r1) {
            lemma_take_u32_extends(r2, t);
            if let Some((code_length, r3)) = spec_take_u32(r2) {
                lemma_take_bytes_extends(r3, code_length as nat, t);
                if let Some((_, r4)) = spec_take_bytes(r3, code_length as nat) {
                    lemma_take_u16_extends(r4, t);
                    if let Some((etl, r5)) = spec_take_u16(r4) {
                        lemma_repeat_extends(r5, etl as nat, exception_entry_parser(), t);
                        if let Ok((_, r6)) = spec_repeat(r5, etl as nat, exception_entry_parser()) {
                            lemma_take_u16_extends(r6, t);
                            if let Some((count, r7)) = spec_take_u16(r6) {
                                if r7.len() < s.len() {
                                    lemma_attributes_extends(cp, r7, count as nat, t);
                                }
                            }
                        }
                    }
                }
            }
        }
    }
}

proof fn lemma_attributes_extends(cp: Seq<SpecConstantInfo>, s: Seq<u8>, n: nat, t: Seq<u8>)
    ensures
        spec_parse_attributes(cp, s, n) matches Ok((v, r)) ==> spec_parse_attributes(cp, s + t, n)
            == Ok::<(Seq<SpecAttributeInfo>, Seq<u8>), Stop>((v, r + t)),
    decreases s.len(), n + 1,
{
    if n > 0 {
        lemma_attribute_extends(cp, s, t);
        if let Ok((a, r)) = spec_parse_attribute(cp, s) {
            if r.len() <= s.len() {
                lemma_attributes_extends(cp, r, (n - 1) as nat, t);
            }
        }
    }
}

proof fn lemma_members_extend(cp: Seq<SpecConstantInfo>, t: Seq<u8>)
    ensures
        forall|x: Seq<u8>| #[trigger] spec_keeps_on_extension(member_parser(cp), x, t),
{
    assert forall|x: Seq<u8>| #[trigger] spec_keeps_on_extension(member_parser(cp), x, t) by {
        lemma_take_u16_extends(x, t);
        if let Some((_, r1)) = spec_take_u16(x) {
            lemma_take_u16_extends(r1, t);
            if let Some((_, r2)) = spec_take_u16(r1) {
                lemma_take_u16_extends(r2, t);
                if let Some((_, r3)) = spec_take_u16(r2) {
                    lemma_take_u16_extends(r3, t);
                    if let Some((count, r4)) = spec_take_u16(r3) {
                        lemma_attributes_extends(cp, r4, count as nat, t);
                    }
                }
            }
        }
    }
}

proof fn lemma_class_body_trailing(cp: Seq<SpecConstantInfo>, s: Seq<u8>, t: Seq<u8>)
    requires
        spec_parse_class_body(cp, s) is Ok,
        t.len() > 0,
    ensures
        spec_parse_class_body(cp, s + t) is Err && spec_parse_class_body(cp, s + t)->Err_0
            == Stop::Error(ParseError::TrailingBytes),
{
    lemma_u16_parsers_extend(t);
    lemma_members_extend(cp, t);
    lemma_take_u16_extends(s, t);
    let (_, b1) = spec_take_u16(s)->0;
    lemma_take_u16_extends(b1, t);
    let (_, b2) = spec_take_u16(b1)->0;
    lemma_take_u16_extends(b2, t);
    let (_, b3) = spec_take_u16(b2)->0;
    lemma_take_u16_extends(b3, t);
    let (ic, b4) = spec_take_u16(b3)->0;
    lemma_repeat_extends(b4, ic as nat, u16_parser(), t);
    let (_, b5) = spec_repeat(b4, ic as nat, u16_parser())->Ok_0;
    lemma_take_u16_extends(b5, t);
    let (fc, b6) = spec_take_u16(b5)->0;
    lemma_repeat_extends(b6, fc as nat, member_parser(cp), t);
    let (_, b7) = spec_repeat(b6, fc as nat, member_parser(cp))->Ok_0;
    lemma_take_u16_extends(b7, t);
    let (mc, b8) = spec_take_u16(b7)->0;
    lemma_repeat_extends(b8, mc as nat, member_parser(cp), t);
    let (_, b9) = spec_repeat(b8, mc as nat, member_parser(cp))->Ok_0;
    lemma_take_u16_extends(b9, t);
    let (ac, b10) = spec_take_u16(b9)->0;
    lemma_attributes_extends(cp, b10, ac as nat, t);
    let (_, b11) = spec_parse_attributes(cp, b10, ac as nat)->Ok_0;
    assert(b11.len() == 0);
    assert(b11 + t == t);
}

/// Law: a class file ends where its last attribute ends. Whatever follows a
/// class file that is accepted makes the whole refused, with `TrailingBytes`.
pub proof fn law_trailing_bytes_refused(s: Seq<u8>, t: Seq<u8>)
    requires
        spec_parse_class_file(s) is Ok,
        t.len() > 0,
    ensures
        spec_parse_class_file(s + t) == Err::<SpecClassFile, Stop>(
            Stop::Error(ParseError::TrailingBytes),
        ),
{
    lemma_u16_parsers_extend(t);
    lemma_take_u32_extends(s, t);
    let (_, r1) = spec_take_u32(s)->0;
    lemma_take_u16_extends(r1, t);
    let (_, r2) = spec_take_u16(r1)->0;
    lemma_take_u16_extends(r2, t);
    let (_, r3) = spec_take_u16(r2)->0;
    lemma_take_u16_extends(r3, t);
    let (count, r4) = spec_take_u16(r3)->0;
    lemma_repeat_extends(r4, spec_pool_entries(count), constant_parser(), t);
    let (cp, r5) = spec_repeat(r4, spec_pool_entries(count), constant_parser())->Ok_0;
    lemma_class_body_trailing(cp, r5, t);
}

} // verus!
