use vstd::prelude::*;

use vstd::utf8::{decode_utf8, valid_utf8};

use crate::class_file::attribute::{
    AttributeInfo,
    ExceptionTableEntry,
    LineNumberEntry,
    LocalVariableEntry,
    SpecAttributeInfo,
    attributes_view,
    lemma_attributes_view,
};
use crate::class_file::constant_pool::{ConstantInfo, SpecConstantInfo};
use crate::text::{
    push_decimal,
    push_hex_byte,
    push_signed_decimal,
    push_str,
    spec_decimal,
    spec_hex_byte,
    spec_signed_decimal,
    str_from_utf8,
};

verus! {

// ---------------------------------------------------------------------------
// Lists as `{:?}` writes them
// ---------------------------------------------------------------------------
/// The numbers of `b` in decimal, separated by `, `.
pub open spec fn spec_join_decimals(b: Seq<u8>) -> Seq<char>
    decreases b.len(),
{
    if b.len() == 0 {
        Seq::<char>::empty()
    } else if b.len() == 1 {
        spec_decimal(b[0] as nat)
    } else {
        spec_join_decimals(b.drop_last()) + ", "@ + spec_decimal(b.last() as nat)
    }
}

/// A byte vector as `{:?}` writes it: `[1, 2, 3]`.
pub open spec fn spec_debug_bytes(b: Seq<u8>) -> Seq<char> {
    "["@ + spec_join_decimals(b) + "]"@
}

/// The bytes of `b` as two hexadecimal digits each, separated by spaces.
pub open spec fn spec_hex_bytes(b: Seq<u8>) -> Seq<char>
    decreases b.len(),
{
    if b.len() == 0 {
        Seq::<char>::empty()
    } else if b.len() == 1 {
        spec_hex_byte(b[0])
    } else {
        spec_hex_bytes(b.drop_last()) + " "@ + spec_hex_byte(b.last())
    }
}

pub open spec fn spec_debug_exception_entry(e: ExceptionTableEntry) -> Seq<char> {
    "ExceptionTableEntry { start_pc: "@ + spec_decimal(e.start_pc as nat) + ", end_pc: "@
        + spec_decimal(e.end_pc as nat) + ", handler_pc: "@ + spec_decimal(e.handler_pc as nat)
        + ", catch_type: "@ + spec_decimal(e.catch_type as nat) + " }"@
}

pub open spec fn spec_debug_line_number_entry(e: LineNumberEntry) -> Seq<char> {
    "LineNumberEntry { start_pc: "@ + spec_decimal(e.start_pc as nat) + ", line_number: "@
        + spec_decimal(e.line_number as nat) + " }"@
}

pub open spec fn spec_debug_local_variable_entry(e: LocalVariableEntry) -> Seq<char> {
    "LocalVariableEntry { start_pc: "@ + spec_decimal(e.start_pc as nat) + ", length: "@
        + spec_decimal(e.length as nat) + ", name_index: "@ + spec_decimal(e.name_index as nat)
        + ", descriptor_index: "@ + spec_decimal(e.descriptor_index as nat) + ", index: "@
        + spec_decimal(e.index as nat) + " }"@
}

/// The items of `s`, each written with `f`, separated by `, `.
pub open spec fn spec_join<T>(s: Seq<T>, f: spec_fn(T) -> Seq<char>) -> Seq<char>
    decreases s.len(),
{
    if s.len() == 0 {
        Seq::<char>::empty()
    } else if s.len() == 1 {
        f(s[0])
    } else {
        spec_join(s.drop_last(), f) + ", "@ + f(s.last())
    }
}

/// A list as `{:?}` writes it, each item written with `f`.
pub open spec fn spec_debug_list<T>(s: Seq<T>, f: spec_fn(T) -> Seq<char>) -> Seq<char> {
    "["@ + spec_join(s, f) + "]"@
}

// ---------------------------------------------------------------------------
// Constants
// ---------------------------------------------------------------------------
/// The text of a constant-pool entry.
pub open spec fn spec_constant_text(c: SpecConstantInfo) -> Seq<char> {
    match c {
        SpecConstantInfo::Utf8(b) => if valid_utf8(b) {
            "Utf8(\""@ + decode_utf8(b) + "\")"@
        } else {
            "Utf8(<invalid utf8: "@ + spec_debug_bytes(b) + ">)"@
        },
        SpecConstantInfo::Integer(i) => "Integer("@ + spec_signed_decimal(i as int) + ")"@,
        SpecConstantInfo::Long(l) => "Long("@ + spec_signed_decimal(l as int) + ")"@,
        SpecConstantInfo::Class(i) => "Class(index: "@ + spec_decimal(i as nat) + ")"@,
        SpecConstantInfo::String(i) => "String(index: "@ + spec_decimal(i as nat) + ")"@,
        SpecConstantInfo::MethodRef { class_index, name_and_type_index } => "MethodRef(class: "@
            + spec_decimal(class_index as nat) + ", name_and_type: "@ + spec_decimal(
            name_and_type_index as nat,
        ) + ")"@,
        SpecConstantInfo::FieldRef { class_index, name_and_type_index } => "FieldRef(class: "@
            + spec_decimal(class_index as nat) + ", name_and_type: "@ + spec_decimal(
            name_and_type_index as nat,
        ) + ")"@,
        SpecConstantInfo::InterfaceRef { class_index, name_and_type_index } =>
            "InterfaceRef(class: "@ + spec_decimal(class_index as nat) + ", name_and_type: "@
            + spec_decimal(name_and_type_index as nat) + ")"@,
        SpecConstantInfo::NameAndType { name_index, descriptor_index } => "NameAndType(name: "@
            + spec_decimal(name_index as nat) + ", descriptor: "@ + spec_decimal(
            descriptor_index as nat,
        ) + ")"@,
    }
}

/// Appends the numbers of `b` in decimal, separated by `, `.
pub(crate) fn push_join_decimals(s: &mut String, b: &[u8])
    ensures
        final(s)@ == old(s)@ + spec_join_decimals(b@),
{
    let mut i: usize = 0;
    while i < b.len()
        invariant
            i <= b@.len(),
            s@ == old(s)@ + spec_join_decimals(b@.take(i as int)),
        decreases b@.len() - i,
    {
        let ghost before = s@;
        if i > 0 {
            push_str(s, ", ");
        }
        push_decimal(s, b[i] as u64);
        proof {
            let t = b@.take(i + 1);
            assert(t.drop_last() == b@.take(i as int));
            assert(t.last() == b@[i as int]);
            if i == 0 {
                assert(b@.take(0) == Seq::<u8>::empty());
            }
        }
        i = i + 1;
    }
    assert(b@.take(b@.len() as int) == b@);
}

/// Appends the bytes of `b` as hexadecimal pairs separated by spaces.
fn push_hex_bytes(s: &mut String, b: &[u8])
    ensures
        final(s)@ == old(s)@ + spec_hex_bytes(b@),
{
    let mut i: usize = 0;
    while i < b.len()
        invariant
            i <= b@.len(),
            s@ == old(s)@ + spec_hex_bytes(b@.take(i as int)),
        decreases b@.len() - i,
    {
        if i > 0 {
            push_str(s, " ");
        }
        push_hex_byte(s, b[i]);
        proof {
            let t = b@.take(i + 1);
            assert(t.drop_last() == b@.take(i as int));
            assert(t.last() == b@[i as int]);
            if i == 0 {
                assert(b@.take(0) == Seq::<u8>::empty());
            }
        }
        i = i + 1;
    }
    assert(b@.take(b@.len() as int) == b@);
}

impl ConstantInfo {
    /// The entry as text, e.g. `MethodRef(class: 2, name_and_type: 3)`; a
    /// `Utf8` entry shows its text when the bytes are UTF-8, else its bytes.
    pub fn to_string(&self) -> (text: String)
        ensures
            text@ == spec_constant_text(self@),
    {
        let mut s = String::new();
        match self {
            ConstantInfo::Utf8(bytes) => match str_from_utf8(bytes.as_slice()) {
                Ok(text) => {
                    push_str(&mut s, "Utf8(\"");
                    push_str(&mut s, text);
                    push_str(&mut s, "\")");
                    assert(s@ =~= spec_constant_text(self@));
                },
                Err(_) => {
                    push_str(&mut s, "Utf8(<invalid utf8: ");
                    push_str(&mut s, "[");
                    push_join_decimals(&mut s, bytes.as_slice());
                    push_str(&mut s, "]");
                    push_str(&mut s, ">)");
                    assert(s@ =~= spec_constant_text(self@));
                },
            },
            ConstantInfo::Integer(i) => {
                push_str(&mut s, "Integer(");
                push_signed_decimal(&mut s, *i as i64);
                push_str(&mut s, ")");
                assert(s@ =~= spec_constant_text(self@));
            },
            ConstantInfo::Long(l) => {
                push_str(&mut s, "Long(");
                push_signed_decimal(&mut s, *l);
                push_str(&mut s, ")");
                assert(s@ =~= spec_constant_text(self@));
            },
            ConstantInfo::Class(index) => {
                push_str(&mut s, "Class(index: ");
                push_decimal(&mut s, *index as u64);
                push_str(&mut s, ")");
                assert(s@ =~= spec_constant_text(self@));
            },
            ConstantInfo::String(index) => {
                push_str(&mut s, "String(index: ");
                push_decimal(&mut s, *index as u64);
                push_str(&mut s, ")");
                assert(s@ =~= spec_constant_text(self@));
            },
            ConstantInfo::MethodRef { class_index, name_and_type_index } => {
                push_str(&mut s, "MethodRef(class: ");
                push_decimal(&mut s, *class_index as u64);
                push_str(&mut s, ", name_and_type: ");
                push_decimal(&mut s, *name_and_type_index as u64);
                push_str(&mut s, ")");
                assert(s@ =~= spec_constant_text(self@));
            },
            ConstantInfo::FieldRef { class_index, name_and_type_index } => {
                push_str(&mut s, "FieldRef(class: ");
                push_decimal(&mut s, *class_index as u64);
                push_str(&mut s, ", name_and_type: ");
                push_decimal(&mut s, *name_and_type_index as u64);
                push_str(&mut s, ")");
                assert(s@ =~= spec_constant_text(self@));
            },
            ConstantInfo::InterfaceRef { class_index, name_and_type_index } => {
                push_str(&mut s, "InterfaceRef(class: ");
                push_decimal(&mut s, *class_index as u64);
                push_str(&mut s, ", name_and_type: ");
                push_decimal(&mut s, *name_and_type_index as u64);
                push_str(&mut s, ")");
                assert(s@ =~= spec_constant_text(self@));
            },
            ConstantInfo::NameAndType { name_index, descriptor_index } => {
                push_str(&mut s, "NameAndType(name: ");
                push_decimal(&mut s, *name_index as u64);
                push_str(&mut s, ", descriptor: ");
                push_decimal(&mut s, *descriptor_index as u64);
                push_str(&mut s, ")");
                assert(s@ =~= spec_constant_text(self@));
            },
        }
        s
    }
}

// ---------------------------------------------------------------------------
// Attributes
// ---------------------------------------------------------------------------
pub open spec fn exception_entry_text() -> spec_fn(ExceptionTableEntry) -> Seq<char> {
    |e: ExceptionTableEntry| spec_debug_exception_entry(e)
}

pub open spec fn line_number_entry_text() -> spec_fn(LineNumberEntry) -> Seq<char> {
    |e: LineNumberEntry| spec_debug_line_number_entry(e)
}

pub open spec fn local_variable_entry_text() -> spec_fn(LocalVariableEntry) -> Seq<char> {
    |e: LocalVariableEntry| spec_debug_local_variable_entry(e)
}

/// The text of a `Code` attribute up to its nested attributes.
pub open spec fn spec_code_head(
    max_stack: u16,
    max_locals: u16,
    code: Seq<u8>,
    exception_table: Seq<ExceptionTableEntry>,
) -> Seq<char> {
    "Code(max_stack: "@ + spec_decimal(max_stack as nat) + ", max_locals: "@ + spec_decimal(
        max_locals as nat,
    ) + ", code: \""@ + spec_hex_bytes(code) + "\""@ + (if exception_table.len() > 0 {
        ", exception_table: "@ + spec_debug_list(exception_table, exception_entry_text()) + " "@
    } else {
        Seq::<char>::empty()
    })
}

/// The text of an attribute, e.g. `SourceFile(sourcefile_index: 11)`.
pub open spec fn spec_attribute_text(a: SpecAttributeInfo) -> Seq<char>
    decreases a,
{
    match a {
        SpecAttributeInfo::Code { max_stack, max_locals, code, exception_table, attributes } =>
            spec_code_head(max_stack, max_locals, code, exception_table) + (if attributes.len() > 0 {
            ", attributes: ["@ + spec_attributes_text(attributes) + "]"@
        } else {
            Seq::<char>::empty()
        }) + ")"@,
        SpecAttributeInfo::LineNumberTable(t) => "LineNumberTable"@ + spec_debug_list(
            t,
            line_number_entry_text(),
        ),
        SpecAttributeInfo::LocalVariableTable(t) => "LocalVariableTable"@ + spec_debug_list(
            t,
            local_variable_entry_text(),
        ),
        SpecAttributeInfo::Unsupported { name_index, data } => "Unsupported(name_index: "@
            + spec_decimal(name_index as nat) + ", data: "@ + spec_decimal(data.len()) + " bytes)"@,
        SpecAttributeInfo::SourceFile { sourcefile_index } => "SourceFile(sourcefile_index: "@
            + spec_decimal(sourcefile_index as nat) + ")"@,
    }
}

/// The texts of attributes, separated by `, `.
pub open spec fn spec_attributes_text(s: Seq<SpecAttributeInfo>) -> Seq<char>
    decreases s,
{
    if s.len() == 0 {
        Seq::<char>::empty()
    } else if s.len() == 1 {
        spec_attribute_text(s[0])
    } else {
        spec_attributes_text(s.drop_last()) + ", "@ + spec_attribute_text(s.last())
    }
}

pub proof fn lemma_join_step<T>(s: Seq<T>, i: int, f: spec_fn(T) -> Seq<char>)
    requires
        0 <= i < s.len(),
    ensures
        spec_join(s.take(i + 1), f) == (if i == 0 {
            f(s[0])
        } else {
            spec_join(s.take(i), f) + ", "@ + f(s[i])
        }),
{
    let t = s.take(i + 1);
    assert(t.drop_last() == s.take(i));
    assert(t.last() == s[i]);
}

fn push_debug_exception_entry(s: &mut String, e: ExceptionTableEntry)
    ensures
        final(s)@ == old(s)@ + spec_debug_exception_entry(e),
{
    push_str(s, "ExceptionTableEntry { start_pc: ");
    push_decimal(s, e.start_pc as u64);
    push_str(s, ", end_pc: ");
    push_decimal(s, e.end_pc as u64);
    push_str(s, ", handler_pc: ");
    push_decimal(s, e.handler_pc as u64);
    push_str(s, ", catch_type: ");
    push_decimal(s, e.catch_type as u64);
    push_str(s, " }");
    assert(s@ =~= old(s)@ + spec_debug_exception_entry(e));
}

fn push_debug_line_number_entry(s: &mut String, e: LineNumberEntry)
    ensures
        final(s)@ == old(s)@ + spec_debug_line_number_entry(e),
{
    push_str(s, "LineNumberEntry { start_pc: ");
    push_decimal(s, e.start_pc as u64);
    push_str(s, ", line_number: ");
    push_decimal(s, e.line_number as u64);
    push_str(s, " }");
    assert(s@ =~= old(s)@ + spec_debug_line_number_entry(e));
}

fn push_debug_local_variable_entry(s: &mut String, e: LocalVariableEntry)
    ensures
        final(s)@ == old(s)@ + spec_debug_local_variable_entry(e),
{
    push_str(s, "LocalVariableEntry { start_pc: ");
    push_decimal(s, e.start_pc as u64);
    push_str(s, ", length: ");
    push_decimal(s, e.length as u64);
    push_str(s, ", name_index: ");
    push_decimal(s, e.name_index as u64);
    push_str(s, ", descriptor_index: ");
    push_decimal(s, e.descriptor_index as u64);
    push_str(s, ", index: ");
    push_decimal(s, e.index as u64);
    push_str(s, " }");
    assert(s@ =~= old(s)@ + spec_debug_local_variable_entry(e));
}

/// Appends `{:?}` of an exception table.
pub fn push_debug_exception_table(s: &mut String, t: &[ExceptionTableEntry])
    ensures
        final(s)@ == old(s)@ + spec_debug_list(t@, exception_entry_text()),
{
    push_str(s, "[");
    let ghost start = s@;
    let mut i: usize = 0;
    while i < t.len()
        invariant
            i <= t@.len(),
            s@ == start + spec_join(t@.take(i as int), exception_entry_text()),
        decreases t@.len() - i,
    {
        proof {
            lemma_join_step(t@, i as int, exception_entry_text());
        }
        if i > 0 {
            push_str(s, ", ");
        }
        push_debug_exception_entry(s, t[i]);
        i = i + 1;
        assert(s@ =~= start + spec_join(t@.take(i as int), exception_entry_text()));
    }
    assert(t@.take(t@.len() as int) == t@);
    push_str(s, "]");
    assert(s@ =~= old(s)@ + spec_debug_list(t@, exception_entry_text()));
}

/// Appends `{:?}` of a line-number table.
pub fn push_debug_line_numbers(s: &mut String, t: &[LineNumberEntry])
    ensures
        final(s)@ == old(s)@ + spec_debug_list(t@, line_number_entry_text()),
{
    push_str(s, "[");
    let ghost start = s@;
    let mut i: usize = 0;
    while i < t.len()
        invariant
            i <= t@.len(),
            s@ == start + spec_join(t@.take(i as int), line_number_entry_text()),
        decreases t@.len() - i,
    {
        proof {
            lemma_join_step(t@, i as int, line_number_entry_text());
        }
        if i > 0 {
            push_str(s, ", ");
        }
        push_debug_line_number_entry(s, t[i]);
        i = i + 1;
        assert(s@ =~= start + spec_join(t@.take(i as int), line_number_entry_text()));
    }
    assert(t@.take(t@.len() as int) == t@);
    push_str(s, "]");
    assert(s@ =~= old(s)@ + spec_debug_list(t@, line_number_entry_text()));
}

/// Appends `{:?}` of a local-variable table.
pub fn push_debug_local_variables(s: &mut String, t: &[LocalVariableEntry])
    ensures
        final(s)@ == old(s)@ + spec_debug_list(t@, local_variable_entry_text()),
{
    push_str(s, "[");
    let ghost start = s@;
    let mut i: usize = 0;
    while i < t.len()
        invariant
            i <= t@.len(),
            s@ == start + spec_join(t@.take(i as int), local_variable_entry_text()),
        decreases t@.len() - i,
    {
        proof {
            lemma_join_step(t@, i as int, local_variable_entry_text());
        }
        if i > 0 {
            push_str(s, ", ");
        }
        push_debug_local_variable_entry(s, t[i]);
        i = i + 1;
        assert(s@ =~= start + spec_join(t@.take(i as int), local_variable_entry_text()));
    }
    assert(t@.take(t@.len() as int) == t@);
    push_str(s, "]");
    assert(s@ =~= old(s)@ + spec_debug_list(t@, local_variable_entry_text()));
}

proof fn lemma_attributes_text_step(s: Seq<SpecAttributeInfo>, i: int)
    requires
        0 <= i < s.len(),
    ensures
        spec_attributes_text(s.take(i + 1)) == (if i == 0 {
            spec_attribute_text(s[0])
        } else {
            spec_attributes_text(s.take(i)) + ", "@ + spec_attribute_text(s[i])
        }),
{
    let t = s.take(i + 1);
    assert(t.drop_last() == s.take(i));
    assert(t.last() == s[i]);
}

pub fn push_code_head(
    s: &mut String,
    max_stack: u16,
    max_locals: u16,
    code: &[u8],
    exception_table: &[ExceptionTableEntry],
)
    ensures
        final(s)@ == old(s)@ + spec_code_head(max_stack, max_locals, code@, exception_table@),
{
    push_str(s, "Code(max_stack: ");
    push_decimal(s, max_stack as u64);
    push_str(s, ", max_locals: ");
    push_decimal(s, max_locals as u64);
    push_str(s, ", code: \"");
    push_hex_bytes(s, code);
    push_str(s, "\"");
    let ghost head = s@;
    if exception_table.len() > 0 {
        push_str(s, ", exception_table: ");
        push_debug_exception_table(s, exception_table);
        push_str(s, " ");
        assert(s@ =~= head + (", exception_table: "@ + spec_debug_list(exception_table@, exception_entry_text()) + " "@));
    } else {
        assert(s@ =~= head + Seq::<char>::empty());
    }
    assert(s@ =~= old(s)@ + spec_code_head(max_stack, max_locals, code@, exception_table@));
}

/// Appends the text of `a`.
fn push_attribute_text(s: &mut String, a: &AttributeInfo)
    ensures
        final(s)@ == old(s)@ + spec_attribute_text(a@),
    decreases a,
{
    match a {
        AttributeInfo::Code { max_stack, max_locals, code, exception_table, attributes } => {
            push_code_head(s, *max_stack, *max_locals, code.as_slice(), exception_table.as_slice());
            let ghost views = attributes_view(attributes@);
            proof {
                lemma_attributes_view(attributes@);
            }
            if attributes.len() > 0 {
                push_str(s, ", attributes: [");
                let ghost start = s@;
                let mut i: usize = 0;
                while i < attributes.len()
                    invariant
                        i <= attributes@.len(),
                        *a is Code,
                        (*a)->attributes == *attributes,
                        views == attributes_view(attributes@),
                        views.len() == attributes@.len(),
                        forall|j: int| 0 <= j < attributes@.len() ==> #[trigger] views[j] == attributes@[j].spec_view(),
                        s@ == start + spec_attributes_text(views.take(i as int)),
                    decreases attributes@.len() - i,
                {
                    proof {
                        lemma_attributes_text_step(views, i as int);
                    }
                    if i > 0 {
                        push_str(s, ", ");
                    }
                    proof {
                        assert(decreases_to!(*a => (*a)->attributes));
                        assert(decreases_to!((*a)->attributes => (*a)->attributes@));
                        assert(decreases_to!(attributes@ => attributes@[i as int]));
                        assert(decreases_to!(*a => attributes@[i as int]));
                    }
                    push_attribute_text(s, &attributes[i]);
                    i = i + 1;
                    assert(s@ =~= start + spec_attributes_text(views.take(i as int)));
                }
                assert(views.take(views.len() as int) == views);
                push_str(s, "]");
            }
            push_str(s, ")");
            assert(s@ =~= old(s)@ + spec_attribute_text(a@));
        },
        AttributeInfo::LineNumberTable(t) => {
            push_str(s, "LineNumberTable");
            push_debug_line_numbers(s, t.as_slice());
            assert(s@ =~= old(s)@ + spec_attribute_text(a@));
        },
        AttributeInfo::LocalVariableTable(t) => {
            push_str(s, "LocalVariableTable");
            push_debug_local_variables(s, t.as_slice());
            assert(s@ =~= old(s)@ + spec_attribute_text(a@));
        },
        AttributeInfo::Unsupported { name_index, data } => {
            push_str(s, "Unsupported(name_index: ");
            push_decimal(s, *name_index as u64);
            push_str(s, ", data: ");
            push_decimal(s, data.len() as u64);
            push_str(s, " bytes)");
            assert(s@ =~= old(s)@ + spec_attribute_text(a@));
        },
        AttributeInfo::SourceFile { sourcefile_index } => {
            push_str(s, "SourceFile(sourcefile_index: ");
            push_decimal(s, *sourcefile_index as u64);
            push_str(s, ")");
            assert(s@ =~= old(s)@ + spec_attribute_text(a@));
        },
    }
}

impl AttributeInfo {
    /// The attribute as text, e.g. `SourceFile(sourcefile_index: 11)`; code
    /// is written as hexadecimal bytes and nested attributes in brackets.
    pub fn to_string(&self) -> (text: String)
        ensures
            text@ == spec_attribute_text(self@),
    {
        let mut s = String::new();
        push_attribute_text(&mut s, self);
        assert(s@ =~= spec_attribute_text(self@));
        s
    }
}

/// Law: the text of a `Code` attribute opens with `Code(max_stack: ` and the
/// attribute's own max_stack in decimal, then `, max_locals: ` and its own
/// max_locals in decimal.
pub proof fn law_code_text_heading(a: SpecAttributeInfo)
    ensures
        a matches SpecAttributeInfo::Code { max_stack, max_locals, .. } ==> ("Code(max_stack: "@
            + spec_decimal(max_stack as nat) + ", max_locals: "@ + spec_decimal(
            max_locals as nat,
        )).is_prefix_of(spec_attribute_text(a)),
{
    if let SpecAttributeInfo::Code { max_stack, max_locals, code, exception_table, attributes } = a {
        let h = "Code(max_stack: "@ + spec_decimal(max_stack as nat) + ", max_locals: "@
            + spec_decimal(max_locals as nat);
        let t = spec_attribute_text(a);
        let rest = ", code: \""@ + spec_hex_bytes(code) + "\""@ + (if exception_table.len() > 0 {
            ", exception_table: "@ + spec_debug_list(exception_table, exception_entry_text()) + " "@
        } else {
            Seq::<char>::empty()
        }) + (if attributes.len() > 0 {
            ", attributes: ["@ + spec_attributes_text(attributes) + "]"@
        } else {
            Seq::<char>::empty()
        }) + ")"@;
        assert(t =~= h + rest);
        assert(t.subrange(0, h.len() as int) =~= h);
    }
}

} // verus!
