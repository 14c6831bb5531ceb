use vstd::prelude::*;

use crate::class_file::display::{
    lemma_join_step,
    line_number_entry_text,
    local_variable_entry_text,
    push_code_head,
    push_debug_line_numbers,
    push_debug_local_variables,
    spec_code_head,
    spec_debug_list,
    spec_join,
};
use crate::text::{push_decimal, push_str, spec_decimal};
use crate::vm::attribute::{
    ClassAttribute,
    CodeAttribute,
    MethodAttribute,
    SpecClassAttribute,
    SpecCodeAttribute,
    SpecMethodAttribute,
    code_attributes_view,
};

verus! {

/// The text of an attribute kept as raw bytes.
pub open spec fn spec_unsupported_text(name_index: u16, len: nat) -> Seq<char> {
    "Unsupported(name_index: "@ + spec_decimal(name_index as nat) + ", data: "@ + spec_decimal(len)
        + " bytes)"@
}

/// The text of a class attribute.
pub open spec fn spec_class_attribute_text(a: SpecClassAttribute) -> Seq<char> {
    match a {
        SpecClassAttribute::SourceFile { sourcefile_index } => "SourceFile(sourcefile_index: "@
            + spec_decimal(sourcefile_index as nat) + ")"@,
        SpecClassAttribute::Unknown { name_index, info } => spec_unsupported_text(
            name_index,
            info.len(),
        ),
    }
}

/// The text of an attribute of a `Code` attribute.
pub open spec fn spec_code_attribute_text(a: SpecCodeAttribute) -> Seq<char> {
    match a {
        SpecCodeAttribute::LineNumberTable(t) => "LineNumberTable"@ + spec_debug_list(
            t,
            line_number_entry_text(),
        ),
        SpecCodeAttribute::LocalVariableTable(t) => "LocalVariableTable"@ + spec_debug_list(
            t,
            local_variable_entry_text(),
        ),
        SpecCodeAttribute::Unknown { name_index, info } => spec_unsupported_text(
            name_index,
            info.len(),
        ),
    }
}

pub open spec fn code_attribute_text() -> spec_fn(SpecCodeAttribute) -> Seq<char> {
    |a: SpecCodeAttribute| spec_code_attribute_text(a)
}

/// The text of a method attribute.
pub open spec fn spec_method_attribute_text(a: SpecMethodAttribute) -> Seq<char> {
    match a {
        SpecMethodAttribute::Code { max_stack, max_locals, code, exception_table, attributes } =>
            spec_code_head(max_stack, max_locals, code, exception_table) + (if attributes.len()
            > 0 {
            ", attributes: ["@ + spec_join(attributes, code_attribute_text()) + "]"@
        } else {
            Seq::<char>::empty()
        }) + ")"@,
        SpecMethodAttribute::Unknown { name_index, info } => spec_unsupported_text(
            name_index,
            info.len(),
        ),
    }
}

fn push_unsupported(s: &mut String, name_index: u16, len: usize)
    ensures
        final(s)@ == old(s)@ + spec_unsupported_text(name_index, len as nat),
{
    push_str(s, "Unsupported(name_index: ");
    push_decimal(s, name_index as u64);
    push_str(s, ", data: ");
    push_decimal(s, len as u64);
    push_str(s, " bytes)");
    assert(s@ =~= old(s)@ + spec_unsupported_text(name_index, len as nat));
}

fn push_code_attribute_text(s: &mut String, a: &CodeAttribute)
    ensures
        final(s)@ == old(s)@ + spec_code_attribute_text(a@),
{
    match a {
        CodeAttribute::LineNumberTable(t) => {
            push_str(s, "LineNumberTable");
            push_debug_line_numbers(s, t.as_slice());
        },
        CodeAttribute::LocalVariableTable(t) => {
            push_str(s, "LocalVariableTable");
            push_debug_local_variables(s, t.as_slice());
        },
        CodeAttribute::Unknown { name_index, info } => {
            push_unsupported(s, *name_index, info.len());
        },
    }
    assert(s@ =~= old(s)@ + spec_code_attribute_text(a@));
}

impl ClassAttribute {
    /// The attribute as text, e.g. `SourceFile(sourcefile_index: 11)`.
    pub fn to_string(&self) -> (text: String)
        ensures
            text@ == spec_class_attribute_text(self@),
    {
        let mut s = String::new();
        match self {
            ClassAttribute::SourceFile { sourcefile_index } => {
                push_str(&mut s, "SourceFile(sourcefile_index: ");
                push_decimal(&mut s, *sourcefile_index as u64);
                push_str(&mut s, ")");
            },
            ClassAttribute::Unknown { name_index, info } => {
                push_unsupported(&mut s, *name_index, info.len());
            },
        }
        assert(s@ =~= spec_class_attribute_text(self@));
        s
    }
}

impl CodeAttribute {
    /// The attribute as text, e.g. `LineNumberTable[LineNumberEntry { start_pc: 0, line_number: 3 }]`.
    pub fn to_string(&self) -> (text: String)
        ensures
            text@ == spec_code_attribute_text(self@),
    {
        let mut s = String::new();
        push_code_attribute_text(&mut s, self);
        assert(s@ =~= spec_code_attribute_text(self@));
        s
    }
}

impl MethodAttribute {
    /// The attribute as text; code is written as hexadecimal bytes and nested
    /// attributes in brackets.
    pub fn to_string(&self) -> (text: String)
        ensures
            text@ == spec_method_attribute_text(self@),
    {
        let mut s = String::new();
        match self {
            MethodAttribute::Code { max_stack, max_locals, code, exception_table, attributes } => {
                push_code_head(
                    &mut s,
                    *max_stack,
                    *max_locals,
                    code.as_slice(),
                    exception_table.as_slice(),
                );
                let ghost views = code_attributes_view(attributes@);
                if attributes.len() > 0 {
                    push_str(&mut s, ", attributes: [");
                    let ghost start = s@;
                    let mut i: usize = 0;
                    while i < attributes.len()
                        invariant
                            i <= attributes@.len(),
                            views == code_attributes_view(attributes@),
                            s@ == start + spec_join(views.take(i as int), code_attribute_text()),
                        decreases attributes@.len() - i,
                    {
                        proof {
                            lemma_join_step(views, i as int, code_attribute_text());
                        }
                        if i > 0 {
                            push_str(&mut s, ", ");
                        }
                        push_code_attribute_text(&mut s, &attributes[i]);
                        i = i + 1;
                        assert(s@ =~= start + spec_join(views.take(i as int), code_attribute_text()));
                    }
                    assert(views.take(views.len() as int) == views);
                    push_str(&mut s, "]");
                }
                push_str(&mut s, ")");
            },
            MethodAttribute::Unknown { name_index, info } => {
                push_unsupported(&mut s, *name_index, info.len());
            },
        }
        assert(s@ =~= spec_method_attribute_text(self@));
        s
    }
}

} // verus!
