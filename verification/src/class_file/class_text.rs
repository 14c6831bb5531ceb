use vstd::prelude::*;

use crate::class_file::attribute::{
    AttributeInfo,
    SpecAttributeInfo,
    attributes_view,
    lemma_attributes_view,
};
use crate::class_file::constant_pool::{ConstantInfo, SpecConstantInfo, constants_view};
use crate::class_file::display::{
    exception_entry_text,
    lemma_join_step,
    line_number_entry_text,
    local_variable_entry_text,
    push_debug_exception_table,
    push_debug_line_numbers,
    push_debug_local_variables,
    push_join_decimals,
    spec_constant_text,
    spec_debug_bytes,
    spec_debug_list,
    spec_join,
};
use crate::class_file::member::{FieldInfo, MethodInfo, SpecMemberInfo};
use crate::class_file::{ClassFile, SpecClassFile};
use crate::text::{push_decimal, push_str, spec_decimal};

verus! {

/// An attribute as `{:?}` writes it.
pub open spec fn spec_debug_attribute(a: SpecAttributeInfo) -> Seq<char>
    decreases a,
{
    match a {
        SpecAttributeInfo::Code { max_stack, max_locals, code, exception_table, attributes } =>
            "Code { max_stack: "@ + spec_decimal(max_stack as nat) + ", max_locals: "@
            + spec_decimal(max_locals as nat) + ", code: "@ + spec_debug_bytes(code)
            + ", exception_table: "@ + spec_debug_list(exception_table, exception_entry_text())
            + ", attributes: ["@ + spec_debug_attributes(attributes) + "] }"@,
        SpecAttributeInfo::LineNumberTable(t) => "LineNumberTable("@ + spec_debug_list(
            t,
            line_number_entry_text(),
        ) + ")"@,
        SpecAttributeInfo::LocalVariableTable(t) => "LocalVariableTable("@ + spec_debug_list(
            t,
            local_variable_entry_text(),
        ) + ")"@,
        SpecAttributeInfo::Unsupported { name_index, data } => "Unsupported { name_index: "@
            + spec_decimal(name_index as nat) + ", data: "@ + spec_debug_bytes(data) + " }"@,
        SpecAttributeInfo::SourceFile { sourcefile_index } => "SourceFile { sourcefile_index: "@
            + spec_decimal(sourcefile_index as nat) + " }"@,
    }
}

/// Attributes as `{:?}` writes them, separated by `, `.
pub open spec fn spec_debug_attributes(s: Seq<SpecAttributeInfo>) -> Seq<char>
    decreases s,
{
    if s.len() == 0 {
        Seq::<char>::empty()
    } else if s.len() == 1 {
        spec_debug_attribute(s[0])
    } else {
        spec_debug_attributes(s.drop_last()) + ", "@ + spec_debug_attribute(s.last())
    }
}

/// The text of a field or method: `kind { access_flags: .., name_index: ..,
/// descriptor_index: .., attributes: [..] }`.
pub open spec fn spec_member_text(kind: Seq<char>, m: SpecMemberInfo) -> Seq<char> {
    kind + " { access_flags: "@ + spec_decimal(m.access_flags as nat) + ", name_index: "@
        + spec_decimal(m.name_index as nat) + ", descriptor_index: "@ + spec_decimal(
        m.descriptor_index as nat,
    ) + ", attributes: ["@ + spec_debug_attributes(m.attributes) + "] }"@
}

pub open spec fn decimal_text() -> spec_fn(u16) -> Seq<char> {
    |x: u16| spec_decimal(x as nat)
}

pub open spec fn field_text() -> spec_fn(SpecMemberInfo) -> Seq<char> {
    |m: SpecMemberInfo| spec_member_text("FieldInfo"@, m)
}

pub open spec fn method_text() -> spec_fn(SpecMemberInfo) -> Seq<char> {
    |m: SpecMemberInfo| spec_member_text("MethodInfo"@, m)
}

pub open spec fn debug_attribute_text() -> spec_fn(SpecAttributeInfo) -> Seq<char> {
    |a: SpecAttributeInfo| spec_debug_attribute(a)
}

/// One indented line per item.
pub open spec fn spec_item_lines<T>(s: Seq<T>, f: spec_fn(T) -> Seq<char>) -> Seq<char>
    decreases s.len(),
{
    if s.len() == 0 {
        Seq::<char>::empty()
    } else {
        spec_item_lines(s.drop_last(), f) + "    "@ + f(s.last()) + "\n"@
    }
}

/// One indented line per constant, numbered from 1.
pub open spec fn spec_constant_lines(s: Seq<SpecConstantInfo>) -> Seq<char>
    decreases s.len(),
{
    if s.len() == 0 {
        Seq::<char>::empty()
    } else {
        spec_constant_lines(s.drop_last()) + "    "@ + spec_decimal(s.len()) + ": "@
            + spec_constant_text(s.last()) + "\n"@
    }
}

/// The opening lines of a class file's text: its version, flags and indices.
pub open spec fn spec_class_head(c: SpecClassFile) -> Seq<char> {
    "ClassFile {\n"@ + "  version: "@ + spec_decimal(c.major_version as nat) + "."@
        + spec_decimal(c.minor_version as nat) + "\n"@ + "  access_flags: "@ + spec_decimal(
        c.access_flags as nat,
    ) + "\n"@ + "  this_class: "@ + spec_decimal(c.this_class as nat) + "\n"@ + "  super_class: "@
        + spec_decimal(c.super_class as nat) + "\n"@
}

/// A titled section: `  title (n):` and the section's lines.
pub open spec fn spec_section(title: Seq<char>, n: nat, lines: Seq<char>) -> Seq<char> {
    "  "@ + title + " ("@ + spec_decimal(n) + "):\n"@ + lines
}

/// The text of a class file: its versions, flags and indices, its constants
/// numbered from 1, its interfaces, its fields and methods, and its attributes.
pub open spec fn spec_class_file_text(c: SpecClassFile) -> Seq<char> {
    spec_class_head(c) + spec_section(
        "constant_pool"@,
        c.constant_pool.len(),
        spec_constant_lines(c.constant_pool),
    ) + "  interfaces ("@ + spec_decimal(c.interfaces.len()) + "): "@ + spec_debug_list(
        c.interfaces,
        decimal_text(),
    ) + "\n"@ + spec_section("fields"@, c.fields.len(), spec_item_lines(c.fields, field_text()))
        + spec_section("methods"@, c.methods.len(), spec_item_lines(c.methods, method_text()))
        + spec_section(
        "attributes"@,
        c.attributes.len(),
        spec_item_lines(c.attributes, debug_attribute_text()),
    ) + "}"@
}

/// Law: the text of a class file opens with `ClassFile {` and one line per
/// header field, each label followed by that field's own value: the version as
/// `major.minor`, then access_flags, this_class and super_class in decimal.
pub proof fn law_class_text_heading(c: SpecClassFile)
    ensures
        ("ClassFile {\n"@ + "  version: "@ + spec_decimal(c.major_version as nat) + "."@
            + spec_decimal(c.minor_version as nat) + "\n"@ + "  access_flags: "@ + spec_decimal(
            c.access_flags as nat,
        ) + "\n"@ + "  this_class: "@ + spec_decimal(c.this_class as nat) + "\n"@
            + "  super_class: "@ + spec_decimal(c.super_class as nat) + "\n"@).is_prefix_of(
            spec_class_file_text(c),
        ),
{
    let h = "ClassFile {\n"@ + "  version: "@ + spec_decimal(c.major_version as nat) + "."@
        + spec_decimal(c.minor_version as nat) + "\n"@ + "  access_flags: "@ + spec_decimal(
        c.access_flags as nat,
    ) + "\n"@ + "  this_class: "@ + spec_decimal(c.this_class as nat)
        + "\n"@ + "  super_class: "@ + spec_decimal(c.super_class as nat) + "\n"@;
    let t = spec_class_file_text(c);
    assert(h == spec_class_head(c));
    let rest = spec_section("constant_pool"@, c.constant_pool.len(), spec_constant_lines(c.constant_pool))
        + "  interfaces ("@ + spec_decimal(c.interfaces.len()) + "): "@ + spec_debug_list(
        c.interfaces,
        decimal_text(),
    ) + "\n"@ + spec_section("fields"@, c.fields.len(), spec_item_lines(c.fields, field_text()))
        + spec_section("methods"@, c.methods.len(), spec_item_lines(c.methods, method_text()))
        + spec_section(
        "attributes"@,
        c.attributes.len(),
        spec_item_lines(c.attributes, debug_attribute_text()),
    ) + "}"@;
    assert(t =~= h + rest);
    assert(t.subrange(0, h.len() as int) =~= h);
}

proof fn lemma_debug_attributes_step(s: Seq<SpecAttributeInfo>, i: int)
    requires
        0 <= i < s.len(),
    ensures
        spec_debug_attributes(s.take(i + 1)) == (if i == 0 {
            spec_debug_attribute(s[0])
        } else {
            spec_debug_attributes(s.take(i)) + ", "@ + spec_debug_attribute(s[i])
        }),
{
    let t = s.take(i + 1);
    assert(t.drop_last() == s.take(i));
    assert(t.last() == s[i]);
}

proof fn lemma_item_lines_step<T>(s: Seq<T>, i: int, f: spec_fn(T) -> Seq<char>)
    requires
        0 <= i < s.len(),
    ensures
        spec_item_lines(s.take(i + 1), f) == spec_item_lines(s.take(i), f) + "    "@ + f(s[i])
            + "\n"@,
{
    let t = s.take(i + 1);
    assert(t.drop_last() == s.take(i));
    assert(t.last() == s[i]);
}

/// Appends `{:?}` of a byte vector.
fn push_debug_bytes(s: &mut String, b: &[u8])
    ensures
        final(s)@ == old(s)@ + spec_debug_bytes(b@),
{
    push_str(s, "[");
    push_join_decimals(s, b);
    push_str(s, "]");
    assert(s@ =~= old(s)@ + spec_debug_bytes(b@));
}

/// Appends `{:?}` of `a`.
fn push_debug_attribute(s: &mut String, a: &AttributeInfo)
    ensures
        final(s)@ == old(s)@ + spec_debug_attribute(a@),
    decreases a,
{
    match a {
        AttributeInfo::Code { max_stack, max_locals, code, exception_table, attributes } => {
            push_str(s, "Code { max_stack: ");
            push_decimal(s, *max_stack as u64);
            push_str(s, ", max_locals: ");
            push_decimal(s, *max_locals as u64);
            push_str(s, ", code: ");
            push_debug_bytes(s, code.as_slice());
            push_str(s, ", exception_table: ");
            push_debug_exception_table(s, exception_table.as_slice());
            push_str(s, ", attributes: [");
            let ghost views = attributes_view(attributes@);
            proof {
                lemma_attributes_view(attributes@);
            }
            let ghost start = s@;
            let mut i: usize = 0;
            while i < attributes.len()
                invariant
                    i <= attributes@.len(),
                    *a is Code,
                    (*a)->attributes == *attributes,
                    views == attributes_view(attributes@),
                    views.len() == attributes@.len(),
                    forall|j: int|
                        0 <= j < attributes@.len() ==> #[trigger] views[j]
                            == attributes@[j].spec_view(),
                    s@ == start + spec_debug_attributes(views.take(i as int)),
                decreases attributes@.len() - i,
            {
                proof {
                    lemma_debug_attributes_step(views, i as int);
                }
                if i > 0 {
                    push_str(s, ", ");
                }
                proof {
                    assert(decreases_to!(*a => (*a)->attributes));
                    assert(decreases_to!((*a)->attributes => (*a)->attributes@));
                    assert(decreases_to!(attributes@ => attributes@[i as int]));
                    assert(decreases_to!(*a => attributes@[i as int]));
                }
                push_debug_attribute(s, &attributes[i]);
                i = i + 1;
                assert(s@ =~= start + spec_debug_attributes(views.take(i as int)));
            }
            assert(views.take(views.len() as int) == views);
            push_str(s, "] }");
            assert(s@ =~= old(s)@ + spec_debug_attribute(a@));
        },
        AttributeInfo::LineNumberTable(t) => {
            push_str(s, "LineNumberTable(");
            push_debug_line_numbers(s, t.as_slice());
            push_str(s, ")");
            assert(s@ =~= old(s)@ + spec_debug_attribute(a@));
        },
        AttributeInfo::LocalVariableTable(t) => {
            push_str(s, "LocalVariableTable(");
            push_debug_local_variables(s, t.as_slice());
            push_str(s, ")");
            assert(s@ =~= old(s)@ + spec_debug_attribute(a@));
        },
        AttributeInfo::Unsupported { name_index, data } => {
            push_str(s, "Unsupported { name_index: ");
            push_decimal(s, *name_index as u64);
            push_str(s, ", data: ");
            push_debug_bytes(s, data.as_slice());
            push_str(s, " }");
            assert(s@ =~= old(s)@ + spec_debug_attribute(a@));
        },
        AttributeInfo::SourceFile { sourcefile_index } => {
            push_str(s, "SourceFile { sourcefile_index: ");
            push_decimal(s, *sourcefile_index as u64);
            push_str(s, " }");
            assert(s@ =~= old(s)@ + spec_debug_attribute(a@));
        },
    }
}

impl AttributeInfo {
    /// The attribute as `{:?}` writes it, e.g. `SourceFile { sourcefile_index: 11 }`.
    pub fn to_debug_string(&self) -> (text: String)
        ensures
            text@ == spec_debug_attribute(self@),
    {
        let mut s = String::new();
        push_debug_attribute(&mut s, self);
        assert(s@ =~= spec_debug_attribute(self@));
        s
    }
}

/// Appends the text of a member: `kind` and its fields, attributes as `{:?}` writes them.
fn push_member_text(
    s: &mut String,
    kind: &str,
    access_flags: u16,
    name_index: u16,
    descriptor_index: u16,
    attributes: &Vec<AttributeInfo>,
)
    ensures
        final(s)@ == old(s)@ + spec_member_text(
            kind@,
            SpecMemberInfo {
                access_flags,
                name_index,
                descriptor_index,
                attributes: attributes_view(attributes@),
            },
        ),
{
    push_str(s, kind);
    push_str(s, " { access_flags: ");
    push_decimal(s, access_flags as u64);
    push_str(s, ", name_index: ");
    push_decimal(s, name_index as u64);
    push_str(s, ", descriptor_index: ");
    push_decimal(s, descriptor_index as u64);
    push_str(s, ", attributes: [");
    let ghost views = attributes_view(attributes@);
    proof {
        lemma_attributes_view(attributes@);
    }
    let ghost start = s@;
    let mut i: usize = 0;
    while i < attributes.len()
        invariant
            i <= attributes@.len(),
            views == attributes_view(attributes@),
            views.len() == attributes@.len(),
            forall|j: int|
                0 <= j < attributes@.len() ==> #[trigger] views[j] == attributes@[j].spec_view(),
            s@ == start + spec_debug_attributes(views.take(i as int)),
        decreases attributes@.len() - i,
    {
        proof {
            lemma_debug_attributes_step(views, i as int);
        }
        if i > 0 {
            push_str(s, ", ");
        }
        push_debug_attribute(s, &attributes[i]);
        i = i + 1;
        assert(s@ =~= start + spec_debug_attributes(views.take(i as int)));
    }
    assert(views.take(views.len() as int) == views);
    push_str(s, "] }");
    assert(s@ =~= old(s)@ + spec_member_text(
        kind@,
        SpecMemberInfo { access_flags, name_index, descriptor_index, attributes: views },
    ));
}

impl FieldInfo {
    /// The field as text, e.g. `FieldInfo { access_flags: 2, name_index: 5,
    /// descriptor_index: 6, attributes: [] }`.
    pub fn to_string(&self) -> (text: String)
        ensures
            text@ == spec_member_text("FieldInfo"@, self@),
    {
        let mut s = String::new();
        push_member_text(
            &mut s,
            "FieldInfo",
            self.access_flags,
            self.name_index,
            self.descriptor_index,
            &self.attributes,
        );
        assert(s@ =~= spec_member_text("FieldInfo"@, self@));
        s
    }
}

impl MethodInfo {
    /// The method as text, e.g. `MethodInfo { access_flags: 9, name_index: 5,
    /// descriptor_index: 6, attributes: [..] }`.
    pub fn to_string(&self) -> (text: String)
        ensures
            text@ == spec_member_text("MethodInfo"@, self@),
    {
        let mut s = String::new();
        push_member_text(
            &mut s,
            "MethodInfo",
            self.access_flags,
            self.name_index,
            self.descriptor_index,
            &self.attributes,
        );
        assert(s@ =~= spec_member_text("MethodInfo"@, self@));
        s
    }
}

/// Appends one numbered line per constant.
fn push_constant_lines(s: &mut String, pool: &Vec<ConstantInfo>)
    ensures
        final(s)@ == old(s)@ + spec_constant_lines(constants_view(pool@)),
{
    let ghost views = constants_view(pool@);
    let mut i: usize = 0;
    while i < pool.len()
        invariant
            i <= pool@.len(),
            views == constants_view(pool@),
            s@ == old(s)@ + spec_constant_lines(views.take(i as int)),
        decreases pool@.len() - i,
    {
        let text = pool[i].to_string();
        push_str(s, "    ");
        push_decimal(s, (i + 1) as u64);
        push_str(s, ": ");
        push_str(s, text.as_str());
        push_str(s, "\n");
        proof {
            let t = views.take(i + 1);
            assert(t.drop_last() == views.take(i as int));
            assert(t.last() == pool@[i as int]@);
            assert(t.len() == i + 1);
        }
        i = i + 1;
        assert(s@ =~= old(s)@ + spec_constant_lines(views.take(i as int)));
    }
    assert(views.take(pool@.len() as int) == views);
}

/// Appends `{:?}` of a list of indices.
fn push_debug_indices(s: &mut String, t: &Vec<u16>)
    ensures
        final(s)@ == old(s)@ + spec_debug_list(t@, decimal_text()),
{
    push_str(s, "[");
    let ghost start = s@;
    let mut i: usize = 0;
    while i < t.len()
        invariant
            i <= t@.len(),
            s@ == start + spec_join(t@.take(i as int), decimal_text()),
        decreases t@.len() - i,
    {
        proof {
            lemma_join_step(t@, i as int, decimal_text());
        }
        if i > 0 {
            push_str(s, ", ");
        }
        push_decimal(s, t[i] as u64);
        i = i + 1;
        assert(s@ =~= start + spec_join(t@.take(i as int), decimal_text()));
    }
    assert(t@.take(t@.len() as int) == t@);
    push_str(s, "]");
    assert(s@ =~= old(s)@ + spec_debug_list(t@, decimal_text()));
}

/// Appends one line per field.
fn push_field_lines(s: &mut String, fields: &Vec<FieldInfo>)
    ensures
        final(s)@ == old(s)@ + spec_item_lines(fields@.map_values(|f: FieldInfo| f@), field_text()),
{
    let ghost views = fields@.map_values(|f: FieldInfo| f@);
    let mut i: usize = 0;
    while i < fields.len()
        invariant
            i <= fields@.len(),
            views == fields@.map_values(|f: FieldInfo| f@),
            s@ == old(s)@ + spec_item_lines(views.take(i as int), field_text()),
        decreases fields@.len() - i,
    {
        proof {
            lemma_item_lines_step(views, i as int, field_text());
        }
        let text = fields[i].to_string();
        push_str(s, "    ");
        push_str(s, text.as_str());
        push_str(s, "\n");
        i = i + 1;
        assert(s@ =~= old(s)@ + spec_item_lines(views.take(i as int), field_text()));
    }
    assert(views.take(fields@.len() as int) == views);
}

/// Appends one line per method.
fn push_method_lines(s: &mut String, methods: &Vec<MethodInfo>)
    ensures
        final(s)@ == old(s)@ + spec_item_lines(
            methods@.map_values(|m: MethodInfo| m@),
            method_text(),
        ),
{
    let ghost views = methods@.map_values(|m: MethodInfo| m@);
    let mut i: usize = 0;
    while i < methods.len()
        invariant
            i <= methods@.len(),
            views == methods@.map_values(|m: MethodInfo| m@),
            s@ == old(s)@ + spec_item_lines(views.take(i as int), method_text()),
        decreases methods@.len() - i,
    {
        proof {
            lemma_item_lines_step(views, i as int, method_text());
        }
        let text = methods[i].to_string();
        push_str(s, "    ");
        push_str(s, text.as_str());
        push_str(s, "\n");
        i = i + 1;
        assert(s@ =~= old(s)@ + spec_item_lines(views.take(i as int), method_text()));
    }
    assert(views.take(methods@.len() as int) == views);
}

/// Appends one line per attribute, as `{:?}` writes it.
fn push_attribute_lines(s: &mut String, attributes: &Vec<AttributeInfo>)
    ensures
        final(s)@ == old(s)@ + spec_item_lines(attributes_view(attributes@), debug_attribute_text()),
{
    let ghost views = attributes_view(attributes@);
    proof {
        lemma_attributes_view(attributes@);
    }
    let mut i: usize = 0;
    while i < attributes.len()
        invariant
            i <= attributes@.len(),
            views == attributes_view(attributes@),
            views.len() == attributes@.len(),
            forall|j: int|
                0 <= j < attributes@.len() ==> #[trigger] views[j] == attributes@[j].spec_view(),
            s@ == old(s)@ + spec_item_lines(views.take(i as int), debug_attribute_text()),
        decreases attributes@.len() - i,
    {
        proof {
            lemma_item_lines_step(views, i as int, debug_attribute_text());
        }
        let text = attributes[i].to_debug_string();
        push_str(s, "    ");
        push_str(s, text.as_str());
        push_str(s, "\n");
        i = i + 1;
        assert(s@ =~= old(s)@ + spec_item_lines(views.take(i as int), debug_attribute_text()));
    }
    assert(views.take(attributes@.len() as int) == views);
}

/// Appends the heading of a section.
fn push_section_title(s: &mut String, title: &str, n: usize)
    ensures
        final(s)@ == old(s)@ + spec_section(title@, n as nat, Seq::<char>::empty()),
{
    push_str(s, "  ");
    push_str(s, title);
    push_str(s, " (");
    push_decimal(s, n as u64);
    push_str(s, "):\n");
    assert(s@ =~= old(s)@ + spec_section(title@, n as nat, Seq::<char>::empty()));
}

impl ClassFile {
    /// The class file as text: `ClassFile {`, then its version, flags and
    /// indices, its constants numbered from 1, its interfaces, one line per
    /// field, method and attribute, and `}`.
    pub fn to_string(&self) -> (text: String)
        ensures
            text@ == spec_class_file_text(self@),
    {
        let ghost c = self@;
        let mut s = String::new();
        push_str(&mut s, "ClassFile {\n");
        push_str(&mut s, "  version: ");
        push_decimal(&mut s, self.major_version as u64);
        push_str(&mut s, ".");
        push_decimal(&mut s, self.minor_version as u64);
        push_str(&mut s, "\n");
        push_str(&mut s, "  access_flags: ");
        push_decimal(&mut s, self.access_flags as u64);
        push_str(&mut s, "\n");
        push_str(&mut s, "  this_class: ");
        push_decimal(&mut s, self.this_class as u64);
        push_str(&mut s, "\n");
        push_str(&mut s, "  super_class: ");
        push_decimal(&mut s, self.super_class as u64);
        push_str(&mut s, "\n");
        let ghost head = s@;
        assert(head =~= spec_class_head(c));
        push_section_title(&mut s, "constant_pool", self.constant_pool.len());
        push_constant_lines(&mut s, &self.constant_pool);
        let ghost pool = s@;
        assert(pool =~= head + spec_section(
            "constant_pool"@,
            c.constant_pool.len(),
            spec_constant_lines(c.constant_pool),
        ));
        push_str(&mut s, "  interfaces (");
        push_decimal(&mut s, self.interfaces.len() as u64);
        push_str(&mut s, "): ");
        push_debug_indices(&mut s, &self.interfaces);
        push_str(&mut s, "\n");
        let ghost interfaces = s@;
        assert(interfaces =~= pool + "  interfaces ("@ + spec_decimal(c.interfaces.len()) + "): "@
            + spec_debug_list(c.interfaces, decimal_text()) + "\n"@);
        push_section_title(&mut s, "fields", self.fields.len());
        push_field_lines(&mut s, &self.fields);
        let ghost fields = s@;
        assert(fields =~= interfaces + spec_section(
            "fields"@,
            c.fields.len(),
            spec_item_lines(c.fields, field_text()),
        ));
        push_section_title(&mut s, "methods", self.methods.len());
        push_method_lines(&mut s, &self.methods);
        let ghost methods = s@;
        assert(methods =~= fields + spec_section(
            "methods"@,
            c.methods.len(),
            spec_item_lines(c.methods, method_text()),
        ));
        proof {
            lemma_attributes_view(self.attributes@);
        }
        push_section_title(&mut s, "attributes", self.attributes.len());
        push_attribute_lines(&mut s, &self.attributes);
        let ghost attributes = s@;
        assert(attributes =~= methods + spec_section(
            "attributes"@,
            c.attributes.len(),
            spec_item_lines(c.attributes, debug_attribute_text()),
        ));
        push_str(&mut s, "}");
        assert(s@ =~= spec_class_file_text(c));
        s
    }
}

} // verus!
