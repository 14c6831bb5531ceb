use vstd::prelude::*;

use std::rc::Rc;

use crate::vm::class_file::{JvmError, MethodDescriptorErr};
use crate::vm::constant_pool::{
    ClassReference,
    ConstantInfo,
    FieldReference,
    MethodReference,
    NameAndTypeReference,
    SpecConstantInfo,
    StringReference,
    entries_view,
};
use crate::text::{
    push_char,
    push_decimal,
    push_signed_decimal,
    push_spaces,
    push_str,
    spec_decimal,
    spec_pad_right,
    spec_signed_decimal,
};
use crate::vm::method_descriptor;
use crate::vm::method_descriptor::{
    MethodDescriptor,
    SpecMethodDescriptor,
    law_parse_renders_back,
    law_parsed_descriptor_renders_to_input,
    parse_field_descriptor,
    spec_parse_field_descriptor,
    spec_method_descriptor_well_formed,
    spec_parse_method_descriptor,
    spec_render_method_descriptor,
};

verus! {

/// The run-time constant pool of a class: its entries by index, index 0 holding
/// `Dummy`. Lookups check that an entry has the kind asked for and that the
/// entries it refers to resolve too.
#[derive(Debug)]
pub struct RuntimeConstantPool {
    entries: Vec<ConstantInfo>,
}

impl View for RuntimeConstantPool {
    type V = Seq<SpecConstantInfo>;

    closed spec fn view(&self) -> Seq<SpecConstantInfo> {
        entries_view(self.entries@)
    }
}

/// The entry at an index; an index past the end is a `TypeError`.
pub open spec fn spec_entry(cp: Seq<SpecConstantInfo>, idx: u16) -> Result<SpecConstantInfo, JvmError> {
    if (idx as int) < cp.len() {
        Ok(cp[idx as int])
    } else {
        Err(JvmError::TypeError)
    }
}

/// The text of a `Utf8` entry.
pub open spec fn spec_get_utf8(cp: Seq<SpecConstantInfo>, idx: u16) -> Result<Seq<char>, JvmError> {
    match spec_entry(cp, idx) {
        Ok(SpecConstantInfo::Utf8(s)) => Ok(s),
        Ok(_) => Err(JvmError::TypeError),
        Err(e) => Err(e),
    }
}

/// A descriptor error as the class-file layer reports it.
pub open spec fn spec_descriptor_error(e: method_descriptor::MethodDescriptorErr) -> MethodDescriptorErr {
    match e {
        method_descriptor::MethodDescriptorErr::ShouldStartWithParentheses => MethodDescriptorErr::ShouldStartWithParentheses,
        method_descriptor::MethodDescriptorErr::MissingClosingParenthesis => MethodDescriptorErr::MissingClosingParenthesis,
        method_descriptor::MethodDescriptorErr::UnexpectedEnd => MethodDescriptorErr::UnexpectedEnd,
        method_descriptor::MethodDescriptorErr::InvalidType => MethodDescriptorErr::InvalidType,
        method_descriptor::MethodDescriptorErr::TrailingCharacters => MethodDescriptorErr::TrailingCharacters,
    }
}

/// Converts a descriptor error into the class-file layer's error.
pub fn descriptor_error(e: method_descriptor::MethodDescriptorErr) -> (r: JvmError)
    ensures
        r == JvmError::MethodDescriptor(spec_descriptor_error(e)),
{
    let d = match e {
        method_descriptor::MethodDescriptorErr::ShouldStartWithParentheses => MethodDescriptorErr::ShouldStartWithParentheses,
        method_descriptor::MethodDescriptorErr::MissingClosingParenthesis => MethodDescriptorErr::MissingClosingParenthesis,
        method_descriptor::MethodDescriptorErr::UnexpectedEnd => MethodDescriptorErr::UnexpectedEnd,
        method_descriptor::MethodDescriptorErr::InvalidType => MethodDescriptorErr::InvalidType,
        method_descriptor::MethodDescriptorErr::TrailingCharacters => MethodDescriptorErr::TrailingCharacters,
    };
    JvmError::MethodDescriptor(d)
}

/// The method descriptor that a `Utf8` entry holds.
pub open spec fn spec_get_method_descriptor(cp: Seq<SpecConstantInfo>, idx: u16) -> Result<SpecMethodDescriptor, JvmError> {
    match spec_get_utf8(cp, idx) {
        Ok(s) => match spec_parse_method_descriptor(s) {
            Ok(md) => Ok(md),
            Err(e) => Err(JvmError::MethodDescriptor(spec_descriptor_error(e))),
        },
        Err(e) => Err(e),
    }
}

/// A `String` entry whose text resolves.
pub open spec fn spec_get_string(cp: Seq<SpecConstantInfo>, idx: u16) -> Result<StringReference, JvmError> {
    match spec_entry(cp, idx) {
        Ok(SpecConstantInfo::String(r)) => match spec_get_utf8(cp, r.string_index) {
            Ok(_) => Ok(r),
            Err(e) => Err(e),
        },
        Ok(_) => Err(JvmError::TypeError),
        Err(e) => Err(e),
    }
}

/// A `Class` entry whose name resolves.
pub open spec fn spec_get_class(cp: Seq<SpecConstantInfo>, idx: u16) -> Result<ClassReference, JvmError> {
    match spec_entry(cp, idx) {
        Ok(SpecConstantInfo::Class(r)) => match spec_get_utf8(cp, r.name_index) {
            Ok(_) => Ok(r),
            Err(e) => Err(e),
        },
        Ok(_) => Err(JvmError::TypeError),
        Err(e) => Err(e),
    }
}

/// A `NameAndType` entry whose name resolves and whose descriptor is a method descriptor.
pub open spec fn spec_get_method_nat(cp: Seq<SpecConstantInfo>, idx: u16) -> Result<NameAndTypeReference, JvmError> {
    match spec_entry(cp, idx) {
        Ok(SpecConstantInfo::NameAndType(r)) => match spec_get_utf8(cp, r.name_index) {
            Err(e) => Err(e),
            Ok(_) => match spec_get_utf8(cp, r.descriptor_index) {
                Err(e) => Err(e),
                Ok(_) => match spec_get_method_descriptor(cp, r.descriptor_index) {
                    Err(e) => Err(e),
                    Ok(_) => Ok(r),
                },
            },
        },
        Ok(_) => Err(JvmError::TypeError),
        Err(e) => Err(e),
    }
}

/// A `NameAndType` entry whose name resolves and whose descriptor is a field descriptor.
pub open spec fn spec_get_field_nat(cp: Seq<SpecConstantInfo>, idx: u16) -> Result<NameAndTypeReference, JvmError> {
    match spec_entry(cp, idx) {
        Ok(SpecConstantInfo::NameAndType(r)) => match spec_get_utf8(cp, r.name_index) {
            Err(e) => Err(e),
            Ok(_) => match spec_get_utf8(cp, r.descriptor_index) {
                Err(e) => Err(e),
                Ok(d) => match spec_parse_field_descriptor(d) {
                    Err(e) => Err(JvmError::MethodDescriptor(spec_descriptor_error(e))),
                    Ok(_) => Ok(r),
                },
            },
        },
        Ok(_) => Err(JvmError::TypeError),
        Err(e) => Err(e),
    }
}

/// A `Methodref` entry whose class and name-and-type resolve.
pub open spec fn spec_get_methodref(cp: Seq<SpecConstantInfo>, idx: u16) -> Result<MethodReference, JvmError> {
    match spec_entry(cp, idx) {
        Ok(SpecConstantInfo::MethodRef(r)) => match spec_get_class(cp, r.class_index) {
            Err(e) => Err(e),
            Ok(_) => match spec_get_method_nat(cp, r.name_and_type_index) {
                Err(e) => Err(e),
                Ok(_) => Ok(r),
            },
        },
        Ok(_) => Err(JvmError::TypeError),
        Err(e) => Err(e),
    }
}

/// A `Fieldref` entry whose class and name-and-type resolve; its name-and-type is
/// resolved as a method's, so its descriptor must be a method descriptor.
pub open spec fn spec_get_fieldref(cp: Seq<SpecConstantInfo>, idx: u16) -> Result<FieldReference, JvmError> {
    match spec_entry(cp, idx) {
        Ok(SpecConstantInfo::FieldRef(r)) => match spec_get_class(cp, r.class_index) {
            Err(e) => Err(e),
            Ok(_) => match spec_get_method_nat(cp, r.name_and_type_index) {
                Err(e) => Err(e),
                Ok(_) => Ok(r),
            },
        },
        Ok(_) => Err(JvmError::TypeError),
        Err(e) => Err(e),
    }
}

impl RuntimeConstantPool {
    /// A pool over `entries`, indexed from 0.
    pub fn new(entries: Vec<ConstantInfo>) -> (r: Self)
        ensures
            r@ == entries_view(entries@),
    {
        Self { entries }
    }

    /// The number of entries, `Dummy` included.
    pub fn len(&self) -> (n: usize)
        ensures
            n == self@.len(),
    {
        self.entries.len()
    }

    fn entry(&self, idx: u16) -> (res: Result<&ConstantInfo, JvmError>)
        ensures
            match spec_entry(self@, idx) {
                Ok(c) => res matches Ok(r) && r@ == c,
                Err(e) => res == Err::<&ConstantInfo, JvmError>(e),
            },
    {
        if (idx as usize) < self.entries.len() {
            Ok(&self.entries[idx as usize])
        } else {
            Err(JvmError::TypeError)
        }
    }

    /// The text of the `Utf8` entry at `idx`.
    pub fn get_utf8(&self, idx: u16) -> (res: Result<&String, JvmError>)
        ensures
            match spec_get_utf8(self@, idx) {
                Ok(s) => res matches Ok(r) && r@ == s,
                Err(e) => res == Err::<&String, JvmError>(e),
            },
    {
        match self.entry(idx)? {
            ConstantInfo::Utf8(string) => Ok(string),
            _ => Err(JvmError::TypeError),
        }
    }

    /// The method descriptor held by the `Utf8` entry at `idx`, parsed. The
    /// descriptor is parsed on each call, so two calls give equal descriptors
    /// in separate `Rc`s.
    pub fn get_method_descriptor(&self, idx: u16) -> (res: Result<Rc<MethodDescriptor>, JvmError>)
        ensures
            match spec_get_method_descriptor(self@, idx) {
                Ok(md) => res matches Ok(r) && r@ == md,
                Err(e) => res == Err::<Rc<MethodDescriptor>, JvmError>(e),
            },
    {
        let descriptor = self.get_utf8(idx)?;
        match MethodDescriptor::try_from(descriptor.as_str()) {
            Ok(md) => Ok(Rc::new(md)),
            Err(e) => Err(descriptor_error(e)),
        }
    }

    /// The `String` entry at `idx`, once its text resolves.
    pub fn get_string(&self, idx: u16) -> (res: Result<&StringReference, JvmError>)
        ensures
            match spec_get_string(self@, idx) {
                Ok(r) => res == Ok::<&StringReference, JvmError>(&r),
                Err(e) => res == Err::<&StringReference, JvmError>(e),
            },
    {
        match self.entry(idx)? {
            ConstantInfo::String(string_ref) => {
                self.get_utf8(string_ref.string_index)?;
                Ok(string_ref)
            },
            _ => Err(JvmError::TypeError),
        }
    }

    /// The `Class` entry at `idx`, once its name resolves.
    pub fn get_class(&self, idx: u16) -> (res: Result<&ClassReference, JvmError>)
        ensures
            match spec_get_class(self@, idx) {
                Ok(r) => res == Ok::<&ClassReference, JvmError>(&r),
                Err(e) => res == Err::<&ClassReference, JvmError>(e),
            },
    {
        match self.entry(idx)? {
            ConstantInfo::Class(class_ref) => {
                self.get_utf8(class_ref.name_index)?;
                Ok(class_ref)
            },
            _ => Err(JvmError::TypeError),
        }
    }

    /// The `NameAndType` entry at `idx`, once its name resolves and its
    /// descriptor parses as a method descriptor.
    pub fn get_method_nat(&self, idx: u16) -> (res: Result<&NameAndTypeReference, JvmError>)
        ensures
            match spec_get_method_nat(self@, idx) {
                Ok(r) => res == Ok::<&NameAndTypeReference, JvmError>(&r),
                Err(e) => res == Err::<&NameAndTypeReference, JvmError>(e),
            },
    {
        match self.entry(idx)? {
            ConstantInfo::NameAndType(method_nat) => {
                self.get_utf8(method_nat.name_index)?;
                self.get_utf8(method_nat.descriptor_index)?;
                self.get_method_descriptor(method_nat.descriptor_index)?;
                Ok(method_nat)
            },
            _ => Err(JvmError::TypeError),
        }
    }

    /// The `NameAndType` entry at `idx`, once its name resolves and its
    /// descriptor parses as a field descriptor.
    pub fn get_field_nat(&self, idx: u16) -> (res: Result<&NameAndTypeReference, JvmError>)
        ensures
            match spec_get_field_nat(self@, idx) {
                Ok(r) => res == Ok::<&NameAndTypeReference, JvmError>(&r),
                Err(e) => res == Err::<&NameAndTypeReference, JvmError>(e),
            },
    {
        match self.entry(idx)? {
            ConstantInfo::NameAndType(field_nat) => {
                self.get_utf8(field_nat.name_index)?;
                let descriptor = self.get_utf8(field_nat.descriptor_index)?;
                match parse_field_descriptor(descriptor.as_str()) {
                    Ok(_) => Ok(field_nat),
                    Err(e) => Err(descriptor_error(e)),
                }
            },
            _ => Err(JvmError::TypeError),
        }
    }

    /// The `Methodref` entry at `idx`, once its class and name-and-type resolve.
    pub fn get_methodref(&self, idx: u16) -> (res: Result<&MethodReference, JvmError>)
        ensures
            match spec_get_methodref(self@, idx) {
                Ok(r) => res == Ok::<&MethodReference, JvmError>(&r),
                Err(e) => res == Err::<&MethodReference, JvmError>(e),
            },
    {
        match self.entry(idx)? {
            ConstantInfo::MethodRef(method_ref) => {
                self.get_class(method_ref.class_index)?;
                self.get_method_nat(method_ref.name_and_type_index)?;
                Ok(method_ref)
            },
            _ => Err(JvmError::TypeError),
        }
    }

    /// The `Fieldref` entry at `idx`, once its class and name-and-type resolve.
    pub fn get_fieldref(&self, idx: u16) -> (res: Result<&FieldReference, JvmError>)
        ensures
            match spec_get_fieldref(self@, idx) {
                Ok(r) => res == Ok::<&FieldReference, JvmError>(&r),
                Err(e) => res == Err::<&FieldReference, JvmError>(e),
            },
    {
        match self.entry(idx)? {
            ConstantInfo::FieldRef(field_ref) => {
                self.get_class(field_ref.class_index)?;
                self.get_method_nat(field_ref.name_and_type_index)?;
                Ok(field_ref)
            },
            _ => Err(JvmError::TypeError),
        }
    }
}

/// Law: a method-descriptor lookup gives exactly the descriptor that the
/// `Utf8` entry spells: written back as descriptor text it is that entry's
/// text, so every parameter type and the return type are kept, in order; and
/// the entry holding the text of any well-formed descriptor gives back that
/// descriptor.
pub proof fn law_method_descriptor_lookup(cp: Seq<SpecConstantInfo>, idx: u16, md: SpecMethodDescriptor)
    ensures
        spec_get_method_descriptor(cp, idx) matches Ok(d) ==> (spec_get_utf8(cp, idx) matches Ok(s)
            && spec_render_method_descriptor(d) == s),
        spec_method_descriptor_well_formed(md) && spec_get_utf8(cp, idx) == Ok::<Seq<char>, JvmError>(
            spec_render_method_descriptor(md),
        ) ==> spec_get_method_descriptor(cp, idx) == Ok::<SpecMethodDescriptor, JvmError>(md),
{
    if let Ok(s) = spec_get_utf8(cp, idx) {
        law_parsed_descriptor_renders_to_input(s);
    }
    if spec_method_descriptor_well_formed(md) {
        law_parse_renders_back(md);
    }
}

/// Law: each lookup that succeeds gives the entry at its index, of the kind
/// asked for: a `Utf8` entry's text, a `Class` or `String` entry's reference, a
/// `NameAndType` entry's reference for both name-and-type lookups, and a
/// `Methodref` or `Fieldref` entry's reference.
pub proof fn law_lookups_give_the_entry(cp: Seq<SpecConstantInfo>, idx: u16)
    ensures
        spec_get_utf8(cp, idx) matches Ok(s) ==> (idx as int) < cp.len() && cp[idx as int]
            == SpecConstantInfo::Utf8(s),
        spec_get_class(cp, idx) matches Ok(r) ==> (idx as int) < cp.len() && cp[idx as int]
            == SpecConstantInfo::Class(r),
        spec_get_string(cp, idx) matches Ok(r) ==> (idx as int) < cp.len() && cp[idx as int]
            == SpecConstantInfo::String(r),
        spec_get_method_nat(cp, idx) matches Ok(r) ==> (idx as int) < cp.len() && cp[idx as int]
            == SpecConstantInfo::NameAndType(r),
        spec_get_field_nat(cp, idx) matches Ok(r) ==> (idx as int) < cp.len() && cp[idx as int]
            == SpecConstantInfo::NameAndType(r),
        spec_get_methodref(cp, idx) matches Ok(r) ==> (idx as int) < cp.len() && cp[idx as int]
            == SpecConstantInfo::MethodRef(r),
        spec_get_fieldref(cp, idx) matches Ok(r) ==> (idx as int) < cp.len() && cp[idx as int]
            == SpecConstantInfo::FieldRef(r),
{
}

/// Law: the listing line of a resolving `Methodref` is `#pos = `, the word
/// `Methodref` padded to 16, a tab, `#class.#name_and_type` with the entry's own
/// two indices in that order, and after `//` the class's name, the quoted
/// method name and the descriptor, each read from the entry the index names.
pub proof fn law_methodref_line(cp: Seq<SpecConstantInfo>, pos: nat)
    requires
        pos < cp.len(),
        cp[pos as int] is MethodRef,
    ensures
        ({
            let r = cp[pos as int]->MethodRef_0;
            spec_get_class(cp, r.class_index) matches Ok(c) ==> (spec_get_method_nat(
                cp,
                r.name_and_type_index,
            ) matches Ok(n) ==> (spec_get_utf8(cp, c.name_index) matches Ok(cls) ==> (spec_get_utf8(
                cp,
                n.name_index,
            ) matches Ok(name) ==> (spec_get_utf8(cp, n.descriptor_index) matches Ok(desc)
                ==> spec_entry_line(cp, pos) == Some(
                "#"@ + spec_decimal(pos) + " = "@ + spec_pad_right("Methodref"@, 16) + "\t#"@
                    + spec_decimal(r.class_index as nat) + ".#"@ + spec_decimal(
                    r.name_and_type_index as nat,
                ) + "\t\t // "@ + cls + ".\""@ + name + "\":"@ + desc + "\n"@,
            )))))
        }),
{
    let r = cp[pos as int]->MethodRef_0;
    if let Ok(c) = spec_get_class(cp, r.class_index) {
        if let Ok(n) = spec_get_method_nat(cp, r.name_and_type_index) {
            if let Ok(cls) = spec_get_utf8(cp, c.name_index) {
                if let Ok(name) = spec_get_utf8(cp, n.name_index) {
                    if let Ok(desc) = spec_get_utf8(cp, n.descriptor_index) {
                        reveal_strlit("\t#");
                        reveal_strlit("\t");
                        reveal_strlit("#");
                        assert(spec_entry_line(cp, pos) == Some(
                            "#"@ + spec_decimal(pos) + " = "@ + spec_pad_right("Methodref"@, 16)
                                + "\t#"@ + spec_decimal(r.class_index as nat) + ".#"@
                                + spec_decimal(r.name_and_type_index as nat) + "\t\t // "@ + cls
                                + ".\""@ + name + "\":"@ + desc + "\n"@,
                        )) by {
                            assert("\t#"@ =~= "\t"@ + "#"@);
                        }
                    }
                }
            }
        }
    }
}

/// Law: a lookup that succeeds has resolved everything its entry refers to: a
/// class's name, a string's text, a name-and-type's name and descriptor, and a
/// member reference's class and name-and-type.
pub proof fn law_lookups_resolve_references(cp: Seq<SpecConstantInfo>, idx: u16)
    ensures
        spec_get_class(cp, idx) matches Ok(r) ==> spec_get_utf8(cp, r.name_index) is Ok,
        spec_get_string(cp, idx) matches Ok(r) ==> spec_get_utf8(cp, r.string_index) is Ok,
        spec_get_method_nat(cp, idx) matches Ok(r) ==> spec_get_utf8(cp, r.name_index) is Ok
            && spec_get_method_descriptor(cp, r.descriptor_index) is Ok,
        spec_get_field_nat(cp, idx) matches Ok(r) ==> spec_get_utf8(cp, r.name_index) is Ok
            && spec_get_utf8(cp, r.descriptor_index) is Ok,
        spec_get_methodref(cp, idx) matches Ok(r) ==> spec_get_class(cp, r.class_index) is Ok
            && spec_get_method_nat(cp, r.name_and_type_index) is Ok,
        spec_get_fieldref(cp, idx) matches Ok(r) ==> spec_get_class(cp, r.class_index) is Ok
            && spec_get_method_nat(cp, r.name_and_type_index) is Ok,
{
}

/// Law: a lookup of one kind refuses an entry of another kind, and an index past
/// the end, with `TypeError`.
pub proof fn law_lookup_of_wrong_kind_is_type_error(cp: Seq<SpecConstantInfo>, idx: u16)
    ensures
        (idx as int) >= cp.len() ==> spec_get_utf8(cp, idx) == Err::<Seq<char>, JvmError>(
            JvmError::TypeError,
        ) && spec_get_class(cp, idx) == Err::<ClassReference, JvmError>(JvmError::TypeError)
            && spec_get_string(cp, idx) == Err::<StringReference, JvmError>(JvmError::TypeError)
            && spec_get_method_nat(cp, idx) == Err::<NameAndTypeReference, JvmError>(
            JvmError::TypeError,
        ) && spec_get_methodref(cp, idx) == Err::<MethodReference, JvmError>(JvmError::TypeError)
            && spec_get_fieldref(cp, idx) == Err::<FieldReference, JvmError>(JvmError::TypeError),
        (idx as int) < cp.len() && !(cp[idx as int] is Utf8) ==> spec_get_utf8(cp, idx) == Err::<
            Seq<char>,
            JvmError,
        >(JvmError::TypeError),
        (idx as int) < cp.len() && !(cp[idx as int] is Class) ==> spec_get_class(cp, idx)
            == Err::<ClassReference, JvmError>(JvmError::TypeError),
        (idx as int) < cp.len() && !(cp[idx as int] is MethodRef) ==> spec_get_methodref(cp, idx)
            == Err::<MethodReference, JvmError>(JvmError::TypeError),
{
}

/// Two indices as `#a.#b`.
pub open spec fn spec_index_pair(a: u16, b: u16) -> Seq<char> {
    "#"@ + spec_decimal(a as nat) + ".#"@ + spec_decimal(b as nat)
}

/// The debug text of an entry that has no line of its own.
pub open spec fn spec_debug_constant(c: SpecConstantInfo) -> Seq<char> {
    match c {
        SpecConstantInfo::Dummy => "Dummy"@,
        SpecConstantInfo::Integer(v) => "Integer("@ + spec_signed_decimal(v as int) + ")"@,
        SpecConstantInfo::Long(v) => "Long("@ + spec_signed_decimal(v as int) + ")"@,
        SpecConstantInfo::InterfaceRef(r) => "InterfaceRef(MethodReference { class_index: "@
            + spec_decimal(r.class_index as nat) + ", name_and_type_index: "@ + spec_decimal(
            r.name_and_type_index as nat,
        ) + " })"@,
        _ => Seq::empty(),
    }
}

/// The text of a member reference: `kind  #c.#nt  // Class."name":descriptor`.
pub open spec fn spec_member_line(
    cp: Seq<SpecConstantInfo>,
    kind: Seq<char>,
    class_index: u16,
    nat_index: u16,
    class: Result<ClassReference, JvmError>,
    name_and_type: Result<NameAndTypeReference, JvmError>,
) -> Option<Seq<char>> {
    match (class, name_and_type) {
        (Ok(c), Ok(n)) => match (
            spec_get_utf8(cp, c.name_index),
            spec_get_utf8(cp, n.name_index),
            spec_get_utf8(cp, n.descriptor_index),
        ) {
            (Ok(cls), Ok(name), Ok(desc)) => Some(spec_pad_right(kind, 16) + "\t"@ + spec_index_pair(
                class_index,
                nat_index,
            ) + "\t\t // "@ + cls + ".\""@ + name + "\":"@ + desc),
            _ => None,
        },
        _ => None,
    }
}

/// The line of the entry at `pos`, after its index column, without the line
/// break; `None` when a reference it shows does not resolve.
pub open spec fn spec_entry_body(cp: Seq<SpecConstantInfo>, pos: nat) -> Option<Seq<char>> {
    match cp[pos as int] {
        SpecConstantInfo::Utf8(s) => Some(spec_pad_right("Utf8"@, 16) + "\t"@ + s),
        SpecConstantInfo::Class(c) => match spec_get_utf8(cp, c.name_index) {
            Ok(name) => Some(spec_pad_right("Class"@, 16) + "\t#"@ + spec_decimal(
                c.name_index as nat,
            ) + "\t\t // "@ + name),
            Err(_) => None,
        },
        SpecConstantInfo::String(r) => match spec_get_utf8(cp, r.string_index) {
            Ok(text) => Some(spec_pad_right("String"@, 16) + "\t#"@ + spec_decimal(
                r.string_index as nat,
            ) + "\t\t // "@ + text),
            Err(_) => None,
        },
        SpecConstantInfo::MethodRef(r) => spec_member_line(
            cp,
            "Methodref"@,
            r.class_index,
            r.name_and_type_index,
            spec_get_class(cp, r.class_index),
            spec_get_method_nat(cp, r.name_and_type_index),
        ),
        SpecConstantInfo::FieldRef(r) => spec_member_line(
            cp,
            "Fieldref"@,
            r.class_index,
            r.name_and_type_index,
            spec_get_class(cp, r.class_index),
            spec_get_field_nat(cp, r.name_and_type_index),
        ),
        SpecConstantInfo::NameAndType(n) => match (
            spec_get_utf8(cp, n.name_index),
            spec_get_utf8(cp, n.descriptor_index),
        ) {
            (Ok(name), Ok(desc)) => Some(spec_pad_right("NameAndType"@, 16) + "\t"@
                + spec_index_pair(n.name_index, n.descriptor_index) + "\t\t // \""@ + name
                + "\":"@ + desc),
            _ => None,
        },
        other => Some(spec_pad_right("/* TODO */"@, 16) + "\t"@ + spec_debug_constant(other)),
    }
}

/// The full line of the entry at `pos`: `#pos = `, the entry's text and a
/// line break. The index is written as it is, without padding.
pub open spec fn spec_entry_line(cp: Seq<SpecConstantInfo>, pos: nat) -> Option<Seq<char>> {
    match spec_entry_body(cp, pos) {
        Some(body) => Some("#"@ + spec_decimal(pos) + " = "@ + body + "\n"@),
        None => None,
    }
}

/// The lines of the entries at positions `1 .. n`.
pub open spec fn spec_pool_lines(cp: Seq<SpecConstantInfo>, n: nat) -> Option<Seq<char>>
    decreases n,
{
    if n <= 1 {
        Some(Seq::empty())
    } else {
        match spec_pool_lines(cp, (n - 1) as nat) {
            Some(before) => match spec_entry_line(cp, (n - 1) as nat) {
                Some(line) => Some(before + line),
                None => None,
            },
            None => None,
        }
    }
}

/// The pool in `javap` style, one line per entry after index 0; `None` when a
/// line cannot be written because a reference does not resolve.
pub open spec fn spec_pool_text(cp: Seq<SpecConstantInfo>) -> Option<Seq<char>> {
    spec_pool_lines(cp, cp.len())
}

proof fn lemma_pool_lines_stay_none(cp: Seq<SpecConstantInfo>, n: nat, m: nat)
    requires
        n <= m,
        spec_pool_lines(cp, n) is None,
    ensures
        spec_pool_lines(cp, m) is None,
    decreases m - n,
{
    if n < m {
        lemma_pool_lines_stay_none(cp, n, (m - 1) as nat);
    }
}

/// Appends `kind` left-aligned in a field of 16.
fn push_kind(s: &mut String, kind: &str)
    ensures
        final(s)@ == old(s)@ + spec_pad_right(kind@, 16),
{
    let n = kind.unicode_len();
    push_str(s, kind);
    if n < 16 {
        push_spaces(s, 16 - n);
    }
}

/// Appends `#a.#b`.
fn push_index_pair(s: &mut String, a: u16, b: u16)
    ensures
        final(s)@ == old(s)@ + spec_index_pair(a, b),
{
    push_char(s, '#');
    push_decimal(s, a as u64);
    push_str(s, ".#");
    push_decimal(s, b as u64);
    proof {
        reveal_strlit("#");
        reveal_strlit(".#");
    }
    assert(s@ =~= old(s)@ + spec_index_pair(a, b));
}

/// Appends the debug text of an entry that has no line of its own.
fn push_debug_constant(s: &mut String, c: &ConstantInfo)
    ensures
        final(s)@ == old(s)@ + spec_debug_constant(c@),
{
    match c {
        ConstantInfo::Dummy => push_str(s, "Dummy"),
        ConstantInfo::Integer(v) => {
            push_str(s, "Integer(");
            push_signed_decimal(s, *v as i64);
            push_str(s, ")");
        },
        ConstantInfo::Long(v) => {
            push_str(s, "Long(");
            push_signed_decimal(s, *v);
            push_str(s, ")");
        },
        ConstantInfo::InterfaceRef(r) => {
            push_str(s, "InterfaceRef(MethodReference { class_index: ");
            push_decimal(s, r.class_index as u64);
            push_str(s, ", name_and_type_index: ");
            push_decimal(s, r.name_and_type_index as u64);
            push_str(s, " })");
        },
        _ => {},
    }
    assert(s@ =~= old(s)@ + spec_debug_constant(c@));
}

impl RuntimeConstantPool {
    /// Appends the text of a member reference whose class and name-and-type
    /// lookups gave `class` and `name_and_type`.
    fn push_member_line(
        &self,
        s: &mut String,
        kind: &str,
        class_index: u16,
        nat_index: u16,
        class: Result<&ClassReference, JvmError>,
        name_and_type: Result<&NameAndTypeReference, JvmError>,
    ) -> (ok: bool)
        ensures
            match spec_member_line(
                self@,
                kind@,
                class_index,
                nat_index,
                match class {
                    Ok(c) => Ok(*c),
                    Err(e) => Err(e),
                },
                match name_and_type {
                    Ok(n) => Ok(*n),
                    Err(e) => Err(e),
                },
            ) {
                Some(text) => ok && final(s)@ == old(s)@ + text,
                None => !ok,
            },
    {
        let (c, n) = match (class, name_and_type) {
            (Ok(c), Ok(n)) => (c, n),
            _ => return false,
        };
        let cls = match self.get_utf8(c.name_index) {
            Ok(t) => t,
            Err(_) => return false,
        };
        let name = match self.get_utf8(n.name_index) {
            Ok(t) => t,
            Err(_) => return false,
        };
        let desc = match self.get_utf8(n.descriptor_index) {
            Ok(t) => t,
            Err(_) => return false,
        };
        push_kind(s, kind);
        push_char(s, '\t');
        push_index_pair(s, class_index, nat_index);
        push_str(s, "\t\t // ");
        push_str(s, cls.as_str());
        push_str(s, ".\"");
        push_str(s, name.as_str());
        push_str(s, "\":");
        push_str(s, desc.as_str());
        proof {
            reveal_strlit("\t");
            reveal_strlit("\t\t // ");
            reveal_strlit(".\"");
            reveal_strlit("\":");
        }
        assert(s@ =~= old(s)@ + spec_pad_right(kind@, 16) + "\t"@ + spec_index_pair(
            class_index,
            nat_index,
        ) + "\t\t // "@ + cls@ + ".\""@ + name@ + "\":"@ + desc@);
        true
    }

    /// Appends the text of the entry at `pos`, after its index column.
    fn push_entry_body(&self, s: &mut String, pos: usize) -> (ok: bool)
        requires
            pos < self@.len(),
        ensures
            match spec_entry_body(self@, pos as nat) {
                Some(text) => ok && final(s)@ == old(s)@ + text,
                None => !ok,
            },
    {
        let entry = &self.entries[pos];
        assert(entry@ == self@[pos as int]);
        match entry {
            ConstantInfo::Utf8(text) => {
                push_kind(s, "Utf8");
                push_char(s, '\t');
                push_str(s, text.as_str());
                proof {
                    reveal_strlit("\t");
                }
                assert(s@ =~= old(s)@ + (spec_pad_right("Utf8"@, 16) + "\t"@ + text@));
                true
            },
            ConstantInfo::Class(c) => {
                let name = match self.get_utf8(c.name_index) {
                    Ok(t) => t,
                    Err(_) => return false,
                };
                push_kind(s, "Class");
                push_str(s, "\t#");
                push_decimal(s, c.name_index as u64);
                push_str(s, "\t\t // ");
                push_str(s, name.as_str());
                proof {
                    reveal_strlit("\t#");
                    reveal_strlit("\t\t // ");
                }
                assert(s@ =~= old(s)@ + (spec_pad_right("Class"@, 16) + "\t#"@ + spec_decimal(
                    c.name_index as nat,
                ) + "\t\t // "@ + name@));
                true
            },
            ConstantInfo::String(r) => {
                let text = match self.get_utf8(r.string_index) {
                    Ok(t) => t,
                    Err(_) => return false,
                };
                push_kind(s, "String");
                push_str(s, "\t#");
                push_decimal(s, r.string_index as u64);
                push_str(s, "\t\t // ");
                push_str(s, text.as_str());
                proof {
                    reveal_strlit("\t#");
                    reveal_strlit("\t\t // ");
                }
                assert(s@ =~= old(s)@ + (spec_pad_right("String"@, 16) + "\t#"@ + spec_decimal(
                    r.string_index as nat,
                ) + "\t\t // "@ + text@));
                true
            },
            ConstantInfo::MethodRef(r) => {
                let class = self.get_class(r.class_index);
                let name_and_type = self.get_method_nat(r.name_and_type_index);
                self.push_member_line(s, "Methodref", r.class_index, r.name_and_type_index, class, name_and_type)
            },
            ConstantInfo::FieldRef(r) => {
                let class = self.get_class(r.class_index);
                let name_and_type = self.get_field_nat(r.name_and_type_index);
                self.push_member_line(s, "Fieldref", r.class_index, r.name_and_type_index, class, name_and_type)
            },
            ConstantInfo::NameAndType(n) => {
                let name = match self.get_utf8(n.name_index) {
                    Ok(t) => t,
                    Err(_) => return false,
                };
                let desc = match self.get_utf8(n.descriptor_index) {
                    Ok(t) => t,
                    Err(_) => return false,
                };
                push_kind(s, "NameAndType");
                push_char(s, '\t');
                push_index_pair(s, n.name_index, n.descriptor_index);
                push_str(s, "\t\t // \"");
                push_str(s, name.as_str());
                push_str(s, "\":");
                push_str(s, desc.as_str());
                proof {
                    reveal_strlit("\t");
                    reveal_strlit("\t\t // \"");
                    reveal_strlit("\":");
                }
                assert(s@ =~= old(s)@ + (spec_pad_right("NameAndType"@, 16) + "\t"@
                    + spec_index_pair(n.name_index, n.descriptor_index) + "\t\t // \""@ + name@
                    + "\":"@ + desc@));
                true
            },
            _ => {
                push_kind(s, "/* TODO */");
                push_char(s, '\t');
                push_debug_constant(s, entry);
                proof {
                    reveal_strlit("\t");
                }
                assert(s@ =~= old(s)@ + (spec_pad_right("/* TODO */"@, 16) + "\t"@
                    + spec_debug_constant(entry@)));
                true
            },
        }
    }

    /// Appends the line of the entry at `pos`.
    fn push_entry_line(&self, s: &mut String, pos: usize) -> (ok: bool)
        requires
            1 <= pos < self@.len(),
        ensures
            match spec_entry_line(self@, pos as nat) {
                Some(text) => ok && final(s)@ == old(s)@ + text,
                None => !ok,
            },
    {
        push_char(s, '#');
        push_decimal(s, pos as u64);
        push_str(s, " = ");
        let ok = self.push_entry_body(s, pos);
        if !ok {
            return false;
        }
        push_char(s, '\n');
        proof {
            reveal_strlit("#");
            reveal_strlit(" = ");
            reveal_strlit("\n");
            let body = spec_entry_body(self@, pos as nat)->0;
            assert(s@ =~= old(s)@ + ("#"@ + spec_decimal(pos as nat) + " = "@ + body + "\n"@));
        }
        true
    }

    /// The pool in `javap` style: for each entry after index 0, `#i = `, the entry's kind
    /// left-aligned in a field of 16, a tab, and the entry: the text of a
    /// `Utf8`; for a `Class` or `String` the index it refers to and, after
    /// `//`, the text there; for a member reference or a name-and-type the
    /// indices and `Class."name":descriptor`. `None` when a reference that a
    /// line shows does not resolve.
    pub fn to_string(&self) -> (text: Option<String>)
        ensures
            match spec_pool_text(self@) {
                Some(t) => text matches Some(s) && s@ == t,
                None => text is None,
            },
    {
        let len = self.entries.len();
        let mut out = String::new();
        let mut pos: usize = 1;
        while pos < len
            invariant
                1 <= pos,
                pos <= len || pos == 1,
                len == self@.len(),
                spec_pool_lines(self@, pos as nat) == Some(out@),
            decreases len - pos,
        {
            let ok = self.push_entry_line(&mut out, pos);
            if !ok {
                proof {
                    lemma_pool_lines_stay_none(self@, (pos + 1) as nat, len as nat);
                }
                return None;
            }
            pos = pos + 1;
        }
        proof {
            if len == 0 {
                assert(spec_pool_lines(self@, 1) == spec_pool_lines(self@, 0));
            }
        }
        Some(out)
    }
}

} // verus!
