use vstd::prelude::*;

use once_cell::sync::OnceCell;

verus! {

/// An interned name: the handle an interner gives a string.
pub type Symbol = u32;

#[verifier::external_type_specification]
#[verifier::external_body]
#[verifier::reject_recursive_types(T)]
pub struct ExOnceCell<T>(OnceCell<T>);

/// What a cell of symbols holds: `None` while it is empty.
pub uninterp spec fn cell_contents(cell: OnceCell<Symbol>) -> Option<Symbol>;

/// `once_cell::sync::OnceCell::new`: documented as creating an empty cell.
#[verifier::external_body]
fn empty_symbol_cell() -> (cell: OnceCell<Symbol>)
    ensures
        cell_contents(cell) == None::<Symbol>,
{
    OnceCell::new()
}

/// A `Utf8` entry, with a slot for its interned symbol.
pub struct Utf8Entry {
    pub value: String,
    pub utf8_sym: OnceCell<Symbol>,
}

impl Utf8Entry {
    /// An entry for `value` whose symbol is not yet interned.
    pub fn new(value: String) -> (e: Self)
        ensures
            e.value@ == value@,
            cell_contents(e.utf8_sym) == None::<Symbol>,
    {
        Self { value, utf8_sym: empty_symbol_cell() }
    }
}

/// A `Class` entry, with a slot for its name's symbol.
pub struct ClassEntry {
    pub name_idx: u16,
    pub name_sym: OnceCell<Symbol>,
}

impl ClassEntry {
    /// An entry naming the class at `name_idx`, not yet resolved.
    pub fn new(name_idx: u16) -> (e: Self)
        ensures
            e.name_idx == name_idx,
            cell_contents(e.name_sym) == None::<Symbol>,
    {
        Self { name_idx, name_sym: empty_symbol_cell() }
    }
}

/// A `String` entry, with a slot for its text's symbol.
pub struct StringEntry {
    pub string_idx: u16,
    pub string_sym: OnceCell<Symbol>,
}

impl StringEntry {
    /// An entry for the text at `string_idx`, not yet resolved.
    pub fn new(string_idx: u16) -> (e: Self)
        ensures
            e.string_idx == string_idx,
            cell_contents(e.string_sym) == None::<Symbol>,
    {
        Self { string_idx, string_sym: empty_symbol_cell() }
    }
}

/// A `Methodref` entry, with a slot for its class's symbol.
pub struct MethodEntry {
    pub class_idx: u16,
    pub nat_idx: u16,
    pub class_sym: OnceCell<Symbol>,
}

impl MethodEntry {
    /// An entry for the method of `class_idx` named by `nat_idx`, not yet resolved.
    pub fn new(class_idx: u16, nat_idx: u16) -> (e: Self)
        ensures
            e.class_idx == class_idx,
            e.nat_idx == nat_idx,
            cell_contents(e.class_sym) == None::<Symbol>,
    {
        Self { class_idx, nat_idx, class_sym: empty_symbol_cell() }
    }
}

/// A resolved method reference.
#[derive(Copy, Clone)]
pub struct MethodEntryView {
    pub class_sym: Symbol,
    pub name_and_type: NameAndTypeEntryView,
}

impl MethodEntryView {
    pub fn new(class_sym: Symbol, name_and_type: NameAndTypeEntryView) -> (v: Self)
        ensures
            v.class_sym == class_sym,
            v.name_and_type == name_and_type,
    {
        Self { class_sym, name_and_type }
    }
}

/// A `Fieldref` entry, with a slot for its class's symbol.
pub struct FieldEntry {
    pub class_idx: u16,
    pub nat_idx: u16,
    pub class_sym: OnceCell<Symbol>,
}

impl FieldEntry {
    /// An entry for the field of `class_idx` named by `nat_idx`, not yet resolved.
    pub fn new(class_idx: u16, nat_idx: u16) -> (e: Self)
        ensures
            e.class_idx == class_idx,
            e.nat_idx == nat_idx,
            cell_contents(e.class_sym) == None::<Symbol>,
    {
        Self { class_idx, nat_idx, class_sym: empty_symbol_cell() }
    }
}

/// A resolved field reference.
pub struct FieldEntryView {
    pub class_sym: Symbol,
    pub name_and_type: NameAndTypeEntryView,
}

impl FieldEntryView {
    pub fn new(class_sym: Symbol, name_and_type: NameAndTypeEntryView) -> (v: Self)
        ensures
            v.class_sym == class_sym,
            v.name_and_type == name_and_type,
    {
        Self { class_sym, name_and_type }
    }
}

/// A `NameAndType` entry, with slots for its name's and descriptor's symbols.
pub struct NameAndTypeEntry {
    pub name_idx: u16,
    pub descriptor_idx: u16,
    pub name_sym: OnceCell<Symbol>,
    pub descriptor_sym: OnceCell<Symbol>,
}

impl NameAndTypeEntry {
    /// An entry for the name at `name_idx` and descriptor at `descriptor_idx`, not yet resolved.
    pub fn new(name_idx: u16, descriptor_idx: u16) -> (e: Self)
        ensures
            e.name_idx == name_idx,
            e.descriptor_idx == descriptor_idx,
            cell_contents(e.name_sym) == None::<Symbol>,
            cell_contents(e.descriptor_sym) == None::<Symbol>,
    {
        Self {
            name_idx,
            descriptor_idx,
            name_sym: empty_symbol_cell(),
            descriptor_sym: empty_symbol_cell(),
        }
    }
}

/// A resolved name and type.
#[derive(Copy, Clone)]
pub struct NameAndTypeEntryView {
    pub name_sym: Symbol,
    pub descriptor_sym: Symbol,
}

impl NameAndTypeEntryView {
    pub fn new(name_sym: Symbol, descriptor_sym: Symbol) -> (v: Self)
        ensures
            v.name_sym == name_sym,
            v.descriptor_sym == descriptor_sym,
    {
        Self { name_sym, descriptor_sym }
    }
}

} // verus!
