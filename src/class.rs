//! The decoded document and its parts, each with a mathematical view.

use vstd::prelude::*;

verus! {

/// One constant-pool entry, selected by its tag byte.
#[derive(Debug, PartialEq, Eq)]
pub enum ConstantPoolEntry {
    ConstClass { name_ix: u16 },
    ConstFieldRef { class_ix: u16, name_and_type_ix: u16 },
    ConstMethodRef { class_ix: u16, name_and_type_ix: u16 },
    ConstInterfaceMethodRef { class_ix: u16, name_and_type_ix: u16 },
    ConstString { string_ix: u16 },
    ConstInt { int_word: u32 },
    ConstFloat { float_word: u32 },
    ConstLong { high_word: u32, low_word: u32 },
    ConstDouble { high_word: u32, low_word: u32 },
    ConstUtf8 { string: String },
    ConstNameAndType { name_ix: u16, descriptor_ix: u16 },
    ConstMethodHandle { reference_kind: u8, reference_ix: u16 },
    ConstMethodType { descriptor_ix: u16 },
    ConstInvokeDynamic { boostrap_method_attr_ix: u16, name_and_type_ix: u16 },
    /// The slot after a long or double literal, which the format counts
    /// but does not encode.
    ConstUnused,
    /// A tag outside the known set, kept so that decoding goes on.
    ConstInvalid { tag: u8 },
}

/// A constant-pool entry as a mathematical value: text as characters.
pub enum EntryView {
    ConstClass { name_ix: u16 },
    ConstFieldRef { class_ix: u16, name_and_type_ix: u16 },
    ConstMethodRef { class_ix: u16, name_and_type_ix: u16 },
    ConstInterfaceMethodRef { class_ix: u16, name_and_type_ix: u16 },
    ConstString { string_ix: u16 },
    ConstInt { int_word: u32 },
    ConstFloat { float_word: u32 },
    ConstLong { high_word: u32, low_word: u32 },
    ConstDouble { high_word: u32, low_word: u32 },
    ConstUtf8 { string: Seq<char> },
    ConstNameAndType { name_ix: u16, descriptor_ix: u16 },
    ConstMethodHandle { reference_kind: u8, reference_ix: u16 },
    ConstMethodType { descriptor_ix: u16 },
    ConstInvokeDynamic { boostrap_method_attr_ix: u16, name_and_type_ix: u16 },
    ConstUnused,
    ConstInvalid { tag: u8 },
}

impl View for ConstantPoolEntry {
    type V = EntryView;

    open spec fn view(&self) -> EntryView {
        match self {
            ConstantPoolEntry::ConstClass { name_ix } => EntryView::ConstClass { name_ix: *name_ix },
            ConstantPoolEntry::ConstFieldRef { class_ix, name_and_type_ix } =>
                EntryView::ConstFieldRef { class_ix: *class_ix, name_and_type_ix: *name_and_type_ix },
            ConstantPoolEntry::ConstMethodRef { class_ix, name_and_type_ix } =>
                EntryView::ConstMethodRef { class_ix: *class_ix, name_and_type_ix: *name_and_type_ix },
            ConstantPoolEntry::ConstInterfaceMethodRef { class_ix, name_and_type_ix } =>
                EntryView::ConstInterfaceMethodRef {
                    class_ix: *class_ix,
                    name_and_type_ix: *name_and_type_ix,
                },
            ConstantPoolEntry::ConstString { string_ix } => EntryView::ConstString { string_ix: *string_ix },
            ConstantPoolEntry::ConstInt { int_word } => EntryView::ConstInt { int_word: *int_word },
            ConstantPoolEntry::ConstFloat { float_word } => EntryView::ConstFloat { float_word: *float_word },
            ConstantPoolEntry::ConstLong { high_word, low_word } =>
                EntryView::ConstLong { high_word: *high_word, low_word: *low_word },
            ConstantPoolEntry::ConstDouble { high_word, low_word } =>
                EntryView::ConstDouble { high_word: *high_word, low_word: *low_word },
            ConstantPoolEntry::ConstUtf8 { string } => EntryView::ConstUtf8 { string: string@ },
            ConstantPoolEntry::ConstNameAndType { name_ix, descriptor_ix } =>
                EntryView::ConstNameAndType { name_ix: *name_ix, descriptor_ix: *descriptor_ix },
            ConstantPoolEntry::ConstMethodHandle { reference_kind, reference_ix } =>
                EntryView::ConstMethodHandle { reference_kind: *reference_kind, reference_ix: *reference_ix },
            ConstantPoolEntry::ConstMethodType { descriptor_ix } =>
                EntryView::ConstMethodType { descriptor_ix: *descriptor_ix },
            ConstantPoolEntry::ConstInvokeDynamic { boostrap_method_attr_ix, name_and_type_ix } =>
                EntryView::ConstInvokeDynamic {
                    boostrap_method_attr_ix: *boostrap_method_attr_ix,
                    name_and_type_ix: *name_and_type_ix,
                },
            ConstantPoolEntry::ConstUnused => EntryView::ConstUnused,
            ConstantPoolEntry::ConstInvalid { tag } => EntryView::ConstInvalid { tag: *tag },
        }
    }
}

/// An implemented interface, as a pool index.
#[derive(Debug, PartialEq, Eq)]
pub struct Interface {
    pub interface_ix: u16,
}

impl View for Interface {
    type V = u16;

    open spec fn view(&self) -> u16 {
        self.interface_ix
    }
}

/// A named, opaque byte payload.
#[derive(Debug, PartialEq, Eq)]
pub struct Attribute {
    pub attribute_name_ix: u16,
    pub info: Vec<u8>,
}

pub struct AttributeView {
    pub attribute_name_ix: u16,
    pub info: Seq<u8>,
}

impl View for Attribute {
    type V = AttributeView;

    open spec fn view(&self) -> AttributeView {
        AttributeView { attribute_name_ix: self.attribute_name_ix, info: self.info@ }
    }
}

/// A declared field.
#[derive(Debug, PartialEq, Eq)]
pub struct Field {
    pub access_flags: u16,
    pub name_ix: u16,
    pub descriptor_ix: u16,
    pub attributes: Vec<Attribute>,
}

/// A declared method.
#[derive(Debug, PartialEq, Eq)]
pub struct Method {
    pub access_flags: u16,
    pub name_ix: u16,
    pub descriptor_ix: u16,
    pub attributes: Vec<Attribute>,
}

/// Fields and methods share one record shape.
pub struct MemberView {
    pub access_flags: u16,
    pub name_ix: u16,
    pub descriptor_ix: u16,
    pub attributes: Seq<AttributeView>,
}

impl View for Field {
    type V = MemberView;

    open spec fn view(&self) -> MemberView {
        MemberView {
            access_flags: self.access_flags,
            name_ix: self.name_ix,
            descriptor_ix: self.descriptor_ix,
            attributes: attributes_view(self.attributes@),
        }
    }
}

impl View for Method {
    type V = MemberView;

    open spec fn view(&self) -> MemberView {
        MemberView {
            access_flags: self.access_flags,
            name_ix: self.name_ix,
            descriptor_ix: self.descriptor_ix,
            attributes: attributes_view(self.attributes@),
        }
    }
}

/// The whole decoded file.
#[derive(Debug, PartialEq, Eq)]
pub struct ClassFile {
    pub magic: u32,
    pub minor: u16,
    pub major: u16,
    pub constant_pool: Vec<ConstantPoolEntry>,
    pub access_flags: u16,
    pub this_class: u16,
    pub super_class: u16,
    pub interfaces: Vec<Interface>,
    pub fields: Vec<Field>,
    pub methods: Vec<Method>,
    pub attributes: Vec<Attribute>,
}

pub struct ClassFileView {
    pub magic: u32,
    pub minor: u16,
    pub major: u16,
    pub constant_pool: Seq<EntryView>,
    pub access_flags: u16,
    pub this_class: u16,
    pub super_class: u16,
    pub interfaces: Seq<u16>,
    pub fields: Seq<MemberView>,
    pub methods: Seq<MemberView>,
    pub attributes: Seq<AttributeView>,
}

impl View for ClassFile {
    type V = ClassFileView;

    open spec fn view(&self) -> ClassFileView {
        ClassFileView {
            magic: self.magic,
            minor: self.minor,
            major: self.major,
            constant_pool: entries_view(self.constant_pool@),
            access_flags: self.access_flags,
            this_class: self.this_class,
            super_class: self.super_class,
            interfaces: interfaces_view(self.interfaces@),
            fields: fields_view(self.fields@),
            methods: methods_view(self.methods@),
            attributes: attributes_view(self.attributes@),
        }
    }
}

pub open spec fn entries_view(v: Seq<ConstantPoolEntry>) -> Seq<EntryView> {
    v.map_values(|e: ConstantPoolEntry| e@)
}

pub open spec fn interfaces_view(v: Seq<Interface>) -> Seq<u16> {
    v.map_values(|i: Interface| i@)
}

pub open spec fn attributes_view(v: Seq<Attribute>) -> Seq<AttributeView> {
    v.map_values(|a: Attribute| a@)
}

pub open spec fn fields_view(v: Seq<Field>) -> Seq<MemberView> {
    v.map_values(|f: Field| f@)
}

pub open spec fn methods_view(v: Seq<Method>) -> Seq<MemberView> {
    v.map_values(|m: Method| m@)
}

} // verus!
