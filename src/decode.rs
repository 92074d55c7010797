//! Decoders that drive a cursor through each part of the file.

use vstd::prelude::*;
use crate::class::{
    attributes_view, entries_view, fields_view, interfaces_view, methods_view, Attribute, ClassFile,
    ConstantPoolEntry, EntryView, Field, Interface, Method,
};
use crate::cursor::{read16, read32, read8, take_bytes, ByteCursor, DecodeError};
use crate::format::{
    attribute_list, decode_class, interface_list, lemma_attribute_list_none,
    lemma_interface_list_none, lemma_member_list_none, lemma_prepend_assoc, member_list,
    parse_attribute, parse_attributes, parse_entry, parse_interfaces, parse_member, parse_members,
    parse_pool, parse_text, parse_u16, pool_from, prepend, slot_entries, utf8_lossy,
    CONSTANT_CLASS, CONSTANT_DOUBLE, CONSTANT_FIELDREF, CONSTANT_FLOAT, CONSTANT_INTEGER,
    CONSTANT_INTERFACEMETHODREF, CONSTANT_INVOKEDYNAMIC, CONSTANT_LONG, CONSTANT_METHODHANDLE,
    CONSTANT_METHODREF, CONSTANT_METHODTYPE, CONSTANT_NAMEANDTYPE, CONSTANT_STRING, CONSTANT_UTF8,
};

verus! {

/// Relies on `String::from_utf8_lossy`: the text that the bytes encode,
/// each invalid sequence replaced; the result depends on the bytes alone.
#[verifier::external_body]
fn text_of(b: &[u8]) -> (r: String)
    ensures
        r@ == utf8_lossy(b@),
{
    String::from_utf8_lossy(b).into_owned()
}

/// Reads a length-prefixed text.
pub fn read_string(c: &mut ByteCursor) -> (r: Result<String, DecodeError>)
    ensures
        final(c).data() == old(c).data(),
        match r {
            Ok(t) => parse_text(old(c).data(), old(c).pos()) == Some((t@, final(c).pos())),
            Err(_) => parse_text(old(c).data(), old(c).pos()) is None,
        },
{
    let n = read16(c)?;
    let bytes = take_bytes(c, n as usize)?;
    Ok(text_of(bytes.as_slice()))
}

/// Reads the payload of a pool entry whose tag byte has been read.
pub fn get_constant_pool_entry(c: &mut ByteCursor, tag: u8) -> (r: Result<
    ConstantPoolEntry,
    DecodeError,
>)
    ensures
        final(c).data() == old(c).data(),
        match r {
            Ok(e) => parse_entry(old(c).data(), old(c).pos(), tag) == Some((e@, final(c).pos())),
            Err(_) => parse_entry(old(c).data(), old(c).pos(), tag) is None,
        },
{
    if tag == CONSTANT_CLASS {
        let a = read16(c)?;
        Ok(ConstantPoolEntry::ConstClass { name_ix: a })
    } else if tag == CONSTANT_FIELDREF {
        let a = read16(c)?;
        let b = read16(c)?;
        Ok(ConstantPoolEntry::ConstFieldRef { class_ix: a, name_and_type_ix: b })
    } else if tag == CONSTANT_METHODREF {
        let a = read16(c)?;
        let b = read16(c)?;
        Ok(ConstantPoolEntry::ConstMethodRef { class_ix: a, name_and_type_ix: b })
    } else if tag == CONSTANT_INTERFACEMETHODREF {
        let a = read16(c)?;
        let b = read16(c)?;
        Ok(ConstantPoolEntry::ConstInterfaceMethodRef { class_ix: a, name_and_type_ix: b })
    } else if tag == CONSTANT_STRING {
        let a = read16(c)?;
        Ok(ConstantPoolEntry::ConstString { string_ix: a })
    } else if tag == CONSTANT_INTEGER {
        let a = read32(c)?;
        Ok(ConstantPoolEntry::ConstInt { int_word: a })
    } else if tag == CONSTANT_FLOAT {
        let a = read32(c)?;
        Ok(ConstantPoolEntry::ConstFloat { float_word: a })
    } else if tag == CONSTANT_LONG {
        let a = read32(c)?;
        let b = read32(c)?;
        Ok(ConstantPoolEntry::ConstLong { high_word: a, low_word: b })
    } else if tag == CONSTANT_DOUBLE {
        let a = read32(c)?;
        let b = read32(c)?;
        Ok(ConstantPoolEntry::ConstDouble { high_word: a, low_word: b })
    } else if tag == CONSTANT_UTF8 {
        let t = read_string(c)?;
        Ok(ConstantPoolEntry::ConstUtf8 { string: t })
    } else if tag == CONSTANT_METHODHANDLE {
        let k = read8(c)?;
        let a = read16(c)?;
        Ok(ConstantPoolEntry::ConstMethodHandle { reference_kind: k, reference_ix: a })
    } else if tag == CONSTANT_NAMEANDTYPE {
        let a = read16(c)?;
        let b = read16(c)?;
        Ok(ConstantPoolEntry::ConstNameAndType { name_ix: a, descriptor_ix: b })
    } else if tag == CONSTANT_METHODTYPE {
        let a = read16(c)?;
        Ok(ConstantPoolEntry::ConstMethodType { descriptor_ix: a })
    } else if tag == CONSTANT_INVOKEDYNAMIC {
        let a = read16(c)?;
        let b = read16(c)?;
        Ok(ConstantPoolEntry::ConstInvokeDynamic { boostrap_method_attr_ix: a, name_and_type_ix: b })
    } else {
        Ok(ConstantPoolEntry::ConstInvalid { tag })
    }
}

/// Reads a constant pool whose declared count is `cp_count`: one entry per
/// slot from 1 up to `cp_count - 1`, with an unused entry after each wide one.
pub fn get_constant_pool(c: &mut ByteCursor, cp_count: u16) -> (r: Result<
    Vec<ConstantPoolEntry>,
    DecodeError,
>)
    ensures
        final(c).data() == old(c).data(),
        match r {
            Ok(pool) => parse_pool(old(c).data(), old(c).pos(), cp_count) == Some(
                (entries_view(pool@), final(c).pos()),
            ),
            Err(_) => parse_pool(old(c).data(), old(c).pos(), cp_count) is None,
        },
{
    let ghost s = c.data();
    let ghost p0 = c.pos();
    let ghost n = cp_count as int;
    let mut pool: Vec<ConstantPoolEntry> = Vec::new();
    let mut ix: u32 = 1;
    while ix < cp_count as u32
        invariant
            c.data() == s,
            s == old(c).data(),
            p0 == old(c).pos(),
            n == cp_count as int,
            1 <= ix <= n + 1,
            pool_from(s, p0, 1, n) == prepend(entries_view(pool@), pool_from(s, c.pos(), ix as int, n)),
        decreases n + 1 - ix,
    {
        let ghost before = c.pos();
        let ghost done = entries_view(pool@);
        let tag = read8(c)?;
        let entry = get_constant_pool_entry(c, tag)?;
        let ghost e = entry@;
        pool.push(entry);
        if tag == CONSTANT_LONG || tag == CONSTANT_DOUBLE {
            pool.push(ConstantPoolEntry::ConstUnused);
            ix = ix + 2;
        } else {
            ix = ix + 1;
        }
        proof {
            assert(entries_view(pool@) =~= done + slot_entries(tag, e));
            lemma_prepend_assoc(done, slot_entries(tag, e), pool_from(s, c.pos(), ix as int, n));
        }
    }
    assert(entries_view(pool@) + Seq::<EntryView>::empty() =~= entries_view(pool@));
    Ok(pool)
}

/// Reads a count, then that many attributes, each payload copied verbatim.
pub fn get_attributes(c: &mut ByteCursor) -> (r: Result<Vec<Attribute>, DecodeError>)
    ensures
        final(c).data() == old(c).data(),
        match r {
            Ok(attrs) => parse_attributes(old(c).data(), old(c).pos()) == Some(
                (attributes_view(attrs@), final(c).pos()),
            ),
            Err(_) => parse_attributes(old(c).data(), old(c).pos()) is None,
        },
{
    let ghost s = c.data();
    let count = read16(c)?;
    let ghost p0 = c.pos();
    let mut result: Vec<Attribute> = Vec::new();
    let mut ix: u16 = 0;
    while ix < count
        invariant
            c.data() == s,
            s == old(c).data(),
            parse_u16(s, old(c).pos()) == Some((count, p0)),
            ix <= count,
            attribute_list(s, p0, ix as nat) == Some((attributes_view(result@), c.pos())),
        decreases count - ix,
    {
        let ghost done = attributes_view(result@);
        proof {
            if parse_attribute(s, c.pos()) is None {
                lemma_attribute_list_none(s, p0, (ix + 1) as nat, count as nat);
            }
        }
        let attribute_name_ix = read16(c)?;
        let length = read32(c)?;
        let info = take_bytes(c, length as usize)?;
        let a = Attribute { attribute_name_ix, info };
        result.push(a);
        ix = ix + 1;
        assert(attributes_view(result@) =~= done.push(a@));
    }
    Ok(result)
}

/// Reads a count, then that many interface indices, in file order.
pub fn get_interfaces(c: &mut ByteCursor) -> (r: Result<Vec<Interface>, DecodeError>)
    ensures
        final(c).data() == old(c).data(),
        match r {
            Ok(v) => parse_interfaces(old(c).data(), old(c).pos()) == Some(
                (interfaces_view(v@), final(c).pos()),
            ),
            Err(_) => parse_interfaces(old(c).data(), old(c).pos()) is None,
        },
{
    let ghost s = c.data();
    let count = read16(c)?;
    let ghost p0 = c.pos();
    let mut result: Vec<Interface> = Vec::new();
    let mut ix: u16 = 0;
    while ix < count
        invariant
            c.data() == s,
            s == old(c).data(),
            parse_u16(s, old(c).pos()) == Some((count, p0)),
            ix <= count,
            interface_list(s, p0, ix as nat) == Some((interfaces_view(result@), c.pos())),
        decreases count - ix,
    {
        let ghost done = interfaces_view(result@);
        proof {
            if parse_u16(s, c.pos()) is None {
                lemma_interface_list_none(s, p0, (ix + 1) as nat, count as nat);
            }
        }
        let interface_ix = read16(c)?;
        let i = Interface { interface_ix };
        result.push(i);
        ix = ix + 1;
        assert(interfaces_view(result@) =~= done.push(i@));
    }
    Ok(result)
}

/// Reads a count, then that many field records, in file order.
pub fn get_fields(c: &mut ByteCursor) -> (r: Result<Vec<Field>, DecodeError>)
    ensures
        final(c).data() == old(c).data(),
        match r {
            Ok(v) => parse_members(old(c).data(), old(c).pos()) == Some(
                (fields_view(v@), final(c).pos()),
            ),
            Err(_) => parse_members(old(c).data(), old(c).pos()) is None,
        },
{
    let ghost s = c.data();
    let count = read16(c)?;
    let ghost p0 = c.pos();
    let mut result: Vec<Field> = Vec::new();
    let mut ix: u16 = 0;
    while ix < count
        invariant
            c.data() == s,
            s == old(c).data(),
            parse_u16(s, old(c).pos()) == Some((count, p0)),
            ix <= count,
            member_list(s, p0, ix as nat) == Some((fields_view(result@), c.pos())),
        decreases count - ix,
    {
        let ghost done = fields_view(result@);
        proof {
            if parse_member(s, c.pos()) is None {
                lemma_member_list_none(s, p0, (ix + 1) as nat, count as nat);
            }
        }
        let access_flags = read16(c)?;
        let name_ix = read16(c)?;
        let descriptor_ix = read16(c)?;
        let attributes = get_attributes(c)?;
        let f = Field { access_flags, name_ix, descriptor_ix, attributes };
        result.push(f);
        ix = ix + 1;
        assert(fields_view(result@) =~= done.push(f@));
    }
    Ok(result)
}

/// Reads a count, then that many method records, in file order.
pub fn get_methods(c: &mut ByteCursor) -> (r: Result<Vec<Method>, DecodeError>)
    ensures
        final(c).data() == old(c).data(),
        match r {
            Ok(v) => parse_members(old(c).data(), old(c).pos()) == Some(
                (methods_view(v@), final(c).pos()),
            ),
            Err(_) => parse_members(old(c).data(), old(c).pos()) is None,
        },
{
    let ghost s = c.data();
    let count = read16(c)?;
    let ghost p0 = c.pos();
    let mut result: Vec<Method> = Vec::new();
    let mut ix: u16 = 0;
    while ix < count
        invariant
            c.data() == s,
            s == old(c).data(),
            parse_u16(s, old(c).pos()) == Some((count, p0)),
            ix <= count,
            member_list(s, p0, ix as nat) == Some((methods_view(result@), c.pos())),
        decreases count - ix,
    {
        let ghost done = methods_view(result@);
        proof {
            if parse_member(s, c.pos()) is None {
                lemma_member_list_none(s, p0, (ix + 1) as nat, count as nat);
            }
        }
        let access_flags = read16(c)?;
        let name_ix = read16(c)?;
        let descriptor_ix = read16(c)?;
        let attributes = get_attributes(c)?;
        let m = Method { access_flags, name_ix, descriptor_ix, attributes };
        result.push(m);
        ix = ix + 1;
        assert(methods_view(result@) =~= done.push(m@));
    }
    Ok(result)
}

/// Decodes a whole file held in memory, front to back in one pass.
pub fn read_class_file(bytes: Vec<u8>) -> (r: Result<ClassFile, DecodeError>)
    ensures
        match r {
            Ok(cf) => decode_class(bytes@) == Some(cf@),
            Err(e) => decode_class(bytes@) is None && e == DecodeError::UnexpectedEndOfInput,
        },
{
    let mut c = ByteCursor::new(bytes);
    let magic = read32(&mut c)?;
    let minor = read16(&mut c)?;
    let major = read16(&mut c)?;
    let cp_count = read16(&mut c)?;
    let constant_pool = get_constant_pool(&mut c, cp_count)?;
    let access_flags = read16(&mut c)?;
    let this_class = read16(&mut c)?;
    let super_class = read16(&mut c)?;
    let interfaces = get_interfaces(&mut c)?;
    let fields = get_fields(&mut c)?;
    let methods = get_methods(&mut c)?;
    let attributes = get_attributes(&mut c)?;
    Ok(
        ClassFile {
            magic,
            minor,
            major,
            constant_pool,
            access_flags,
            this_class,
            super_class,
            interfaces,
            fields,
            methods,
            attributes,
        },
    )
}

} // verus!
