//! The binary layout, stated as parsers over byte sequences.
//!
//! Each parser takes the whole input and a position, and yields either the
//! decoded value with the position just past it, or `None` when the input
//! ends too early.

use vstd::prelude::*;
use crate::class::{AttributeView, ClassFileView, EntryView, MemberView};

verus! {

/// Value of two bytes, most significant first.
pub open spec fn be16(b: Seq<u8>) -> u16 {
    (b[0] as int * 256 + b[1] as int) as u16
}

/// Value of four bytes, most significant first.
pub open spec fn be32(b: Seq<u8>) -> u32 {
    (((b[0] as int * 256 + b[1] as int) * 256 + b[2] as int) * 256 + b[3] as int) as u32
}

/// The next `n` bytes at `p`.
pub open spec fn take(s: Seq<u8>, p: int, n: int) -> Option<(Seq<u8>, int)> {
    if 0 <= p && 0 <= n && p + n <= s.len() {
        Some((s.subrange(p, p + n), p + n))
    } else {
        None
    }
}

/// One byte.
pub open spec fn parse_u8(s: Seq<u8>, p: int) -> Option<(u8, int)> {
    if 0 <= p && p + 1 <= s.len() {
        Some((s[p], p + 1))
    } else {
        None
    }
}

/// A big-endian 16-bit value.
pub open spec fn parse_u16(s: Seq<u8>, p: int) -> Option<(u16, int)> {
    if 0 <= p && p + 2 <= s.len() {
        Some((be16(s.subrange(p, p + 2)), p + 2))
    } else {
        None
    }
}

/// A big-endian 32-bit value.
pub open spec fn parse_u32(s: Seq<u8>, p: int) -> Option<(u32, int)> {
    if 0 <= p && p + 4 <= s.len() {
        Some((be32(s.subrange(p, p + 4)), p + 4))
    } else {
        None
    }
}

/// Two big-endian 16-bit values in a row.
pub open spec fn parse_u16_pair(s: Seq<u8>, p: int) -> Option<(u16, u16, int)> {
    match parse_u16(s, p) {
        Some((a, q)) => match parse_u16(s, q) {
            Some((b, r)) => Some((a, b, r)),
            None => None,
        },
        None => None,
    }
}

/// Two big-endian 32-bit values in a row.
pub open spec fn parse_u32_pair(s: Seq<u8>, p: int) -> Option<(u32, u32, int)> {
    match parse_u32(s, p) {
        Some((a, q)) => match parse_u32(s, q) {
            Some((b, r)) => Some((a, b, r)),
            None => None,
        },
        None => None,
    }
}

/// Tag bytes of the constant-pool entry kinds.
pub const CONSTANT_UTF8: u8 = 1;
pub const CONSTANT_INTEGER: u8 = 3;
pub const CONSTANT_FLOAT: u8 = 4;
pub const CONSTANT_LONG: u8 = 5;
pub const CONSTANT_DOUBLE: u8 = 6;
pub const CONSTANT_CLASS: u8 = 7;
pub const CONSTANT_STRING: u8 = 8;
pub const CONSTANT_FIELDREF: u8 = 9;
pub const CONSTANT_METHODREF: u8 = 10;
pub const CONSTANT_INTERFACEMETHODREF: u8 = 11;
pub const CONSTANT_NAMEANDTYPE: u8 = 12;
pub const CONSTANT_METHODHANDLE: u8 = 15;
pub const CONSTANT_METHODTYPE: u8 = 16;
pub const CONSTANT_INVOKEDYNAMIC: u8 = 18;

/// Tags whose entry stands for two pool slots.
pub open spec fn is_wide(tag: u8) -> bool {
    tag == CONSTANT_LONG || tag == CONSTANT_DOUBLE
}

/// The tags that select a payload layout.
pub open spec fn is_known_tag(tag: u8) -> bool {
    tag == CONSTANT_UTF8 || (CONSTANT_INTEGER <= tag && tag <= CONSTANT_NAMEANDTYPE)
        || tag == CONSTANT_METHODHANDLE || tag == CONSTANT_METHODTYPE
        || tag == CONSTANT_INVOKEDYNAMIC
}

/// How many pool slots an entry with this tag occupies.
pub open spec fn slots(tag: u8) -> int {
    if is_wide(tag) {
        2
    } else {
        1
    }
}

/// What a string decoded from these bytes holds, invalid sequences replaced.
pub uninterp spec fn utf8_lossy(b: Seq<u8>) -> Seq<char>;

/// A 16-bit byte length, then that many bytes read as text.
pub open spec fn parse_text(s: Seq<u8>, p: int) -> Option<(Seq<char>, int)> {
    match parse_u16(s, p) {
        Some((n, q)) => match take(s, q, n as int) {
            Some((b, r)) => Some((utf8_lossy(b), r)),
            None => None,
        },
        None => None,
    }
}

/// The payload of an entry whose tag byte came just before `p`.
pub open spec fn parse_entry(s: Seq<u8>, p: int, tag: u8) -> Option<(EntryView, int)> {
    if tag == CONSTANT_CLASS {
        match parse_u16(s, p) {
            Some((a, q)) => Some((EntryView::ConstClass { name_ix: a }, q)),
            None => None,
        }
    } else if tag == CONSTANT_FIELDREF {
        match parse_u16_pair(s, p) {
            Some((a, b, q)) => Some((EntryView::ConstFieldRef { class_ix: a, name_and_type_ix: b }, q)),
            None => None,
        }
    } else if tag == CONSTANT_METHODREF {
        match parse_u16_pair(s, p) {
            Some((a, b, q)) => Some((EntryView::ConstMethodRef { class_ix: a, name_and_type_ix: b }, q)),
            None => None,
        }
    } else if tag == CONSTANT_INTERFACEMETHODREF {
        match parse_u16_pair(s, p) {
            Some((a, b, q)) => Some(
                (EntryView::ConstInterfaceMethodRef { class_ix: a, name_and_type_ix: b }, q),
            ),
            None => None,
        }
    } else if tag == CONSTANT_STRING {
        match parse_u16(s, p) {
            Some((a, q)) => Some((EntryView::ConstString { string_ix: a }, q)),
            None => None,
        }
    } else if tag == CONSTANT_INTEGER {
        match parse_u32(s, p) {
            Some((a, q)) => Some((EntryView::ConstInt { int_word: a }, q)),
            None => None,
        }
    } else if tag == CONSTANT_FLOAT {
        match parse_u32(s, p) {
            Some((a, q)) => Some((EntryView::ConstFloat { float_word: a }, q)),
            None => None,
        }
    } else if tag == CONSTANT_LONG {
        match parse_u32_pair(s, p) {
            Some((a, b, q)) => Some((EntryView::ConstLong { high_word: a, low_word: b }, q)),
            None => None,
        }
    } else if tag == CONSTANT_DOUBLE {
        match parse_u32_pair(s, p) {
            Some((a, b, q)) => Some((EntryView::ConstDouble { high_word: a, low_word: b }, q)),
            None => None,
        }
    } else if tag == CONSTANT_UTF8 {
        match parse_text(s, p) {
            Some((t, q)) => Some((EntryView::ConstUtf8 { string: t }, q)),
            None => None,
        }
    } else if tag == CONSTANT_METHODHANDLE {
        match parse_u8(s, p) {
            Some((k, q)) => match parse_u16(s, q) {
                Some((a, r)) => Some(
                    (EntryView::ConstMethodHandle { reference_kind: k, reference_ix: a }, r),
                ),
                None => None,
            },
            None => None,
        }
    } else if tag == CONSTANT_NAMEANDTYPE {
        match parse_u16_pair(s, p) {
            Some((a, b, q)) => Some((EntryView::ConstNameAndType { name_ix: a, descriptor_ix: b }, q)),
            None => None,
        }
    } else if tag == CONSTANT_METHODTYPE {
        match parse_u16(s, p) {
            Some((a, q)) => Some((EntryView::ConstMethodType { descriptor_ix: a }, q)),
            None => None,
        }
    } else if tag == CONSTANT_INVOKEDYNAMIC {
        match parse_u16_pair(s, p) {
            Some((a, b, q)) => Some(
                (EntryView::ConstInvokeDynamic { boostrap_method_attr_ix: a, name_and_type_ix: b }, q),
            ),
            None => None,
        }
    } else {
        Some((EntryView::ConstInvalid { tag }, p))
    }
}

/// The entries that one tagged record contributes to the pool: the entry,
/// and for a wide one the unused slot after it.
pub open spec fn slot_entries(tag: u8, e: EntryView) -> Seq<EntryView> {
    if is_wide(tag) {
        seq![e, EntryView::ConstUnused]
    } else {
        seq![e]
    }
}

/// Puts `xs` in front of the entries of a parse result.
pub open spec fn prepend(xs: Seq<EntryView>, o: Option<(Seq<EntryView>, int)>) -> Option<
    (Seq<EntryView>, int),
> {
    match o {
        Some((rest, end)) => Some((xs + rest, end)),
        None => None,
    }
}

pub proof fn lemma_prepend_assoc(
    xs: Seq<EntryView>,
    ys: Seq<EntryView>,
    o: Option<(Seq<EntryView>, int)>,
)
    ensures
        prepend(xs, prepend(ys, o)) == prepend(xs + ys, o),
{
    if let Some((rest, end)) = o {
        assert((xs + ys) + rest =~= xs + (ys + rest));
    }
}

/// The pool entries from slot `ix` up to the declared count `n`.
pub open spec fn pool_from(s: Seq<u8>, p: int, ix: int, n: int) -> Option<(Seq<EntryView>, int)>
    decreases n + 1 - ix,
{
    if ix >= n {
        Some((Seq::empty(), p))
    } else {
        match parse_u8(s, p) {
            Some((tag, q)) => match parse_entry(s, q, tag) {
                Some((e, r)) => {
                    let next = if is_wide(tag) {
                        ix + 2
                    } else {
                        ix + 1
                    };
                    prepend(slot_entries(tag, e), pool_from(s, r, next, n))
                },
                None => None,
            },
            None => None,
        }
    }
}

/// A constant pool whose declared count is `n`: slots 1 to `n - 1`.
pub open spec fn parse_pool(s: Seq<u8>, p: int, n: u16) -> Option<(Seq<EntryView>, int)> {
    pool_from(s, p, 1, n as int)
}

/// One attribute: name index, 32-bit length, that many bytes.
pub open spec fn parse_attribute(s: Seq<u8>, p: int) -> Option<(AttributeView, int)> {
    match parse_u16(s, p) {
        Some((name, q)) => match parse_u32(s, q) {
            Some((len, r)) => match take(s, r, len as int) {
                Some((info, e)) => Some((AttributeView { attribute_name_ix: name, info }, e)),
                None => None,
            },
            None => None,
        },
        None => None,
    }
}

/// `n` attributes in a row.
pub open spec fn attribute_list(s: Seq<u8>, p: int, n: nat) -> Option<(Seq<AttributeView>, int)>
    decreases n,
{
    if n == 0 {
        Some((Seq::empty(), p))
    } else {
        match attribute_list(s, p, (n - 1) as nat) {
            Some((xs, q)) => match parse_attribute(s, q) {
                Some((a, r)) => Some((xs.push(a), r)),
                None => None,
            },
            None => None,
        }
    }
}

/// A run of attributes that fails to parse stays failed when it is longer.
pub proof fn lemma_attribute_list_none(s: Seq<u8>, p: int, m: nat, k: nat)
    requires
        attribute_list(s, p, m) is None,
        m <= k,
    ensures
        attribute_list(s, p, k) is None,
    decreases k - m,
{
    if k > m {
        lemma_attribute_list_none(s, p, m, (k - 1) as nat);
    }
}

/// A count, then that many attributes.
pub open spec fn parse_attributes(s: Seq<u8>, p: int) -> Option<(Seq<AttributeView>, int)> {
    match parse_u16(s, p) {
        Some((n, q)) => attribute_list(s, q, n as nat),
        None => None,
    }
}

/// `n` interface indices in a row.
pub open spec fn interface_list(s: Seq<u8>, p: int, n: nat) -> Option<(Seq<u16>, int)>
    decreases n,
{
    if n == 0 {
        Some((Seq::empty(), p))
    } else {
        match interface_list(s, p, (n - 1) as nat) {
            Some((xs, q)) => match parse_u16(s, q) {
                Some((a, r)) => Some((xs.push(a), r)),
                None => None,
            },
            None => None,
        }
    }
}

/// A run of interface indices that fails to parse stays failed when it is longer.
pub proof fn lemma_interface_list_none(s: Seq<u8>, p: int, m: nat, k: nat)
    requires
        interface_list(s, p, m) is None,
        m <= k,
    ensures
        interface_list(s, p, k) is None,
    decreases k - m,
{
    if k > m {
        lemma_interface_list_none(s, p, m, (k - 1) as nat);
    }
}

/// A count, then that many interface indices.
pub open spec fn parse_interfaces(s: Seq<u8>, p: int) -> Option<(Seq<u16>, int)> {
    match parse_u16(s, p) {
        Some((n, q)) => interface_list(s, q, n as nat),
        None => None,
    }
}

/// A field or method record: flags, name, descriptor, attributes.
pub open spec fn parse_member(s: Seq<u8>, p: int) -> Option<(MemberView, int)> {
    match parse_u16(s, p) {
        Some((flags, q)) => match parse_u16_pair(s, q) {
            Some((name, desc, r)) => match parse_attributes(s, r) {
                Some((attrs, e)) => Some(
                    (
                        MemberView {
                            access_flags: flags,
                            name_ix: name,
                            descriptor_ix: desc,
                            attributes: attrs,
                        },
                        e,
                    ),
                ),
                None => None,
            },
            None => None,
        },
        None => None,
    }
}

/// `n` member records in a row.
pub open spec fn member_list(s: Seq<u8>, p: int, n: nat) -> Option<(Seq<MemberView>, int)>
    decreases n,
{
    if n == 0 {
        Some((Seq::empty(), p))
    } else {
        match member_list(s, p, (n - 1) as nat) {
            Some((xs, q)) => match parse_member(s, q) {
                Some((m, r)) => Some((xs.push(m), r)),
                None => None,
            },
            None => None,
        }
    }
}

/// A run of member records that fails to parse stays failed when it is longer.
pub proof fn lemma_member_list_none(s: Seq<u8>, p: int, m: nat, k: nat)
    requires
        member_list(s, p, m) is None,
        m <= k,
    ensures
        member_list(s, p, k) is None,
    decreases k - m,
{
    if k > m {
        lemma_member_list_none(s, p, m, (k - 1) as nat);
    }
}

/// A count, then that many member records.
pub open spec fn parse_members(s: Seq<u8>, p: int) -> Option<(Seq<MemberView>, int)> {
    match parse_u16(s, p) {
        Some((n, q)) => member_list(s, q, n as nat),
        None => None,
    }
}

/// The whole file from position `p`: header, pool, access flags, own and
/// parent class indices, interfaces, fields, methods, attributes.
pub open spec fn parse_class(s: Seq<u8>, p: int) -> Option<(ClassFileView, int)> {
    match parse_u32(s, p) {
        None => None,
        Some((magic, after_magic)) => match parse_u16_pair(s, after_magic) {
            None => None,
            Some((minor, major, after_version)) => match parse_u16(s, after_version) {
                None => None,
                Some((cp_count, after_count)) => match parse_pool(s, after_count, cp_count) {
                    None => None,
                    Some((pool, after_pool)) => match parse_u16_pair(s, after_pool) {
                        None => None,
                        Some((access_flags, this_class, after_this)) => match parse_u16(s, after_this) {
                            None => None,
                            Some((super_class, after_super)) => match parse_interfaces(s, after_super) {
                                None => None,
                                Some((interfaces, after_interfaces)) => match parse_members(s, after_interfaces) {
                                    None => None,
                                    Some((fields, after_fields)) => match parse_members(s, after_fields) {
                                        None => None,
                                        Some((methods, after_methods)) => match parse_attributes(s, after_methods) {
                                            None => None,
                                            Some((attributes, end)) => Some(
                                                (
                                                    ClassFileView {
                                                        magic,
                                                        minor,
                                                        major,
                                                        constant_pool: pool,
                                                        access_flags,
                                                        this_class,
                                                        super_class,
                                                        interfaces,
                                                        fields,
                                                        methods,
                                                        attributes,
                                                    },
                                                    end,
                                                ),
                                            ),
                                        },
                                    },
                                },
                            },
                        },
                    },
                },
            },
        },
    }
}

/// The document that a buffer decodes to, read from its first byte; bytes
/// after the last attribute are not looked at.
pub open spec fn decode_class(s: Seq<u8>) -> Option<ClassFileView> {
    match parse_class(s, 0) {
        Some((v, _)) => Some(v),
        None => None,
    }
}

} // verus!
