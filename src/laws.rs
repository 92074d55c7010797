//! Properties of the format that hold for every input.

use vstd::prelude::*;
use crate::class::{AttributeView, EntryView};
use crate::format::{
    attribute_list, be16, be32, decode_class, interface_list, is_known_tag, is_wide, member_list,
    parse_attribute, parse_attributes, parse_class, parse_entry, parse_interfaces, parse_member,
    parse_members, parse_pool, parse_text, parse_u16, parse_u16_pair, parse_u32, parse_u32_pair,
    parse_u8, pool_from, prepend, slot_entries, take,
};

verus! {

/// `t` is the first `t.len()` bytes of `s`.
pub open spec fn is_prefix(t: Seq<u8>, s: Seq<u8>) -> bool {
    t.len() <= s.len() && t == s.subrange(0, t.len() as int)
}

proof fn lemma_bytes_prefix(t: Seq<u8>, s: Seq<u8>, p: int, n: int)
    requires
        is_prefix(t, s),
        0 <= p,
        0 <= n,
        p + n <= t.len(),
    ensures
        t.subrange(p, p + n) == s.subrange(p, p + n),
{
    assert(t.subrange(p, p + n) =~= s.subrange(p, p + n));
}

proof fn lemma_take_prefix(t: Seq<u8>, s: Seq<u8>, p: int, n: int)
    requires
        is_prefix(t, s),
    ensures
        take(t, p, n) matches Some((v, e)) ==> e <= t.len() && take(s, p, n) == take(t, p, n),
{
    if take(t, p, n) is Some {
        lemma_bytes_prefix(t, s, p, n);
    }
}

proof fn lemma_u8_prefix(t: Seq<u8>, s: Seq<u8>, p: int)
    requires
        is_prefix(t, s),
    ensures
        parse_u8(t, p) matches Some((v, e)) ==> e <= t.len() && parse_u8(s, p) == parse_u8(t, p),
{
    if parse_u8(t, p) is Some {
        assert(t[p] == s.subrange(0, t.len() as int)[p]);
    }
}

proof fn lemma_u16_prefix(t: Seq<u8>, s: Seq<u8>, p: int)
    requires
        is_prefix(t, s),
    ensures
        parse_u16(t, p) matches Some((v, e)) ==> e <= t.len() && parse_u16(s, p) == parse_u16(t, p),
{
    if parse_u16(t, p) is Some {
        lemma_bytes_prefix(t, s, p, 2);
    }
}

proof fn lemma_u32_prefix(t: Seq<u8>, s: Seq<u8>, p: int)
    requires
        is_prefix(t, s),
    ensures
        parse_u32(t, p) matches Some((v, e)) ==> e <= t.len() && parse_u32(s, p) == parse_u32(t, p),
{
    if parse_u32(t, p) is Some {
        lemma_bytes_prefix(t, s, p, 4);
    }
}

proof fn lemma_u16_pair_prefix(t: Seq<u8>, s: Seq<u8>, p: int)
    requires
        is_prefix(t, s),
    ensures
        parse_u16_pair(t, p) matches Some((a, b, e)) ==> e <= t.len() && parse_u16_pair(s, p)
            == parse_u16_pair(t, p),
{
    lemma_u16_prefix(t, s, p);
    if let Some((a, q)) = parse_u16(t, p) {
        lemma_u16_prefix(t, s, q);
    }
}

proof fn lemma_u32_pair_prefix(t: Seq<u8>, s: Seq<u8>, p: int)
    requires
        is_prefix(t, s),
    ensures
        parse_u32_pair(t, p) matches Some((a, b, e)) ==> e <= t.len() && parse_u32_pair(s, p)
            == parse_u32_pair(t, p),
{
    lemma_u32_prefix(t, s, p);
    if let Some((a, q)) = parse_u32(t, p) {
        lemma_u32_prefix(t, s, q);
    }
}

proof fn lemma_text_prefix(t: Seq<u8>, s: Seq<u8>, p: int)
    requires
        is_prefix(t, s),
    ensures
        parse_text(t, p) matches Some((v, e)) ==> e <= t.len() && parse_text(s, p) == parse_text(t, p),
{
    lemma_u16_prefix(t, s, p);
    if let Some((n, q)) = parse_u16(t, p) {
        lemma_take_prefix(t, s, q, n as int);
    }
}

proof fn lemma_entry_prefix(t: Seq<u8>, s: Seq<u8>, p: int, tag: u8)
    requires
        is_prefix(t, s),
        p <= t.len(),
    ensures
        parse_entry(t, p, tag) matches Some((v, e)) ==> e <= t.len() && parse_entry(s, p, tag)
            == parse_entry(t, p, tag),
{
    lemma_u8_prefix(t, s, p);
    lemma_u16_prefix(t, s, p);
    lemma_u32_prefix(t, s, p);
    lemma_u16_pair_prefix(t, s, p);
    lemma_u32_pair_prefix(t, s, p);
    lemma_text_prefix(t, s, p);
    if let Some((k, q)) = parse_u8(t, p) {
        lemma_u16_prefix(t, s, q);
    }
}

proof fn lemma_pool_from_prefix(t: Seq<u8>, s: Seq<u8>, p: int, ix: int, n: int)
    requires
        is_prefix(t, s),
        p <= t.len(),
    ensures
        pool_from(t, p, ix, n) matches Some((v, e)) ==> e <= t.len() && pool_from(s, p, ix, n)
            == pool_from(t, p, ix, n),
    decreases n + 1 - ix,
{
    if ix < n {
        lemma_u8_prefix(t, s, p);
        if let Some((tag, q)) = parse_u8(t, p) {
            lemma_entry_prefix(t, s, q, tag);
            if let Some((e, r)) = parse_entry(t, q, tag) {
                let next = if is_wide(tag) {
                    ix + 2
                } else {
                    ix + 1
                };
                lemma_pool_from_prefix(t, s, r, next, n);
            }
        }
    }
}

proof fn lemma_attribute_prefix(t: Seq<u8>, s: Seq<u8>, p: int)
    requires
        is_prefix(t, s),
    ensures
        parse_attribute(t, p) matches Some((v, e)) ==> e <= t.len() && parse_attribute(s, p)
            == parse_attribute(t, p),
{
    lemma_u16_prefix(t, s, p);
    if let Some((name, q)) = parse_u16(t, p) {
        lemma_u32_prefix(t, s, q);
        if let Some((len, r)) = parse_u32(t, q) {
            lemma_take_prefix(t, s, r, len as int);
        }
    }
}

proof fn lemma_attribute_list_prefix(t: Seq<u8>, s: Seq<u8>, p: int, n: nat)
    requires
        is_prefix(t, s),
        p <= t.len(),
    ensures
        attribute_list(t, p, n) matches Some((v, e)) ==> e <= t.len() && attribute_list(s, p, n)
            == attribute_list(t, p, n),
    decreases n,
{
    if n > 0 {
        lemma_attribute_list_prefix(t, s, p, (n - 1) as nat);
        if let Some((xs, q)) = attribute_list(t, p, (n - 1) as nat) {
            lemma_attribute_prefix(t, s, q);
        }
    }
}

proof fn lemma_attributes_prefix(t: Seq<u8>, s: Seq<u8>, p: int)
    requires
        is_prefix(t, s),
    ensures
        parse_attributes(t, p) matches Some((v, e)) ==> e <= t.len() && parse_attributes(s, p)
            == parse_attributes(t, p),
{
    lemma_u16_prefix(t, s, p);
    if let Some((n, q)) = parse_u16(t, p) {
        lemma_attribute_list_prefix(t, s, q, n as nat);
    }
}

proof fn lemma_interface_list_prefix(t: Seq<u8>, s: Seq<u8>, p: int, n: nat)
    requires
        is_prefix(t, s),
        p <= t.len(),
    ensures
        interface_list(t, p, n) matches Some((v, e)) ==> e <= t.len() && interface_list(s, p, n)
            == interface_list(t, p, n),
    decreases n,
{
    if n > 0 {
        lemma_interface_list_prefix(t, s, p, (n - 1) as nat);
        if let Some((xs, q)) = interface_list(t, p, (n - 1) as nat) {
            lemma_u16_prefix(t, s, q);
        }
    }
}

proof fn lemma_interfaces_prefix(t: Seq<u8>, s: Seq<u8>, p: int)
    requires
        is_prefix(t, s),
    ensures
        parse_interfaces(t, p) matches Some((v, e)) ==> e <= t.len() && parse_interfaces(s, p)
            == parse_interfaces(t, p),
{
    lemma_u16_prefix(t, s, p);
    if let Some((n, q)) = parse_u16(t, p) {
        lemma_interface_list_prefix(t, s, q, n as nat);
    }
}

proof fn lemma_member_prefix(t: Seq<u8>, s: Seq<u8>, p: int)
    requires
        is_prefix(t, s),
    ensures
        parse_member(t, p) matches Some((v, e)) ==> e <= t.len() && parse_member(s, p)
            == parse_member(t, p),
{
    lemma_u16_prefix(t, s, p);
    if let Some((flags, q)) = parse_u16(t, p) {
        lemma_u16_pair_prefix(t, s, q);
        if let Some((name, desc, r)) = parse_u16_pair(t, q) {
            lemma_attributes_prefix(t, s, r);
        }
    }
}

proof fn lemma_member_list_prefix(t: Seq<u8>, s: Seq<u8>, p: int, n: nat)
    requires
        is_prefix(t, s),
        p <= t.len(),
    ensures
        member_list(t, p, n) matches Some((v, e)) ==> e <= t.len() && member_list(s, p, n)
            == member_list(t, p, n),
    decreases n,
{
    if n > 0 {
        lemma_member_list_prefix(t, s, p, (n - 1) as nat);
        if let Some((xs, q)) = member_list(t, p, (n - 1) as nat) {
            lemma_member_prefix(t, s, q);
        }
    }
}

proof fn lemma_members_prefix(t: Seq<u8>, s: Seq<u8>, p: int)
    requires
        is_prefix(t, s),
    ensures
        parse_members(t, p) matches Some((v, e)) ==> e <= t.len() && parse_members(s, p)
            == parse_members(t, p),
{
    lemma_u16_prefix(t, s, p);
    if let Some((n, q)) = parse_u16(t, p) {
        lemma_member_list_prefix(t, s, q, n as nat);
    }
}

proof fn lemma_class_prefix(t: Seq<u8>, s: Seq<u8>, p: int)
    requires
        is_prefix(t, s),
    ensures
        parse_class(t, p) matches Some((v, e)) ==> e <= t.len() && parse_class(s, p)
            == parse_class(t, p),
{
    lemma_u32_prefix(t, s, p);
    if let Some((magic, after_magic)) = parse_u32(t, p) {
        lemma_u16_pair_prefix(t, s, after_magic);
        if let Some((minor, major, after_version)) = parse_u16_pair(t, after_magic) {
            lemma_u16_prefix(t, s, after_version);
            if let Some((cp_count, after_count)) = parse_u16(t, after_version) {
                lemma_pool_from_prefix(t, s, after_count, 1, cp_count as int);
                if let Some((pool, after_pool)) = parse_pool(t, after_count, cp_count) {
                    lemma_u16_pair_prefix(t, s, after_pool);
                    if let Some((flags, this_class, after_this)) = parse_u16_pair(t, after_pool) {
                        lemma_u16_prefix(t, s, after_this);
                        if let Some((super_class, after_super)) = parse_u16(t, after_this) {
                            lemma_interfaces_prefix(t, s, after_super);
                            if let Some((interfaces, after_interfaces)) = parse_interfaces(t, after_super) {
                                lemma_members_prefix(t, s, after_interfaces);
                                if let Some((fields, after_fields)) = parse_members(t, after_interfaces) {
                                    lemma_members_prefix(t, s, after_fields);
                                    if let Some((methods, after_methods)) = parse_members(t, after_fields) {
                                        lemma_attributes_prefix(t, s, after_methods);
                                    }
                                }
                            }
                        }
                    }
                }
            }
        }
    }
}

/// Decoding is a function of the bytes: equal buffers give the same
/// document, or both fail.
pub proof fn lemma_decode_deterministic(a: Seq<u8>, b: Seq<u8>)
    requires
        a == b,
    ensures
        decode_class(a) == decode_class(b),
{
}

/// The buffer holds one whole file and nothing after it.
pub open spec fn is_complete_file(s: Seq<u8>) -> bool {
    parse_class(s, 0) matches Some((v, e)) && e == s.len()
}

/// A complete file with its last byte removed does not decode: the
/// decoder runs out of input before the end of the last record.
pub proof fn lemma_truncated_fails(s: Seq<u8>)
    requires
        is_complete_file(s),
        s.len() >= 1,
    ensures
        decode_class(s.drop_last()) is None,
{
    let t = s.drop_last();
    assert(t =~= s.subrange(0, t.len() as int));
    lemma_class_prefix(t, s, 0);
}

/// A long or double literal.
pub open spec fn is_wide_entry(e: EntryView) -> bool {
    e is ConstLong || e is ConstDouble
}

proof fn lemma_entry_wide(s: Seq<u8>, p: int, tag: u8)
    ensures
        parse_entry(s, p, tag) matches Some((e, r)) ==> (is_wide_entry(e) <==> is_wide(tag)),
{
}

proof fn lemma_pool_from_shape(s: Seq<u8>, p: int, ix: int, n: int)
    requires
        ix <= n,
        pool_from(s, p, ix, n) is Some,
    ensures
        ({
            let pool = pool_from(s, p, ix, n).unwrap().0;
            &&& pool.len() == n - ix || (pool.len() == n - ix + 1 && pool.len() >= 2 && is_wide_entry(
                pool[pool.len() - 2],
            ) && pool[pool.len() - 1] == EntryView::ConstUnused)
            &&& forall|i: int|
                0 <= i < pool.len() && is_wide_entry(#[trigger] pool[i]) ==> i + 1 < pool.len()
                    && pool[i + 1] == EntryView::ConstUnused
        }),
    decreases n + 1 - ix,
{
    if ix < n {
        let (tag, q) = parse_u8(s, p).unwrap();
        let (e, r) = parse_entry(s, q, tag).unwrap();
        lemma_entry_wide(s, q, tag);
        let step = slot_entries(tag, e);
        let next = if is_wide(tag) {
            ix + 2
        } else {
            ix + 1
        };
        let rest = pool_from(s, r, next, n).unwrap().0;
        let pool = pool_from(s, p, ix, n).unwrap().0;
        assert(pool == step + rest);
        if next <= n {
            lemma_pool_from_shape(s, r, next, n);
        } else {
            assert(rest.len() == 0);
        }
        assert forall|i: int|
            0 <= i < pool.len() && is_wide_entry(#[trigger] pool[i]) implies i + 1 < pool.len()
                && pool[i + 1] == EntryView::ConstUnused by {
            if i >= step.len() {
                assert(pool[i] == rest[i - step.len()]);
                assert(pool[i + 1] == rest[i + 1 - step.len()]);
            }
        }
    }
}

/// For a pool that declares `n >= 1` slots, each long or double literal is
/// followed by one unused entry, and the pool holds `n - 1` entries, unless
/// a long or double literal sits in the last declared slot `n - 1`, whose
/// unused entry then makes `n`.
pub proof fn lemma_pool_slots(s: Seq<u8>, p: int, n: u16)
    requires
        n >= 1,
        parse_pool(s, p, n) is Some,
    ensures
        ({
            let pool = parse_pool(s, p, n).unwrap().0;
            &&& pool.len() == n - 1 || (pool.len() == n && n >= 2 && is_wide_entry(pool[n - 2])
                && pool[n - 1] == EntryView::ConstUnused)
            &&& forall|i: int|
                0 <= i < pool.len() && is_wide_entry(#[trigger] pool[i]) ==> i + 1 < pool.len()
                    && pool[i + 1] == EntryView::ConstUnused
        }),
{
    lemma_pool_from_shape(s, p, 1, n as int);
}

/// For a pool that declares `n >= 1` slots and holds no long or double
/// literal in its last declared slot, the pool holds exactly `n - 1` entries.
pub proof fn lemma_pool_len(s: Seq<u8>, p: int, n: u16)
    requires
        n >= 1,
        parse_pool(s, p, n) is Some,
        !(n >= 2 && parse_pool(s, p, n).unwrap().0.len() >= n - 1 && is_wide_entry(
            parse_pool(s, p, n).unwrap().0[n - 2],
        )),
    ensures
        parse_pool(s, p, n).unwrap().0.len() == n - 1,
{
    lemma_pool_from_shape(s, p, 1, n as int);
}

/// A tag outside the known set decodes to an invalid entry carrying it, with
/// no payload, and the rest of the pool decodes from the very next byte as if
/// the tag had not been there.
pub proof fn lemma_unknown_tag(s: Seq<u8>, p: int, ix: int, n: int)
    requires
        0 <= p < s.len(),
        !is_known_tag(s[p]),
        ix < n,
    ensures
        parse_entry(s, p + 1, s[p]) == Some((EntryView::ConstInvalid { tag: s[p] }, p + 1)),
        pool_from(s, p, ix, n) == prepend(
            seq![EntryView::ConstInvalid { tag: s[p] }],
            pool_from(s, p + 1, ix + 1, n),
        ),
{
}

/// An attribute's payload is the bytes that follow its 32-bit length, as
/// many as that length says, copied as they stand; decoding resumes right
/// after them.
pub proof fn lemma_attribute_payload(s: Seq<u8>, p: int)
    requires
        parse_attribute(s, p) is Some,
    ensures
        ({
            let (a, e) = parse_attribute(s, p).unwrap();
            let len = be32(s.subrange(p + 2, p + 6)) as int;
            &&& a.info == s.subrange(p + 6, p + 6 + len)
            &&& a.info.len() == len
            &&& e == p + 6 + len
        }),
{
}

/// Two bytes of a value, most significant first.
pub open spec fn u16_bytes(x: u16) -> Seq<u8> {
    seq![(x / 256) as u8, (x % 256) as u8]
}

/// Four bytes of a value, most significant first.
pub open spec fn u32_bytes(x: u32) -> Seq<u8> {
    seq![(x / 16777216) as u8, ((x / 65536) % 256) as u8, ((x / 256) % 256) as u8, (x % 256) as u8]
}

proof fn lemma_be16_of_bytes(x: u16)
    ensures
        be16(u16_bytes(x)) == x,
{
}

proof fn lemma_be32_of_bytes(x: u32)
    ensures
        be32(u32_bytes(x)) == x,
{
    let b = u32_bytes(x);
    assert(((x / 16777216) * 256 + (x / 65536) % 256) == x / 65536) by (nonlinear_arith);
    assert((x / 65536) * 256 + (x / 256) % 256 == x / 256) by (nonlinear_arith);
    assert((x / 256) * 256 + x % 256 == x) by (nonlinear_arith);
}

/// An attribute written as its name index, its payload length and its
/// payload, anywhere in a buffer, decodes back to that name and payload, and
/// decoding resumes right after the payload.
pub proof fn lemma_attribute_round_trip(before: Seq<u8>, name: u16, info: Seq<u8>, after: Seq<u8>)
    requires
        info.len() <= u32::MAX,
    ensures
        parse_attribute(before + u16_bytes(name) + u32_bytes(info.len() as u32) + info + after, before.len() as int)
            == Some(
            (
                AttributeView { attribute_name_ix: name, info },
                (before.len() + 6 + info.len()) as int,
            ),
        ),
{
    let len = info.len() as u32;
    let s = before + u16_bytes(name) + u32_bytes(len) + info + after;
    let p = before.len() as int;
    assert(s.subrange(p, p + 2) =~= u16_bytes(name));
    assert(s.subrange(p + 2, p + 6) =~= u32_bytes(len));
    assert(s.subrange(p + 6, p + 6 + info.len()) =~= info);
    lemma_be16_of_bytes(name);
    lemma_be32_of_bytes(len);
}

} // verus!
