use classfile::{
    get_attributes, get_constant_pool, get_constant_pool_entry, get_fields, get_interfaces,
    get_methods, read16, read32, read8, read_class_file, read_string, take_bytes, Attribute,
    ByteCursor, ConstantPoolEntry, DecodeError, Interface,
};

fn empty_class_bytes() -> Vec<u8> {
    vec![
        0xCA, 0xFE, 0xBA, 0xBE, // magic
        0x00, 0x00, // minor
        0x00, 0x34, // major
        0x00, 0x01, // pool count
        0x00, 0x21, // access flags
        0x00, 0x02, // this class
        0x00, 0x03, // super class
        0x00, 0x00, // interfaces
        0x00, 0x00, // fields
        0x00, 0x00, // methods
        0x00, 0x00, // attributes
    ]
}

fn cursor(bytes: &[u8]) -> ByteCursor {
    ByteCursor::new(bytes.to_vec())
}

#[test]
fn it_works() {
    let result = read_class_file(empty_class_bytes()).unwrap();
    assert_eq!(result.magic, 0xcafebabe);
}

#[test]
fn empty_class_decodes() {
    let cf = read_class_file(empty_class_bytes()).unwrap();
    assert_eq!(cf.magic, 0xCAFEBABE);
    assert_eq!(cf.minor, 0);
    assert_eq!(cf.major, 0x34);
    assert!(cf.constant_pool.is_empty());
    assert_eq!(cf.access_flags, 0x21);
    assert_eq!(cf.this_class, 2);
    assert_eq!(cf.super_class, 3);
    assert!(cf.interfaces.is_empty());
    assert!(cf.fields.is_empty());
    assert!(cf.methods.is_empty());
    assert!(cf.attributes.is_empty());
}

#[test]
fn long_entry_takes_two_slots() {
    let mut c = cursor(&[5, 0, 0, 0, 0, 0, 0, 0, 1]);
    let pool = get_constant_pool(&mut c, 3).unwrap();
    assert_eq!(
        pool,
        vec![
            ConstantPoolEntry::ConstLong { high_word: 0, low_word: 1 },
            ConstantPoolEntry::ConstUnused,
        ]
    );
    assert_eq!(c.position(), 9);
}

#[test]
fn double_in_last_slot_adds_unused() {
    let mut c = cursor(&[6, 0x40, 0x09, 0x21, 0xFB, 0x54, 0x44, 0x2D, 0x18]);
    let pool = get_constant_pool(&mut c, 2).unwrap();
    assert_eq!(
        pool,
        vec![
            ConstantPoolEntry::ConstDouble { high_word: 0x400921FB, low_word: 0x54442D18 },
            ConstantPoolEntry::ConstUnused,
        ]
    );
}

#[test]
fn pool_count_gives_count_minus_one_entries() {
    let mut c = cursor(&[7, 0, 2, 1, 0, 2, b'h', b'i', 3, 0, 0, 0, 42]);
    let pool = get_constant_pool(&mut c, 4).unwrap();
    assert_eq!(pool.len(), 3);
    assert_eq!(pool[0], ConstantPoolEntry::ConstClass { name_ix: 2 });
    assert_eq!(pool[1], ConstantPoolEntry::ConstUtf8 { string: "hi".to_string() });
    assert_eq!(pool[2], ConstantPoolEntry::ConstInt { int_word: 42 });
}

#[test]
fn pool_of_count_zero_or_one_is_empty() {
    let mut c = cursor(&[7, 0, 1]);
    assert!(get_constant_pool(&mut c, 0).unwrap().is_empty());
    assert!(get_constant_pool(&mut c, 1).unwrap().is_empty());
    assert_eq!(c.position(), 0);
}

#[test]
fn unknown_tag_then_valid_entry() {
    let mut c = cursor(&[2, 7, 0, 5]);
    let pool = get_constant_pool(&mut c, 3).unwrap();
    assert_eq!(
        pool,
        vec![ConstantPoolEntry::ConstInvalid { tag: 2 }, ConstantPoolEntry::ConstClass { name_ix: 5 }]
    );
    assert_eq!(c.position(), 4);
}

#[test]
fn unknown_tags_consume_no_payload() {
    for tag in [0u8, 2, 13, 14, 17, 19, 255] {
        let mut c = cursor(&[9, 9]);
        let e = get_constant_pool_entry(&mut c, tag).unwrap();
        assert_eq!(e, ConstantPoolEntry::ConstInvalid { tag });
        assert_eq!(c.position(), 0);
    }
}

#[test]
fn every_known_tag_decodes_its_layout() {
    let b = [0x00, 0x01, 0x00, 0x02, 0x00, 0x03, 0x00, 0x04];
    let cases: Vec<(u8, ConstantPoolEntry, usize)> = vec![
        (7, ConstantPoolEntry::ConstClass { name_ix: 1 }, 2),
        (9, ConstantPoolEntry::ConstFieldRef { class_ix: 1, name_and_type_ix: 2 }, 4),
        (10, ConstantPoolEntry::ConstMethodRef { class_ix: 1, name_and_type_ix: 2 }, 4),
        (11, ConstantPoolEntry::ConstInterfaceMethodRef { class_ix: 1, name_and_type_ix: 2 }, 4),
        (8, ConstantPoolEntry::ConstString { string_ix: 1 }, 2),
        (3, ConstantPoolEntry::ConstInt { int_word: 0x00010002 }, 4),
        (4, ConstantPoolEntry::ConstFloat { float_word: 0x00010002 }, 4),
        (5, ConstantPoolEntry::ConstLong { high_word: 0x00010002, low_word: 0x00030004 }, 8),
        (6, ConstantPoolEntry::ConstDouble { high_word: 0x00010002, low_word: 0x00030004 }, 8),
        (12, ConstantPoolEntry::ConstNameAndType { name_ix: 1, descriptor_ix: 2 }, 4),
        (15, ConstantPoolEntry::ConstMethodHandle { reference_kind: 0, reference_ix: 0x0100 }, 3),
        (16, ConstantPoolEntry::ConstMethodType { descriptor_ix: 1 }, 2),
        (18, ConstantPoolEntry::ConstInvokeDynamic { boostrap_method_attr_ix: 1, name_and_type_ix: 2 }, 4),
        (1, ConstantPoolEntry::ConstUtf8 { string: "\u{0}".to_string() }, 3),
    ];
    for (tag, expected, used) in cases {
        let mut c = cursor(&b);
        assert_eq!(get_constant_pool_entry(&mut c, tag).unwrap(), expected);
        assert_eq!(c.position(), used);
    }
}

#[test]
fn short_entry_payload_fails() {
    let mut c = cursor(&[0, 0, 0, 0, 0, 0, 0]);
    assert_eq!(get_constant_pool_entry(&mut c, 5), Err(DecodeError::UnexpectedEndOfInput));
    let mut c = cursor(&[0, 5, b'a', b'b']);
    assert_eq!(get_constant_pool_entry(&mut c, 1), Err(DecodeError::UnexpectedEndOfInput));
}

#[test]
fn attribute_payload_round_trip() {
    let payload = vec![0xDE, 0xAD, 0xBE, 0xEF, 0x00, 0x7F];
    let mut bytes = vec![0x00, 0x01, 0x00, 0x0A, 0x00, 0x00, 0x00, 0x06];
    bytes.extend_from_slice(&payload);
    bytes.push(0x99);
    let mut c = ByteCursor::new(bytes);
    let attrs = get_attributes(&mut c).unwrap();
    assert_eq!(attrs, vec![Attribute { attribute_name_ix: 10, info: payload }]);
    assert_eq!(c.position(), 14);
    assert_eq!(read8(&mut c), Ok(0x99));
}

#[test]
fn attribute_longer_than_input_fails() {
    let mut c = cursor(&[0x00, 0x01, 0x00, 0x0A, 0x00, 0x00, 0x00, 0x03, 1, 2]);
    assert_eq!(get_attributes(&mut c), Err(DecodeError::UnexpectedEndOfInput));
}

#[test]
fn truncated_file_fails() {
    let mut bytes = empty_class_bytes();
    bytes.pop();
    assert_eq!(read_class_file(bytes), Err(DecodeError::UnexpectedEndOfInput));
    assert_eq!(read_class_file(Vec::new()), Err(DecodeError::UnexpectedEndOfInput));
}

#[test]
fn decoding_is_deterministic() {
    let a = read_class_file(full_class_bytes()).unwrap();
    let b = read_class_file(full_class_bytes()).unwrap();
    assert_eq!(a, b);
}

fn full_class_bytes() -> Vec<u8> {
    vec![
        0xCA, 0xFE, 0xBA, 0xBE, 0x00, 0x03, 0x00, 0x2D, // magic, minor, major
        0x00, 0x04, // pool count
        0x01, 0x00, 0x01, b'A', // utf8 "A"
        0x07, 0x00, 0x01, // class #1
        0x10, 0x00, 0x01, // method type #1
        0x00, 0x01, 0x00, 0x02, 0x00, 0x00, // flags, this, super
        0x00, 0x02, 0x00, 0x02, 0x00, 0x03, // interfaces 2, 3
        0x00, 0x01, // one field
        0x00, 0x02, 0x00, 0x01, 0x00, 0x01, 0x00, 0x01, 0x00, 0x01, 0x00, 0x00, 0x00, 0x01, 0x07,
        0x00, 0x01, // one method
        0x00, 0x09, 0x00, 0x01, 0x00, 0x03, 0x00, 0x00,
        0x00, 0x01, // one attribute
        0x00, 0x01, 0x00, 0x00, 0x00, 0x00,
    ]
}

#[test]
fn full_class_decodes_in_order() {
    let cf = read_class_file(full_class_bytes()).unwrap();
    assert_eq!(cf.minor, 3);
    assert_eq!(cf.major, 0x2D);
    assert_eq!(
        cf.constant_pool,
        vec![
            ConstantPoolEntry::ConstUtf8 { string: "A".to_string() },
            ConstantPoolEntry::ConstClass { name_ix: 1 },
            ConstantPoolEntry::ConstMethodType { descriptor_ix: 1 },
        ]
    );
    assert_eq!(cf.access_flags, 1);
    assert_eq!(cf.this_class, 2);
    assert_eq!(cf.super_class, 0);
    assert_eq!(cf.interfaces, vec![Interface { interface_ix: 2 }, Interface { interface_ix: 3 }]);
    assert_eq!(cf.fields.len(), 1);
    assert_eq!(cf.fields[0].access_flags, 2);
    assert_eq!(cf.fields[0].name_ix, 1);
    assert_eq!(cf.fields[0].descriptor_ix, 1);
    assert_eq!(cf.fields[0].attributes, vec![Attribute { attribute_name_ix: 1, info: vec![7] }]);
    assert_eq!(cf.methods.len(), 1);
    assert_eq!(cf.methods[0].access_flags, 9);
    assert_eq!(cf.methods[0].name_ix, 1);
    assert_eq!(cf.methods[0].descriptor_ix, 3);
    assert!(cf.methods[0].attributes.is_empty());
    assert_eq!(cf.attributes, vec![Attribute { attribute_name_ix: 1, info: vec![] }]);
}

#[test]
fn every_truncation_of_full_class_fails() {
    let bytes = full_class_bytes();
    for n in 0..bytes.len() {
        assert_eq!(read_class_file(bytes[..n].to_vec()), Err(DecodeError::UnexpectedEndOfInput));
    }
}

#[test]
fn trailing_bytes_are_ignored() {
    let mut bytes = empty_class_bytes();
    bytes.extend_from_slice(&[1, 2, 3]);
    assert!(read_class_file(bytes).is_ok());
}

#[test]
fn fixed_width_reads_are_big_endian() {
    let mut c = cursor(&[0x12, 0x34, 0x56, 0x78, 0x9A, 0xBC, 0xDE]);
    assert_eq!(read16(&mut c), Ok(0x1234));
    assert_eq!(read32(&mut c), Ok(0x56789ABC));
    assert_eq!(read8(&mut c), Ok(0xDE));
    assert_eq!(c.position(), 7);
    assert_eq!(read8(&mut c), Err(DecodeError::UnexpectedEndOfInput));
}

#[test]
fn short_reads_fail_without_moving() {
    let mut c = cursor(&[0x12, 0x34, 0x56]);
    assert_eq!(read32(&mut c), Err(DecodeError::UnexpectedEndOfInput));
    assert_eq!(c.position(), 0);
    assert_eq!(read8(&mut c), Ok(0x12));
    assert_eq!(read16(&mut c), Ok(0x3456));
    assert_eq!(read16(&mut c), Err(DecodeError::UnexpectedEndOfInput));
    assert_eq!(c.position(), 3);
}

#[test]
fn take_bytes_copies_in_order() {
    let mut c = cursor(&[1, 2, 3, 4]);
    assert_eq!(take_bytes(&mut c, 0), Ok(vec![]));
    assert_eq!(take_bytes(&mut c, 3), Ok(vec![1, 2, 3]));
    assert_eq!(take_bytes(&mut c, 2), Err(DecodeError::UnexpectedEndOfInput));
    assert_eq!(c.position(), 3);
    assert_eq!(c.len(), 4);
}

#[test]
fn read_string_decodes_text() {
    let mut c = cursor(&[0x00, 0x05, b'h', b'e', b'l', b'l', b'o']);
    assert_eq!(read_string(&mut c), Ok("hello".to_string()));
    let mut c = cursor(&[0x00, 0x02, 0xC3, 0xA9]);
    assert_eq!(read_string(&mut c), Ok("\u{e9}".to_string()));
    let mut c = cursor(&[0x00, 0x01, 0xFF]);
    assert_eq!(read_string(&mut c), Ok("\u{FFFD}".to_string()));
    let mut c = cursor(&[0x00, 0x00]);
    assert_eq!(read_string(&mut c), Ok(String::new()));
}

#[test]
fn interfaces_keep_file_order() {
    let mut c = cursor(&[0x00, 0x03, 0x00, 0x09, 0x00, 0x01, 0x00, 0x05]);
    let v = get_interfaces(&mut c).unwrap();
    assert_eq!(
        v,
        vec![Interface { interface_ix: 9 }, Interface { interface_ix: 1 }, Interface { interface_ix: 5 }]
    );
    let mut c = cursor(&[0x00, 0x02, 0x00, 0x09]);
    assert_eq!(get_interfaces(&mut c), Err(DecodeError::UnexpectedEndOfInput));
}

#[test]
fn fields_and_methods_read_nested_attributes() {
    let bytes = [
        0x00, 0x02, // two records
        0x00, 0x01, 0x00, 0x04, 0x00, 0x05, 0x00, 0x01, 0x00, 0x06, 0x00, 0x00, 0x00, 0x02, 0xAA, 0xBB,
        0x00, 0x08, 0x00, 0x0A, 0x00, 0x0B, 0x00, 0x00,
    ];
    let mut c = cursor(&bytes);
    let fields = get_fields(&mut c).unwrap();
    assert_eq!(fields.len(), 2);
    assert_eq!((fields[0].access_flags, fields[0].name_ix, fields[0].descriptor_ix), (1, 4, 5));
    assert_eq!(fields[0].attributes, vec![Attribute { attribute_name_ix: 6, info: vec![0xAA, 0xBB] }]);
    assert_eq!((fields[1].access_flags, fields[1].name_ix, fields[1].descriptor_ix), (8, 10, 11));
    assert!(fields[1].attributes.is_empty());
    let mut c = cursor(&bytes);
    let methods = get_methods(&mut c).unwrap();
    assert_eq!(methods.len(), 2);
    assert_eq!((methods[1].access_flags, methods[1].name_ix, methods[1].descriptor_ix), (8, 10, 11));
    assert_eq!(methods[0].attributes, fields[0].attributes);
    assert_eq!(c.position(), bytes.len());
    let mut c = cursor(&bytes[..bytes.len() - 1]);
    assert_eq!(get_methods(&mut c), Err(DecodeError::UnexpectedEndOfInput));
}
