//! Decoder for compiled class files: a big-endian, tag-discriminated,
//! length-prefixed binary container, read front to back by one cursor.

pub mod class;
pub mod cursor;
pub mod decode;
pub mod format;
pub mod laws;

pub use class::{Attribute, ClassFile, ConstantPoolEntry, Field, Interface, Method};
pub use cursor::{read16, read32, read8, take_bytes, ByteCursor, DecodeError};
pub use decode::{
    get_attributes, get_constant_pool, get_constant_pool_entry, get_fields, get_interfaces,
    get_methods, read_class_file, read_string,
};
