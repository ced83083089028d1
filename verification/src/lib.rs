//! A verified decoder for the class-file compiled-unit binary format.
//!
//! [`parser::parse_class_file`] turns an in-memory byte run into the fully
//! structured representation of a class file — constant pool, fields,
//! methods, attributes, stack-map frames and annotations — validating every
//! structural and value constraint of the format and reporting violations
//! with field-level diagnostics.  It is a read-only decoder: there is no
//! encoder and nothing is mutated.
//!
//! The contracts are phrased over the byte-level serialization written down
//! in [`ser`]: every successful decode returns a well-formed structure that
//! serializes back to exactly the bytes consumed, so decoding loses nothing
//! and re-encoding a decoded file reproduces it byte for byte.  [`unamb`]
//! proves the format prefix-determined on top of that: truncating an input
//! strictly before its end can only produce an error, never a silently
//! wrong structure.

pub mod parser;
pub mod reader;
pub mod ser;
pub mod unamb;
pub mod util;
