//! Decoding of TFBD symbol-table files into a text report: a header count,
//! then sections of 2x, 4x and 6x records, each record checked against the
//! rules of its type and rendered as one line.
pub mod decoder;
pub mod error;
pub mod laws;
pub mod pascal;
pub mod reader;
pub mod records;
pub mod text;
