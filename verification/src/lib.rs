//! A small text transformation engine: a catalog of named text operations
//! (hexadecimal, Base64, percent-encoding, case mapping), and a pipeline that
//! chains any ordered list of them over one input text.

pub mod operations;
pub mod pipeline;
pub mod selection;
