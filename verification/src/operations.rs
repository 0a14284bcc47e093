//! The text operations, the contract they share, and the catalog that
//! indexes them by identifier.

pub mod chars;
pub mod hex;
pub mod none;
pub mod text;
pub mod text_operation;
pub mod text_operations;
pub mod web;
