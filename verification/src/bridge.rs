//! Calls into other crates and into parts of the standard library that the
//! verifier has no contract for. Each item here carries a contract that is
//! taken on trust; everything built on top of them is proved.

pub mod measure;
pub mod paint;
pub mod parse;
pub mod stdlib;
