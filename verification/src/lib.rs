//! Build-time generator for a card-reader call layer, with its runtime support.
//!
//! The library turns normalized C-style declarations of the shape
//! `name(param: type, ...) -> status` into wrapper source text: it extracts
//! the declarations whose return type is the status-code type, classifies
//! every parameter by pointer indirection depth, and emits one
//! parameter-holder type and one wrapper function per declaration. The
//! runtime support the emitted code leans on is also here: an owning buffer
//! that guards reads of uninitialized storage, the translation of a numeric
//! status code into a success/failure result, and the session teardown
//! discipline.

pub mod buffer;
pub mod classify;
pub mod emit;
pub mod extract;
pub mod generate;
pub mod session;
pub mod status;
pub mod text;
