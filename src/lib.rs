//! Instrumentation of C functions for replaying recorded calls.
//!
//! For each function definition of a translation unit the library writes a
//! C "snapshot" function. Called with the arguments of a live call, a
//! snapshot prints the source of a nullary "replay" function that rebuilds
//! those arguments, and the globals that the body reads, from literal values
//! and then makes the same call.
//!
//! The front end that parses C is not part of the library: its declaration
//! tree is handed over as an [`entity::Entity`] whose types are
//! [`ctype::CType`] values.

pub mod ctype;
pub mod error;

pub use ctype::{CType, Field, LiteralKind, Primitive, TypeKind};
pub use error::{Error, SourceError};
pub mod flatten;
pub mod entity;
pub mod emit;
pub mod walker;

pub use entity::{Entity, EntityKind, Linkage};
pub use walker::generate;
pub mod lemmas;
