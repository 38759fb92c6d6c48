//! Reconstruction of typed source text from the reflection metadata of a
//! class-hierarchy object system: struct layouts with exact offsets and
//! padding, packed boolean bitfields, deduplicated enumerations and wrapper
//! functions around the runtime's dynamic-dispatch entry point.

pub mod dump;
pub mod game;
pub mod genial;
pub mod hook;
pub mod module;
pub mod text;
