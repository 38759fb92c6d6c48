//! What the emitted source calls at run time, and what the hook on the
//! dispatch entry point decides.

pub mod bitfield;
pub mod cached_function_indexes;
pub mod user;
