//! Generation of per-function closed error enums.
//!
//! The generator works on a plain model of a function's signature: its
//! declared return type, its name, visibility, derive requests and the list of
//! error source paths named in its `#[errors(...)]` annotation. From that it
//! decides the shape of the return type, derives the enum and variant names,
//! renders the enum declaration with its conversion, upcast and display
//! impls, and decides where the declaration is placed.
//!
//! The runtime traits that the generated code implements live in `runtime`.

pub mod expand;
pub mod laws;
pub mod naming;
pub mod runtime;
pub mod signature;
pub mod synth;
pub mod text;

pub use runtime::{ErrorMancerFrom, FlattenInto, ResultExt};
