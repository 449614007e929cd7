//! Verified core of a Move-to-WebAssembly compiler front end.
//!
//! The library holds the logic that the WebAssembly bindings wrap: integer
//! helpers, the greeting checks of the sample bindings, the package model that
//! is handed to the Move compiler, the decisions taken on what the compiler
//! reports, and the BCS encoding of the package metadata that a build emits.
use vstd::prelude::*;

pub mod arithmetic;
pub mod assoc;
pub mod bcs_format;
pub mod bcs_decode;
mod bcs_leaf;
pub mod metadata;
pub mod package;
pub mod simple;
pub mod alert_greeting;
pub mod checked_greeting;
pub mod placeholder;
pub mod size_guard;
pub mod laws;

verus! {

} // verus!
