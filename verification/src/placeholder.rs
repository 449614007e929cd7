//! The first, placeholder entry point of the compiler bindings.
use vstd::prelude::*;

verus! {

/// Answers every source text with the fixed text `some string`.
pub fn compile_move(source: &str) -> (r: String)
    ensures
        r@ == "some string"@,
{
    String::from_str("some string")
}

} // verus!
