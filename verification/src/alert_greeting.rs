//! The greeting that is shown in an alert.
use vstd::prelude::*;

verus! {

/// The alert text for `name`: `Hello World : {name}!`.
pub fn helloworld(name: &str) -> (r: String)
    ensures
        r@ == "Hello World : "@ + name@ + "!"@,
{
    let mut text = String::from_str("Hello World : ");
    text.append(name);
    text.append("!");
    text
}

} // verus!
