use vstd::prelude::*;

verus! {

/// The text that `greet` produces for `name`.
pub open spec fn greeting_of(name: Seq<char>) -> Seq<char> {
    "Hello, "@ + name
}

/// Greets `name`: `Hello, ` followed by the name as given, so that `Rust!`
/// becomes `Hello, Rust!`.
pub fn greet(name: &str) -> (r: String)
    ensures
        r@ == greeting_of(name@),
{
    let head = String::from_str("Hello, ");
    head.concat(name)
}

} // verus!
