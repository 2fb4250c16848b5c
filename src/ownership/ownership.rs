//! Handing strings over and back.
use vstd::prelude::*;
use vstd::string::StringExecFns;
use vstd::utf8::encode_utf8;

verus! {

/// A freshly made `"hello"`, handed to the caller.
pub fn gives_ownership() -> (r: String)
    ensures
        r@ == "hello"@,
{
    String::from_str("hello")
}

/// Hands the string it was given back to the caller.
pub fn takes_and_gives_back(a_string: String) -> (r: String)
    ensures
        r == a_string,
{
    a_string
}

/// Hands the string back together with its length in bytes.
pub fn calculate_length_with_ownership(s: String) -> (r: (String, usize))
    ensures
        r.0 == s,
        r.1 == encode_utf8(s@).len() as usize,
{
    let length = s.as_str().len();
    (s, length)
}

} // verus!
