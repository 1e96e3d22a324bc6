//! What the frontend takes over from a request.

use vstd::prelude::*;

use crate::text::same_text;

verus! {

/// The name of the header that says what a body is, in the lower case in which
/// header names are held.
pub const CONTENT_TYPE: &'static str = "content-type";

/// Whether the body of a request is read, given the names of its headers: it is
/// where one of them says what the body is.
pub fn needs_body(header_names: &Vec<String>) -> (yes: bool)
    ensures
        yes == crate::text::texts(header_names@).contains(CONTENT_TYPE@),
{
    let ghost names = crate::text::texts(header_names@);
    let n = header_names.len();
    let mut i: usize = 0;
    while i < n
        invariant
            n == header_names@.len(),
            names == crate::text::texts(header_names@),
            i <= n,
            forall|k: int| 0 <= k < i ==> names[k] != CONTENT_TYPE@,
        decreases n - i,
    {
        assert(names[i as int] == header_names@[i as int]@);
        if same_text(header_names[i].as_str(), CONTENT_TYPE) {
            return true;
        }
        i = i + 1;
    }
    false
}

} // verus!
