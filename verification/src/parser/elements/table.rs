use vstd::prelude::*;

use crate::text::{chars_of, collapse_whitespace, collapse_ws, string_of};

verus! {

/// The text of a table cell: its words joined by single spaces.
pub fn cell_text(source: &str) -> (r: String)
    ensures
        r@ == collapse_ws(source@),
{
    let cs = chars_of(source);
    let c = collapse_whitespace(cs.as_slice());
    string_of(c.as_slice())
}

} // verus!
