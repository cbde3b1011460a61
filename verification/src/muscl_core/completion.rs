//! Completing names on the command line with the prefixes the user may use.
use vstd::prelude::*;
use vstd::string::*;

use crate::text::{push_str, strings_of};

verus! {

/// The completions offered for the prefixes the server allows: each prefix followed by `_`.
pub fn prefix_completions(prefixes: &[String]) -> (r: Vec<String>)
    ensures
        strings_of(r@) == strings_of(prefixes@).map_values(|p: Seq<char>| p + "_"@),
{
    let mut out: Vec<String> = Vec::new();
    let mut i: usize = 0;
    while i < prefixes.len()
        invariant
            i <= prefixes@.len(),
            out@.len() == i,
            forall|j: int| 0 <= j < i ==> #[trigger] out@[j]@ == prefixes@[j]@ + "_"@,
        decreases prefixes@.len() - i,
    {
        let mut s = prefixes[i].clone();
        push_str(&mut s, "_");
        out.push(s);
        i = i + 1;
    }
    assert(strings_of(out@) =~= strings_of(prefixes@).map_values(|p: Seq<char>| p + "_"@));
    out
}

} // verus!
