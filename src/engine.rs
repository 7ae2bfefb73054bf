//! The trial compile of pattern text by the regex engine.

use vstd::prelude::*;

verus! {

/// Whether the regex engine compiles the pattern text `p`.
pub uninterp spec fn engine_accepts(p: Seq<char>) -> bool;

/// Relies on `regex::Regex::new`: it succeeds exactly on the patterns that
/// the engine compiles; on failure its error is rendered as text.
#[verifier::external_body]
pub(crate) fn engine_check(p: &Vec<char>) -> (r: Option<String>)
    ensures
        r.is_none() == engine_accepts(p@),
{
    let s: String = p.iter().collect();
    match regex::Regex::new(&s) {
        Ok(_) => None,
        Err(e) => Some(e.to_string()),
    }
}

} // verus!
