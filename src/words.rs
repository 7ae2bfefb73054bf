//! Bare keywords and the pattern text each stands for.

use vstd::prelude::*;
use vstd::string::StrSliceExecFns;

use crate::text::chars_of;

verus! {

/// Whether the characters of `v` are those of `s`.
pub fn same_text(v: &Vec<char>, s: &str) -> (r: bool)
    ensures
        r == (v@ == s@),
{
    let n = s.unicode_len();
    if n != v.len() {
        return false;
    }
    let mut i: usize = 0;
    while i < n
        invariant
            n == v@.len(),
            n == s@.len(),
            i <= n,
            v@.take(i as int) == s@.take(i as int),
        decreases n - i,
    {
        if v[i] != s.get_char(i) {
            assert(v@[i as int] != s@[i as int]);
            return false;
        }
        i = i + 1;
        assert(v@.take(i as int) == v@.take(i - 1).push(v@[i - 1]));
        assert(s@.take(i as int) == s@.take(i - 1).push(s@[i - 1]));
    }
    assert(v@.take(n as int) == v@);
    assert(s@.take(n as int) == s@);
    true
}

/// The pattern text of a bare keyword, `None` for a word that is not one.
pub open spec fn word_pattern(w: Seq<char>) -> Option<Seq<char>> {
    if w == "any_character"@ {
        Some("."@)
    } else if w == "digit"@ {
        Some("\\d"@)
    } else if w == "not_digit"@ {
        Some("\\D"@)
    } else if w == "white_space"@ {
        Some("\\s"@)
    } else if w == "not_white_space"@ {
        Some("\\S"@)
    } else if w == "word_character"@ {
        Some("\\w"@)
    } else if w == "not_word_character"@ {
        Some("\\W"@)
    } else if w == "beginning_of_line"@ {
        Some("^"@)
    } else if w == "end_of_line"@ {
        Some("$"@)
    } else if w == "word_boundary"@ {
        Some("\\b"@)
    } else if w == "not_word_boundary"@ {
        Some("\\B"@)
    } else if w == "beginning_of_input"@ {
        Some("\\A"@)
    } else if w == "end_of_input"@ {
        Some("\\z"@)
    } else {
        None
    }
}

/// The pattern text of a bare keyword.
pub fn parse_single_word(w: &Vec<char>) -> (r: Option<Vec<char>>)
    ensures
        r.is_some() == word_pattern(w@).is_some(),
        r.is_some() ==> r.unwrap()@ == word_pattern(w@).unwrap(),
{
    if same_text(w, "any_character") {
        Some(chars_of("."))
    } else if same_text(w, "digit") {
        Some(chars_of("\\d"))
    } else if same_text(w, "not_digit") {
        Some(chars_of("\\D"))
    } else if same_text(w, "white_space") {
        Some(chars_of("\\s"))
    } else if same_text(w, "not_white_space") {
        Some(chars_of("\\S"))
    } else if same_text(w, "word_character") {
        Some(chars_of("\\w"))
    } else if same_text(w, "not_word_character") {
        Some(chars_of("\\W"))
    } else if same_text(w, "beginning_of_line") {
        Some(chars_of("^"))
    } else if same_text(w, "end_of_line") {
        Some(chars_of("$"))
    } else if same_text(w, "word_boundary") {
        Some(chars_of("\\b"))
    } else if same_text(w, "not_word_boundary") {
        Some(chars_of("\\B"))
    } else if same_text(w, "beginning_of_input") {
        Some(chars_of("\\A"))
    } else if same_text(w, "end_of_input") {
        Some(chars_of("\\z"))
    } else {
        None
    }
}

} // verus!
