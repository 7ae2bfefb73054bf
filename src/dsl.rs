//! The fragment: pattern text together with whether it must be wrapped in a
//! non-capturing group before a quantifier or inside a larger expression.

use vstd::prelude::*;

use crate::engine::{engine_accepts, engine_check};
use crate::escape::{escape_literal, escape_literal_chars};
use crate::text::{chars_of, push_all, string_of};

verus! {

/// A compiled piece of pattern text.
#[derive(Debug)]
pub struct Dsl {
    pub regex: Vec<char>,
    pub need_group: bool,
}

impl View for Dsl {
    type V = (Seq<char>, bool);

    open spec fn view(&self) -> (Seq<char>, bool) {
        (self.regex@, self.need_group)
    }
}

/// The pattern text of fragment `f`, wrapped as `(?:...)` where it needs a group.
pub open spec fn grouped(f: (Seq<char>, bool)) -> Seq<char> {
    if f.1 {
        seq!['(', '?', ':'] + f.0 + seq![')']
    } else {
        f.0
    }
}

/// The pattern texts of `s` one after the other.
pub open spec fn joined(s: Seq<(Seq<char>, bool)>) -> Seq<char>
    decreases s.len(),
{
    if s.len() == 0 {
        Seq::empty()
    } else {
        joined(s.drop_last()) + s.last().0
    }
}

/// The fragment made by concatenating the fragments of `s` by plain
/// adjacency; a sequence of two or more needs a group.
pub open spec fn concat_spec(s: Seq<(Seq<char>, bool)>) -> (Seq<char>, bool) {
    (joined(s), if s.len() == 0 { false } else if s.len() == 1 { s[0].1 } else { true })
}

/// The fragment of a literal string.
pub open spec fn eq_spec(s: Seq<char>) -> (Seq<char>, bool) {
    (escape_literal(s), s.len() > 1)
}

/// The fragment `f` as a capture group whose opening is followed by `prefix`.
pub open spec fn group_spec(f: (Seq<char>, bool), prefix: Seq<char>) -> (Seq<char>, bool) {
    (seq!['('] + prefix + f.0 + seq![')'], false)
}

pub open spec fn views(s: Seq<Dsl>) -> Seq<(Seq<char>, bool)> {
    s.map_values(|d: Dsl| d@)
}

impl Dsl {
    pub fn new(regex: &str, need_group: bool) -> (r: Dsl)
        ensures
            r@ == (regex@, need_group),
    {
        Dsl { regex: chars_of(regex), need_group }
    }

    /// The fragment that matches exactly the string `string`.
    pub fn eq(string: &str) -> (r: Dsl)
        ensures
            r@ == eq_spec(string@),
    {
        let s = chars_of(string);
        Dsl::eq_chars(&s)
    }

    pub fn eq_chars(s: &Vec<char>) -> (r: Dsl)
        ensures
            r@ == eq_spec(s@),
    {
        Dsl { regex: escape_literal_chars(s), need_group: s.len() > 1 }
    }

    /// `None` when the pattern text is not empty and the engine compiles it;
    /// otherwise a message that says why not.
    pub fn validate(&self) -> (r: Option<String>)
        ensures
            r.is_none() <==> (self.regex@.len() > 0 && engine_accepts(self.regex@)),
    {
        if self.regex.len() == 0 {
            return Some("Empty regex is not supported".to_string());
        }
        engine_check(&self.regex)
    }

    /// The fragments one after the other; a sequence of two or more needs a group.
    pub fn concat(dsls: &[Dsl]) -> (r: Dsl)
        ensures
            r@ == concat_spec(views(dsls@)),
    {
        let mut regex: Vec<char> = Vec::new();
        let mut i: usize = 0;
        while i < dsls.len()
            invariant
                i <= dsls@.len(),
                regex@ == joined(views(dsls@.take(i as int))),
            decreases dsls@.len() - i,
        {
            assert(views(dsls@.take(i + 1)).drop_last() == views(dsls@.take(i as int)));
            push_all(&mut regex, &dsls[i].regex);
            i = i + 1;
        }
        assert(dsls@.take(i as int) == dsls@);
        let need_group = if dsls.len() == 0 {
            false
        } else if dsls.len() == 1 {
            dsls[0].need_group
        } else {
            true
        };
        Dsl { regex, need_group }
    }

    /// The pattern text, wrapped as `(?:...)` where this fragment needs a group.
    pub fn non_capturing_group_if_needed(&self) -> (r: String)
        ensures
            r@ == grouped(self@),
    {
        string_of(&self.grouped_chars())
    }

    /// The pattern text, wrapped as `(?:...)` where this fragment needs a group.
    pub fn grouped_chars(&self) -> (r: Vec<char>)
        ensures
            r@ == grouped(self@),
    {
        if !self.need_group {
            self.regex.clone()
        } else {
            let mut r: Vec<char> = Vec::new();
            r.push('(');
            r.push('?');
            r.push(':');
            push_all(&mut r, &self.regex);
            r.push(')');
            r
        }
    }

    /// This fragment as a capture group; `name_prefix` follows the opening
    /// parenthesis (`?<name>` for a named group, empty otherwise).
    pub fn group(&self, name_prefix: &str) -> (r: Dsl)
        ensures
            r@ == group_spec(self@, name_prefix@),
    {
        self.group_chars(&chars_of(name_prefix))
    }

    /// This fragment as a capture group, the prefix given as characters.
    pub fn group_chars(&self, name_prefix: &Vec<char>) -> (r: Dsl)
        ensures
            r@ == group_spec(self@, name_prefix@),
    {
        let mut regex: Vec<char> = Vec::new();
        regex.push('(');
        push_all(&mut regex, name_prefix);
        push_all(&mut regex, &self.regex);
        regex.push(')');
        Dsl { regex, need_group: false }
    }

    /// The pattern text.
    pub fn regex(&self) -> (r: String)
        ensures
            r@ == self.regex@,
    {
        string_of(&self.regex)
    }
}

} // verus!
