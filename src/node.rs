//! The description of a regular expression, as a tree.

use vstd::prelude::*;

use crate::class::ClassElement;

verus! {

/// Whether a quantifier prefers the longest or the shortest match.
#[derive(Debug, Clone, Copy, PartialEq, Eq, Structural)]
pub enum QuantifierType {
    Greedy,
    Lazy,
}

impl QuantifierType {
    /// What follows the quantifier: nothing when greedy, `?` when lazy.
    pub fn postfix(&self) -> (r: &'static str)
        ensures
            r@ == (match self {
                QuantifierType::Greedy => ""@,
                QuantifierType::Lazy => "?"@,
            }),
    {
        match self {
            QuantifierType::Greedy => "",
            QuantifierType::Lazy => "?",
        }
    }
}

/// The three quantifiers without explicit bounds.
#[derive(Debug, Clone, Copy, PartialEq, Eq, Structural)]
pub enum RepeatKind {
    /// Zero or one time: `?`.
    Maybe,
    /// One or more times: `+`.
    Repeat,
    /// Zero or more times: `*`.
    MaybeRepeat,
}

/// An inline flag.
#[derive(Debug, Clone, Copy, PartialEq, Eq, Structural)]
pub enum Flag {
    /// Letters match both cases: `i`.
    CaseInsensitive,
    /// `^` and `$` match at line ends: `m`.
    MultiLine,
    /// `.` matches a line feed: `s`.
    AllowDot,
    /// Line ends are `\r\n`: `R`.
    EnablesCrlfMode,
}

pub open spec fn flag_symbol(f: Flag) -> char {
    match f {
        Flag::CaseInsensitive => 'i',
        Flag::MultiLine => 'm',
        Flag::AllowDot => 's',
        Flag::EnablesCrlfMode => 'R',
    }
}

impl Flag {
    /// The letter of the flag in pattern text.
    pub fn symbol(&self) -> (r: char)
        ensures
            r == flag_symbol(*self),
    {
        match self {
            Flag::CaseInsensitive => 'i',
            Flag::AllowDot => 's',
            Flag::EnablesCrlfMode => 'R',
            Flag::MultiLine => 'm',
        }
    }
}

/// An argument of `maybe`, `repeat` or `maybe_repeat`.
pub enum RepeatArg {
    Greedy,
    Lazy,
    Item(Node),
}

/// An argument of `times`.
pub enum TimesArg {
    Greedy,
    Lazy,
    Exactly(usize),
    AtLeast(usize),
    AtMost(usize),
    Item(Node),
}

/// An argument of `apply`.
pub enum ApplyArg {
    /// `+flag`.
    Add(Flag),
    /// `-flag`.
    Remove(Flag),
    /// The one expression that the flags are scoped to.
    Item(Node),
}

/// One node of a description.
pub enum Node {
    /// A quoted string: matches exactly it.
    Str(String),
    /// A quoted character: matches exactly it.
    Char(char),
    /// A bare keyword such as `digit` or `word_boundary`.
    Word(String),
    /// `#name`, or `~name` when negated: a Unicode class.
    Class(bool, String),
    /// `regex("...")`: raw pattern text.
    Regex(String),
    /// `eq("...")`: matches exactly the string.
    Eq(String),
    /// `concat{...}`: the items one after the other.
    Concat(Vec<Node>),
    /// `any{...}`: one of the items.
    Any(Vec<Node>),
    /// `any_of{...}` when true, `not_any_of{...}` when false.
    AnyOf(bool, Vec<ClassElement>),
    /// `group{ name: n, ... }`: a capture group, named or not.
    Group(Option<String>, Vec<Node>),
    /// `maybe{...}`, `repeat{...}` or `maybe_repeat{...}`.
    Repeat(RepeatKind, Vec<RepeatArg>),
    /// `times{...}`: repetition with explicit bounds.
    Times(Vec<TimesArg>),
    /// `apply{...}`: flags, scoped to one item or to what follows.
    Apply(Vec<ApplyArg>),
}

} // verus!
