//! Escaping of characters: in literal pattern text, inside a bracket
//! expression, and inside a quoted string of description text.

use itertools::Itertools;
use vstd::prelude::*;

verus! {

/// Concatenation of `f` applied to each character of `s`, in order.
pub open spec fn flat_map(s: Seq<char>, f: spec_fn(char) -> Seq<char>) -> Seq<char>
    decreases s.len(),
{
    if s.len() == 0 {
        Seq::empty()
    } else {
        flat_map(s.drop_last(), f) + f(s.last())
    }
}

/// `flat_map` distributes over concatenation.
pub proof fn lemma_flat_map_concat(a: Seq<char>, b: Seq<char>, f: spec_fn(char) -> Seq<char>)
    ensures
        flat_map(a + b, f) == flat_map(a, f) + flat_map(b, f),
    decreases b.len(),
{
    if b.len() == 0 {
        assert(a + b == a);
    } else {
        lemma_flat_map_concat(a, b.drop_last(), f);
        assert((a + b).drop_last() == a + b.drop_last());
    }
}

/// `flat_map` of a prefix one character longer.
pub proof fn lemma_flat_map_take(s: Seq<char>, i: int, f: spec_fn(char) -> Seq<char>)
    requires
        0 <= i < s.len(),
    ensures
        flat_map(s.take(i + 1), f) == flat_map(s.take(i), f) + f(s[i]),
{
    assert(s.take(i + 1).drop_last() == s.take(i));
}

/// The characters that stand for themselves only when escaped in pattern text.
pub open spec fn is_meta(c: char) -> bool {
    c == '\\' || c == '"' || c == '.' || c == ')' || c == '(' || c == '{' || c == '}'
        || c == '[' || c == ']' || c == '$' || c == '^' || c == '?' || c == '+' || c == '*'
        || c == '|'
}

/// One character as literal pattern text.
pub open spec fn literal_char(c: char) -> Seq<char> {
    if is_meta(c) { seq!['\\', c] } else { seq![c] }
}

pub open spec fn literal_fn() -> spec_fn(char) -> Seq<char> {
    |c: char| literal_char(c)
}

/// A string as literal pattern text.
pub open spec fn escape_literal(s: Seq<char>) -> Seq<char> {
    flat_map(s, literal_fn())
}

/// The string that literal pattern text stands for: a sequence of atoms,
/// each a character that is not a metacharacter or a backslash followed by
/// a metacharacter. `None` where `p` is not of that form.
pub open spec fn decode_literal(p: Seq<char>) -> Option<Seq<char>>
    decreases p.len(),
{
    if p.len() == 0 {
        Some(Seq::empty())
    } else if p[0] == '\\' {
        if p.len() >= 2 && is_meta(p[1]) {
            match decode_literal(p.skip(2)) {
                Some(rest) => Some(seq![p[1]] + rest),
                None => None,
            }
        } else {
            None
        }
    } else if is_meta(p[0]) {
        None
    } else {
        match decode_literal(p.skip(1)) {
            Some(rest) => Some(seq![p[0]] + rest),
            None => None,
        }
    }
}

proof fn lemma_decode_prepend(c: char, rest: Seq<char>)
    ensures
        decode_literal(literal_char(c) + rest) == match decode_literal(rest) {
            Some(r) => Some(seq![c] + r),
            None => None::<Seq<char>>,
        },
{
    let p = literal_char(c) + rest;
    if is_meta(c) {
        assert(p.skip(2) == rest);
    } else {
        assert(p.skip(1) == rest);
    }
}

/// Escaping is exact: literal pattern text made from `s` stands for `s`
/// and for no other string.
pub proof fn lemma_escape_literal_exact(s: Seq<char>)
    ensures
        decode_literal(escape_literal(s)) == Some(s),
    decreases s.len(),
{
    if s.len() > 0 {
        let f = literal_fn();
        let t = s.drop_first();
        lemma_flat_map_concat(seq![s[0]], t, f);
        assert(seq![s[0]] + t == s);
        assert(seq![s[0]].drop_last() == Seq::<char>::empty());
        reveal_with_fuel(flat_map, 2);
        assert(flat_map(seq![s[0]], f) == literal_char(s[0]));
        lemma_escape_literal_exact(t);
        lemma_decode_prepend(s[0], escape_literal(t));
        assert(seq![s[0]] + t == s);
    }
}

/// Whether a character needs a backslash as literal pattern text.
pub fn is_meta_char(c: char) -> (r: bool)
    ensures
        r == is_meta(c),
{
    c == '\\' || c == '"' || c == '.' || c == ')' || c == '(' || c == '{' || c == '}'
        || c == '[' || c == ']' || c == '$' || c == '^' || c == '?' || c == '+' || c == '*'
        || c == '|'
}

/// A string as literal pattern text.
pub fn escape_literal_chars(s: &Vec<char>) -> (r: Vec<char>)
    ensures
        r@ == escape_literal(s@),
{
    let mut r: Vec<char> = Vec::new();
    let mut i: usize = 0;
    while i < s.len()
        invariant
            i <= s@.len(),
            r@ == escape_literal(s@.take(i as int)),
        decreases s@.len() - i,
    {
        let c = s[i];
        proof {
            lemma_flat_map_take(s@, i as int, literal_fn());
        }
        if is_meta_char(c) {
            r.push('\\');
        }
        r.push(c);
        i = i + 1;
    }
    assert(s@.take(i as int) == s@);
    r
}


/// The characters that need a backslash inside a bracket expression.
pub open spec fn is_class_meta(c: char) -> bool {
    c == '-' || c == ']' || c == '[' || c == '^' || c == '&' || c == '.' || c == '\\' || c == '~'
}

/// One character as a member of a bracket expression.
pub open spec fn class_char(c: char) -> Seq<char> {
    if is_class_meta(c) { seq!['\\', c] } else { seq![c] }
}

pub open spec fn class_char_fn() -> spec_fn(char) -> Seq<char> {
    |c: char| class_char(c)
}

/// The characters of `s` in order, each kept only at its first occurrence.
pub open spec fn unique_seq(s: Seq<char>) -> Seq<char>
    decreases s.len(),
{
    if s.len() == 0 {
        Seq::empty()
    } else {
        let p = unique_seq(s.drop_last());
        if p.contains(s.last()) { p } else { p.push(s.last()) }
    }
}

/// Keeping first occurrences loses no character and adds none.
pub proof fn lemma_unique_same_set(s: Seq<char>)
    ensures
        unique_seq(s).to_set() == s.to_set(),
        unique_seq(s).no_duplicates(),
    decreases s.len(),
{
    if s.len() > 0 {
        let d = s.drop_last();
        lemma_unique_same_set(d);
        let p = unique_seq(d);
        assert(s == d.push(s.last()));
        assert(s.to_set() == d.to_set().insert(s.last())) by {
            assert forall|c: char| s.to_set().contains(c) <==> d.to_set().insert(s.last()).contains(c) by {
                if s.contains(c) && c != s.last() {
                    let k = choose|k: int| 0 <= k < s.len() && s[k] == c;
                    assert(d[k] == c);
                }
                if d.contains(c) {
                    let k = choose|k: int| 0 <= k < d.len() && d[k] == c;
                    assert(s[k] == c);
                }
            }
        }
        if !p.contains(s.last()) {
            assert(p.push(s.last()).to_set() == p.to_set().insert(s.last())) by {
                assert forall|c: char| p.push(s.last()).to_set().contains(c) <==> p.to_set().insert(s.last()).contains(c) by {
                    let q = p.push(s.last());
                    if q.contains(c) && c != s.last() {
                        let k = choose|k: int| 0 <= k < q.len() && q[k] == c;
                        assert(p[k] == c);
                    }
                    if p.contains(c) {
                        let k = choose|k: int| 0 <= k < p.len() && p[k] == c;
                        assert(q[k] == c);
                    }
                    if c == s.last() {
                        assert(q[q.len() - 1] == c);
                    }
                }
            }
        } else {
            assert(p.to_set().insert(s.last()) == p.to_set()) by {
                let k = choose|k: int| 0 <= k < p.len() && p[k] == s.last();
                assert(p.to_set().contains(s.last()));
            }
        }
    }
}

/// Relies on `Itertools::unique`: the items in order, each kept at its first occurrence.
#[verifier::external_body]
fn unique_chars(s: &Vec<char>) -> (r: Vec<char>)
    ensures
        r@ == unique_seq(s@),
{
    s.iter().copied().unique().collect()
}

/// Whether a character needs a backslash inside a bracket expression.
pub fn is_class_meta_char(c: char) -> (r: bool)
    ensures
        r == is_class_meta(c),
{
    c == '-' || c == ']' || c == '[' || c == '^' || c == '&' || c == '.' || c == '\\' || c == '~'
}

/// Appends one character as a member of a bracket expression.
pub fn push_class_char(dst: &mut Vec<char>, c: char)
    ensures
        final(dst)@ == old(dst)@ + class_char(c),
{
    if is_class_meta_char(c) {
        dst.push('\\');
    }
    dst.push(c);
}

/// The members of a string inside a bracket expression: each distinct
/// character once, escaped.
pub open spec fn class_string(s: Seq<char>) -> Seq<char> {
    flat_map(unique_seq(s), class_char_fn())
}

/// Appends the members of a string inside a bracket expression.
pub fn push_class_string(dst: &mut Vec<char>, s: &Vec<char>)
    ensures
        final(dst)@ == old(dst)@ + class_string(s@),
{
    let u = unique_chars(s);
    let ghost start = dst@;
    let mut i: usize = 0;
    while i < u.len()
        invariant
            i <= u@.len(),
            u@ == unique_seq(s@),
            dst@ == start + flat_map(u@.take(i as int), class_char_fn()),
        decreases u@.len() - i,
    {
        proof {
            lemma_flat_map_take(u@, i as int, class_char_fn());
        }
        push_class_char(dst, u[i]);
        i = i + 1;
    }
    assert(u@.take(i as int) == u@);
}

/// One character inside a quoted string of description text.
pub open spec fn text_char(c: char) -> Seq<char> {
    if c == '\n' {
        seq!['\\', 'n']
    } else if c == '\r' {
        seq!['\\', 'r']
    } else if c == '\t' {
        seq!['\\', 't']
    } else if c == '\\' {
        seq!['\\', '\\']
    } else if c == '"' {
        seq!['\\', '"']
    } else {
        seq![c]
    }
}

pub open spec fn text_char_fn() -> spec_fn(char) -> Seq<char> {
    |c: char| text_char(c)
}

/// A string inside a quoted string of description text.
pub open spec fn text_string(s: Seq<char>) -> Seq<char> {
    flat_map(s, text_char_fn())
}

/// One character escaped for a quoted string of description text.
pub fn escape_char(c: &char) -> (r: String)
    ensures
        r@ == text_char(*c),
{
    crate::text::string_of(&text_char_chars(*c))
}

/// A string escaped for a quoted string of description text.
pub fn escape_string(s: &str) -> (r: String)
    ensures
        r@ == text_string(s@),
{
    crate::text::string_of(&text_string_chars(&crate::text::chars_of(s)))
}

/// One character escaped for a quoted string of description text.
pub fn text_char_chars(c: char) -> (r: Vec<char>)
    ensures
        r@ == text_char(c),
{
    let mut r: Vec<char> = Vec::new();
    if c == '\n' {
        r.push('\\');
        r.push('n');
    } else if c == '\r' {
        r.push('\\');
        r.push('r');
    } else if c == '\t' {
        r.push('\\');
        r.push('t');
    } else if c == '\\' || c == '"' {
        r.push('\\');
        r.push(c);
    } else {
        r.push(c);
    }
    r
}

/// A string escaped for a quoted string of description text.
pub fn text_string_chars(s: &Vec<char>) -> (r: Vec<char>)
    ensures
        r@ == text_string(s@),
{
    let mut r: Vec<char> = Vec::new();
    let mut i: usize = 0;
    while i < s.len()
        invariant
            i <= s@.len(),
            r@ == text_string(s@.take(i as int)),
        decreases s@.len() - i,
    {
        proof {
            lemma_flat_map_take(s@, i as int, text_char_fn());
        }
        let e = text_char_chars(s[i]);
        crate::text::push_all(&mut r, &e);
        i = i + 1;
    }
    assert(s@.take(i as int) == s@);
    r
}


/// The characters that the members of a bracket expression stand for, where
/// each member is a character that needs no backslash there or a backslash
/// followed by one that does; `None` where `p` is not of that form.
pub open spec fn decode_class(p: Seq<char>) -> Option<Seq<char>>
    decreases p.len(),
{
    if p.len() == 0 {
        Some(Seq::empty())
    } else if p[0] == '\\' {
        if p.len() >= 2 && is_class_meta(p[1]) {
            match decode_class(p.skip(2)) {
                Some(rest) => Some(seq![p[1]] + rest),
                None => None,
            }
        } else {
            None
        }
    } else if is_class_meta(p[0]) {
        None
    } else {
        match decode_class(p.skip(1)) {
            Some(rest) => Some(seq![p[0]] + rest),
            None => None,
        }
    }
}

proof fn lemma_decode_class_prepend(c: char, rest: Seq<char>)
    ensures
        decode_class(class_char(c) + rest) == match decode_class(rest) {
            Some(r) => Some(seq![c] + r),
            None => None::<Seq<char>>,
        },
{
    let p = class_char(c) + rest;
    if is_class_meta(c) {
        assert(p.skip(2) == rest);
    } else {
        assert(p.skip(1) == rest);
    }
}

/// Members written by escaping each character stand for exactly those characters.
pub proof fn lemma_class_escape_exact(s: Seq<char>)
    ensures
        decode_class(flat_map(s, class_char_fn())) == Some(s),
    decreases s.len(),
{
    if s.len() > 0 {
        let f = class_char_fn();
        let t = s.drop_first();
        lemma_flat_map_concat(seq![s[0]], t, f);
        assert(seq![s[0]] + t == s);
        assert(seq![s[0]].drop_last() == Seq::<char>::empty());
        reveal_with_fuel(flat_map, 2);
        assert(flat_map(seq![s[0]], f) == class_char(s[0]));
        lemma_class_escape_exact(t);
        lemma_decode_class_prepend(s[0], flat_map(t, f));
    }
}


/// A quoted character of description text: `'c'`, with the backslash, the
/// single quote and the control characters escaped.
pub open spec fn char_literal(c: char) -> Seq<char> {
    seq!['\''] + (if c == '\'' { seq!['\\', '\''] } else { text_char(c) }) + seq!['\'']
}

/// A quoted character of description text.
pub fn char_literal_chars(c: char) -> (r: Vec<char>)
    ensures
        r@ == char_literal(c),
{
    let mut r: Vec<char> = Vec::new();
    r.push('\'');
    if c == '\'' {
        r.push('\\');
        r.push('\'');
    } else {
        crate::text::push_all(&mut r, &text_char_chars(c));
    }
    r.push('\'');
    assert(r@ =~= char_literal(c));
    r
}

} // verus!
