//! Bracket expressions: members, ranges, predefined classes and set
//! operations between classes.

use vstd::prelude::*;

use crate::dsl::Dsl;
use crate::engine::{engine_accepts, engine_check};
use crate::error::CompileError;
use crate::escape::{class_char, class_string, push_class_char, push_class_string};
use crate::text::{chars_of, push_all};
use crate::words::{parse_single_word, word_pattern};

verus! {

/// A Unicode class by name: `\p{name}`, or `\P{name}` when negated.
pub struct PredefineClass {
    pub regex: Vec<char>,
}

/// The pattern text of the Unicode class `name`.
pub open spec fn unicode_class_text(negated: bool, name: Seq<char>) -> Seq<char> {
    seq!['\\', if negated { 'P' } else { 'p' }, '{'] + name + seq!['}']
}

/// The Unicode class `name` when the engine knows it.
pub open spec fn unicode_class_spec(negated: bool, name: Seq<char>) -> Result<Seq<char>, CompileError> {
    if engine_accepts(unicode_class_text(negated, name)) {
        Ok(unicode_class_text(negated, name))
    } else {
        Err(CompileError::UnknownClassName)
    }
}

impl PredefineClass {
    /// The class named `name`, checked by a trial compile.
    pub fn parse(negated: bool, name: &str) -> (r: Result<PredefineClass, CompileError>)
        ensures
            match r {
                Ok(c) => unicode_class_spec(negated, name@) == Ok::<Seq<char>, CompileError>(c.regex@),
                Err(e) => unicode_class_spec(negated, name@) == Err::<Seq<char>, CompileError>(e),
            },
    {
        let mut regex: Vec<char> = Vec::new();
        regex.push('\\');
        regex.push(if negated { 'P' } else { 'p' });
        regex.push('{');
        push_all(&mut regex, &chars_of(name));
        regex.push('}');
        assert(regex@ =~= unicode_class_text(negated, name@));
        match engine_check(&regex) {
            None => Ok(PredefineClass { regex }),
            Some(_) => Err(CompileError::UnknownClassName),
        }
    }

    /// The class as a fragment; it is a single token.
    pub fn to_dsl(&self) -> (r: Dsl)
        ensures
            r@ == (self.regex@, false),
    {
        Dsl { regex: self.regex.clone(), need_group: false }
    }
}

/// One member of a bracket expression.
pub enum ClassElement {
    /// One character.
    Char(char),
    /// Every character of a string.
    Str(String),
    /// A Unicode class by name, negated or not.
    Class(bool, String),
    /// A bare keyword such as `digit`.
    Word(String),
    /// The characters from the first to the second.
    Range(char, char),
    /// The members so far, intersected with a nested class.
    Intersect(Vec<ClassElement>),
    /// The members so far, less those of a nested class.
    Subtract(Vec<ClassElement>),
    /// The members so far or those of a nested class, but not both.
    Xor(Vec<ClassElement>),
}

/// The text of one member inside a bracket expression.
pub open spec fn element_spec(e: ClassElement) -> Result<Seq<char>, CompileError>
    decreases e,
{
    match e {
        ClassElement::Char(c) => Ok(class_char(c)),
        ClassElement::Str(s) => if s@.len() == 0 {
            Err(CompileError::EmptyConstruct)
        } else {
            Ok(class_string(s@))
        },
        ClassElement::Class(negated, name) => unicode_class_spec(negated, name@),
        ClassElement::Word(w) => match word_pattern(w@) {
            Some(p) => Ok(p),
            None => Err(CompileError::UnknownWord),
        },
        ClassElement::Range(from, to) => Ok(class_char(from) + seq!['-'] + class_char(to)),
        ClassElement::Intersect(v) => if v@.len() == 0 {
            Err(CompileError::EmptyConstruct)
        } else {
            match elements_spec(v@) {
                Ok(c) => Ok(seq!['&', '&', '['] + c + seq![']']),
                Err(err) => Err(err),
            }
        },
        ClassElement::Subtract(v) => if v@.len() == 0 {
            Err(CompileError::EmptyConstruct)
        } else {
            match elements_spec(v@) {
                Ok(c) => Ok(seq!['&', '&', '[', '^'] + c + seq![']']),
                Err(err) => Err(err),
            }
        },
        ClassElement::Xor(v) => if v@.len() == 0 {
            Err(CompileError::EmptyConstruct)
        } else {
            match elements_spec(v@) {
                Ok(c) => Ok(seq!['~', '~', '['] + c + seq![']']),
                Err(err) => Err(err),
            }
        },
    }
}

/// The texts of the members one after the other; the first failure wins.
pub open spec fn elements_spec(s: Seq<ClassElement>) -> Result<Seq<char>, CompileError>
    decreases s,
{
    if s.len() == 0 {
        Ok(Seq::empty())
    } else {
        match elements_spec(s.drop_last()) {
            Ok(p) => match element_spec(s.last()) {
                Ok(t) => Ok(p + t),
                Err(err) => Err(err),
            },
            Err(err) => Err(err),
        }
    }
}

/// The interior of a bracket expression; it may not be empty.
pub open spec fn body_spec(s: Seq<ClassElement>) -> Result<Seq<char>, CompileError> {
    if s.len() == 0 {
        Err(CompileError::EmptyConstruct)
    } else {
        elements_spec(s)
    }
}

proof fn lemma_elements_err(s: Seq<ClassElement>, i: int)
    requires
        0 <= i <= s.len(),
        elements_spec(s.take(i)) is Err,
    ensures
        elements_spec(s) == elements_spec(s.take(i)),
    decreases s.len() - i,
{
    if i < s.len() {
        assert(s.take(i + 1).drop_last() == s.take(i));
        lemma_elements_err(s, i + 1);
    } else {
        assert(s.take(i) == s);
    }
}

/// The text of one member inside a bracket expression.
pub fn element_text(e: &ClassElement) -> (r: Result<Vec<char>, CompileError>)
    ensures
        match r {
            Ok(t) => element_spec(*e) == Ok::<Seq<char>, CompileError>(t@),
            Err(err) => element_spec(*e) == Err::<Seq<char>, CompileError>(err),
        },
    decreases e,
{
    let mut out: Vec<char> = Vec::new();
    match e {
        ClassElement::Char(c) => {
            push_class_char(&mut out, *c);
            assert(out@ =~= class_char(*c));
        },
        ClassElement::Str(s) => {
            let cs = chars_of(s.as_str());
            if cs.len() == 0 {
                return Err(CompileError::EmptyConstruct);
            }
            push_class_string(&mut out, &cs);
            assert(out@ =~= class_string(cs@));
        },
        ClassElement::Class(negated, name) => {
            let cls = PredefineClass::parse(*negated, name.as_str())?;
            out = cls.regex;
        },
        ClassElement::Word(w) => {
            match parse_single_word(&chars_of(w.as_str())) {
                Some(p) => {
                    out = p;
                },
                None => {
                    return Err(CompileError::UnknownWord);
                },
            }
        },
        ClassElement::Range(from, to) => {
            push_class_char(&mut out, *from);
            out.push('-');
            push_class_char(&mut out, *to);
            assert(out@ =~= class_char(*from) + seq!['-'] + class_char(*to));
        },
        ClassElement::Intersect(v) => {
            let c = body_text(v)?;
            out.push('&');
            out.push('&');
            out.push('[');
            push_all(&mut out, &c);
            out.push(']');
            assert(out@ =~= seq!['&', '&', '['] + c@ + seq![']']);
        },
        ClassElement::Subtract(v) => {
            let c = body_text(v)?;
            out.push('&');
            out.push('&');
            out.push('[');
            out.push('^');
            push_all(&mut out, &c);
            out.push(']');
            assert(out@ =~= seq!['&', '&', '[', '^'] + c@ + seq![']']);
        },
        ClassElement::Xor(v) => {
            let c = body_text(v)?;
            out.push('~');
            out.push('~');
            out.push('[');
            push_all(&mut out, &c);
            out.push(']');
            assert(out@ =~= seq!['~', '~', '['] + c@ + seq![']']);
        },
    }
    Ok(out)
}

/// The interior of a bracket expression: the texts of its members one after
/// the other; it may not be empty.
pub fn body_text(v: &Vec<ClassElement>) -> (r: Result<Vec<char>, CompileError>)
    ensures
        match r {
            Ok(t) => body_spec(v@) == Ok::<Seq<char>, CompileError>(t@),
            Err(err) => body_spec(v@) == Err::<Seq<char>, CompileError>(err),
        },
    decreases v,
{
    if v.len() == 0 {
        return Err(CompileError::EmptyConstruct);
    }
    let mut out: Vec<char> = Vec::new();
    let mut i: usize = 0;
    while i < v.len()
        invariant
            i <= v@.len(),
            elements_spec(v@.take(i as int)) == Ok::<Seq<char>, CompileError>(out@),
        decreases v@.len() - i,
    {
        assert(v@.take(i + 1).drop_last() == v@.take(i as int));
        match element_text(&v[i]) {
            Ok(t) => {
                push_all(&mut out, &t);
            },
            Err(err) => {
                proof {
                    lemma_elements_err(v@, i + 1);
                }
                return Err(err);
            },
        }
        i = i + 1;
    }
    assert(v@.take(i as int) == v@);
    Ok(out)
}

/// A bracket expression: `[...]`, or `[^...]` for its complement.
pub struct UserClass {
    pub contains: UserClassInternal,
    pub use_me: bool,
}

/// The interior of a bracket expression, already escaped.
pub struct UserClassInternal {
    pub contains: Vec<char>,
}

/// The pattern text of a bracket expression around `body`.
pub open spec fn bracket_text(use_me: bool, body: Seq<char>) -> Seq<char> {
    if use_me {
        seq!['['] + body + seq![']']
    } else {
        seq!['[', '^'] + body + seq![']']
    }
}

impl UserClassInternal {
    /// The interior made of `elements`.
    pub fn parse(elements: &Vec<ClassElement>) -> (r: Result<UserClassInternal, CompileError>)
        ensures
            match r {
                Ok(c) => body_spec(elements@) == Ok::<Seq<char>, CompileError>(c.contains@),
                Err(err) => body_spec(elements@) == Err::<Seq<char>, CompileError>(err),
            },
    {
        let contains = body_text(elements)?;
        Ok(UserClassInternal { contains })
    }
}

impl UserClass {
    /// The class of `elements`, or of everything else when `use_me` is false.
    pub fn parse(elements: &Vec<ClassElement>, use_me: bool) -> (r: Result<UserClass, CompileError>)
        ensures
            match r {
                Ok(c) => body_spec(elements@) == Ok::<Seq<char>, CompileError>(c.contains.contains@)
                    && c.use_me == use_me,
                Err(err) => body_spec(elements@) == Err::<Seq<char>, CompileError>(err),
            },
    {
        let contains = UserClassInternal::parse(elements)?;
        Ok(UserClass { contains, use_me })
    }

    /// The class as a fragment; a bracket expression is a single token.
    pub fn to_dsl(&self) -> (r: Dsl)
        ensures
            r@ == (bracket_text(self.use_me, self.contains.contains@), false),
    {
        let mut regex: Vec<char> = Vec::new();
        regex.push('[');
        if !self.use_me {
            regex.push('^');
        }
        push_all(&mut regex, &self.contains.contains);
        regex.push(']');
        assert(regex@ =~= bracket_text(self.use_me, self.contains.contains@));
        Dsl { regex, need_group: false }
    }
}

} // verus!
