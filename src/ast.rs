//! A parsed pattern, and how it is printed back as description text.

use vstd::prelude::*;

use crate::escape::{char_literal, char_literal_chars, text_char, text_char_chars, text_string, text_string_chars};
use crate::printer::{block, indent, Printer};
use crate::text::{chars_of, decimal, decimal_of, deep, push_all};

verus! {

/// The Perl classes `\d`, `\s` and `\w`.
#[derive(Debug, Clone, Copy, PartialEq, Eq, Structural)]
pub enum PerlKind {
    Digit,
    Space,
    Word,
}

/// Zero-width assertions.
#[derive(Debug, Clone, Copy, PartialEq, Eq, Structural)]
pub enum AssertionKind {
    StartLine,
    EndLine,
    StartText,
    EndText,
    WordBoundary,
    NotWordBoundary,
    /// Any other assertion; the description has no word for it.
    Other,
}

/// How often a repeated expression may occur.
#[derive(Debug, Clone, Copy, PartialEq, Eq, Structural)]
pub enum RepetitionKind {
    ZeroOrOne,
    ZeroOrMore,
    OneOrMore,
    Exactly(u32),
    AtLeast(u32),
    Bounded(u32, u32),
}

/// Inline flags.
#[derive(Debug, Clone, Copy, PartialEq, Eq, Structural)]
pub enum FlagKind {
    CaseInsensitive,
    MultiLine,
    DotMatchesNewLine,
    SwapGreed,
    Unicode,
    Crlf,
    IgnoreWhitespace,
}

/// One item of a flag list: a flag, or the `-` after which flags are removed.
#[derive(Debug, Clone, Copy, PartialEq, Eq, Structural)]
pub enum FlagsItem {
    Negation,
    Flag(FlagKind),
}

/// The kinds of group.
pub enum GroupKind {
    /// `(...)`.
    CaptureIndex,
    /// `(?<name>...)`.
    CaptureName(String),
    /// `(?flags:...)`, with no flags for `(?:...)`.
    NonCapturing(Vec<FlagsItem>),
}

/// Set operations between bracketed classes.
#[derive(Debug, Clone, Copy, PartialEq, Eq, Structural)]
pub enum BinaryOpKind {
    Intersection,
    Difference,
    SymmetricDifference,
}

/// The inside of a bracket expression.
pub enum ClassSet {
    Item(ClassSetItem),
    BinaryOp(BinaryOpKind, Box<ClassSet>, Box<ClassSet>),
}

/// One member of a bracket expression.
pub enum ClassSetItem {
    Empty,
    Literal(char),
    Range(char, char),
    /// An ASCII class such as `[:alpha:]`.
    Ascii,
    /// A Unicode class, negated or not; `None` for a form the description
    /// cannot name (`\p{name=value}`).
    Unicode(bool, Option<String>),
    Perl(bool, PerlKind),
    /// A nested bracket expression, negated or not.
    Bracketed(bool, Box<ClassSet>),
    Union(Vec<ClassSetItem>),
}

/// The kinds of node of a parsed pattern.
pub enum AstKind {
    Empty,
    Literal(char),
    Dot,
    ClassUnicode(bool, Option<String>),
    ClassPerl(bool, PerlKind),
    ClassBracketed(bool, ClassSet),
    Assertion(AssertionKind),
    /// The repeated expression, and whether the repetition is greedy.
    Repetition(RepetitionKind, bool, Box<Ast>),
    Group(GroupKind, Box<Ast>),
    Flags(Vec<FlagsItem>),
    Alternation(Vec<Ast>),
    Concat(Vec<Ast>),
}

/// A node of a parsed pattern, with the pattern text it was parsed from.
pub struct Ast {
    pub kind: AstKind,
    pub text: String,
}

/// `eq("c")`.
pub open spec fn char_line(c: char) -> Seq<char> {
    "eq(\""@ + text_char(c) + "\")"@
}

/// `eq("text")`.
pub open spec fn str_line(s: Seq<char>) -> Seq<char> {
    "eq(\""@ + text_string(s) + "\")"@
}

/// `regex("text")`: raw pattern text, for what has no other description.
pub open spec fn fallback_line(s: Seq<char>) -> Seq<char> {
    "regex(\""@ + text_string(s) + "\")"@
}

pub open spec fn perl_line(negated: bool, k: PerlKind) -> Seq<char> {
    (if negated { "not_"@ } else { ""@ }) + match k {
        PerlKind::Digit => "digit"@,
        PerlKind::Space => "white_space"@,
        PerlKind::Word => "word_character"@,
    }
}

pub open spec fn unicode_line(negated: bool, name: Seq<char>) -> Seq<char> {
    seq![if negated { '~' } else { '#' }] + name
}

pub open spec fn assertion_name(k: AssertionKind) -> Option<Seq<char>> {
    match k {
        AssertionKind::StartLine => Some("beginning_of_line"@),
        AssertionKind::EndLine => Some("end_of_line"@),
        AssertionKind::StartText => Some("beginning_of_input"@),
        AssertionKind::EndText => Some("end_of_input"@),
        AssertionKind::WordBoundary => Some("word_boundary"@),
        AssertionKind::NotWordBoundary => Some("not_word_boundary"@),
        AssertionKind::Other => None,
    }
}

pub open spec fn flag_name(f: FlagKind) -> Option<Seq<char>> {
    match f {
        FlagKind::CaseInsensitive => Some("case_insensitive"@),
        FlagKind::MultiLine => Some("multi_line"@),
        FlagKind::DotMatchesNewLine => Some("allow_dot"@),
        FlagKind::Crlf => Some("enables_crlf_mode"@),
        _ => None,
    }
}

/// The lines of a flag list: `+flag` before the negation, `-flag` after it;
/// with the flag state reached. `None` for a flag the description lacks.
pub open spec fn flags_fold(s: Seq<FlagsItem>) -> Option<(bool, Seq<Seq<char>>)>
    decreases s.len(),
{
    if s.len() == 0 {
        Some((true, Seq::empty()))
    } else {
        match flags_fold(s.drop_last()) {
            Some((add, ls)) => match s.last() {
                FlagsItem::Negation => Some((false, ls)),
                FlagsItem::Flag(f) => match flag_name(f) {
                    Some(n) => Some((add, ls.push((if add { "+"@ } else { "-"@ }) + n))),
                    None => None,
                },
            },
            None => None,
        }
    }
}

pub open spec fn flags_lines(s: Seq<FlagsItem>) -> Option<Seq<Seq<char>>> {
    match flags_fold(s) {
        Some((_, ls)) => Some(ls),
        None => None,
    }
}

pub open spec fn op_head(k: BinaryOpKind) -> Seq<char> {
    match k {
        BinaryOpKind::Difference => "subtract {"@,
        BinaryOpKind::Intersection => "intersect {"@,
        BinaryOpKind::SymmetricDifference => "xor {"@,
    }
}

/// The lines of the inside of a bracket expression, `None` where it holds
/// something the description lacks.
pub open spec fn set_lines(s: ClassSet) -> Option<Seq<Seq<char>>>
    decreases s,
{
    match s {
        ClassSet::Item(item) => item_lines(item),
        ClassSet::BinaryOp(k, lhs, rhs) => match set_lines(*lhs) {
            Some(l) => match set_lines(*rhs) {
                Some(r) => Some(l + block(op_head(k), r)),
                None => None,
            },
            None => None,
        },
    }
}

pub open spec fn item_lines(i: ClassSetItem) -> Option<Seq<Seq<char>>>
    decreases i,
{
    match i {
        ClassSetItem::Literal(c) => Some(seq![char_literal(c)]),
        ClassSetItem::Range(a, b) => Some(seq!["from: "@ + char_literal(a) + ", to: "@ + char_literal(b)]),
        ClassSetItem::Unicode(negated, name) => match name {
            Some(n) => Some(seq![unicode_line(negated, n@)]),
            None => None,
        },
        ClassSetItem::Perl(negated, k) => Some(seq![perl_line(negated, k)]),
        ClassSetItem::Union(v) => union_lines(v@),
        ClassSetItem::Bracketed(negated, s) => if negated {
            None
        } else {
            set_lines(*s)
        },
        _ => None,
    }
}

pub open spec fn union_lines(s: Seq<ClassSetItem>) -> Option<Seq<Seq<char>>>
    decreases s,
{
    if s.len() == 0 {
        Some(Seq::empty())
    } else {
        match union_lines(s.drop_last()) {
            Some(l) => match item_lines(s[s.len() - 1]) {
                Some(r) => Some(l + r),
                None => None,
            },
            None => None,
        }
    }
}

/// A run of literals in a concatenation, or one other node by its index.
pub enum Piece {
    Str(Seq<char>),
    Char(char),
    Node(int),
}

/// The pieces so far, the run of two or more literals being read, and a
/// single literal being read.
pub open spec fn combine_fold(s: Seq<Ast>) -> (Seq<Piece>, Seq<char>, Option<char>)
    decreases s.len(),
{
    if s.len() == 0 {
        (Seq::empty(), Seq::empty(), None)
    } else {
        let (ret, cur, chr) = combine_fold(s.drop_last());
        match s.last().kind {
            AstKind::Literal(c) => match chr {
                Some(c1) => (ret, cur.push(c1).push(c), None),
                None => if cur.len() == 0 {
                    (ret, cur, Some(c))
                } else {
                    (ret, cur.push(c), None)
                },
            },
            _ => (flush(ret, cur, chr).push(Piece::Node(s.len() - 1)), Seq::empty(), None),
        }
    }
}

/// The pieces with the run being read, then the single literal, added.
pub open spec fn flush(ret: Seq<Piece>, cur: Seq<char>, chr: Option<char>) -> Seq<Piece> {
    let r1 = if cur.len() > 0 { ret.push(Piece::Str(cur)) } else { ret };
    match chr {
        Some(c) => r1.push(Piece::Char(c)),
        None => r1,
    }
}

/// The nodes of a concatenation, each run of adjacent literals joined.
pub open spec fn combine(s: Seq<Ast>) -> Seq<Piece> {
    let (ret, cur, chr) = combine_fold(s);
    flush(ret, cur, chr)
}

/// Each character as a character piece.
pub open spec fn char_items(t: Seq<char>) -> Seq<Piece>
    decreases t.len(),
{
    if t.len() == 0 {
        Seq::empty()
    } else {
        char_items(t.drop_last()).push(Piece::Char(t.last()))
    }
}

proof fn lemma_char_items_push(t: Seq<char>, c: char)
    ensures
        char_items(t.push(c)) == char_items(t).push(Piece::Char(c)),
{
    assert(t.push(c).drop_last() == t);
}

/// The items a piece stands for: each literal of a run, the single literal,
/// or the node.
pub open spec fn piece_items(p: Piece) -> Seq<Piece> {
    match p {
        Piece::Str(t) => char_items(t),
        _ => seq![p],
    }
}

/// The items that the pieces stand for, in order.
pub open spec fn expand(ps: Seq<Piece>) -> Seq<Piece>
    decreases ps.len(),
{
    if ps.len() == 0 {
        Seq::empty()
    } else {
        expand(ps.drop_last()) + piece_items(ps.last())
    }
}

/// The nodes of a concatenation as items: a literal as its character, any
/// other node as its index.
pub open spec fn items(s: Seq<Ast>) -> Seq<Piece> {
    Seq::new(s.len(), |i: int| item_at(s, i))
}

pub open spec fn item_at(s: Seq<Ast>, i: int) -> Piece {
    match s[i].kind {
        AstKind::Literal(c) => Piece::Char(c),
        _ => Piece::Node(i),
    }
}

pub open spec fn is_text(p: Piece) -> bool {
    !(p is Node)
}

/// No two pieces of text stand next to each other, and every joined run
/// holds two literals or more.
pub open spec fn maximal_runs(ps: Seq<Piece>) -> bool {
    &&& forall|i: int| 0 <= i < ps.len() - 1 ==> !(is_text(#[trigger] ps[i]) && is_text(ps[i + 1]))
    &&& forall|i: int| 0 <= i < ps.len() && (#[trigger] ps[i] is Str) ==> ps[i]->Str_0.len() >= 2
}

pub open spec fn run_items(cur: Seq<char>, chr: Option<char>) -> Seq<Piece> {
    char_items(cur) + match chr {
        Some(c) => seq![Piece::Char(c)],
        None => Seq::empty(),
    }
}

proof fn lemma_combine_fold(s: Seq<Ast>)
    ensures
        ({
            let (ret, cur, chr) = combine_fold(s);
            &&& !(cur.len() > 0 && chr is Some)
            &&& (cur.len() == 0 || cur.len() >= 2)
            &&& (ret.len() == 0 || ret.last() is Node)
            &&& maximal_runs(ret)
            &&& expand(ret) + run_items(cur, chr) == items(s)
        }),
    decreases s.len(),
{
    if s.len() > 0 {
        let d = s.drop_last();
        lemma_combine_fold(d);
        let (ret, cur, chr) = combine_fold(d);
        let n = s.len() - 1;
        assert(items(s) =~= items(d).push(item_at(s, n))) by {
            assert forall|i: int| 0 <= i < d.len() implies item_at(s, i) == item_at(d, i) by {
                assert(s[i] == d[i]);
            }
        }
        match s.last().kind {
            AstKind::Literal(c) => {
                assert(item_at(s, n) == Piece::Char(c));
                match chr {
                    Some(c1) => {
                        assert(cur.len() == 0);
                        lemma_char_items_push(cur, c1);
                        lemma_char_items_push(cur.push(c1), c);
                        assert(run_items(cur.push(c1).push(c), None) =~= run_items(cur, chr).push(Piece::Char(c)));
                    },
                    None => {
                        if cur.len() == 0 {
                            lemma_char_items_push(cur, c);
                            assert(run_items(cur, Some(c)) =~= run_items(cur, chr).push(Piece::Char(c)));
                        } else {
                            lemma_char_items_push(cur, c);
                            assert(run_items(cur.push(c), None) =~= run_items(cur, chr).push(Piece::Char(c)));
                        }
                    },
                }
            },
            _ => {
                assert(item_at(s, n) == Piece::Node(n));
                let r1 = if cur.len() > 0 { ret.push(Piece::Str(cur)) } else { ret };
                let f = flush(ret, cur, chr);
                if cur.len() > 0 {
                    assert(r1.drop_last() == ret);
                    assert(piece_items(Piece::Str(cur)) == char_items(cur));
                }
                assert(expand(r1) == expand(ret) + char_items(cur));
                match chr {
                    Some(c) => {
                        assert(f.drop_last() == r1);
                    },
                    None => {},
                }
                assert(expand(f) =~= expand(ret) + run_items(cur, chr));
                let r2 = f.push(Piece::Node(n));
                assert(r2.drop_last() == f);
                assert(expand(r2) =~= expand(f) + seq![Piece::Node(n)]);
                assert(maximal_runs(r2)) by {
                    assert forall|i: int| 0 <= i < r2.len() - 1 implies !(is_text(#[trigger] r2[i]) && is_text(r2[i + 1])) by {
                        if i + 1 < ret.len() {
                            assert(r2[i] == ret[i] && r2[i + 1] == ret[i + 1]);
                        } else if i + 1 == ret.len() {
                            assert(r2[i] == ret[i]);
                            assert(ret.last() is Node);
                        }
                    }
                    assert forall|i: int| 0 <= i < r2.len() && (#[trigger] r2[i] is Str) implies r2[i]->Str_0.len() >= 2 by {
                        if i < ret.len() {
                            assert(r2[i] == ret[i]);
                        }
                    }
                }
            },
        }
    }
}

/// What `combine` gives, stated directly: its pieces stand for the nodes
/// in order, each literal by its character and each other node by its
/// index; every maximal run of two or more adjacent literals is one string
/// piece, a single literal is one character piece, and no two text pieces
/// stand next to each other.
pub proof fn lemma_combine(s: Seq<Ast>)
    ensures
        expand(combine(s)) == items(s),
        maximal_runs(combine(s)),
{
    lemma_combine_fold(s);
    let (ret, cur, chr) = combine_fold(s);
    let r1 = if cur.len() > 0 { ret.push(Piece::Str(cur)) } else { ret };
    let f = flush(ret, cur, chr);
    if cur.len() > 0 {
        assert(r1.drop_last() == ret);
    }
    assert(expand(r1) == expand(ret) + char_items(cur));
    match chr {
        Some(c) => {
            assert(f.drop_last() == r1);
        },
        None => {},
    }
    assert(expand(f) =~= expand(ret) + run_items(cur, chr));
    assert(maximal_runs(f)) by {
        assert forall|i: int| 0 <= i < f.len() - 1 implies !(is_text(#[trigger] f[i]) && is_text(f[i + 1])) by {
            if i + 1 < ret.len() {
                assert(f[i] == ret[i] && f[i + 1] == ret[i + 1]);
            } else if i + 1 == ret.len() {
                assert(f[i] == ret[i]);
            }
        }
        assert forall|i: int| 0 <= i < f.len() && (#[trigger] f[i] is Str) implies f[i]->Str_0.len() >= 2 by {
            if i < ret.len() {
                assert(f[i] == ret[i]);
            }
        }
    }
}

/// The lines of all the groups of lines, in order.
pub open spec fn concat_all(s: Seq<Seq<Seq<char>>>) -> Seq<Seq<char>>
    decreases s.len(),
{
    if s.len() == 0 {
        Seq::empty()
    } else {
        concat_all(s.drop_last()) + s.last()
    }
}

/// The lines of the pieces of a concatenation, given the lines of each node.
pub open spec fn pieces_lines(ps: Seq<Piece>, fl: Seq<Seq<Seq<char>>>) -> Seq<Seq<char>>
    decreases ps.len(),
{
    if ps.len() == 0 {
        Seq::empty()
    } else {
        pieces_lines(ps.drop_last(), fl) + piece_lines(ps.last(), fl)
    }
}

pub open spec fn piece_lines(p: Piece, fl: Seq<Seq<Seq<char>>>) -> Seq<Seq<char>> {
    match p {
        Piece::Str(s) => seq![str_line(s)],
        Piece::Char(c) => seq![char_line(c)],
        Piece::Node(i) => if 0 <= i < fl.len() {
            fl[i]
        } else {
            Seq::empty()
        },
    }
}

pub open spec fn repetition_head(k: RepetitionKind) -> Seq<char> {
    match k {
        RepetitionKind::ZeroOrMore => "maybe_repeat {"@,
        RepetitionKind::ZeroOrOne => "maybe {"@,
        RepetitionKind::OneOrMore => "repeat {"@,
        _ => "times {"@,
    }
}

/// The bound lines of `times`.
pub open spec fn repetition_bounds(k: RepetitionKind) -> Seq<Seq<char>> {
    match k {
        RepetitionKind::Exactly(n) => seq!["exactly: "@ + decimal(n as nat)],
        RepetitionKind::AtLeast(n) => seq!["at_least: "@ + decimal(n as nat)],
        RepetitionKind::Bounded(n, m) => seq![
            "at_least: "@ + decimal(n as nat) + ", at_most: "@ + decimal(m as nat),
        ],
        _ => Seq::empty(),
    }
}

/// The description of a node, `None` where it holds something that the
/// description lacks (the node is then printed as raw pattern text).
pub open spec fn basic(a: Ast) -> Option<Seq<Seq<char>>>
    decreases a, 1nat,
{
    match a.kind {
        AstKind::Empty => Some(Seq::empty()),
        AstKind::Literal(c) => Some(seq![char_line(c)]),
        AstKind::Dot => Some(seq!["any_character"@]),
        AstKind::ClassUnicode(negated, name) => match name {
            Some(n) => Some(seq![unicode_line(negated, n@)]),
            None => None,
        },
        AstKind::ClassPerl(negated, k) => Some(seq![perl_line(negated, k)]),
        AstKind::ClassBracketed(negated, set) => match set_lines(set) {
            Some(ls) => Some(block(if negated { "not_any_of {"@ } else { "any_of {"@ }, ls)),
            None => None,
        },
        AstKind::Assertion(k) => match assertion_name(k) {
            Some(n) => Some(seq![n]),
            None => None,
        },
        AstKind::Repetition(k, greedy, inner) => Some(block(
            repetition_head(k),
            repetition_bounds(k) + (if greedy { Seq::empty() } else { seq!["lazy"@] }) + full(*inner),
        )),
        AstKind::Group(gk, inner) => match gk {
            GroupKind::CaptureIndex => Some(block("group {"@, full(*inner))),
            GroupKind::CaptureName(n) => Some(block("group {"@, seq!["name: "@ + n@] + full(*inner))),
            GroupKind::NonCapturing(flags) => if flags@.len() == 0 {
                Some(full(*inner))
            } else {
                match flags_lines(flags@) {
                    Some(fl) => Some(block("apply {"@, fl + full(*inner))),
                    None => None,
                }
            },
        },
        AstKind::Flags(items) => match flags_lines(items@) {
            Some(fl) => Some(block("apply {"@, fl)),
            None => None,
        },
        AstKind::Alternation(v) => Some(block("any {"@, concat_all(fulls(v@)))),
        AstKind::Concat(v) => {
            let ps = combine(v@);
            if ps.len() == 0 {
                Some(Seq::empty())
            } else if ps.len() == 1 {
                match ps[0] {
                    Piece::Node(i) => if 0 <= i < v@.len() {
                        basic(v@[i])
                    } else {
                        None
                    },
                    Piece::Str(s) => Some(seq![str_line(s)]),
                    Piece::Char(c) => Some(seq![char_line(c)]),
                }
            } else {
                Some(block("concat {"@, pieces_lines(ps, fulls(v@))))
            }
        },
    }
}

/// The description of a node; where it has none, the one line
/// `regex("...")` with the node's own pattern text.
pub open spec fn full(a: Ast) -> Seq<Seq<char>>
    decreases a, 2nat,
{
    match basic(a) {
        Some(ls) => ls,
        None => seq![fallback_line(a.text@)],
    }
}

/// The description of each node.
pub open spec fn fulls(s: Seq<Ast>) -> Seq<Seq<Seq<char>>>
    decreases s, 0nat,
{
    if s.len() == 0 {
        Seq::empty()
    } else {
        fulls(s.drop_last()).push(full(s[s.len() - 1]))
    }
}


pub open spec fn opt_deep(o: Option<Vec<Vec<char>>>) -> Option<Seq<Seq<char>>> {
    match o {
        Some(v) => Some(deep(v@)),
        None => None,
    }
}

/// Appends the lines of `src` to `dst`.
fn extend_lines(dst: &mut Vec<Vec<char>>, src: &Vec<Vec<char>>)
    ensures
        deep(final(dst)@) == deep(old(dst)@) + deep(src@),
{
    let mut i: usize = 0;
    while i < src.len()
        invariant
            i <= src@.len(),
            deep(dst@) == deep(old(dst)@) + deep(src@).take(i as int),
        decreases src@.len() - i,
    {
        let ghost before = dst@;
        dst.push(src[i].clone());
        i = i + 1;
        assert(deep(dst@) =~= deep(before).push(src@[i - 1]@));
        assert(deep(src@).take(i as int) =~= deep(src@).take(i - 1).push(src@[i - 1]@));
    }
    assert(deep(src@).take(i as int) =~= deep(src@));
}

fn one_line(l: Vec<char>) -> (r: Vec<Vec<char>>)
    ensures
        deep(r@) == seq![l@],
{
    let mut r: Vec<Vec<char>> = Vec::new();
    r.push(l);
    assert(deep(r@) =~= seq![l@]);
    r
}

/// A block: its opening line, the lines inside it, and `}`.
fn block_of(head: Vec<char>, inner: &Vec<Vec<char>>) -> (r: Vec<Vec<char>>)
    ensures
        deep(r@) == block(head@, deep(inner@)),
{
    let mut p = Printer::new();
    p.push_line(head);
    let mut q = Printer::new();
    q.push_lines(inner.clone());
    p.append(&q);
    let mut close: Vec<char> = Vec::new();
    close.push('}');
    p.push_line(close);
    let r = p.into_lines();
    assert(deep(r@) =~= block(head@, deep(inner@)));
    r
}

fn char_line_of(c: char) -> (r: Vec<char>)
    ensures
        r@ == char_line(c),
{
    let mut l = chars_of("eq(\"");
    push_all(&mut l, &text_char_chars(c));
    push_all(&mut l, &chars_of("\")"));
    l
}

fn str_line_of(s: &Vec<char>) -> (r: Vec<char>)
    ensures
        r@ == str_line(s@),
{
    let mut l = chars_of("eq(\"");
    push_all(&mut l, &text_string_chars(s));
    push_all(&mut l, &chars_of("\")"));
    l
}

fn fallback_line_of(s: &str) -> (r: Vec<char>)
    ensures
        r@ == fallback_line(s@),
{
    let mut l = chars_of("regex(\"");
    push_all(&mut l, &text_string_chars(&chars_of(s)));
    push_all(&mut l, &chars_of("\")"));
    l
}

fn perl_line_of(negated: bool, k: PerlKind) -> (r: Vec<char>)
    ensures
        r@ == perl_line(negated, k),
{
    let mut l = if negated { chars_of("not_") } else { chars_of("") };
    let name = match k {
        PerlKind::Digit => chars_of("digit"),
        PerlKind::Space => chars_of("white_space"),
        PerlKind::Word => chars_of("word_character"),
    };
    push_all(&mut l, &name);
    l
}

fn unicode_line_of(negated: bool, name: &String) -> (r: Vec<char>)
    ensures
        r@ == unicode_line(negated, name@),
{
    let mut l: Vec<char> = Vec::new();
    l.push(if negated { '~' } else { '#' });
    push_all(&mut l, &chars_of(name.as_str()));
    assert(l@ =~= unicode_line(negated, name@));
    l
}

fn flag_name_of(f: FlagKind) -> (r: Option<Vec<char>>)
    ensures
        match r {
            Some(n) => flag_name(f) == Some(n@),
            None => flag_name(f) is None,
        },
{
    match f {
        FlagKind::CaseInsensitive => Some(chars_of("case_insensitive")),
        FlagKind::MultiLine => Some(chars_of("multi_line")),
        FlagKind::DotMatchesNewLine => Some(chars_of("allow_dot")),
        FlagKind::Crlf => Some(chars_of("enables_crlf_mode")),
        _ => None,
    }
}

/// The lines of a flag list, `None` for a flag the description lacks.
fn flags_text(items: &Vec<FlagsItem>) -> (r: Option<Vec<Vec<char>>>)
    ensures
        opt_deep(r) == flags_lines(items@),
{
    let mut add = true;
    let mut out: Vec<Vec<char>> = Vec::new();
    let mut i: usize = 0;
    assert(deep(out@) =~= Seq::<Seq<char>>::empty());
    while i < items.len()
        invariant
            i <= items@.len(),
            flags_fold(items@.take(i as int)) == Some((add, deep(out@))),
        decreases items@.len() - i,
    {
        assert(items@.take(i + 1).drop_last() == items@.take(i as int));
        match items[i] {
            FlagsItem::Negation => {
                add = false;
            },
            FlagsItem::Flag(f) => match flag_name_of(f) {
                Some(n) => {
                    let mut l = if add { chars_of("+") } else { chars_of("-") };
                    push_all(&mut l, &n);
                    let ghost before = out@;
                    out.push(l);
                    assert(deep(out@) =~= deep(before).push(l@));
                },
                None => {
                    proof {
                        lemma_flags_none(items@, i + 1);
                    }
                    return None;
                },
            },
        }
        i = i + 1;
    }
    assert(items@.take(i as int) == items@);
    Some(out)
}

proof fn lemma_flags_none(s: Seq<FlagsItem>, i: int)
    requires
        0 <= i <= s.len(),
        flags_fold(s.take(i)) is None,
    ensures
        flags_fold(s) is None,
    decreases s.len() - i,
{
    if i < s.len() {
        assert(s.take(i + 1).drop_last() == s.take(i));
        lemma_flags_none(s, i + 1);
    } else {
        assert(s.take(i) == s);
    }
}

proof fn lemma_union_none(s: Seq<ClassSetItem>, i: int)
    requires
        0 <= i <= s.len(),
        union_lines(s.take(i)) is None,
    ensures
        union_lines(s) is None,
    decreases s.len() - i,
{
    if i < s.len() {
        assert(s.take(i + 1).drop_last() == s.take(i));
        lemma_union_none(s, i + 1);
    } else {
        assert(s.take(i) == s);
    }
}

fn op_head_of(k: BinaryOpKind) -> (r: Vec<char>)
    ensures
        r@ == op_head(k),
{
    match k {
        BinaryOpKind::Difference => chars_of("subtract {"),
        BinaryOpKind::Intersection => chars_of("intersect {"),
        BinaryOpKind::SymmetricDifference => chars_of("xor {"),
    }
}

/// The lines of the inside of a bracket expression.
fn set_text(s: &ClassSet) -> (r: Option<Vec<Vec<char>>>)
    ensures
        opt_deep(r) == set_lines(*s),
    decreases s,
{
    match s {
        ClassSet::Item(item) => item_text(item),
        ClassSet::BinaryOp(k, lhs, rhs) => {
            let mut l = set_text(lhs)?;
            let r = set_text(rhs)?;
            let b = block_of(op_head_of(*k), &r);
            extend_lines(&mut l, &b);
            Some(l)
        },
    }
}

/// The lines of one member of a bracket expression.
fn item_text(i: &ClassSetItem) -> (r: Option<Vec<Vec<char>>>)
    ensures
        opt_deep(r) == item_lines(*i),
    decreases i,
{
    match i {
        ClassSetItem::Literal(c) => Some(one_line(char_literal_chars(*c))),
        ClassSetItem::Range(a, b) => {
            let mut l = chars_of("from: ");
            push_all(&mut l, &char_literal_chars(*a));
            push_all(&mut l, &chars_of(", to: "));
            push_all(&mut l, &char_literal_chars(*b));
            Some(one_line(l))
        },
        ClassSetItem::Unicode(negated, name) => match name {
            Some(n) => Some(one_line(unicode_line_of(*negated, n))),
            None => None,
        },
        ClassSetItem::Perl(negated, k) => Some(one_line(perl_line_of(*negated, *k))),
        ClassSetItem::Union(v) => {
            let mut out: Vec<Vec<char>> = Vec::new();
            let mut k: usize = 0;
            assert(deep(out@) =~= Seq::<Seq<char>>::empty());
            while k < v.len()
                invariant
                    *i == ClassSetItem::Union(*v),
                    k <= v@.len(),
                    union_lines(v@.take(k as int)) == Some(deep(out@)),
                decreases v@.len() - k,
            {
                assert(v@.take(k + 1).drop_last() == v@.take(k as int));
                assert(v@.take(k + 1)[k as int] == v@[k as int]);
                match item_text(&v[k]) {
                    Some(ls) => {
                        extend_lines(&mut out, &ls);
                    },
                    None => {
                        proof {
                            lemma_union_none(v@, k + 1);
                        }
                        return None;
                    },
                }
                k = k + 1;
            }
            assert(v@.take(k as int) == v@);
            Some(out)
        },
        ClassSetItem::Bracketed(negated, s) => {
            if *negated {
                None
            } else {
                set_text(s)
            }
        },
        ClassSetItem::Empty => None,
        ClassSetItem::Ascii => None,
    }
}

/// A run of literals in a concatenation, or one other node by its index.
pub enum InConcat {
    Str(Vec<char>),
    Char(char),
    Node(usize),
}

pub open spec fn piece_view(p: InConcat) -> Piece {
    match p {
        InConcat::Str(s) => Piece::Str(s@),
        InConcat::Char(c) => Piece::Char(c),
        InConcat::Node(i) => Piece::Node(i as int),
    }
}

pub open spec fn pieces_view(s: Seq<InConcat>) -> Seq<Piece> {
    s.map_values(|p: InConcat| piece_view(p))
}

fn push_piece(ret: &mut Vec<InConcat>, p: InConcat)
    ensures
        pieces_view(final(ret)@) == pieces_view(old(ret)@).push(piece_view(p)),
{
    let ghost v = ret@;
    let ghost pv = piece_view(p);
    ret.push(p);
    assert(pieces_view(ret@) =~= pieces_view(v).push(pv));
}

fn flush_exec(ret: &mut Vec<InConcat>, cur: Vec<char>, chr: Option<char>)
    ensures
        pieces_view(final(ret)@) == flush(pieces_view(old(ret)@), cur@, chr),
{
    if cur.len() > 0 {
        push_piece(ret, InConcat::Str(cur));
    }
    match chr {
        Some(ch) => {
            push_piece(ret, InConcat::Char(ch));
        },
        None => {},
    }
}

/// The nodes of a concatenation, each run of adjacent literals joined into one.
pub fn combine_concat(v: &Vec<Ast>) -> (r: Vec<InConcat>)
    ensures
        pieces_view(r@) == combine(v@),
{
    let mut ret: Vec<InConcat> = Vec::new();
    let mut cur: Vec<char> = Vec::new();
    let mut chr: Option<char> = None;
    let mut i: usize = 0;
    assert(pieces_view(ret@) =~= Seq::<Piece>::empty());
    while i < v.len()
        invariant
            i <= v@.len(),
            combine_fold(v@.take(i as int)) == (pieces_view(ret@), cur@, chr),
        decreases v@.len() - i,
    {
        assert(v@.take(i + 1).drop_last() == v@.take(i as int));
        assert(v@.take(i + 1).last() == v@[i as int]);
        match &v[i].kind {
            AstKind::Literal(c) => {
                match chr {
                    Some(c1) => {
                        cur.push(c1);
                        cur.push(*c);
                        chr = None;
                    },
                    None => {
                        if cur.len() == 0 {
                            chr = Some(*c);
                        } else {
                            cur.push(*c);
                        }
                    },
                }
            },
            _ => {
                flush_exec(&mut ret, cur, chr);
                cur = Vec::new();
                push_piece(&mut ret, InConcat::Node(i));
                chr = None;
                assert(cur@ =~= Seq::<char>::empty());
            },
        }
        i = i + 1;
    }
    assert(v@.take(i as int) == v@);
    flush_exec(&mut ret, cur, chr);
    ret
}

proof fn lemma_fulls(s: Seq<Ast>)
    ensures
        fulls(s).len() == s.len(),
        forall|i: int| 0 <= i < s.len() ==> #[trigger] fulls(s)[i] == full(s[i]),
    decreases s.len(),
{
    if s.len() > 0 {
        lemma_fulls(s.drop_last());
    }
}

fn repetition_head_of(k: RepetitionKind) -> (r: Vec<char>)
    ensures
        r@ == repetition_head(k),
{
    match k {
        RepetitionKind::ZeroOrMore => chars_of("maybe_repeat {"),
        RepetitionKind::ZeroOrOne => chars_of("maybe {"),
        RepetitionKind::OneOrMore => chars_of("repeat {"),
        _ => chars_of("times {"),
    }
}

fn repetition_bounds_of(k: RepetitionKind) -> (r: Vec<Vec<char>>)
    ensures
        deep(r@) == repetition_bounds(k),
{
    match k {
        RepetitionKind::Exactly(n) => {
            let mut l = chars_of("exactly: ");
            push_all(&mut l, &decimal_of(n as usize));
            one_line(l)
        },
        RepetitionKind::AtLeast(n) => {
            let mut l = chars_of("at_least: ");
            push_all(&mut l, &decimal_of(n as usize));
            one_line(l)
        },
        RepetitionKind::Bounded(n, m) => {
            let mut l = chars_of("at_least: ");
            push_all(&mut l, &decimal_of(n as usize));
            push_all(&mut l, &chars_of(", at_most: "));
            push_all(&mut l, &decimal_of(m as usize));
            one_line(l)
        },
        _ => {
            let r: Vec<Vec<char>> = Vec::new();
            assert(deep(r@) =~= Seq::<Seq<char>>::empty());
            r
        },
    }
}

/// The description of a node, `None` where it holds something that the
/// description lacks.
pub fn print_basic_ast(a: &Ast) -> (r: Option<Vec<Vec<char>>>)
    ensures
        opt_deep(r) == basic(*a),
    decreases a, 1nat,
{
    match &a.kind {
        AstKind::Empty => {
            let r: Vec<Vec<char>> = Vec::new();
            assert(deep(r@) =~= Seq::<Seq<char>>::empty());
            Some(r)
        },
        AstKind::Literal(c) => Some(one_line(char_line_of(*c))),
        AstKind::Dot => Some(one_line(chars_of("any_character"))),
        AstKind::ClassUnicode(negated, name) => match name {
            Some(n) => Some(one_line(unicode_line_of(*negated, n))),
            None => None,
        },
        AstKind::ClassPerl(negated, k) => Some(one_line(perl_line_of(*negated, *k))),
        AstKind::ClassBracketed(negated, set) => {
            let ls = set_text(set)?;
            let head = if *negated { chars_of("not_any_of {") } else { chars_of("any_of {") };
            Some(block_of(head, &ls))
        },
        AstKind::Assertion(k) => {
            let name = match k {
                AssertionKind::StartLine => chars_of("beginning_of_line"),
                AssertionKind::EndLine => chars_of("end_of_line"),
                AssertionKind::StartText => chars_of("beginning_of_input"),
                AssertionKind::EndText => chars_of("end_of_input"),
                AssertionKind::WordBoundary => chars_of("word_boundary"),
                AssertionKind::NotWordBoundary => chars_of("not_word_boundary"),
                AssertionKind::Other => {
                    return None;
                },
            };
            Some(one_line(name))
        },
        AstKind::Repetition(k, greedy, inner) => {
            let mut ls = repetition_bounds_of(*k);
            if !*greedy {
                let ghost before = ls@;
                ls.push(chars_of("lazy"));
                assert(deep(ls@) =~= deep(before) + seq!["lazy"@]);
            } else {
                assert(deep(ls@) =~= deep(ls@) + Seq::<Seq<char>>::empty());
            }
            extend_lines(&mut ls, &full_lines(inner));
            Some(block_of(repetition_head_of(*k), &ls))
        },
        AstKind::Group(gk, inner) => match gk {
            GroupKind::CaptureIndex => Some(block_of(chars_of("group {"), &full_lines(inner))),
            GroupKind::CaptureName(n) => {
                let mut l = chars_of("name: ");
                push_all(&mut l, &chars_of(n.as_str()));
                let mut ls = one_line(l);
                extend_lines(&mut ls, &full_lines(inner));
                Some(block_of(chars_of("group {"), &ls))
            },
            GroupKind::NonCapturing(flags) => {
                if flags.len() == 0 {
                    Some(full_lines(inner))
                } else {
                    let mut fl = flags_text(flags)?;
                    extend_lines(&mut fl, &full_lines(inner));
                    Some(block_of(chars_of("apply {"), &fl))
                }
            },
        },
        AstKind::Flags(items) => {
            let fl = flags_text(items)?;
            Some(block_of(chars_of("apply {"), &fl))
        },
        AstKind::Alternation(v) => {
            let mut out: Vec<Vec<char>> = Vec::new();
            let mut k: usize = 0;
            assert(deep(out@) =~= Seq::<Seq<char>>::empty());
            while k < v.len()
                invariant
                    a.kind == AstKind::Alternation(*v),
                    k <= v@.len(),
                    deep(out@) == concat_all(fulls(v@.take(k as int))),
                decreases v@.len() - k,
            {
                assert(v@.take(k + 1).drop_last() == v@.take(k as int));
                assert(v@.take(k + 1)[k as int] == v@[k as int]);
                proof {
                    assert(decreases_to!(*a => a.kind));
                    assert(decreases_to!(a.kind => a.kind->Alternation_0));
                    assert(decreases_to!(*v => v[k as int]));
                }
                let ls = full_lines(&v[k]);
                extend_lines(&mut out, &ls);
                k = k + 1;
                assert(fulls(v@.take(k as int)).drop_last() == fulls(v@.take(k - 1)));
            }
            assert(v@.take(k as int) == v@);
            Some(block_of(chars_of("any {"), &out))
        },
        AstKind::Concat(v) => {
            let ps = combine_concat(v);
            let ghost pv = pieces_view(ps@);
            if ps.len() == 0 {
                let r: Vec<Vec<char>> = Vec::new();
                assert(deep(r@) =~= Seq::<Seq<char>>::empty());
                return Some(r);
            }
            if ps.len() == 1 {
                assert(pv[0] == piece_view(ps@[0]));
                return match &ps[0] {
                    InConcat::Node(i) => if *i < v.len() {
                        print_basic_ast(&v[*i])
                    } else {
                        None
                    },
                    InConcat::Str(s) => Some(one_line(str_line_of(s))),
                    InConcat::Char(c) => Some(one_line(char_line_of(*c))),
                };
            }
            proof {
                lemma_fulls(v@);
            }
            let ghost fl = fulls(v@);
            let mut out: Vec<Vec<char>> = Vec::new();
            let mut k: usize = 0;
            assert(deep(out@) =~= Seq::<Seq<char>>::empty());
            while k < ps.len()
                invariant
                    a.kind == AstKind::Concat(*v),
                    k <= ps@.len(),
                    pv == pieces_view(ps@),
                    fl == fulls(v@),
                    fl.len() == v@.len(),
                    forall|i: int| 0 <= i < v@.len() ==> #[trigger] fl[i] == full(v@[i]),
                    deep(out@) == pieces_lines(pv.take(k as int), fl),
                decreases ps@.len() - k,
            {
                assert(pv.take(k + 1).drop_last() == pv.take(k as int));
                assert(pv.take(k + 1).last() == piece_view(ps@[k as int]));
                match &ps[k] {
                    InConcat::Node(i) => {
                        if *i < v.len() {
                            proof {
                                assert(decreases_to!(*a => a.kind));
                                assert(decreases_to!(a.kind => a.kind->Concat_0));
                                assert(decreases_to!(*v => v[*i as int]));
                            }
                            let ls = full_lines(&v[*i]);
                            extend_lines(&mut out, &ls);
                        } else {
                            assert(deep(out@) =~= deep(out@) + Seq::<Seq<char>>::empty());
                        }
                    },
                    InConcat::Str(s) => {
                        extend_lines(&mut out, &one_line(str_line_of(s)));
                    },
                    InConcat::Char(c) => {
                        extend_lines(&mut out, &one_line(char_line_of(*c)));
                    },
                }
                k = k + 1;
            }
            assert(pv.take(k as int) == pv);
            Some(block_of(chars_of("concat {"), &out))
        },
    }
}

/// The description of a node; where it has none, the one line
/// `regex("...")` with the node's own pattern text.
pub fn full_lines(a: &Ast) -> (r: Vec<Vec<char>>)
    ensures
        deep(r@) == full(*a),
    decreases a, 2nat,
{
    match print_basic_ast(a) {
        Some(ls) => ls,
        None => one_line(fallback_line_of(a.text.as_str())),
    }
}

/// Prints the description of a node after the lines so far.
pub fn print_ast(a: &Ast, printer: &mut Printer)
    ensures
        final(printer)@ == old(printer)@ + full(*a),
{
    let ls = full_lines(a);
    printer.push_lines(ls);
}

/// The description of a parsed pattern as text, one line feed after each line.
pub fn to_dsl_text(a: &Ast) -> (r: String)
    ensures
        r@ == crate::printer::render_lines(full(*a)),
{
    let mut p = Printer::new();
    print_ast(a, &mut p);
    assert(p@ =~= full(*a));
    p.render()
}


/// Printing a node of a parsed pattern as description text.
pub trait Builder {
    /// The lines of the node's description, `None` where it has none.
    spec fn basic_spec(&self) -> Option<Seq<Seq<char>>>;

    /// The lines that the node is printed as, falling back to raw pattern text.
    spec fn full_spec(&self) -> Seq<Seq<char>>;

    /// Prints the node's description and tells whether it has one; prints
    /// nothing when it has none.
    fn print_basic_ast(&self, printer: &mut Printer) -> (r: bool)
        ensures
            r == self.basic_spec() is Some,
            r ==> final(printer)@ == old(printer)@ + self.basic_spec()->Some_0,
            !r ==> final(printer)@ == old(printer)@;

    /// Prints the node's description, or raw pattern text where it has none.
    fn print_ast(&self, printer: &mut Printer)
        ensures
            final(printer)@ == old(printer)@ + self.full_spec();
}

impl Builder for Ast {
    open spec fn basic_spec(&self) -> Option<Seq<Seq<char>>> {
        basic(*self)
    }

    open spec fn full_spec(&self) -> Seq<Seq<char>> {
        full(*self)
    }

    fn print_basic_ast(&self, printer: &mut Printer) -> (r: bool) {
        match print_basic_ast(self) {
            Some(ls) => {
                printer.push_lines(ls);
                true
            },
            None => false,
        }
    }

    fn print_ast(&self, printer: &mut Printer) {
        print_ast(self, printer);
    }
}

} // verus!
