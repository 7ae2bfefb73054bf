//! Properties that hold of the compiler and of the printer for all inputs.

use vstd::prelude::*;

use crate::ast::{basic, combine, fallback_line, full, Ast, AstKind, AssertionKind, GroupKind};
use crate::compile::{compile_spec, frag, frags, list_names, repeat_operator, sequence_piece, sequence_text};
use crate::dsl::{grouped, joined};
use crate::error::CompileError;
use crate::class::{body_spec, bracket_text, element_spec, elements_spec, ClassElement};
use crate::escape::{
    class_char, class_char_fn, decode_class, decode_literal, flat_map, lemma_class_escape_exact,
    lemma_escape_literal_exact, lemma_flat_map_concat, lemma_unique_same_set, unique_seq,
};
use crate::node::{Node, RepeatArg, RepeatKind, TimesArg};

verus! {

/// A quoted string compiles to pattern text that stands for exactly that
/// string: the text is a run of literal atoms whose characters are those of
/// the string.
pub proof fn lemma_literal_is_exact(s: String)
    requires
        s@.len() > 0,
    ensures
        frag(Node::Str(s)) is Ok,
        decode_literal(frag(Node::Str(s))->Ok_0.0) == Some(s@),
{
    lemma_escape_literal_exact(s@);
}

/// A quantifier applies to its whole operand: the operand's text is wrapped
/// in a non-capturing group whenever it is not a single token.
pub proof fn lemma_quantifier_groups_operand(kind: RepeatKind, args: Vec<RepeatArg>)
    requires
        args@.len() == 1,
        args@[0] is Item,
        frag(args@[0]->Item_0) is Ok,
    ensures
        ({
            let f = frag(args@[0]->Item_0)->Ok_0;
            &&& frag(Node::Repeat(kind, args)) == Ok::<(Seq<char>, bool), CompileError>(
                (grouped(f) + seq![repeat_operator(kind)], true),
            )
            &&& f.1 ==> grouped(f) == seq!['(', '?', ':'] + f.0 + seq![')']
            &&& !f.1 ==> grouped(f) == f.0
        }),
{
    let s = args@;
    let f = frag(args@[0]->Item_0)->Ok_0;
    assert(s.drop_last() == Seq::<RepeatArg>::empty());
    assert(s[s.len() - 1] == s[0]);
    assert(crate::compile::repeat_fold(s.drop_last()) == Ok::<(Option<crate::node::QuantifierType>, Option<(Seq<char>, bool)>), CompileError>((None, None)));
    assert(crate::compile::repeat_fold(s) == Ok::<(Option<crate::node::QuantifierType>, Option<(Seq<char>, bool)>), CompileError>((None, Some(f))));
    assert(crate::compile::lazy_suffix(None) == Seq::<char>::empty());
    assert(grouped(f) + seq![repeat_operator(kind)] + Seq::<char>::empty()
        == grouped(f) + seq![repeat_operator(kind)]);
}

/// Two capture groups with the same name make the compilation fail with
/// `DuplicateGroupName`, unless a group is named `get_capture`, which makes
/// it fail with `ReservedGroupName`.
pub proof fn lemma_group_names_checked(nodes: Seq<Node>, i: int, j: int)
    requires
        frags(nodes) is Ok,
        0 <= i < j < list_names(nodes).len(),
        list_names(nodes)[i] == list_names(nodes)[j],
    ensures
        list_names(nodes).contains("get_capture"@) ==> compile_spec(nodes) == Err::<Seq<char>, CompileError>(
            CompileError::ReservedGroupName,
        ),
        !list_names(nodes).contains("get_capture"@) ==> compile_spec(nodes) == Err::<Seq<char>, CompileError>(
            CompileError::DuplicateGroupName,
        ),
{
    assert(!list_names(nodes).no_duplicates());
}

/// A group named `get_capture` makes the compilation fail with `ReservedGroupName`.
pub proof fn lemma_reserved_name(nodes: Seq<Node>, i: int)
    requires
        frags(nodes) is Ok,
        0 <= i < list_names(nodes).len(),
        list_names(nodes)[i] == "get_capture"@,
    ensures
        compile_spec(nodes) == Err::<Seq<char>, CompileError>(CompileError::ReservedGroupName),
{
    assert(list_names(nodes).contains("get_capture"@));
}

/// `times` with `exactly` together with `at_least` or `at_most` fails with
/// `ConflictingQuantifierSpec`; with `at_most` and no `at_least` or `exactly`
/// it fails with `InvalidBound`.
pub proof fn lemma_times_bounds_checked(st: crate::compile::TimesSpec)
    requires
        st.item is Some,
    ensures
        st.exactly is Some && (st.at_least is Some || st.at_most is Some)
            ==> crate::compile::times_finish(st) == Err::<(Seq<char>, bool), CompileError>(
            CompileError::ConflictingQuantifierSpec,
        ),
        st.exactly is None && st.at_most is Some && st.at_least is None
            ==> crate::compile::times_finish(st) == Err::<(Seq<char>, bool), CompileError>(
            CompileError::InvalidBound,
        ),
{
}

/// A node that the description cannot express is printed, as a whole, as the
/// single line `regex("...")` holding its own escaped pattern text; nothing
/// of a partial rendering remains.
pub proof fn lemma_fallback_whole(a: Ast)
    requires
        basic(a) is None,
    ensures
        full(a) == seq![fallback_line(a.text@)],
{
}

/// An assertion that the description has no word for is printed as raw
/// pattern text.
pub proof fn lemma_unsupported_assertion(a: Ast)
    requires
        a.kind == AstKind::Assertion(AssertionKind::Other),
    ensures
        full(a) == seq![fallback_line(a.text@)],
{
}

/// The printer gives at least one line for every node but these: an empty
/// node, a concatenation of at most one piece (a run of literals or one
/// other node), and a non-capturing group without flags (whose lines are
/// those of what it holds).
pub proof fn lemma_printer_nonempty(a: Ast)
    requires
        !(a.kind is Empty),
        !(a.kind is Concat && combine(a.kind->Concat_0@).len() <= 1),
        !(a.kind is Group && a.kind->Group_0 is NonCapturing
            && a.kind->Group_0->NonCapturing_0@.len() == 0),
    ensures
        full(a).len() > 0,
{
    match basic(a) {
        Some(ls) => {
            match a.kind {
                AstKind::Group(gk, inner) => {
                    match gk {
                        GroupKind::NonCapturing(flags) => {
                            assert(flags@.len() > 0);
                        },
                        _ => {},
                    }
                },
                _ => {},
            }
        },
        None => {},
    }
}


/// Whether every member is a character or a non-empty string.
pub open spec fn plain_members(s: Seq<ClassElement>) -> bool {
    forall|i: int|
        0 <= i < s.len() ==> (#[trigger] s[i] is Char || (s[i] is Str && s[i]->Str_0@.len() > 0))
}

/// The characters that the members name.
pub open spec fn member_set(s: Seq<ClassElement>) -> Set<char>
    decreases s.len(),
{
    if s.len() == 0 {
        Set::empty()
    } else {
        member_set(s.drop_last()) + match s.last() {
            ClassElement::Char(c) => set![c],
            ClassElement::Str(t) => t@.to_set(),
            _ => Set::empty(),
        }
    }
}

/// The set of characters that a bracket expression of plain members
/// accepts; `None` for other pattern text.
pub open spec fn bracket_members(p: Seq<char>) -> Option<Set<char>> {
    if p.len() >= 2 && p[0] == '[' && p[p.len() - 1] == ']' {
        match decode_class(p.subrange(1, p.len() - 1)) {
            Some(cs) => Some(cs.to_set()),
            None => None,
        }
    } else {
        None
    }
}

/// The characters written for plain members, in order.
pub open spec fn member_chars(s: Seq<ClassElement>) -> Seq<char>
    decreases s.len(),
{
    if s.len() == 0 {
        Seq::empty()
    } else {
        member_chars(s.drop_last()) + match s.last() {
            ClassElement::Char(c) => seq![c],
            ClassElement::Str(t) => unique_seq(t@),
            _ => Seq::empty(),
        }
    }
}

proof fn lemma_to_set_concat(a: Seq<char>, b: Seq<char>)
    ensures
        (a + b).to_set() == a.to_set() + b.to_set(),
{
    assert forall|c: char| (a + b).to_set().contains(c) <==> (a.to_set() + b.to_set()).contains(c) by {
        if (a + b).contains(c) {
            let k = choose|k: int| 0 <= k < (a + b).len() && (a + b)[k] == c;
            if k < a.len() {
                assert(a[k] == c);
            } else {
                assert(b[k - a.len()] == c);
            }
        }
        if a.contains(c) {
            let k = choose|k: int| 0 <= k < a.len() && a[k] == c;
            assert((a + b)[k] == c);
        }
        if b.contains(c) {
            let k = choose|k: int| 0 <= k < b.len() && b[k] == c;
            assert((a + b)[k + a.len()] == c);
        }
    }
    assert((a + b).to_set() =~= a.to_set() + b.to_set());
}

proof fn lemma_plain_members(s: Seq<ClassElement>)
    requires
        plain_members(s),
    ensures
        elements_spec(s) == Ok::<Seq<char>, CompileError>(flat_map(member_chars(s), class_char_fn())),
        member_chars(s).to_set() == member_set(s),
    decreases s.len(),
{
    if s.len() > 0 {
        let d = s.drop_last();
        assert(plain_members(d)) by {
            assert forall|i: int| 0 <= i < d.len() implies (#[trigger] d[i] is Char || (d[i] is Str
                && d[i]->Str_0@.len() > 0)) by {
                assert(d[i] == s[i]);
            }
        }
        lemma_plain_members(d);
        let last = s[s.len() - 1];
        assert(last is Char || (last is Str && last->Str_0@.len() > 0));
        let piece = match last {
            ClassElement::Char(c) => seq![c],
            ClassElement::Str(t) => unique_seq(t@),
            _ => Seq::<char>::empty(),
        };
        lemma_flat_map_concat(member_chars(d), piece, class_char_fn());
        lemma_to_set_concat(member_chars(d), piece);
        match last {
            ClassElement::Char(c) => {
                reveal_with_fuel(flat_map, 2);
                assert(seq![c].drop_last() == Seq::<char>::empty());
                assert(flat_map(seq![c], class_char_fn()) == class_char(c));
                assert(seq![c].to_set() =~= set![c]) by {
                    assert(seq![c][0] == c);
                }
            },
            ClassElement::Str(t) => {
                lemma_unique_same_set(t@);
                assert(element_spec(last) == Ok::<Seq<char>, CompileError>(flat_map(piece, class_char_fn())));
            },
            _ => {},
        }
        assert(s.last() == last);
        assert(member_chars(s) == member_chars(d) + piece);
        assert(element_spec(last) == Ok::<Seq<char>, CompileError>(flat_map(piece, class_char_fn())));
    }
}

/// Union is idempotent: two classes of plain members (characters and
/// strings) that name the same characters accept the same characters, each
/// exactly those named, however often a character is repeated.
pub proof fn lemma_class_union_idempotent(a: Vec<ClassElement>, b: Vec<ClassElement>)
    requires
        a@.len() > 0,
        b@.len() > 0,
        plain_members(a@),
        plain_members(b@),
        member_set(a@) == member_set(b@),
    ensures
        frag(Node::AnyOf(true, a)) is Ok,
        frag(Node::AnyOf(true, b)) is Ok,
        bracket_members(frag(Node::AnyOf(true, a))->Ok_0.0) == Some(member_set(a@)),
        bracket_members(frag(Node::AnyOf(true, a))->Ok_0.0) == bracket_members(
            frag(Node::AnyOf(true, b))->Ok_0.0,
        ),
{
    lemma_plain_class(a);
    lemma_plain_class(b);
}

proof fn lemma_plain_class(a: Vec<ClassElement>)
    requires
        a@.len() > 0,
        plain_members(a@),
    ensures
        frag(Node::AnyOf(true, a)) is Ok,
        bracket_members(frag(Node::AnyOf(true, a))->Ok_0.0) == Some(member_set(a@)),
{
    lemma_plain_members(a@);
    let body = flat_map(member_chars(a@), class_char_fn());
    lemma_class_escape_exact(member_chars(a@));
    let p = bracket_text(true, body);
    assert(p.subrange(1, p.len() - 1) == body);
}


/// Fragments side by side are joined by plain adjacency; only an
/// alternation is wrapped, so a sequence without one is its fragments'
/// texts one after the other.
pub proof fn lemma_sequence_plain_adjacency(ns: Seq<Node>, fs: Seq<(Seq<char>, bool)>)
    requires
        ns.len() == fs.len(),
        forall|i: int| 0 <= i < ns.len() ==> !(#[trigger] ns[i] is Any),
    ensures
        sequence_text(ns, fs) == joined(fs),
    decreases fs.len(),
{
    if fs.len() > 0 {
        let d = ns.drop_last();
        assert forall|i: int| 0 <= i < d.len() implies !(#[trigger] d[i] is Any) by {
            assert(d[i] == ns[i]);
        }
        lemma_sequence_plain_adjacency(d, fs.drop_last());
        assert(!(ns[ns.len() - 1] is Any));
        assert(sequence_piece(ns.last(), fs.last()) == fs.last().0);
    }
}

/// An alternation placed next to other fragments keeps to its own
/// alternatives: its text stands inside a non-capturing group.
pub proof fn lemma_alternation_wrapped_in_sequence(n: Node, f: (Seq<char>, bool))
    requires
        n is Any,
        f.1,
    ensures
        sequence_piece(n, f) == seq!['(', '?', ':'] + f.0 + seq![')'],
{
}

} // verus!
