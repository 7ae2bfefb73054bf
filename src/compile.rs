//! The forward compiler: from a description tree to pattern text.

use vstd::prelude::*;

use crate::class::{body_spec, bracket_text, unicode_class_spec, PredefineClass, UserClass};
use crate::dsl::{eq_spec, group_spec, grouped, views, Dsl};
use crate::engine::{engine_accepts, engine_check};
use crate::error::CompileError;
use crate::escape::literal_char;
use crate::node::{flag_symbol, ApplyArg, Node, QuantifierType, RepeatArg, RepeatKind, TimesArg};
use crate::text::{chars_of, decimal, decimal_of, deep, push_all, string_of};
use crate::words::{parse_single_word, same_text, word_pattern};

verus! {

/// The pattern text of one fragment and whether it needs a group.
pub type Frag = (Seq<char>, bool);

/// What the arguments of `times` have set so far.
pub struct TimesSpec {
    pub quantifier: Option<QuantifierType>,
    pub exactly: Option<usize>,
    pub at_least: Option<usize>,
    pub at_most: Option<usize>,
    pub item: Option<Frag>,
}

/// What the arguments of `apply` have set so far: the flags added and
/// removed, each once in the order first given, and the item.
pub struct ApplySpec {
    pub add: Seq<char>,
    pub remove: Seq<char>,
    pub item: Option<Frag>,
}

/// `?<name>` for a named group, nothing for an unnamed one.
pub open spec fn name_prefix(name: Option<Seq<char>>) -> Seq<char> {
    match name {
        Some(n) => seq!['?', '<'] + n + seq!['>'],
        None => Seq::empty(),
    }
}

/// The alternatives, each grouped where needed, separated by `|`.
pub open spec fn alternation(fs: Seq<Frag>) -> Seq<char>
    decreases fs.len(),
{
    if fs.len() == 0 {
        Seq::empty()
    } else if fs.len() == 1 {
        grouped(fs[0])
    } else {
        alternation(fs.drop_last()) + seq!['|'] + grouped(fs.last())
    }
}

pub open spec fn repeat_operator(kind: RepeatKind) -> char {
    match kind {
        RepeatKind::Maybe => '?',
        RepeatKind::Repeat => '+',
        RepeatKind::MaybeRepeat => '*',
    }
}

/// What follows a quantifier: `?` when it was asked to be lazy.
pub open spec fn lazy_suffix(q: Option<QuantifierType>) -> Seq<char> {
    if q == Some(QuantifierType::Lazy) {
        seq!['?']
    } else {
        Seq::empty()
    }
}

/// The text of fragment `f` of node `n` where it stands next to other
/// fragments: an alternation is wrapped in a non-capturing group so that it
/// keeps to its own alternatives; any other fragment is placed as it is.
pub open spec fn sequence_piece(n: Node, f: Frag) -> Seq<char> {
    if n is Any {
        grouped(f)
    } else {
        f.0
    }
}

/// The texts of the fragments `fs` of the nodes `ns`, placed side by side.
pub open spec fn sequence_text(ns: Seq<Node>, fs: Seq<Frag>) -> Seq<char>
    decreases fs.len(),
{
    if fs.len() == 0 || ns.len() == 0 {
        Seq::empty()
    } else {
        sequence_text(ns.drop_last(), fs.drop_last()) + sequence_piece(ns.last(), fs.last())
    }
}

/// The fragment of a sequence of nodes with fragments `fs`: a single one
/// stays as it is; two or more are placed side by side and need a group.
pub open spec fn sequence_spec(ns: Seq<Node>, fs: Seq<Frag>) -> Frag {
    if fs.len() == 0 {
        (Seq::empty(), false)
    } else if fs.len() == 1 {
        fs[0]
    } else {
        (sequence_text(ns, fs), true)
    }
}

/// The fragment of a node; the first problem found is the error.
pub open spec fn frag(n: Node) -> Result<Frag, CompileError>
    decreases n,
{
    match n {
        Node::Str(s) => if s@.len() == 0 {
            Err(CompileError::EmptyConstruct)
        } else {
            Ok(eq_spec(s@))
        },
        Node::Eq(s) => if s@.len() == 0 {
            Err(CompileError::EmptyConstruct)
        } else {
            Ok(eq_spec(s@))
        },
        Node::Char(c) => Ok((literal_char(c), false)),
        Node::Word(w) => match word_pattern(w@) {
            Some(p) => Ok((p, false)),
            None => Err(CompileError::UnknownWord),
        },
        Node::Class(negated, name) => match unicode_class_spec(negated, name@) {
            Ok(p) => Ok((p, false)),
            Err(e) => Err(e),
        },
        Node::Regex(s) => if s@.len() == 0 {
            Err(CompileError::EmptyConstruct)
        } else if !engine_accepts(s@) {
            Err(CompileError::UnderlyingEngineRejected)
        } else {
            Ok((s@, s@.len() > 1))
        },
        Node::Concat(v) => match frags(v@) {
            Ok(fs) => if fs.len() < 2 {
                Err(CompileError::TooFewOperands)
            } else {
                Ok(sequence_spec(v@, fs))
            },
            Err(e) => Err(e),
        },
        Node::Any(v) => match frags(v@) {
            Ok(fs) => if fs.len() < 2 {
                Err(CompileError::TooFewOperands)
            } else {
                Ok((alternation(fs), true))
            },
            Err(e) => Err(e),
        },
        Node::AnyOf(use_me, v) => match body_spec(v@) {
            Ok(c) => Ok((bracket_text(use_me, c), false)),
            Err(e) => Err(e),
        },
        Node::Group(name, v) => match frags(v@) {
            Ok(fs) => if fs.len() == 0 {
                Err(CompileError::EmptyConstruct)
            } else {
                Ok(group_spec(sequence_spec(v@, fs), name_prefix(match name {
                    Some(x) => Some(x@),
                    None => None,
                })))
            },
            Err(e) => Err(e),
        },
        Node::Repeat(kind, v) => match repeat_fold(v@) {
            Ok(st) => match st.1 {
                Some(f) => Ok((grouped(f) + seq![repeat_operator(kind)] + lazy_suffix(st.0), true)),
                None => Err(CompileError::EmptyConstruct),
            },
            Err(e) => Err(e),
        },
        Node::Times(v) => match times_fold(v@) {
            Ok(st) => times_finish(st),
            Err(e) => Err(e),
        },
        Node::Apply(v) => match apply_fold(v@) {
            Ok(st) => apply_finish(st),
            Err(e) => Err(e),
        },
    }
}

/// The fragments of the nodes in order; the first failure wins.
pub open spec fn frags(s: Seq<Node>) -> Result<Seq<Frag>, CompileError>
    decreases s,
{
    if s.len() == 0 {
        Ok(Seq::empty())
    } else {
        match frags(s.drop_last()) {
            Ok(fs) => match frag(s[s.len() - 1]) {
                Ok(f) => Ok(fs.push(f)),
                Err(e) => Err(e),
            },
            Err(e) => Err(e),
        }
    }
}

/// The quantifier type and the item that the arguments of a plain
/// quantifier set; each may be given once.
pub open spec fn repeat_fold(s: Seq<RepeatArg>) -> Result<(Option<QuantifierType>, Option<Frag>), CompileError>
    decreases s,
{
    if s.len() == 0 {
        Ok((None, None))
    } else {
        match repeat_fold(s.drop_last()) {
            Ok(st) => match s[s.len() - 1] {
                RepeatArg::Greedy => if st.0.is_some() {
                    Err(CompileError::ConflictingQuantifierSpec)
                } else {
                    Ok((Some(QuantifierType::Greedy), st.1))
                },
                RepeatArg::Lazy => if st.0.is_some() {
                    Err(CompileError::ConflictingQuantifierSpec)
                } else {
                    Ok((Some(QuantifierType::Lazy), st.1))
                },
                RepeatArg::Item(n) => match frag(n) {
                    Ok(f) => if st.1.is_some() {
                        Err(CompileError::TooManyOperands)
                    } else {
                        Ok((st.0, Some(f)))
                    },
                    Err(e) => Err(e),
                },
            },
            Err(e) => Err(e),
        }
    }
}

/// What the arguments of `times` set; each may be given once, and
/// `exactly` may not be zero.
pub open spec fn times_fold(s: Seq<TimesArg>) -> Result<TimesSpec, CompileError>
    decreases s,
{
    if s.len() == 0 {
        Ok(TimesSpec { quantifier: None, exactly: None, at_least: None, at_most: None, item: None })
    } else {
        match times_fold(s.drop_last()) {
            Ok(st) => match s[s.len() - 1] {
                TimesArg::Greedy => if st.quantifier.is_some() {
                    Err(CompileError::ConflictingQuantifierSpec)
                } else {
                    Ok(TimesSpec { quantifier: Some(QuantifierType::Greedy), ..st })
                },
                TimesArg::Lazy => if st.quantifier.is_some() {
                    Err(CompileError::ConflictingQuantifierSpec)
                } else {
                    Ok(TimesSpec { quantifier: Some(QuantifierType::Lazy), ..st })
                },
                TimesArg::Exactly(k) => if st.exactly.is_some() {
                    Err(CompileError::ConflictingQuantifierSpec)
                } else if k == 0 {
                    Err(CompileError::InvalidBound)
                } else {
                    Ok(TimesSpec { exactly: Some(k), ..st })
                },
                TimesArg::AtLeast(k) => if st.at_least.is_some() {
                    Err(CompileError::ConflictingQuantifierSpec)
                } else {
                    Ok(TimesSpec { at_least: Some(k), ..st })
                },
                TimesArg::AtMost(k) => if st.at_most.is_some() {
                    Err(CompileError::ConflictingQuantifierSpec)
                } else {
                    Ok(TimesSpec { at_most: Some(k), ..st })
                },
                TimesArg::Item(n) => match frag(n) {
                    Ok(f) => if st.item.is_some() {
                        Err(CompileError::TooManyOperands)
                    } else {
                        Ok(TimesSpec { item: Some(f), ..st })
                    },
                    Err(e) => Err(e),
                },
            },
            Err(e) => Err(e),
        }
    }
}

/// The bound of `times` as pattern text: `{n}`, `{n,m}` or `{n,}`.
pub open spec fn times_bound(st: TimesSpec) -> Result<Seq<char>, CompileError> {
    match st.exactly {
        Some(k) => if st.at_least.is_some() || st.at_most.is_some() {
            Err(CompileError::ConflictingQuantifierSpec)
        } else {
            Ok(seq!['{'] + decimal(k as nat) + seq!['}'])
        },
        None => match st.at_most {
            Some(m) => match st.at_least {
                Some(k) => Ok(seq!['{'] + decimal(k as nat) + seq![','] + decimal(m as nat) + seq!['}']),
                None => Err(CompileError::InvalidBound),
            },
            None => match st.at_least {
                Some(k) => Ok(seq!['{'] + decimal(k as nat) + seq![',', '}']),
                None => Err(CompileError::InvalidBound),
            },
        },
    }
}

/// The fragment of `times` once all its arguments are read.
pub open spec fn times_finish(st: TimesSpec) -> Result<Frag, CompileError> {
    match st.item {
        Some(f) => match times_bound(st) {
            Ok(b) => Ok((grouped(f) + b + lazy_suffix(st.quantifier), true)),
            Err(e) => Err(e),
        },
        None => Err(CompileError::EmptyConstruct),
    }
}

/// `s` with `c` at its end, unless `c` is in it already.
pub open spec fn insert_once(s: Seq<char>, c: char) -> Seq<char> {
    if s.contains(c) { s } else { s.push(c) }
}

/// What the arguments of `apply` set; no flag may be both added and
/// removed, and one item at most is given.
pub open spec fn apply_fold(s: Seq<ApplyArg>) -> Result<ApplySpec, CompileError>
    decreases s,
{
    if s.len() == 0 {
        Ok(ApplySpec { add: Seq::empty(), remove: Seq::empty(), item: None })
    } else {
        match apply_fold(s.drop_last()) {
            Ok(st) => match s[s.len() - 1] {
                ApplyArg::Add(f) => if st.remove.contains(flag_symbol(f)) {
                    Err(CompileError::ConflictingFlag)
                } else {
                    Ok(ApplySpec { add: insert_once(st.add, flag_symbol(f)), ..st })
                },
                ApplyArg::Remove(f) => if st.add.contains(flag_symbol(f)) {
                    Err(CompileError::ConflictingFlag)
                } else {
                    Ok(ApplySpec { remove: insert_once(st.remove, flag_symbol(f)), ..st })
                },
                ApplyArg::Item(n) => match frag(n) {
                    Ok(f) => if st.item.is_some() {
                        Err(CompileError::TooManyOperands)
                    } else {
                        Ok(ApplySpec { item: Some(f), ..st })
                    },
                    Err(e) => Err(e),
                },
            },
            Err(e) => Err(e),
        }
    }
}

/// The pattern text of a flag group: `(?add-remove)`, or
/// `(?add-remove:item)` when scoped to an item.
pub open spec fn apply_text(st: ApplySpec) -> Seq<char> {
    seq!['(', '?'] + st.add + (if st.remove.len() > 0 {
        seq!['-'] + st.remove
    } else {
        Seq::empty()
    }) + (match st.item {
        Some(f) => seq![':'] + f.0,
        None => Seq::empty(),
    }) + seq![')']
}

/// The fragment of `apply` once all its arguments are read.
pub open spec fn apply_finish(st: ApplySpec) -> Result<Frag, CompileError> {
    if st.add.len() == 0 && st.remove.len() == 0 {
        Err(CompileError::NoFlagsToApply)
    } else {
        Ok((apply_text(st), false))
    }
}


/// The group names of a node, those inside it first.
pub open spec fn node_names(n: Node) -> Seq<Seq<char>>
    decreases n,
{
    match n {
        Node::Concat(v) => list_names(v@),
        Node::Any(v) => list_names(v@),
        Node::Group(name, v) => match name {
            Some(x) => list_names(v@).push(x@),
            None => list_names(v@),
        },
        Node::Repeat(_, v) => repeat_names(v@),
        Node::Times(v) => times_names(v@),
        Node::Apply(v) => apply_names(v@),
        _ => Seq::empty(),
    }
}

/// The group names of the nodes, in order.
pub open spec fn list_names(s: Seq<Node>) -> Seq<Seq<char>>
    decreases s,
{
    if s.len() == 0 {
        Seq::empty()
    } else {
        list_names(s.drop_last()) + node_names(s[s.len() - 1])
    }
}

pub open spec fn repeat_names(s: Seq<RepeatArg>) -> Seq<Seq<char>>
    decreases s,
{
    if s.len() == 0 {
        Seq::empty()
    } else {
        repeat_names(s.drop_last()) + match s[s.len() - 1] {
            RepeatArg::Item(n) => node_names(n),
            _ => Seq::empty(),
        }
    }
}

pub open spec fn times_names(s: Seq<TimesArg>) -> Seq<Seq<char>>
    decreases s,
{
    if s.len() == 0 {
        Seq::empty()
    } else {
        times_names(s.drop_last()) + match s[s.len() - 1] {
            TimesArg::Item(n) => node_names(n),
            _ => Seq::empty(),
        }
    }
}

pub open spec fn apply_names(s: Seq<ApplyArg>) -> Seq<Seq<char>>
    decreases s,
{
    if s.len() == 0 {
        Seq::empty()
    } else {
        apply_names(s.drop_last()) + match s[s.len() - 1] {
            ApplyArg::Item(n) => node_names(n),
            _ => Seq::empty(),
        }
    }
}

/// The pattern text of a whole description: its nodes one after the other.
/// Group names must not be `get_capture` and must differ; the text must not
/// be empty and the engine must compile it.
pub open spec fn compile_spec(nodes: Seq<Node>) -> Result<Seq<char>, CompileError> {
    match frags(nodes) {
        Ok(fs) => {
            let names = list_names(nodes);
            if names.contains("get_capture"@) {
                Err(CompileError::ReservedGroupName)
            } else if !names.no_duplicates() {
                Err(CompileError::DuplicateGroupName)
            } else if sequence_spec(nodes, fs).0.len() == 0 {
                Err(CompileError::EmptyConstruct)
            } else if !engine_accepts(sequence_spec(nodes, fs).0) {
                Err(CompileError::UnderlyingEngineRejected)
            } else {
                Ok(sequence_spec(nodes, fs).0)
            }
        },
        Err(e) => Err(e),
    }
}

pub open spec fn dsl_result(r: Result<Dsl, CompileError>) -> Result<Frag, CompileError> {
    match r {
        Ok(d) => Ok(d@),
        Err(e) => Err(e),
    }
}

pub open spec fn opt_view(o: Option<Dsl>) -> Option<Frag> {
    match o {
        Some(d) => Some(d@),
        None => None,
    }
}

proof fn lemma_frags_err(s: Seq<Node>, i: int)
    requires
        0 <= i <= s.len(),
        frags(s.take(i)) is Err,
    ensures
        frags(s) == frags(s.take(i)),
    decreases s.len() - i,
{
    if i < s.len() {
        assert(s.take(i + 1).drop_last() == s.take(i));
        lemma_frags_err(s, i + 1);
    } else {
        assert(s.take(i) == s);
    }
}

proof fn lemma_repeat_err(s: Seq<RepeatArg>, i: int)
    requires
        0 <= i <= s.len(),
        repeat_fold(s.take(i)) is Err,
    ensures
        repeat_fold(s) == repeat_fold(s.take(i)),
    decreases s.len() - i,
{
    if i < s.len() {
        assert(s.take(i + 1).drop_last() == s.take(i));
        lemma_repeat_err(s, i + 1);
    } else {
        assert(s.take(i) == s);
    }
}

proof fn lemma_times_err(s: Seq<TimesArg>, i: int)
    requires
        0 <= i <= s.len(),
        times_fold(s.take(i)) is Err,
    ensures
        times_fold(s) == times_fold(s.take(i)),
    decreases s.len() - i,
{
    if i < s.len() {
        assert(s.take(i + 1).drop_last() == s.take(i));
        lemma_times_err(s, i + 1);
    } else {
        assert(s.take(i) == s);
    }
}

proof fn lemma_apply_err(s: Seq<ApplyArg>, i: int)
    requires
        0 <= i <= s.len(),
        apply_fold(s.take(i)) is Err,
    ensures
        apply_fold(s) == apply_fold(s.take(i)),
    decreases s.len() - i,
{
    if i < s.len() {
        assert(s.take(i + 1).drop_last() == s.take(i));
        lemma_apply_err(s, i + 1);
    } else {
        assert(s.take(i) == s);
    }
}

/// Compiles one node; on success the names of its groups are appended to `names`.
pub fn compile_node(n: &Node, names: &mut Vec<Vec<char>>) -> (r: Result<Dsl, CompileError>)
    ensures
        dsl_result(r) == frag(*n),
        r is Ok ==> deep(final(names)@) == deep(old(names)@) + node_names(*n),
    decreases n,
{
    proof {
        assert(deep(names@) + Seq::<Seq<char>>::empty() == deep(names@));
    }
    match n {
        Node::Str(s) => {
            let cs = chars_of(s.as_str());
            if cs.len() == 0 {
                return Err(CompileError::EmptyConstruct);
            }
            Ok(Dsl::eq_chars(&cs))
        },
        Node::Eq(s) => {
            let cs = chars_of(s.as_str());
            if cs.len() == 0 {
                return Err(CompileError::EmptyConstruct);
            }
            Ok(Dsl::eq_chars(&cs))
        },
        Node::Char(c) => {
            let mut regex: Vec<char> = Vec::new();
            if crate::escape::is_meta_char(*c) {
                regex.push('\\');
            }
            regex.push(*c);
            assert(regex@ =~= literal_char(*c));
            Ok(Dsl { regex, need_group: false })
        },
        Node::Word(w) => match parse_single_word(&chars_of(w.as_str())) {
            Some(p) => Ok(Dsl { regex: p, need_group: false }),
            None => Err(CompileError::UnknownWord),
        },
        Node::Class(negated, name) => {
            let cls = PredefineClass::parse(*negated, name.as_str())?;
            Ok(cls.to_dsl())
        },
        Node::Regex(s) => {
            let cs = chars_of(s.as_str());
            if cs.len() == 0 {
                return Err(CompileError::EmptyConstruct);
            }
            if engine_check(&cs).is_some() {
                return Err(CompileError::UnderlyingEngineRejected);
            }
            let need_group = cs.len() > 1;
            Ok(Dsl { regex: cs, need_group })
        },
        Node::Concat(v) => {
            let ds = compile_list(v, names)?;
            if ds.len() < 2 {
                return Err(CompileError::TooFewOperands);
            }
            Ok(sequence_of(v, &ds))
        },
        Node::Any(v) => {
            let ds = compile_list(v, names)?;
            if ds.len() < 2 {
                return Err(CompileError::TooFewOperands);
            }
            let regex = alternation_text(&ds);
            Ok(Dsl { regex, need_group: true })
        },
        Node::AnyOf(use_me, v) => {
            let cls = UserClass::parse(v, *use_me)?;
            Ok(cls.to_dsl())
        },
        Node::Group(name, v) => {
            let ds = compile_list(v, names)?;
            if ds.len() == 0 {
                return Err(CompileError::EmptyConstruct);
            }
            let mut prefix: Vec<char> = Vec::new();
            match name {
                Some(x) => {
                    let xs = chars_of(x.as_str());
                    prefix.push('?');
                    prefix.push('<');
                    push_all(&mut prefix, &xs);
                    prefix.push('>');
                    assert(prefix@ =~= name_prefix(Some(x@)));
                    let ghost before = names@;
                    names.push(xs);
                    assert(deep(names@) =~= deep(before).push(x@));
                },
                None => {
                    assert(prefix@ =~= name_prefix(None));
                },
            }
            Ok(sequence_of(v, &ds).group_chars(&prefix))
        },
        Node::Repeat(kind, v) => {
            let (q, item) = compile_repeat(v, names)?;
            match item {
                Some(d) => {
                    let mut regex = d.grouped_chars();
                    regex.push(
                        match kind {
                            RepeatKind::Maybe => '?',
                            RepeatKind::Repeat => '+',
                            RepeatKind::MaybeRepeat => '*',
                        },
                    );
                    push_lazy_suffix(&mut regex, q);
                    assert(regex@ =~= grouped(d@) + seq![repeat_operator(*kind)] + lazy_suffix(q));
                    Ok(Dsl { regex, need_group: true })
                },
                None => Err(CompileError::EmptyConstruct),
            }
        },
        Node::Times(v) => {
            let st = compile_times(v, names)?;
            times_to_dsl(&st)
        },
        Node::Apply(v) => {
            let st = compile_apply(v, names)?;
            apply_to_dsl(&st)
        },
    }
}

fn push_lazy_suffix(dst: &mut Vec<char>, q: Option<QuantifierType>)
    ensures
        final(dst)@ == old(dst)@ + lazy_suffix(q),
{
    match q {
        Some(QuantifierType::Lazy) => {
            dst.push('?');
        },
        _ => {
            assert(old(dst)@ + lazy_suffix(q) =~= old(dst)@);
        },
    }
}

/// The alternatives, each grouped where needed, separated by `|`.
fn alternation_text(ds: &Vec<Dsl>) -> (r: Vec<char>)
    ensures
        r@ == alternation(views(ds@)),
{
    let ghost fs = views(ds@);
    let mut out: Vec<char> = Vec::new();
    let mut i: usize = 0;
    while i < ds.len()
        invariant
            i <= ds@.len(),
            fs == views(ds@),
            out@ == alternation(fs.take(i as int)),
        decreases ds@.len() - i,
    {
        assert(fs.take(i + 1).drop_last() == fs.take(i as int));
        let g = ds[i].grouped_chars();
        if i > 0 {
            out.push('|');
        }
        push_all(&mut out, &g);
        i = i + 1;
        assert(out@ =~= alternation(fs.take(i as int)));
    }
    assert(fs.take(i as int) == fs);
    out
}

/// The fragment of a sequence of nodes from their fragments.
fn sequence_of(v: &Vec<Node>, ds: &Vec<Dsl>) -> (r: Dsl)
    requires
        v@.len() == ds@.len(),
    ensures
        r@ == sequence_spec(v@, views(ds@)),
{
    if ds.len() == 1 {
        return Dsl { regex: ds[0].regex.clone(), need_group: ds[0].need_group };
    }
    let ghost fs = views(ds@);
    let mut regex: Vec<char> = Vec::new();
    let mut i: usize = 0;
    while i < ds.len()
        invariant
            i <= ds@.len(),
            v@.len() == ds@.len(),
            fs == views(ds@),
            regex@ == sequence_text(v@.take(i as int), fs.take(i as int)),
        decreases ds@.len() - i,
    {
        assert(v@.take(i + 1).drop_last() == v@.take(i as int));
        assert(fs.take(i + 1).drop_last() == fs.take(i as int));
        let is_alternation = match &v[i] {
            Node::Any(_) => true,
            _ => false,
        };
        if is_alternation {
            push_all(&mut regex, &ds[i].grouped_chars());
        } else {
            push_all(&mut regex, &ds[i].regex);
        }
        i = i + 1;
    }
    assert(v@.take(i as int) == v@);
    assert(fs.take(i as int) == fs);
    Dsl { regex, need_group: ds.len() > 0 }
}

/// Compiles the nodes in order; the first failure wins.
pub fn compile_list(v: &Vec<Node>, names: &mut Vec<Vec<char>>) -> (r: Result<Vec<Dsl>, CompileError>)
    ensures
        match r {
            Ok(ds) => frags(v@) == Ok::<Seq<Frag>, CompileError>(views(ds@))
                && ds@.len() == v@.len()
                && deep(final(names)@) == deep(old(names)@) + list_names(v@),
            Err(e) => frags(v@) == Err::<Seq<Frag>, CompileError>(e),
        },
    decreases v,
{
    let mut ds: Vec<Dsl> = Vec::new();
    let mut i: usize = 0;
    assert(deep(names@) + Seq::<Seq<char>>::empty() == deep(names@));
    assert(views(ds@) =~= Seq::<Frag>::empty());
    while i < v.len()
        invariant
            i <= v@.len(),
            ds@.len() == i,
            frags(v@.take(i as int)) == Ok::<Seq<Frag>, CompileError>(views(ds@)),
            deep(names@) == deep(old(names)@) + list_names(v@.take(i as int)),
        decreases v@.len() - i,
    {
        assert(v@.take(i + 1).drop_last() == v@.take(i as int));
        assert(v@.take(i + 1)[i as int] == v@[i as int]);
        match compile_node(&v[i], names) {
            Ok(d) => {
                let ghost before = views(ds@);
                ds.push(d);
                assert(views(ds@) =~= before.push(d@));
            },
            Err(e) => {
                proof {
                    lemma_frags_err(v@, i + 1);
                }
                return Err(e);
            },
        }
        i = i + 1;
        assert(deep(names@) =~= deep(old(names)@) + list_names(v@.take(i as int)));
    }
    assert(v@.take(i as int) == v@);
    Ok(ds)
}

/// Reads the arguments of a plain quantifier: its type and its one item.
fn compile_repeat(v: &Vec<RepeatArg>, names: &mut Vec<Vec<char>>) -> (r: Result<(Option<QuantifierType>, Option<Dsl>), CompileError>)
    ensures
        match r {
            Ok((q, item)) => repeat_fold(v@) == Ok::<(Option<QuantifierType>, Option<Frag>), CompileError>((q, opt_view(item)))
                && deep(final(names)@) == deep(old(names)@) + repeat_names(v@),
            Err(e) => repeat_fold(v@) == Err::<(Option<QuantifierType>, Option<Frag>), CompileError>(e),
        },
    decreases v,
{
    let mut q: Option<QuantifierType> = None;
    let mut item: Option<Dsl> = None;
    let mut i: usize = 0;
    assert(deep(names@) + Seq::<Seq<char>>::empty() == deep(names@));
    while i < v.len()
        invariant
            i <= v@.len(),
            repeat_fold(v@.take(i as int)) == Ok::<(Option<QuantifierType>, Option<Frag>), CompileError>((q, opt_view(item))),
            deep(names@) == deep(old(names)@) + repeat_names(v@.take(i as int)),
        decreases v@.len() - i,
    {
        assert(v@.take(i + 1).drop_last() == v@.take(i as int));
        assert(v@.take(i + 1)[i as int] == v@[i as int]);
        match &v[i] {
            RepeatArg::Greedy => {
                if q.is_some() {
                    proof { lemma_repeat_err(v@, i + 1); }
                    return Err(CompileError::ConflictingQuantifierSpec);
                }
                q = Some(QuantifierType::Greedy);
            },
            RepeatArg::Lazy => {
                if q.is_some() {
                    proof { lemma_repeat_err(v@, i + 1); }
                    return Err(CompileError::ConflictingQuantifierSpec);
                }
                q = Some(QuantifierType::Lazy);
            },
            RepeatArg::Item(n) => {
                match compile_node(n, names) {
                    Ok(d) => {
                        if item.is_some() {
                            proof { lemma_repeat_err(v@, i + 1); }
                            return Err(CompileError::TooManyOperands);
                        }
                        item = Some(d);
                    },
                    Err(e) => {
                        proof { lemma_repeat_err(v@, i + 1); }
                        return Err(e);
                    },
                }
            },
        }
        i = i + 1;
        assert(deep(names@) =~= deep(old(names)@) + repeat_names(v@.take(i as int)));
    }
    assert(v@.take(i as int) == v@);
    Ok((q, item))
}

/// What the arguments of `times` have set.
struct TimesState {
    quantifier: Option<QuantifierType>,
    exactly: Option<usize>,
    at_least: Option<usize>,
    at_most: Option<usize>,
    item: Option<Dsl>,
}

spec fn times_view(st: TimesState) -> TimesSpec {
    TimesSpec {
        quantifier: st.quantifier,
        exactly: st.exactly,
        at_least: st.at_least,
        at_most: st.at_most,
        item: opt_view(st.item),
    }
}

/// Reads the arguments of `times`.
fn compile_times(v: &Vec<TimesArg>, names: &mut Vec<Vec<char>>) -> (r: Result<TimesState, CompileError>)
    ensures
        match r {
            Ok(st) => times_fold(v@) == Ok::<TimesSpec, CompileError>(times_view(st))
                && deep(final(names)@) == deep(old(names)@) + times_names(v@),
            Err(e) => times_fold(v@) == Err::<TimesSpec, CompileError>(e),
        },
    decreases v,
{
    let mut st = TimesState { quantifier: None, exactly: None, at_least: None, at_most: None, item: None };
    let mut i: usize = 0;
    assert(deep(names@) + Seq::<Seq<char>>::empty() == deep(names@));
    while i < v.len()
        invariant
            i <= v@.len(),
            times_fold(v@.take(i as int)) == Ok::<TimesSpec, CompileError>(times_view(st)),
            deep(names@) == deep(old(names)@) + times_names(v@.take(i as int)),
        decreases v@.len() - i,
    {
        assert(v@.take(i + 1).drop_last() == v@.take(i as int));
        assert(v@.take(i + 1)[i as int] == v@[i as int]);
        match &v[i] {
            TimesArg::Greedy => {
                if st.quantifier.is_some() {
                    proof { lemma_times_err(v@, i + 1); }
                    return Err(CompileError::ConflictingQuantifierSpec);
                }
                st.quantifier = Some(QuantifierType::Greedy);
            },
            TimesArg::Lazy => {
                if st.quantifier.is_some() {
                    proof { lemma_times_err(v@, i + 1); }
                    return Err(CompileError::ConflictingQuantifierSpec);
                }
                st.quantifier = Some(QuantifierType::Lazy);
            },
            TimesArg::Exactly(k) => {
                if st.exactly.is_some() {
                    proof { lemma_times_err(v@, i + 1); }
                    return Err(CompileError::ConflictingQuantifierSpec);
                }
                if *k == 0 {
                    proof { lemma_times_err(v@, i + 1); }
                    return Err(CompileError::InvalidBound);
                }
                st.exactly = Some(*k);
            },
            TimesArg::AtLeast(k) => {
                if st.at_least.is_some() {
                    proof { lemma_times_err(v@, i + 1); }
                    return Err(CompileError::ConflictingQuantifierSpec);
                }
                st.at_least = Some(*k);
            },
            TimesArg::AtMost(k) => {
                if st.at_most.is_some() {
                    proof { lemma_times_err(v@, i + 1); }
                    return Err(CompileError::ConflictingQuantifierSpec);
                }
                st.at_most = Some(*k);
            },
            TimesArg::Item(n) => {
                match compile_node(n, names) {
                    Ok(d) => {
                        if st.item.is_some() {
                            proof { lemma_times_err(v@, i + 1); }
                            return Err(CompileError::TooManyOperands);
                        }
                        st.item = Some(d);
                    },
                    Err(e) => {
                        proof { lemma_times_err(v@, i + 1); }
                        return Err(e);
                    },
                }
            },
        }
        i = i + 1;
        assert(deep(names@) =~= deep(old(names)@) + times_names(v@.take(i as int)));
    }
    assert(v@.take(i as int) == v@);
    Ok(st)
}

/// The fragment of `times` once its arguments are read.
fn times_to_dsl(st: &TimesState) -> (r: Result<Dsl, CompileError>)
    ensures
        dsl_result(r) == times_finish(times_view(*st)),
{
    let d = match &st.item {
        Some(d) => d,
        None => {
            return Err(CompileError::EmptyConstruct);
        },
    };
    let mut bound: Vec<char> = Vec::new();
    bound.push('{');
    match st.exactly {
        Some(k) => {
            if st.at_least.is_some() || st.at_most.is_some() {
                return Err(CompileError::ConflictingQuantifierSpec);
            }
            push_all(&mut bound, &decimal_of(k));
            bound.push('}');
            assert(bound@ =~= seq!['{'] + decimal(k as nat) + seq!['}']);
        },
        None => match st.at_most {
            Some(m) => match st.at_least {
                Some(k) => {
                    push_all(&mut bound, &decimal_of(k));
                    bound.push(',');
                    push_all(&mut bound, &decimal_of(m));
                    bound.push('}');
                    assert(bound@ =~= seq!['{'] + decimal(k as nat) + seq![','] + decimal(m as nat) + seq!['}']);
                },
                None => {
                    return Err(CompileError::InvalidBound);
                },
            },
            None => match st.at_least {
                Some(k) => {
                    push_all(&mut bound, &decimal_of(k));
                    bound.push(',');
                    bound.push('}');
                    assert(bound@ =~= seq!['{'] + decimal(k as nat) + seq![',', '}']);
                },
                None => {
                    return Err(CompileError::InvalidBound);
                },
            },
        },
    }
    assert(times_bound(times_view(*st)) == Ok::<Seq<char>, CompileError>(bound@));
    let mut regex = d.grouped_chars();
    push_all(&mut regex, &bound);
    push_lazy_suffix(&mut regex, st.quantifier);
    Ok(Dsl { regex, need_group: true })
}

fn contains_char(v: &Vec<char>, c: char) -> (r: bool)
    ensures
        r == v@.contains(c),
{
    let mut i: usize = 0;
    while i < v.len()
        invariant
            i <= v@.len(),
            forall|k: int| 0 <= k < i ==> v@[k] != c,
        decreases v@.len() - i,
    {
        if v[i] == c {
            return true;
        }
        i = i + 1;
    }
    false
}

fn insert_once_exec(v: &mut Vec<char>, c: char)
    ensures
        final(v)@ == insert_once(old(v)@, c),
{
    if !contains_char(v, c) {
        v.push(c);
    }
}

/// What the arguments of `apply` have set.
struct ApplyState {
    add: Vec<char>,
    remove: Vec<char>,
    item: Option<Dsl>,
}

spec fn apply_view(st: ApplyState) -> ApplySpec {
    ApplySpec { add: st.add@, remove: st.remove@, item: opt_view(st.item) }
}

/// Reads the arguments of `apply`.
fn compile_apply(v: &Vec<ApplyArg>, names: &mut Vec<Vec<char>>) -> (r: Result<ApplyState, CompileError>)
    ensures
        match r {
            Ok(st) => apply_fold(v@) == Ok::<ApplySpec, CompileError>(apply_view(st))
                && deep(final(names)@) == deep(old(names)@) + apply_names(v@),
            Err(e) => apply_fold(v@) == Err::<ApplySpec, CompileError>(e),
        },
    decreases v,
{
    let mut st = ApplyState { add: Vec::new(), remove: Vec::new(), item: None };
    let mut i: usize = 0;
    assert(deep(names@) + Seq::<Seq<char>>::empty() == deep(names@));
    assert(apply_view(st) == ApplySpec { add: Seq::empty(), remove: Seq::empty(), item: None });
    while i < v.len()
        invariant
            i <= v@.len(),
            apply_fold(v@.take(i as int)) == Ok::<ApplySpec, CompileError>(apply_view(st)),
            deep(names@) == deep(old(names)@) + apply_names(v@.take(i as int)),
        decreases v@.len() - i,
    {
        assert(v@.take(i + 1).drop_last() == v@.take(i as int));
        assert(v@.take(i + 1)[i as int] == v@[i as int]);
        match &v[i] {
            ApplyArg::Add(f) => {
                let c = f.symbol();
                if contains_char(&st.remove, c) {
                    proof { lemma_apply_err(v@, i + 1); }
                    return Err(CompileError::ConflictingFlag);
                }
                insert_once_exec(&mut st.add, c);
            },
            ApplyArg::Remove(f) => {
                let c = f.symbol();
                if contains_char(&st.add, c) {
                    proof { lemma_apply_err(v@, i + 1); }
                    return Err(CompileError::ConflictingFlag);
                }
                insert_once_exec(&mut st.remove, c);
            },
            ApplyArg::Item(n) => {
                match compile_node(n, names) {
                    Ok(d) => {
                        if st.item.is_some() {
                            proof { lemma_apply_err(v@, i + 1); }
                            return Err(CompileError::TooManyOperands);
                        }
                        st.item = Some(d);
                    },
                    Err(e) => {
                        proof { lemma_apply_err(v@, i + 1); }
                        return Err(e);
                    },
                }
            },
        }
        i = i + 1;
        assert(deep(names@) =~= deep(old(names)@) + apply_names(v@.take(i as int)));
    }
    assert(v@.take(i as int) == v@);
    Ok(st)
}

/// The fragment of `apply` once its arguments are read.
fn apply_to_dsl(st: &ApplyState) -> (r: Result<Dsl, CompileError>)
    ensures
        dsl_result(r) == apply_finish(apply_view(*st)),
{
    if st.add.len() == 0 && st.remove.len() == 0 {
        return Err(CompileError::NoFlagsToApply);
    }
    let mut regex: Vec<char> = Vec::new();
    regex.push('(');
    regex.push('?');
    push_all(&mut regex, &st.add);
    if st.remove.len() > 0 {
        regex.push('-');
        push_all(&mut regex, &st.remove);
    }
    match &st.item {
        Some(d) => {
            regex.push(':');
            push_all(&mut regex, &d.regex);
        },
        None => {},
    }
    regex.push(')');
    assert(regex@ =~= apply_text(apply_view(*st)));
    Ok(Dsl { regex, need_group: false })
}

/// Whether the two character sequences are equal.
fn chars_equal(a: &Vec<char>, b: &Vec<char>) -> (r: bool)
    ensures
        r == (a@ == b@),
{
    if a.len() != b.len() {
        return false;
    }
    let mut i: usize = 0;
    while i < a.len()
        invariant
            a@.len() == b@.len(),
            i <= a@.len(),
            forall|k: int| 0 <= k < i ==> a@[k] == b@[k],
        decreases a@.len() - i,
    {
        if a[i] != b[i] {
            return false;
        }
        i = i + 1;
    }
    assert(a@ =~= b@);
    true
}

/// Whether two of the names are equal.
fn has_duplicate(names: &Vec<Vec<char>>) -> (r: bool)
    ensures
        r == !deep(names@).no_duplicates(),
{
    let ghost d = deep(names@);
    let mut j: usize = 0;
    while j < names.len()
        invariant
            j <= names@.len(),
            d == deep(names@),
            forall|a: int, b: int| 0 <= a < b < j ==> d[a] != d[b],
        decreases names@.len() - j,
    {
        let mut i: usize = 0;
        while i < j
            invariant
                i <= j < names@.len(),
                d == deep(names@),
                forall|a: int, b: int| 0 <= a < b < j ==> d[a] != d[b],
                forall|a: int| 0 <= a < i ==> d[a] != d[j as int],
            decreases j - i,
        {
            if chars_equal(&names[i], &names[j]) {
                assert(d[i as int] == d[j as int]);
                return true;
            }
            i = i + 1;
        }
        j = j + 1;
    }
    assert(d.no_duplicates());
    false
}

/// Whether one of the names is `get_capture`.
fn has_reserved(names: &Vec<Vec<char>>) -> (r: bool)
    ensures
        r == deep(names@).contains("get_capture"@),
{
    let ghost d = deep(names@);
    let mut i: usize = 0;
    while i < names.len()
        invariant
            i <= names@.len(),
            d == deep(names@),
            forall|k: int| 0 <= k < i ==> d[k] != "get_capture"@,
        decreases names@.len() - i,
    {
        if same_text(&names[i], "get_capture") {
            assert(d[i as int] == "get_capture"@);
            return true;
        }
        i = i + 1;
    }
    false
}

/// Compiles a description, its nodes one after the other, to pattern text.
pub fn compile(nodes: &Vec<Node>) -> (r: Result<String, CompileError>)
    ensures
        match r {
            Ok(p) => compile_spec(nodes@) == Ok::<Seq<char>, CompileError>(p@),
            Err(e) => compile_spec(nodes@) == Err::<Seq<char>, CompileError>(e),
        },
{
    let mut names: Vec<Vec<char>> = Vec::new();
    let ds = compile_list(nodes, &mut names)?;
    assert(deep(names@) =~= list_names(nodes@));
    if has_reserved(&names) {
        return Err(CompileError::ReservedGroupName);
    }
    if has_duplicate(&names) {
        return Err(CompileError::DuplicateGroupName);
    }
    let d = sequence_of(nodes, &ds);
    if d.regex.len() == 0 {
        return Err(CompileError::EmptyConstruct);
    }
    if engine_check(&d.regex).is_some() {
        return Err(CompileError::UnderlyingEngineRejected);
    }
    Ok(string_of(&d.regex))
}

} // verus!
