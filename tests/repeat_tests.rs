use regex::Regex;
use regex_dsl::compile::compile;
use regex_dsl::error::CompileError;
use regex_dsl::node::{Node, RepeatArg, RepeatKind, TimesArg};

fn s(t: &str) -> Node {
    Node::Str(t.to_string())
}

fn re(nodes: Vec<Node>) -> Regex {
    Regex::new(&compile(&nodes).unwrap()).unwrap()
}

fn letter() -> Node {
    Node::Class(false, "letter".to_string())
}

fn named(name: &str, body: Vec<Node>) -> Node {
    Node::Group(Some(name.to_string()), body)
}

#[test]
fn maybe() {
    let regex = re(vec![
        s("-"),
        Node::Repeat(RepeatKind::Maybe, vec![RepeatArg::Item(s("Ab"))]),
        s("-"),
    ]);
    assert!(regex.is_match("-Ab-"));
    assert!(regex.is_match("--"));
    assert!(!regex.is_match("-AbAb-"));
}

#[test]
fn maybe_greedy() {
    let regex = re(vec![
        s("-"),
        Node::Repeat(RepeatKind::Maybe, vec![RepeatArg::Greedy, RepeatArg::Item(s("Ab"))]),
        s("-"),
    ]);
    assert!(regex.is_match("-Ab-"));
    assert!(regex.is_match("--"));
    assert!(!regex.is_match("-AbAb-"));
}

#[test]
fn maybe_repeat() {
    let regex = re(vec![
        s("-"),
        named("letters", vec![Node::Repeat(RepeatKind::MaybeRepeat, vec![RepeatArg::Item(letter())])]),
        s("-"),
    ]);
    let caps = regex.captures("--").unwrap();
    assert_eq!(&caps["letters"], "");
    let caps = regex.captures("-hello-").unwrap();
    assert_eq!(&caps["letters"], "hello");
}

#[test]
fn maybe_repeat_lazy() {
    let regex = re(vec![
        s("-"),
        named(
            "letters",
            vec![Node::Repeat(RepeatKind::MaybeRepeat, vec![RepeatArg::Lazy, RepeatArg::Item(letter())])],
        ),
        s("-"),
    ]);
    let caps = regex.captures("--").unwrap();
    assert_eq!(&caps["letters"], "");
    let caps = regex.captures("-hello-").unwrap();
    assert_eq!(&caps["letters"], "hello");
}

#[test]
fn repeat() {
    let regex = re(vec![
        s("-"),
        named(
            "number",
            vec![Node::Repeat(RepeatKind::Repeat, vec![RepeatArg::Item(Node::Class(false, "digit".to_string()))])],
        ),
        s("-"),
    ]);
    assert!(!regex.is_match("--"));
    let caps = regex.captures("-123-").unwrap();
    assert_eq!(&caps["number"], "123");
}

#[test]
fn group_in_repeat() {
    let regex = re(vec![
        s("-"),
        Node::Repeat(
            RepeatKind::Repeat,
            vec![RepeatArg::Item(named("digit", vec![Node::Class(false, "digit".to_string())]))],
        ),
        s("-"),
    ]);
    assert!(!regex.is_match("--"));
    let caps = regex.captures("-123-").unwrap();
    assert_eq!(&caps["digit"], "3");
}

#[test]
fn repeat_groups_a_multi_character_operand() {
    let p = compile(&vec![Node::Repeat(
        RepeatKind::Repeat,
        vec![RepeatArg::Item(Node::Concat(vec![s("A"), s("b")]))],
    )])
    .unwrap();
    assert_eq!(p, "(?:Ab)+");
    let regex = Regex::new(&format!("-{}-", p)).unwrap();
    assert!(regex.is_match("-AbAb-"));
    assert!(!regex.is_match("-A-"));
    assert!(!regex.is_match("-Abb-"));
}

#[test]
fn repeat_lazy_suffix() {
    let p = compile(&vec![Node::Repeat(
        RepeatKind::MaybeRepeat,
        vec![RepeatArg::Lazy, RepeatArg::Item(Node::Char('x'))],
    )])
    .unwrap();
    assert_eq!(p, "x*?");
}

#[test]
fn nested_quantifiers_stay_apart() {
    let p = compile(&vec![Node::Repeat(
        RepeatKind::Maybe,
        vec![RepeatArg::Item(Node::Repeat(RepeatKind::Repeat, vec![RepeatArg::Item(Node::Char('x'))]))],
    )])
    .unwrap();
    assert_eq!(p, "(?:x+)?");
}

#[test]
fn repeat_errors() {
    assert_eq!(
        compile(&vec![Node::Repeat(RepeatKind::Repeat, vec![RepeatArg::Greedy, RepeatArg::Lazy])]),
        Err(CompileError::ConflictingQuantifierSpec)
    );
    assert_eq!(
        compile(&vec![Node::Repeat(RepeatKind::Repeat, vec![RepeatArg::Lazy])]),
        Err(CompileError::EmptyConstruct)
    );
    assert_eq!(
        compile(&vec![Node::Repeat(RepeatKind::Repeat, vec![RepeatArg::Item(s("a")), RepeatArg::Item(s("b"))])]),
        Err(CompileError::TooManyOperands)
    );
}

#[test]
fn times_bounds() {
    let x = || TimesArg::Item(s("x"));
    assert_eq!(compile(&vec![Node::Times(vec![TimesArg::Exactly(10), x()])]).unwrap(), "x{10}");
    assert_eq!(
        compile(&vec![Node::Times(vec![TimesArg::AtLeast(2), TimesArg::AtMost(3), x()])]).unwrap(),
        "x{2,3}"
    );
    assert_eq!(compile(&vec![Node::Times(vec![TimesArg::AtLeast(7), x(), TimesArg::Lazy])]).unwrap(), "x{7,}?");
    assert_eq!(
        compile(&vec![Node::Times(vec![TimesArg::Exactly(2), TimesArg::Item(s("ab"))])]).unwrap(),
        "(?:ab){2}"
    );
}

#[test]
fn times_conflicts() {
    let x = || TimesArg::Item(s("x"));
    assert_eq!(
        compile(&vec![Node::Times(vec![TimesArg::Exactly(10), TimesArg::AtLeast(12), x()])]),
        Err(CompileError::ConflictingQuantifierSpec)
    );
    assert_eq!(
        compile(&vec![Node::Times(vec![TimesArg::AtMost(10), x()])]),
        Err(CompileError::InvalidBound)
    );
    assert_eq!(
        compile(&vec![Node::Times(vec![TimesArg::Exactly(0), x()])]),
        Err(CompileError::InvalidBound)
    );
    assert_eq!(
        compile(&vec![Node::Times(vec![TimesArg::AtLeast(1), TimesArg::AtLeast(2), x()])]),
        Err(CompileError::ConflictingQuantifierSpec)
    );
    assert_eq!(compile(&vec![Node::Times(vec![x()])]), Err(CompileError::InvalidBound));
    assert_eq!(
        compile(&vec![Node::Times(vec![TimesArg::Exactly(3)])]),
        Err(CompileError::EmptyConstruct)
    );
}

#[test]
fn quantifier_type_postfix() {
    assert_eq!(regex_dsl::node::QuantifierType::Greedy.postfix(), "");
    assert_eq!(regex_dsl::node::QuantifierType::Lazy.postfix(), "?");
}
