use regex::Regex;
use regex_dsl::compile::compile;
use regex_dsl::error::CompileError;
use regex_dsl::node::{ApplyArg, Flag, Node};

fn s(t: &str) -> Node {
    Node::Str(t.to_string())
}

fn re(nodes: Vec<Node>) -> Regex {
    Regex::new(&compile(&nodes).unwrap()).unwrap()
}

#[test]
fn test_apply_with_data() {
    let regex = re(vec![
        Node::Apply(vec![ApplyArg::Add(Flag::CaseInsensitive), ApplyArg::Item(s("one"))]),
        Node::Apply(vec![ApplyArg::Remove(Flag::CaseInsensitive), ApplyArg::Item(s("two"))]),
    ]);
    assert!(regex.is_match("ONEtwo"));
    assert!(regex.is_match("onetwo"));
    assert!(!regex.is_match("oneTWO"));
}

#[test]
fn test_apply_without_data() {
    let regex = re(vec![
        Node::Apply(vec![ApplyArg::Add(Flag::CaseInsensitive)]),
        s("one"),
        Node::Apply(vec![ApplyArg::Remove(Flag::CaseInsensitive)]),
        s("two"),
    ]);
    assert!(regex.is_match("ONEtwo"));
    assert!(regex.is_match("onetwo"));
    assert!(!regex.is_match("oneTWO"));
}

#[test]
fn test_apply_two_flags() {
    let regex = re(vec![
        Node::Apply(vec![
            ApplyArg::Add(Flag::CaseInsensitive),
            ApplyArg::Add(Flag::MultiLine),
            ApplyArg::Remove(Flag::EnablesCrlfMode),
        ]),
        s("one"),
        Node::Apply(vec![
            ApplyArg::Remove(Flag::CaseInsensitive),
            ApplyArg::Remove(Flag::MultiLine),
        ]),
        s("two"),
    ]);
    assert!(regex.is_match("ONEtwo"));
    assert!(regex.is_match("onetwo"));
    assert!(!regex.is_match("oneTWO"));
}

#[test]
fn apply_pattern_text() {
    let p = compile(&vec![Node::Apply(vec![
        ApplyArg::Add(Flag::CaseInsensitive),
        ApplyArg::Add(Flag::CaseInsensitive),
        ApplyArg::Remove(Flag::MultiLine),
        ApplyArg::Item(s("ab")),
    ])])
    .unwrap();
    assert_eq!(p, "(?i-m:ab)");
}

#[test]
fn apply_conflicting_flag() {
    let r = compile(&vec![Node::Apply(vec![
        ApplyArg::Add(Flag::AllowDot),
        ApplyArg::Remove(Flag::AllowDot),
    ])]);
    assert_eq!(r, Err(CompileError::ConflictingFlag));
}

#[test]
fn apply_no_flags() {
    let r = compile(&vec![Node::Apply(vec![ApplyArg::Item(s("a"))])]);
    assert_eq!(r, Err(CompileError::NoFlagsToApply));
}

#[test]
fn apply_two_items() {
    let r = compile(&vec![Node::Apply(vec![
        ApplyArg::Add(Flag::AllowDot),
        ApplyArg::Item(s("a")),
        ApplyArg::Item(s("b")),
    ])]);
    assert_eq!(r, Err(CompileError::TooManyOperands));
}
