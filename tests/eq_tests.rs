use regex::Regex;
use regex_dsl::compile::compile;
use regex_dsl::dsl::Dsl;
use regex_dsl::error::CompileError;
use regex_dsl::node::Node;

fn s(t: &str) -> Node {
    Node::Str(t.to_string())
}

fn re(nodes: Vec<Node>) -> Regex {
    Regex::new(&compile(&nodes).unwrap()).unwrap()
}

#[test]
fn test_concat() {
    let regex = re(vec![Node::Concat(vec![s("test1"), s("test2"), s("test3")])]);
    assert!(regex.is_match("test1test2test3"));
    assert!(!regex.is_match("test1"));
}

#[test]
fn test_concat_with_regex_and_equal() {
    let regex = re(vec![Node::Concat(vec![
        s("test"),
        Node::Regex("[0-9]+".to_string()),
        Node::Eq("me".to_string()),
    ])]);
    assert!(regex.is_match("test1me"));
    assert!(regex.is_match("test21me"));
    assert!(!regex.is_match("test12"));
}

#[test]
fn test_eq() {
    let regex = re(vec![s("test")]);
    assert!(regex.is_match("test"));
    assert!(!regex.is_match("nop"));
}

#[test]
fn two_eqs() {
    let regex = re(vec![s("test"), s(" "), s("one")]);
    assert!(regex.is_match("test one"));
    assert!(!regex.is_match("test"));
}

#[test]
fn two_with_escape() {
    let regex = re(vec![s("test.me\\")]);
    assert!(regex.is_match("test.me\\"));
    assert!(!regex.is_match("test-me\n"));
}

#[test]
fn two_with_chars() {
    let regex = re(vec![Node::Char('t'), Node::Char('e'), Node::Char('s'), Node::Char('t')]);
    assert!(regex.is_match("test"));
    assert!(!regex.is_match("t"));
}

#[test]
fn test_eq_with_nl() {
    let regex = re(vec![s("hello\nworld")]);
    assert!(regex.is_match("hello\nworld"));
    assert!(!regex.is_match("test world"));
}

#[test]
fn test_eq_with_quote() {
    let regex = re(vec![s("\"test\"")]);
    assert!(regex.is_match("\"test\""));
    assert!(!regex.is_match("test"));
}

#[test]
fn eq_escapes_every_metacharacter() {
    let d = Dsl::eq("a.b(c)[d]{e}$^?+*|\\\"");
    assert_eq!(d.regex(), "a\\.b\\(c\\)\\[d\\]\\{e\\}\\$\\^\\?\\+\\*\\|\\\\\\\"");
    assert!(d.need_group);
    let one = Dsl::eq(".");
    assert_eq!(one.regex(), "\\.");
    assert!(!one.need_group);
}

#[test]
fn eq_matches_only_its_string() {
    let regex = Regex::new(&format!("^{}$", Dsl::eq("test.me\\").regex())).unwrap();
    assert!(regex.is_match("test.me\\"));
    assert!(!regex.is_match("testXme\\"));
    assert!(!regex.is_match("test.me"));
}

#[test]
fn concat_too_few() {
    assert_eq!(compile(&vec![Node::Concat(vec![s("a")])]), Err(CompileError::TooFewOperands));
    assert_eq!(compile(&vec![Node::Any(vec![])]), Err(CompileError::TooFewOperands));
}

#[test]
fn empty_string_rejected() {
    assert_eq!(compile(&vec![s("")]), Err(CompileError::EmptyConstruct));
    assert_eq!(compile(&vec![]), Err(CompileError::EmptyConstruct));
}

#[test]
fn unknown_word_rejected() {
    assert_eq!(compile(&vec![Node::Word("digits".to_string())]), Err(CompileError::UnknownWord));
}

#[test]
fn raw_pattern_rejected_by_engine() {
    assert_eq!(
        compile(&vec![Node::Regex("[a-z".to_string())]),
        Err(CompileError::UnderlyingEngineRejected)
    );
}

#[test]
fn dsl_validate() {
    assert!(Dsl::new("[a-z]+", true).validate().is_none());
    assert!(Dsl::new("", false).validate().is_some());
    assert!(Dsl::new("(", false).validate().is_some());
}

#[test]
fn dsl_concat_and_group() {
    let a = Dsl::eq("ab");
    let b = Dsl::eq("c");
    let c = Dsl::concat(&[a, b]);
    assert_eq!(c.regex(), "abc");
    assert!(c.need_group);
    assert_eq!(c.non_capturing_group_if_needed(), "(?:abc)");
    assert_eq!(Dsl::eq("a").non_capturing_group_if_needed(), "a");
    let g = c.group("?<x>");
    assert_eq!(g.regex(), "(?<x>abc)");
    assert!(!g.need_group);
    let single = Dsl::concat(&[Dsl::eq("q")]);
    assert!(!single.need_group);
}

#[test]
fn error_messages() {
    assert_eq!(CompileError::NoFlagsToApply.message(), "No flags to apply");
    assert_eq!(CompileError::ReservedGroupName.message(), "The name get_capture is not supported");
}

#[test]
fn sequence_is_plain_adjacency() {
    assert_eq!(compile(&vec![s("ab"), s("cd")]).unwrap(), "abcd");
    assert_eq!(compile(&vec![Node::Concat(vec![s("ab"), s("cd")])]).unwrap(), "abcd");
    assert_eq!(Dsl::concat(&[Dsl::eq("ab"), Dsl::eq("cd")]).regex(), "abcd");
}

#[test]
fn alternation_in_sequence_keeps_its_alternatives() {
    let p = compile(&vec![Node::Any(vec![s("a"), s("b")]), s("c")]).unwrap();
    assert_eq!(p, "(?:a|b)c");
    let regex = Regex::new(&format!("^{}$", p)).unwrap();
    assert!(regex.is_match("ac"));
    assert!(regex.is_match("bc"));
    assert!(!regex.is_match("a"));
    assert_eq!(compile(&vec![Node::Any(vec![s("a"), s("b")])]).unwrap(), "a|b");
}
