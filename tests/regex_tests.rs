use regex::Regex;
use regex_dsl::class::PredefineClass;
use regex_dsl::compile::compile;
use regex_dsl::error::CompileError;
use regex_dsl::node::Node;

fn s(t: &str) -> Node {
    Node::Str(t.to_string())
}

fn raw(t: &str) -> Node {
    Node::Regex(t.to_string())
}

fn re(nodes: Vec<Node>) -> Regex {
    Regex::new(&compile(&nodes).unwrap()).unwrap()
}

#[test]
fn test_predefine_class_letter() {
    let regex = re(vec![Node::Class(false, "letter".to_string())]);
    assert!(regex.is_match("a"));
    assert!(!regex.is_match("1"));
}

#[test]
fn test_predefine_class_lang() {
    let regex = re(vec![
        Node::Class(false, "greek".to_string()),
        Node::Class(false, "latin".to_string()),
        Node::Class(false, "hebrew".to_string()),
    ]);
    assert!(regex.is_match("Ψbג"));
    assert!(!regex.is_match("abc"));
}

#[test]
fn test_predefine_class_negate() {
    let regex = re(vec![
        Node::Class(false, "greek".to_string()),
        Node::Class(true, "latin".to_string()),
        Node::Class(false, "hebrew".to_string()),
    ]);
    assert!(regex.is_match("Ψ4ג"));
    assert!(!regex.is_match("Ψtג"));
}

#[test]
fn unknown_class_rejected() {
    assert_eq!(
        compile(&vec![Node::Class(false, "no_such_class".to_string())]),
        Err(CompileError::UnknownClassName)
    );
    assert!(PredefineClass::parse(true, "no_such_class").is_err());
    let c = PredefineClass::parse(true, "greek").ok().unwrap();
    assert_eq!(c.to_dsl().regex(), "\\P{greek}");
}

#[test]
fn test_regex() {
    let regex = re(vec![raw("[a-z]+")]);
    assert!(regex.is_match("test"));
    assert!(!regex.is_match("TEST"));
}

#[test]
fn test_regex_and_eq() {
    let regex = re(vec![s("|"), raw("[a-z]+"), s("|")]);
    assert!(regex.is_match("|test|"));
    assert!(!regex.is_match("|TEST|"));
    assert!(!regex.is_match("test"));
}

#[test]
fn test_regex_qb() {
    let regex = re(vec![s("|"), raw("[a-z]+"), s("|")]);
    assert!(regex.is_match("|test|"));
    assert!(!regex.is_match("|TEST|"));
    assert!(!regex.is_match("test"));
}

#[test]
fn test_regex_sb() {
    let regex = re(vec![s("|"), raw("[a-z]+"), s("|")]);
    assert!(regex.is_match("|test|"));
    assert!(!regex.is_match("|TEST|"));
    assert!(!regex.is_match("test"));
}

#[test]
fn it_works() {
    let regex = re(vec![raw("test")]);
    assert!(regex.is_match("test"));
    assert!(!regex.is_match("abcd"));
}

#[test]
fn test_with_newlinet() {
    let regex = re(vec![raw("test\nthis")]);
    assert!(regex.is_match("test\nthis"));
    assert!(!regex.is_match("test this"));
}

#[test]
fn test_with_letters() {
    let regex = re(vec![raw("[a-z]+[A-Z]+")]);
    assert!(regex.is_match("abcdABCD"));
    assert!(!regex.is_match("ACD"));
    assert!(!regex.is_match("abc"));
}
