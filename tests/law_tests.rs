use regex::Regex;
use regex_dsl::ast::{to_dsl_text, AssertionKind, Ast, AstKind};
use regex_dsl::class::ClassElement;
use regex_dsl::compile::compile;
use regex_dsl::error::CompileError;
use regex_dsl::node::{Node, RepeatArg, RepeatKind, TimesArg};

fn anchored(nodes: Vec<Node>) -> Regex {
    Regex::new(&format!("^(?:{})$", compile(&nodes).unwrap())).unwrap()
}

#[test]
fn literal_matches_exactly_itself() {
    for s in ["test.me\\", "a+b*c?", "(x|y)", "[^]{}$", "plain", "\"q\""] {
        let regex = anchored(vec![Node::Str(s.to_string())]);
        assert!(regex.is_match(s));
        assert!(!regex.is_match(&format!("{}x", s)));
        assert!(!regex.is_match(&s[1..]));
    }
}

#[test]
fn repeated_and_single_members_accept_the_same() {
    let twice = anchored(vec![Node::AnyOf(
        true,
        vec![ClassElement::Char('a'), ClassElement::Char('a'), ClassElement::Str("aa".to_string())],
    )]);
    let once = anchored(vec![Node::AnyOf(true, vec![ClassElement::Char('a')])]);
    for c in ["a", "b", "aa", ""] {
        assert_eq!(twice.is_match(c), once.is_match(c));
    }
}

#[test]
fn repeat_applies_to_whole_operand() {
    let regex = Regex::new(
        &compile(&vec![
            Node::Str("-".to_string()),
            Node::Repeat(RepeatKind::Repeat, vec![RepeatArg::Item(Node::Str("Ab".to_string()))]),
            Node::Str("-".to_string()),
        ])
        .unwrap(),
    )
    .unwrap();
    assert!(regex.is_match("-AbAb-"));
    assert!(!regex.is_match("-A-"));
    assert!(!regex.is_match("-Abb-"));
}

#[test]
fn subtract_keeps_the_rest_of_the_range() {
    let regex = anchored(vec![Node::AnyOf(
        true,
        vec![ClassElement::Range('0', '6'), ClassElement::Subtract(vec![ClassElement::Str("125".to_string())])],
    )]);
    for c in ["0", "3", "4", "6"] {
        assert!(regex.is_match(c));
    }
    for c in ["1", "2", "5"] {
        assert!(!regex.is_match(c));
    }
}

#[test]
fn two_groups_named_alike_fail() {
    let g = || Node::Group(Some("x".to_string()), vec![Node::Char('a')]);
    assert_eq!(compile(&vec![g(), g()]), Err(CompileError::DuplicateGroupName));
}

#[test]
fn exactly_with_at_least_conflicts() {
    let r = compile(&vec![Node::Times(vec![
        TimesArg::Exactly(10),
        TimesArg::AtLeast(12),
        TimesArg::Item(Node::Str("x".to_string())),
    ])]);
    assert_eq!(r, Err(CompileError::ConflictingQuantifierSpec));
}

#[test]
fn printed_description_compiles_to_the_same_language() {
    let lit = |c: char| Ast { kind: AstKind::Literal(c), text: c.to_string() };
    let ast = Ast {
        kind: AstKind::Concat(vec![
            lit('a'),
            lit('b'),
            Ast { kind: AstKind::Assertion(AssertionKind::EndLine), text: "$".to_string() },
        ]),
        text: "ab$".to_string(),
    };
    let text = to_dsl_text(&ast);
    assert_eq!(text, "concat {\n  eq(\"ab\"),\n  end_of_line,\n}\n");
    let back = compile(&vec![Node::Concat(vec![Node::Eq("ab".to_string()), Node::Word("end_of_line".to_string())])])
        .unwrap();
    let re = Regex::new(&back).unwrap();
    assert!(re.is_match("xab"));
    assert!(!re.is_match("abx"));
}

#[test]
fn lookaround_like_assertion_is_raw() {
    let ast = Ast { kind: AstKind::Assertion(AssertionKind::Other), text: "\\b{start-half}".to_string() };
    assert_eq!(to_dsl_text(&ast), "regex(\"\\\\b{start-half}\")\n");
}
