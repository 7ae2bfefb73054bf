use regex::Regex;
use regex_dsl::compile::compile;
use regex_dsl::node::{Node, RepeatArg, RepeatKind};
use regex_dsl::class::ClassElement;
use regex_dsl::capture::CreateCapture;
use regex_dsl::error::CompileError;

fn re(nodes: Vec<Node>) -> Regex {
    Regex::new(&compile(&nodes).unwrap()).unwrap()
}

#[test]
fn no_group_test() {
    let regex = re(vec![Node::Regex("[0-9]+,".to_string())]);

    let one = regex.captures("1234,").unwrap();
    assert_eq!(one.get(0).unwrap().as_str(), "1234,");

    assert!(regex.captures("ABC").is_none());

    let three: Vec<_> = regex.captures_iter("1,2,3,4,").collect();
    assert_eq!(three.len(), 4);
    assert_eq!(three[0].get(0).unwrap().as_str(), "1,");
    assert_eq!(three[1].get(0).unwrap().as_str(), "2,");
    assert_eq!(three[2].get(0).unwrap().as_str(), "3,");
    assert_eq!(three[3].get(0).unwrap().as_str(), "4,");
}

#[test]
fn two_groups_one_named() {
    let regex = re(vec![Node::Regex("([0-9]+)(?<letters>[a-z]+)".to_string())]);

    let one = regex.captures("123abc").unwrap();
    assert_eq!(one.get(0).unwrap().as_str(), "123abc");
    assert_eq!(one.get(1).map(|m| m.as_str()), Some("123"));
    assert_eq!(one.get(2).map(|m| m.as_str()), Some("abc"));
    assert_eq!(one.name("letters").map(|m| m.as_str()), Some("abc"));

    assert!(regex.captures("ABC").is_none());

    let three: Vec<_> = regex.captures_iter("1a22bb33cc").collect();
    assert_eq!(three.len(), 3);
    assert_eq!(three[0].get(0).unwrap().as_str(), "1a");
    assert_eq!(three[1].get(1).map(|m| m.as_str()), Some("22"));
    assert_eq!(three[2].name("letters").map(|m| m.as_str()), Some("cc"));
}

#[test]
fn none_group() {
    let class = |name: &str| {
        Node::Repeat(
            RepeatKind::Repeat,
            vec![RepeatArg::Item(Node::AnyOf(true, vec![ClassElement::Class(false, name.to_string())]))],
        )
    };
    let regex = re(vec![
        Node::Any(vec![
            Node::Group(Some("letters".to_string()), vec![class("letter")]),
            Node::Group(Some("digits".to_string()), vec![class("digit")]),
        ]),
        Node::Repeat(
            RepeatKind::MaybeRepeat,
            vec![RepeatArg::Item(Node::Class(false, "white_space".to_string()))],
        ),
    ]);

    let one = regex.captures("Letters ").unwrap();
    assert_eq!(one.get(0).unwrap().as_str(), "Letters ");
    assert_eq!(one.get(1).map(|m| m.as_str()), Some("Letters"));
    assert_eq!(one.get(2).map(|m| m.as_str()), None);
    assert_eq!(one.name("letters").map(|m| m.as_str()), Some("Letters"));
    assert_eq!(one.name("digits").map(|m| m.as_str()), None);

    let two = regex.captures("1234").unwrap();
    assert_eq!(two.get(0).unwrap().as_str(), "1234");
    assert_eq!(two.get(1).map(|m| m.as_str()), None);
    assert_eq!(two.get(2).map(|m| m.as_str()), Some("1234"));
    assert_eq!(two.name("letters").map(|m| m.as_str()), None);
    assert_eq!(two.name("digits").map(|m| m.as_str()), Some("1234"));

    let three: Vec<_> = regex.captures_iter("abc 1234 def 33").collect();
    assert_eq!(three.len(), 4);
    assert_eq!(three[0].get(1).map(|m| m.as_str()), Some("abc"));
    assert_eq!(three[1].get(1).map(|m| m.as_str()), None);
    assert_eq!(three[2].get(2).map(|m| m.as_str()), None);
    assert_eq!(three[3].get(2).map(|m| m.as_str()), Some("33"));
}

#[test]
fn capture_table_indices() {
    let c = CreateCapture::new("Three".to_string(), "([0-9]+)(?<letters>[a-z]+)(?<tail>x)?".to_string());
    let t = c.build().ok().unwrap();
    assert_eq!(t, vec![("letters".to_string(), 2), ("tail".to_string(), 3)]);
}

#[test]
fn capture_table_rejects_reserved_and_invalid() {
    let reserved = CreateCapture::new("R".to_string(), "(?<get_capture>a)".to_string());
    assert_eq!(reserved.build().err(), Some(CompileError::ReservedGroupName));
    let invalid = CreateCapture::new("I".to_string(), "(a".to_string());
    assert_eq!(invalid.build().err(), Some(CompileError::UnderlyingEngineRejected));
}

#[test]
fn capture_from_description() {
    let c = CreateCapture::from_description(
        "Digits".to_string(),
        &vec![
            Node::Str("n".to_string()),
            Node::Group(Some("digits".to_string()), vec![Node::Class(false, "digit".to_string())]),
        ],
    )
    .ok()
    .unwrap();
    assert_eq!(c.regex, "n(?<digits>\\p{digit})");
    assert_eq!(c.build().ok().unwrap(), vec![("digits".to_string(), 1)]);
}

#[test]
fn use_regex() {
    let c = CreateCapture::from_description(
        "MyRegexCapture".to_string(),
        &vec![
            Node::Eq("one ".to_string()),
            Node::Group(Some("a_name".to_string()), vec![Node::Regex("[a-z]+".to_string())]),
        ],
    )
    .ok()
    .unwrap();
    let table = c.build().ok().unwrap();
    let a_name = table.iter().find(|(n, _)| n == "a_name").unwrap().1;
    let regex = Regex::new(&c.regex).unwrap();

    let one = regex.captures("one abcd").unwrap();
    assert_eq!(one.get(0).unwrap().as_str(), "one abcd");
    assert_eq!(one.get(1).map(|m| m.as_str()), Some("abcd"));
    assert_eq!(one.get(a_name).map(|m| m.as_str()), Some("abcd"));

    assert!(regex.captures("ABC").is_none());

    let three: Vec<_> = regex.captures_iter("one a").collect();
    assert_eq!(three.len(), 1);
    assert_eq!(three[0].get(0).unwrap().as_str(), "one a");
    assert_eq!(three[0].get(1).map(|m| m.as_str()), Some("a"));
}

#[test]
fn get_regex() {
    let c = CreateCapture::new("MyRegexCapture".to_string(), "[a-z]+".to_string());
    assert!(c.build().is_ok());
    let regex = Regex::new(&c.regex).unwrap();
    assert!(regex.is_match("test"));
    assert!(!regex.is_match("TEST"));
}
