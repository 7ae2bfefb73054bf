use regex_dsl::ast::{
    to_dsl_text, Builder, AssertionKind, Ast, AstKind, BinaryOpKind, ClassSet, ClassSetItem, FlagKind, FlagsItem,
    GroupKind, PerlKind, RepetitionKind,
};
use regex_dsl::escape::{escape_char, escape_string};
use regex_dsl::printer::Printer;

fn node(kind: AstKind, text: &str) -> Ast {
    Ast { kind, text: text.to_string() }
}

fn lit(c: char) -> Ast {
    node(AstKind::Literal(c), &c.to_string())
}

fn range(a: char, b: char) -> ClassSet {
    ClassSet::Item(ClassSetItem::Range(a, b))
}

#[test]
fn prints_repeated_range() {
    let inner = node(AstKind::ClassBracketed(false, range('a', 'z')), "[a-z]");
    let ast = node(AstKind::Repetition(RepetitionKind::OneOrMore, true, Box::new(inner)), "[a-z]+");
    assert_eq!(to_dsl_text(&ast), "repeat {\n  any_of {\n    from: 'a', to: 'z',\n  },\n}\n");
}

#[test]
fn prints_concat_with_bounds_and_anchor() {
    let letters = node(
        AstKind::Repetition(
            RepetitionKind::OneOrMore,
            true,
            Box::new(node(AstKind::ClassBracketed(false, range('a', 'z')), "[a-z]")),
        ),
        "[a-z]+",
    );
    let digits = node(
        AstKind::Repetition(
            RepetitionKind::Bounded(2, 3),
            true,
            Box::new(node(AstKind::ClassBracketed(false, range('0', '9')), "[0-9]")),
        ),
        "[0-9]{2,3}",
    );
    let end = node(AstKind::Assertion(AssertionKind::EndLine), "$");
    let ast = node(AstKind::Concat(vec![letters, digits, end]), "[a-z]+[0-9]{2,3}$");
    assert_eq!(
        to_dsl_text(&ast),
        "concat {\n  repeat {\n    any_of {\n      from: 'a', to: 'z',\n    },\n  },\n  times {\n    at_least: 2, at_most: 3,\n    any_of {\n      from: '0', to: '9',\n    },\n  },\n  end_of_line,\n}\n"
    );
}

#[test]
fn coalesces_literal_runs() {
    let ast = node(
        AstKind::Concat(vec![lit('a'), lit('b'), node(AstKind::Dot, "."), lit('"'), lit('\n')]),
        "ab.\"\n",
    );
    assert_eq!(
        to_dsl_text(&ast),
        "concat {\n  eq(\"ab\"),\n  any_character,\n  eq(\"\\\"\\n\"),\n}\n"
    );
    let one = node(AstKind::Concat(vec![lit('x'), node(AstKind::Dot, "."), lit('y')]), "x.y");
    assert_eq!(to_dsl_text(&one), "concat {\n  eq(\"x\"),\n  any_character,\n  eq(\"y\"),\n}\n");
}

#[test]
fn single_literal_run_is_not_a_concat() {
    let ast = node(AstKind::Concat(vec![lit('a'), lit('b'), lit('c')]), "abc");
    assert_eq!(to_dsl_text(&ast), "eq(\"abc\")\n");
}

#[test]
fn unsupported_assertion_falls_back_for_its_subtree() {
    let other = node(AstKind::Assertion(AssertionKind::Other), "\\b{start}");
    let ast = node(AstKind::Concat(vec![lit('a'), other]), "a\\b{start}");
    assert_eq!(
        to_dsl_text(&ast),
        "concat {\n  eq(\"a\"),\n  regex(\"\\\\b{start}\"),\n}\n"
    );
    let alone = node(AstKind::Assertion(AssertionKind::Other), "\\b{end}");
    assert_eq!(to_dsl_text(&alone), "regex(\"\\\\b{end}\")\n");
}

#[test]
fn unsupported_class_member_falls_back_for_the_whole_class() {
    let set = ClassSet::Item(ClassSetItem::Union(vec![ClassSetItem::Literal('a'), ClassSetItem::Ascii]));
    let ast = node(AstKind::ClassBracketed(false, set), "[a[:alpha:]]");
    assert_eq!(to_dsl_text(&ast), "regex(\"[a[:alpha:]]\")\n");
}

#[test]
fn prints_set_operations() {
    let set = ClassSet::BinaryOp(
        BinaryOpKind::Difference,
        Box::new(range('0', '6')),
        Box::new(ClassSet::Item(ClassSetItem::Union(vec![
            ClassSetItem::Literal('1'),
            ClassSetItem::Literal('2'),
        ]))),
    );
    let ast = node(AstKind::ClassBracketed(true, set), "[^0-6--12]");
    assert_eq!(
        to_dsl_text(&ast),
        "not_any_of {\n  from: '0', to: '6',\n  subtract {\n    '1',\n    '2',\n  },\n}\n"
    );
}

#[test]
fn prints_groups_and_flags() {
    let named = node(
        AstKind::Group(GroupKind::CaptureName("x".to_string()), Box::new(lit('a'))),
        "(?<x>a)",
    );
    assert_eq!(to_dsl_text(&named), "group {\n  name: x,\n  eq(\"a\"),\n}\n");
    let flagged = node(
        AstKind::Group(
            GroupKind::NonCapturing(vec![
                FlagsItem::Flag(FlagKind::CaseInsensitive),
                FlagsItem::Negation,
                FlagsItem::Flag(FlagKind::MultiLine),
            ]),
            Box::new(lit('a')),
        ),
        "(?i-m:a)",
    );
    assert_eq!(to_dsl_text(&flagged), "apply {\n  +case_insensitive,\n  -multi_line,\n  eq(\"a\"),\n}\n");
    let plain = node(AstKind::Group(GroupKind::NonCapturing(vec![]), Box::new(lit('a'))), "(?:a)");
    assert_eq!(to_dsl_text(&plain), "eq(\"a\")\n");
    let swap = node(AstKind::Flags(vec![FlagsItem::Flag(FlagKind::SwapGreed)]), "(?U)");
    assert_eq!(to_dsl_text(&swap), "regex(\"(?U)\")\n");
    let crlf = node(AstKind::Flags(vec![FlagsItem::Flag(FlagKind::Crlf)]), "(?R)");
    assert_eq!(to_dsl_text(&crlf), "apply {\n  +enables_crlf_mode,\n}\n");
}

#[test]
fn prints_alternation_and_lazy_repetition() {
    let alt = node(
        AstKind::Alternation(vec![
            node(AstKind::ClassPerl(false, PerlKind::Digit), "\\d"),
            node(AstKind::ClassPerl(true, PerlKind::Space), "\\S"),
            node(AstKind::ClassUnicode(true, Some("Greek".to_string())), "\\P{Greek}"),
        ]),
        "\\d|\\S|\\P{Greek}",
    );
    assert_eq!(to_dsl_text(&alt), "any {\n  digit,\n  not_white_space,\n  ~Greek,\n}\n");
    let lazy = node(
        AstKind::Repetition(RepetitionKind::Exactly(3), false, Box::new(lit('x'))),
        "x{3}?",
    );
    assert_eq!(to_dsl_text(&lazy), "times {\n  exactly: 3,\n  lazy,\n  eq(\"x\"),\n}\n");
}

#[test]
fn printer_append_and_render() {
    let mut inner = Printer::new();
    inner.println("a".to_string());
    inner.println("b,".to_string());
    inner.println("c {".to_string());
    let mut outer = Printer::new();
    outer.println("x {".to_string());
    outer.append(&inner);
    assert_eq!(outer.render(), "x {\n  a,\n  b,\n  c {\n");
}

#[test]
fn description_text_escapes() {
    assert_eq!(escape_char(&'\n'), "\\n");
    assert_eq!(escape_char(&'"'), "\\\"");
    assert_eq!(escape_char(&'a'), "a");
    assert_eq!(escape_string("a\tb\\c\r"), "a\\tb\\\\c\\r");
}

#[test]
fn builder_prints_into_a_printer() {
    let mut p = Printer::new();
    let dot = node(AstKind::Dot, ".");
    assert!(dot.print_basic_ast(&mut p));
    let other = node(AstKind::Assertion(AssertionKind::Other), "\\b{end}");
    assert!(!other.print_basic_ast(&mut p));
    assert_eq!(p.render(), "any_character\n");
    other.print_ast(&mut p);
    assert_eq!(p.render(), "any_character\nregex(\"\\\\b{end}\")\n");
}

#[test]
fn class_members_print_as_char_literals() {
    let set = ClassSet::Item(ClassSetItem::Union(vec![
        ClassSetItem::Literal('\\'),
        ClassSetItem::Literal('\''),
        ClassSetItem::Range('\t', '\''),
    ]));
    let ast = node(AstKind::ClassBracketed(false, set), "[\\\\'\\t-']");
    assert_eq!(
        to_dsl_text(&ast),
        "any_of {\n  '\\\\',\n  '\\'',\n  from: '\\t', to: '\\'',\n}\n"
    );
}
