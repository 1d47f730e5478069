use pest_railroad::diagram::DiagramNode;
use pest_railroad::generate_diagram;
use pest_railroad::DiagramError;

fn term(s: &str) -> DiagramNode {
    DiagramNode::Terminal(s.to_string())
}

fn comment(s: &str) -> DiagramNode {
    DiagramNode::Comment(s.to_string())
}

fn rule_block(name: &str, body: Vec<DiagramNode>) -> DiagramNode {
    let mut seq = vec![DiagramNode::SimpleStart];
    seq.extend(body);
    seq.push(DiagramNode::SimpleEnd);
    DiagramNode::VerticalGrid(vec![comment(name), DiagramNode::Sequence(seq)])
}

fn repeat_loop(inner: DiagramNode) -> DiagramNode {
    DiagramNode::Repeat(Box::new(inner), Box::new(DiagramNode::Empty))
}

fn zero_or_more(inner: DiagramNode) -> DiagramNode {
    DiagramNode::Choice(vec![DiagramNode::Empty, repeat_loop(inner)])
}

#[test]
fn single_literal_rule() {
    let (diagram, warnings) = generate_diagram("greeting = { \"hello\" }").unwrap();
    let expected =
        DiagramNode::VerticalGrid(vec![rule_block("greeting", vec![term("hello")])]);
    assert_eq!(diagram, expected);
    assert!(warnings.is_empty());
}

#[test]
fn choice_of_two_literals() {
    let (diagram, warnings) = generate_diagram("greeting = { \"hi\" | \"hello\" }").unwrap();
    let expected = DiagramNode::VerticalGrid(vec![rule_block(
        "greeting",
        vec![DiagramNode::Choice(vec![term("hi"), term("hello")])],
    )]);
    assert_eq!(diagram, expected);
    assert!(warnings.is_empty());
}

#[test]
fn char_range_one_or_more() {
    let (diagram, warnings) = generate_diagram("digits = { '0'..'9'+ }").unwrap();
    let expected = DiagramNode::VerticalGrid(vec![rule_block(
        "digits",
        vec![repeat_loop(term("0..9"))],
    )]);
    assert_eq!(diagram, expected);
    assert!(warnings.is_empty());
}

#[test]
fn bounded_repeat_zero_to_three() {
    let (diagram, warnings) = generate_diagram("opt_ws = { \" \"{0,3} }").unwrap();
    let expected = DiagramNode::VerticalGrid(vec![rule_block(
        "opt_ws",
        vec![DiagramNode::LabeledBox(
            Box::new(zero_or_more(term(" "))),
            Box::new(comment("Repeat at most 3 time(s)")),
        )],
    )]);
    assert_eq!(diagram, expected);
    assert!(warnings.is_empty());
}

#[test]
fn bounded_repeat_exact() {
    let (diagram, _) = generate_diagram("x = { \"a\"{12} }").unwrap();
    let expected = DiagramNode::VerticalGrid(vec![rule_block(
        "x",
        vec![DiagramNode::LabeledBox(
            Box::new(repeat_loop(term("a"))),
            Box::new(comment("Repeat 12 time(s)")),
        )],
    )]);
    assert_eq!(diagram, expected);
}

#[test]
fn bounded_repeat_exact_zero_has_bypass() {
    let (diagram, _) = generate_diagram("x = { \"a\"{0} }").unwrap();
    let expected = DiagramNode::VerticalGrid(vec![rule_block(
        "x",
        vec![DiagramNode::LabeledBox(
            Box::new(zero_or_more(term("a"))),
            Box::new(comment("Repeat 0 time(s)")),
        )],
    )]);
    assert_eq!(diagram, expected);
}

#[test]
fn bounded_repeat_min_unbounded() {
    let (diagram, _) = generate_diagram("x = { \"a\"{2,} }").unwrap();
    let expected = DiagramNode::VerticalGrid(vec![rule_block(
        "x",
        vec![DiagramNode::LabeledBox(
            Box::new(repeat_loop(term("a"))),
            Box::new(comment("Repeat 2 or more times")),
        )],
    )]);
    assert_eq!(diagram, expected);
}

#[test]
fn bounded_repeat_between() {
    let (diagram, _) = generate_diagram("x = { \"a\"{1,5} }").unwrap();
    let expected = DiagramNode::VerticalGrid(vec![rule_block(
        "x",
        vec![DiagramNode::LabeledBox(
            Box::new(repeat_loop(term("a"))),
            Box::new(comment("Repeat between 1 and 5 time(s)")),
        )],
    )]);
    assert_eq!(diagram, expected);
}

#[test]
fn star_question_and_sequence() {
    let (diagram, _) = generate_diagram("x = { \"a\"* ~ \"b\"? }").unwrap();
    let expected = DiagramNode::VerticalGrid(vec![rule_block(
        "x",
        vec![DiagramNode::Sequence(vec![
            zero_or_more(term("a")),
            DiagramNode::Optional(Box::new(term("b"))),
        ])],
    )]);
    assert_eq!(diagram, expected);
}

#[test]
fn identifier_reference_is_non_terminal() {
    let (diagram, _) = generate_diagram("x = { other }").unwrap();
    let expected = DiagramNode::VerticalGrid(vec![rule_block(
        "x",
        vec![DiagramNode::NonTerminal("other".to_string())],
    )]);
    assert_eq!(diagram, expected);
}

#[test]
fn negative_lookahead_annotates() {
    let (diagram, _) = generate_diagram("x = { !\"a\" ~ \"b\" }").unwrap();
    let expected = DiagramNode::VerticalGrid(vec![rule_block(
        "x",
        vec![DiagramNode::Sequence(vec![
            DiagramNode::LabeledBox(
                Box::new(term("a")),
                Box::new(comment("Lookahead: Can't match")),
            ),
            term("b"),
        ])],
    )]);
    assert_eq!(diagram, expected);
}

#[test]
fn positive_lookahead_annotates() {
    let (diagram, _) = generate_diagram("x = { &\"a\" }").unwrap();
    let expected = DiagramNode::VerticalGrid(vec![rule_block(
        "x",
        vec![DiagramNode::LabeledBox(
            Box::new(term("a")),
            Box::new(comment("Lookahead: Must match")),
        )],
    )]);
    assert_eq!(diagram, expected);
}

#[test]
fn double_negative_lookahead_cancels() {
    let (with_markers, _) = generate_diagram("x = { !!\"a\" }").unwrap();
    let (without_markers, _) = generate_diagram("x = { \"a\" }").unwrap();
    assert_eq!(with_markers, without_markers);
}

#[test]
fn parenthesized_expression_nests() {
    let (diagram, _) = generate_diagram("x = { (\"a\" | \"b\") ~ \"c\" }").unwrap();
    let expected = DiagramNode::VerticalGrid(vec![rule_block(
        "x",
        vec![DiagramNode::Sequence(vec![
            DiagramNode::Choice(vec![term("a"), term("b")]),
            term("c"),
        ])],
    )]);
    assert_eq!(diagram, expected);
}

#[test]
fn silent_modifier_tags_rule_name() {
    let (diagram, _) = generate_diagram("ws = _{ \" \" }").unwrap();
    let expected =
        DiagramNode::VerticalGrid(vec![rule_block("ws (silent)", vec![term(" ")])]);
    assert_eq!(diagram, expected);
}

#[test]
fn atomic_modifier_tags_rule_name() {
    let (diagram, _) = generate_diagram("word = @{ \"a\"+ }").unwrap();
    let expected = DiagramNode::VerticalGrid(vec![rule_block(
        "word (atomic)",
        vec![repeat_loop(term("a"))],
    )]);
    assert_eq!(diagram, expected);
}

#[test]
fn compound_atomic_modifier_tags_rule_name() {
    let (diagram, _) = generate_diagram("s = ${ \"a\" }").unwrap();
    let expected =
        DiagramNode::VerticalGrid(vec![rule_block("s (compound atomic)", vec![term("a")])]);
    assert_eq!(diagram, expected);
}

#[test]
fn non_atomic_modifier_tags_rule_name() {
    let (diagram, _) = generate_diagram("s = !{ \"a\" }").unwrap();
    let expected =
        DiagramNode::VerticalGrid(vec![rule_block("s (non-atomic)", vec![term("a")])]);
    assert_eq!(diagram, expected);
}

#[test]
fn insensitive_string_renders_as_terminal() {
    let (diagram, _) = generate_diagram("x = { ^\"abc\" }").unwrap();
    let expected =
        DiagramNode::VerticalGrid(vec![rule_block("x", vec![term("abc")])]);
    assert_eq!(diagram, expected);
}

#[test]
fn rule_doc_comment_becomes_comment_row() {
    let (diagram, _) = generate_diagram("/// the x rule\nx = { \"a\" }").unwrap();
    let expected = DiagramNode::VerticalGrid(vec![
        comment("/// the x rule"),
        rule_block("x", vec![term("a")]),
    ]);
    assert_eq!(diagram, expected);
}

#[test]
fn grammar_doc_contributes_nothing() {
    let (diagram, warnings) = generate_diagram("//! top level\nx = { \"a\" }").unwrap();
    let expected = DiagramNode::VerticalGrid(vec![rule_block("x", vec![term("a")])]);
    assert_eq!(diagram, expected);
    assert!(warnings.is_empty());
}

#[test]
fn two_rules_stack_in_source_order() {
    let (diagram, _) = generate_diagram("a = { \"x\" }\nb = { a }").unwrap();
    let expected = DiagramNode::VerticalGrid(vec![
        rule_block("a", vec![term("x")]),
        rule_block("b", vec![DiagramNode::NonTerminal("a".to_string())]),
    ]);
    assert_eq!(diagram, expected);
}

#[test]
fn empty_grammar_yields_empty_grid() {
    let (diagram, warnings) = generate_diagram("").unwrap();
    assert_eq!(diagram, DiagramNode::VerticalGrid(vec![]));
    assert!(warnings.is_empty());
}

#[test]
fn unsupported_construct_warns_and_is_skipped() {
    let (diagram, warnings) = generate_diagram("a = { PUSH(\"x\") }").unwrap();
    assert_eq!(warnings.len(), 1);
    assert!(warnings[0].contains("Unsupported rule in term"));
    let expected = DiagramNode::VerticalGrid(vec![rule_block("a", vec![DiagramNode::Empty])]);
    assert_eq!(diagram, expected);
}

#[test]
fn unsupported_construct_keeps_siblings() {
    let (diagram, warnings) = generate_diagram("a = { \"x\" ~ PUSH(\"y\") }").unwrap();
    assert_eq!(warnings.len(), 1);
    let expected = DiagramNode::VerticalGrid(vec![rule_block("a", vec![term("x")])]);
    assert_eq!(diagram, expected);
}

#[test]
fn syntax_error_is_reported() {
    let result = generate_diagram("= {");
    assert!(matches!(result, Err(DiagramError::Parse(_))));
}

#[test]
fn leading_choice_separator_gives_empty_alternative() {
    let (diagram, warnings) = generate_diagram("a = { | \"x\" }").unwrap();
    let expected = DiagramNode::VerticalGrid(vec![rule_block(
        "a",
        vec![DiagramNode::Choice(vec![DiagramNode::Empty, term("x")])],
    )]);
    assert_eq!(diagram, expected);
    assert!(warnings.is_empty());
}

#[test]
fn nested_unsupported_constructs_warn_in_traversal_order() {
    let (diagram, warnings) =
        generate_diagram("a = { (\"x\" | PUSH(\"y\")) ~ PUSH(\"z\") }").unwrap();
    assert_eq!(warnings.len(), 2);
    assert!(warnings[0].contains("_push"));
    assert!(warnings[1].contains("_push"));
    let expected = DiagramNode::VerticalGrid(vec![rule_block(
        "a",
        vec![DiagramNode::Choice(vec![term("x"), DiagramNode::Empty])],
    )]);
    assert_eq!(diagram, expected);
}
