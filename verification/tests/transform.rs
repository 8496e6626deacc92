use stainless::errors::TransformError;
use stainless::output::{Container, OutputNode, Unit, UnitKind};
use stainless::tokens::Token;
use stainless::transform;

fn cs(s: &str) -> Vec<char> {
    s.chars().collect()
}

fn word(s: &str) -> Token {
    Token::Word(cs(s))
}

fn quoted(s: &str) -> Token {
    Token::Quoted(cs(s))
}

fn stmt(s: &str) -> Token {
    Token::Stmt(cs(s))
}

fn unit_of(node: &OutputNode) -> &Unit {
    match node {
        OutputNode::Unit(u) => u,
        OutputNode::Container(_) => panic!("expected a unit"),
    }
}

fn container_of(node: &OutputNode) -> &Container {
    match node {
        OutputNode::Container(c) => c,
        OutputNode::Unit(_) => panic!("expected a container"),
    }
}

#[test]
fn nested_hooks_compose_in_order() {
    // top { before_each { x=1 } describe inner { before_each { x+=1 }
    //       it "t" { assert x==2 } after_each { x+=1 } }
    //       after_each { assert x==4 } }
    let tokens = vec![
        word("top"),
        Token::OpenBrace,
        word("before_each"),
        Token::OpenBrace,
        stmt("x=1"),
        Token::CloseBrace,
        word("describe"),
        word("inner"),
        Token::OpenBrace,
        word("before_each"),
        Token::OpenBrace,
        stmt("x+=1"),
        Token::CloseBrace,
        word("it"),
        quoted("t"),
        Token::OpenBrace,
        stmt("assert x==2"),
        Token::CloseBrace,
        word("after_each"),
        Token::OpenBrace,
        stmt("x+=1"),
        Token::CloseBrace,
        Token::CloseBrace,
        word("after_each"),
        Token::OpenBrace,
        stmt("assert x==4"),
        Token::CloseBrace,
        Token::CloseBrace,
    ];
    let root = transform(&tokens).unwrap();
    assert_eq!(root.ident, cs("top"));
    assert_eq!(root.nodes.len(), 1);
    let inner = container_of(&root.nodes[0]);
    assert_eq!(inner.ident, cs("inner"));
    assert_eq!(inner.nodes.len(), 1);
    let unit = unit_of(&inner.nodes[0]);
    assert_eq!(unit.ident, cs("t"));
    assert!(matches!(unit.kind, UnitKind::Test));
    assert_eq!(
        unit.body,
        vec![cs("x=1"), cs("x+=1"), cs("assert x==2"), cs("x+=1"), cs("assert x==4")]
    );
}

#[test]
fn sibling_descriptions_collide() {
    // top { it "same" { a } it "same" { b } }
    let tokens = vec![
        word("top"),
        Token::OpenBrace,
        word("it"),
        quoted("same"),
        Token::OpenBrace,
        stmt("a"),
        Token::CloseBrace,
        word("it"),
        quoted("same"),
        Token::OpenBrace,
        stmt("b"),
        Token::CloseBrace,
        Token::CloseBrace,
    ];
    assert_eq!(transform(&tokens).unwrap_err(), TransformError::IdentifierCollision);
}

#[test]
fn bench_body_has_no_hooks() {
    // top { before_each { setup } bench "b" (h) { run } }
    let tokens = vec![
        word("top"),
        Token::OpenBrace,
        word("before_each"),
        Token::OpenBrace,
        stmt("setup"),
        Token::CloseBrace,
        word("bench"),
        quoted("b"),
        Token::OpenParen,
        word("h"),
        Token::CloseParen,
        Token::OpenBrace,
        stmt("run"),
        Token::CloseBrace,
        Token::CloseBrace,
    ];
    let root = transform(&tokens).unwrap();
    assert_eq!(root.nodes.len(), 1);
    let unit = unit_of(&root.nodes[0]);
    assert_eq!(unit.ident, cs("b"));
    match &unit.kind {
        UnitKind::Benchmark(binding) => assert_eq!(*binding, cs("h")),
        _ => panic!("expected a benchmark unit"),
    }
    assert_eq!(unit.body, vec![cs("run")]);
}

#[test]
fn ignored_test_is_emitted_as_skip() {
    // top { ignore "later" { todo } }
    let tokens = vec![
        word("top"),
        Token::OpenBrace,
        word("ignore"),
        quoted("later"),
        Token::OpenBrace,
        stmt("todo"),
        Token::CloseBrace,
        Token::CloseBrace,
    ];
    let root = transform(&tokens).unwrap();
    assert_eq!(root.nodes.len(), 1);
    let unit = unit_of(&root.nodes[0]);
    assert_eq!(unit.ident, cs("later"));
    assert!(matches!(unit.kind, UnitKind::Skip));
    assert_eq!(unit.body, vec![cs("todo")]);
}

#[test]
fn failing_without_pattern() {
    // top { failing "boom" { panic } }
    let tokens = vec![
        word("top"),
        Token::OpenBrace,
        word("failing"),
        quoted("boom"),
        Token::OpenBrace,
        stmt("panic"),
        Token::CloseBrace,
        Token::CloseBrace,
    ];
    let root = transform(&tokens).unwrap();
    let unit = unit_of(&root.nodes[0]);
    assert_eq!(unit.ident, cs("boom"));
    match &unit.kind {
        UnitKind::ExpectFailure(pattern) => assert!(pattern.is_none()),
        _ => panic!("expected an expect-failure unit"),
    }
}

#[test]
fn failing_with_pattern() {
    // top { failing "oops" "goes wrong" { panic } }
    let tokens = vec![
        word("top"),
        Token::OpenBrace,
        word("failing"),
        quoted("oops"),
        quoted("goes wrong"),
        Token::OpenBrace,
        stmt("panic"),
        Token::CloseBrace,
        Token::CloseBrace,
    ];
    let root = transform(&tokens).unwrap();
    let unit = unit_of(&root.nodes[0]);
    assert_eq!(unit.ident, cs("goes_wrong"));
    match &unit.kind {
        UnitKind::ExpectFailure(pattern) => assert_eq!(pattern.as_ref().unwrap(), &cs("oops")),
        _ => panic!("expected an expect-failure unit"),
    }
}

#[test]
fn duplicate_before_each_rejected() {
    // top { before_each { a } it "t" { b } before_each { c } }
    let tokens = vec![
        word("top"),
        Token::OpenBrace,
        word("before_each"),
        Token::OpenBrace,
        stmt("a"),
        Token::CloseBrace,
        word("it"),
        quoted("t"),
        Token::OpenBrace,
        stmt("b"),
        Token::CloseBrace,
        word("before_each"),
        Token::OpenBrace,
        stmt("c"),
        Token::CloseBrace,
        Token::CloseBrace,
    ];
    assert_eq!(transform(&tokens).unwrap_err(), TransformError::DuplicateHook);
}

#[test]
fn duplicate_after_each_rejected() {
    // top { after_each { a } after_each { b } }
    let tokens = vec![
        word("top"),
        Token::OpenBrace,
        word("after_each"),
        Token::OpenBrace,
        stmt("a"),
        Token::CloseBrace,
        word("after_each"),
        Token::OpenBrace,
        stmt("b"),
        Token::CloseBrace,
        Token::CloseBrace,
    ];
    assert_eq!(transform(&tokens).unwrap_err(), TransformError::DuplicateHook);
}

#[test]
fn sibling_groups_do_not_share_hooks() {
    // root { describe a { before_each { A } it "t1" { b1 } }
    //        describe b { it "t2" { b2 } } }
    let tokens = vec![
        word("root"),
        Token::OpenBrace,
        word("describe"),
        word("a"),
        Token::OpenBrace,
        word("before_each"),
        Token::OpenBrace,
        stmt("A"),
        Token::CloseBrace,
        word("it"),
        quoted("t1"),
        Token::OpenBrace,
        stmt("b1"),
        Token::CloseBrace,
        Token::CloseBrace,
        word("describe"),
        word("b"),
        Token::OpenBrace,
        word("it"),
        quoted("t2"),
        Token::OpenBrace,
        stmt("b2"),
        Token::CloseBrace,
        Token::CloseBrace,
        Token::CloseBrace,
    ];
    let root = transform(&tokens).unwrap();
    assert_eq!(root.nodes.len(), 2);
    let a = container_of(&root.nodes[0]);
    let b = container_of(&root.nodes[1]);
    let t1 = unit_of(&a.nodes[0]);
    assert_eq!(t1.body, vec![cs("A"), cs("b1")]);
    let t2 = unit_of(&b.nodes[0]);
    assert_eq!(t2.body, vec![cs("b2")]);
}

#[test]
fn empty_group_is_legal() {
    let tokens = vec![word("top"), Token::OpenBrace, Token::CloseBrace];
    let root = transform(&tokens).unwrap();
    assert_eq!(root.ident, cs("top"));
    assert_eq!(root.nodes.len(), 0);
}

#[test]
fn group_with_only_hooks_is_inert() {
    // top { before_each { a } after_each { b } }
    let tokens = vec![
        word("top"),
        Token::OpenBrace,
        word("before_each"),
        Token::OpenBrace,
        stmt("a"),
        Token::CloseBrace,
        word("after_each"),
        Token::OpenBrace,
        stmt("b"),
        Token::CloseBrace,
        Token::CloseBrace,
    ];
    let root = transform(&tokens).unwrap();
    assert_eq!(root.nodes.len(), 0);
}

#[test]
fn empty_stream_is_a_syntax_error() {
    let tokens: Vec<Token> = vec![];
    assert_eq!(transform(&tokens).unwrap_err(), TransformError::Syntax(0));
}

#[test]
fn unknown_keyword_is_a_syntax_error() {
    // top { setup { a } }
    let tokens = vec![
        word("top"),
        Token::OpenBrace,
        word("setup"),
        Token::OpenBrace,
        stmt("a"),
        Token::CloseBrace,
        Token::CloseBrace,
    ];
    assert_eq!(transform(&tokens).unwrap_err(), TransformError::Syntax(2));
}

#[test]
fn unterminated_group_is_a_syntax_error() {
    // top { it "t" { a }      — closing brace of top missing
    let tokens = vec![
        word("top"),
        Token::OpenBrace,
        word("it"),
        quoted("t"),
        Token::OpenBrace,
        stmt("a"),
        Token::CloseBrace,
    ];
    assert_eq!(transform(&tokens).unwrap_err(), TransformError::Syntax(7));
}

#[test]
fn missing_description_is_a_syntax_error() {
    // top { it { a } }
    let tokens = vec![
        word("top"),
        Token::OpenBrace,
        word("it"),
        Token::OpenBrace,
        stmt("a"),
        Token::CloseBrace,
        Token::CloseBrace,
    ];
    assert_eq!(transform(&tokens).unwrap_err(), TransformError::Syntax(3));
}

#[test]
fn trailing_tokens_are_a_syntax_error() {
    // top { } extra
    let tokens = vec![word("top"), Token::OpenBrace, Token::CloseBrace, word("extra")];
    assert_eq!(transform(&tokens).unwrap_err(), TransformError::Syntax(3));
}

#[test]
fn group_descriptions_are_canonicalized() {
    // My Suite { it "Works Fine!" { a } }
    let tokens = vec![
        word("My Suite"),
        Token::OpenBrace,
        word("it"),
        quoted("Works Fine!"),
        Token::OpenBrace,
        stmt("a"),
        Token::CloseBrace,
        Token::CloseBrace,
    ];
    let root = transform(&tokens).unwrap();
    assert_eq!(root.ident, cs("my_suite"));
    let unit = unit_of(&root.nodes[0]);
    assert_eq!(unit.ident, cs("works_fine_"));
}

#[test]
fn nested_group_name_collides_with_test() {
    // top { it "inner" { a } describe inner { } }
    let tokens = vec![
        word("top"),
        Token::OpenBrace,
        word("it"),
        quoted("inner"),
        Token::OpenBrace,
        stmt("a"),
        Token::CloseBrace,
        word("describe"),
        word("inner"),
        Token::OpenBrace,
        Token::CloseBrace,
        Token::CloseBrace,
    ];
    assert_eq!(transform(&tokens).unwrap_err(), TransformError::IdentifierCollision);
}

#[test]
fn deep_nesting_composes_every_level() {
    // l0 { before_each { b0 } describe l1 { before_each { b1 }
    //      describe l2 { it "t" { x } after_each { a2 } }
    //      after_each { a1 } } after_each { a0 } }
    let tokens = vec![
        word("l0"),
        Token::OpenBrace,
        word("before_each"),
        Token::OpenBrace,
        stmt("b0"),
        Token::CloseBrace,
        word("describe"),
        word("l1"),
        Token::OpenBrace,
        word("before_each"),
        Token::OpenBrace,
        stmt("b1"),
        Token::CloseBrace,
        word("describe"),
        word("l2"),
        Token::OpenBrace,
        word("it"),
        quoted("t"),
        Token::OpenBrace,
        stmt("x"),
        Token::CloseBrace,
        word("after_each"),
        Token::OpenBrace,
        stmt("a2"),
        Token::CloseBrace,
        Token::CloseBrace,
        word("after_each"),
        Token::OpenBrace,
        stmt("a1"),
        Token::CloseBrace,
        Token::CloseBrace,
        word("after_each"),
        Token::OpenBrace,
        stmt("a0"),
        Token::CloseBrace,
        Token::CloseBrace,
    ];
    let root = transform(&tokens).unwrap();
    let l1 = container_of(&root.nodes[0]);
    let l2 = container_of(&l1.nodes[0]);
    let unit = unit_of(&l2.nodes[0]);
    assert_eq!(
        unit.body,
        vec![cs("b0"), cs("b1"), cs("x"), cs("a2"), cs("a1"), cs("a0")]
    );
}
