use stainless::builder::build_group;
use stainless::errors::TransformError;
use stainless::mangle::{canonicalize, mangle};
use stainless::output::failure_accepted;
use stainless::raw::RawBlock;
use stainless::tokens::Keyword;

fn cs(s: &str) -> Vec<char> {
    s.chars().collect()
}

#[test]
fn canonicalization_lowers_and_separates() {
    assert_eq!(canonicalize(&cs("Makes Organizing Tests Easy")), cs("makes_organizing_tests_easy"));
    assert_eq!(canonicalize(&cs("a  b")), cs("a_b"));
    assert_eq!(canonicalize(&cs("A-B-C")), cs("a_b_c"));
    assert_eq!(canonicalize(&cs("x_1")), cs("x_1"));
    assert_eq!(canonicalize(&cs("__")), cs("_"));
    assert_eq!(canonicalize(&cs("")), cs(""));
}

#[test]
fn canonicalization_is_deterministic() {
    let first = canonicalize(&cs("Some Description 7!"));
    let second = canonicalize(&cs("Some Description 7!"));
    assert_eq!(first, second);
}

#[test]
fn mangle_rejects_a_claimed_identifier() {
    let used = vec![cs("same")];
    assert_eq!(mangle(&cs("Same"), &used).unwrap_err(), TransformError::IdentifierCollision);
    assert_eq!(mangle(&cs("other"), &used).unwrap(), cs("other"));
}

#[test]
fn failure_pattern_matching_is_substring() {
    assert!(failure_accepted(&None, &cs("any message at all")));
    assert!(failure_accepted(&None, &cs("")));
    let pattern = Some(cs("boom"));
    assert!(failure_accepted(&pattern, &cs("a big boom happened")));
    assert!(failure_accepted(&pattern, &cs("boom")));
    assert!(!failure_accepted(&pattern, &cs("quiet exit")));
    assert!(!failure_accepted(&pattern, &cs("bo om")));
    let empty = Some(cs(""));
    assert!(failure_accepted(&empty, &cs("anything")));
}

#[test]
fn builder_rejects_a_nameless_group() {
    let raw = RawBlock {
        kw: Keyword::Describe,
        name: None,
        arg: None,
        body: None,
        children: Vec::new(),
    };
    assert_eq!(build_group(&raw).unwrap_err(), TransformError::MalformedItem);
}

#[test]
fn builder_rejects_a_leaf_without_description() {
    let leaf = RawBlock {
        kw: Keyword::It,
        name: None,
        arg: None,
        body: Some(vec![cs("a")]),
        children: Vec::new(),
    };
    let raw = RawBlock {
        kw: Keyword::Describe,
        name: Some(cs("top")),
        arg: None,
        body: None,
        children: vec![leaf],
    };
    assert_eq!(build_group(&raw).unwrap_err(), TransformError::MalformedItem);
}

#[test]
fn builder_rejects_a_leaf_without_body() {
    let leaf = RawBlock {
        kw: Keyword::Bench,
        name: Some(cs("b")),
        arg: Some(cs("h")),
        body: None,
        children: Vec::new(),
    };
    let raw = RawBlock {
        kw: Keyword::Describe,
        name: Some(cs("top")),
        arg: None,
        body: None,
        children: vec![leaf],
    };
    assert_eq!(build_group(&raw).unwrap_err(), TransformError::MalformedItem);
}
