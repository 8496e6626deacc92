//! The token stream the parser consumes.
//!
//! Lexing is the host's concern: the transformer only asks for a stream in
//! which names, string arguments, braces, parentheses and opaque statements
//! are already told apart.  Statement tokens are never interpreted; they are
//! carried verbatim into the emitted units.

use vstd::prelude::*;
use crate::mangle::chars_eq;

verus! {

/// One token of a document.
#[derive(Debug)]
pub enum Token {
    /// A bare word: a keyword, a group name, or a bencher binding.
    Word(Vec<char>),
    /// A quoted string argument: a description or a failure-message pattern.
    Quoted(Vec<char>),
    /// `{`
    OpenBrace,
    /// `}`
    CloseBrace,
    /// `(`
    OpenParen,
    /// `)`
    CloseParen,
    /// One opaque statement inside a hook or leaf body.
    Stmt(Vec<char>),
}

/// The keywords of the grammar.
#[derive(Clone, Copy, Debug, PartialEq, Eq, Structural)]
pub enum Keyword {
    Describe,
    BeforeEach,
    AfterEach,
    It,
    Failing,
    Ignore,
    Bench,
}

/// The spelling of `describe`.
pub open spec fn kw_describe() -> Seq<char> {
    seq!['d', 'e', 's', 'c', 'r', 'i', 'b', 'e']
}

/// The spelling of `before_each`.
pub open spec fn kw_before_each() -> Seq<char> {
    seq!['b', 'e', 'f', 'o', 'r', 'e', '_', 'e', 'a', 'c', 'h']
}

/// The spelling of `after_each`.
pub open spec fn kw_after_each() -> Seq<char> {
    seq!['a', 'f', 't', 'e', 'r', '_', 'e', 'a', 'c', 'h']
}

/// The spelling of `it`.
pub open spec fn kw_it() -> Seq<char> {
    seq!['i', 't']
}

/// The spelling of `failing`.
pub open spec fn kw_failing() -> Seq<char> {
    seq!['f', 'a', 'i', 'l', 'i', 'n', 'g']
}

/// The spelling of `ignore`.
pub open spec fn kw_ignore() -> Seq<char> {
    seq!['i', 'g', 'n', 'o', 'r', 'e']
}

/// The spelling of `bench`.
pub open spec fn kw_bench() -> Seq<char> {
    seq!['b', 'e', 'n', 'c', 'h']
}

/// Which keyword, if any, a word spells.
pub open spec fn keyword_of(w: Seq<char>) -> Option<Keyword> {
    if w == kw_describe() {
        Some(Keyword::Describe)
    } else if w == kw_before_each() {
        Some(Keyword::BeforeEach)
    } else if w == kw_after_each() {
        Some(Keyword::AfterEach)
    } else if w == kw_it() {
        Some(Keyword::It)
    } else if w == kw_failing() {
        Some(Keyword::Failing)
    } else if w == kw_ignore() {
        Some(Keyword::Ignore)
    } else if w == kw_bench() {
        Some(Keyword::Bench)
    } else {
        None
    }
}

fn describe_chars() -> (r: Vec<char>)
    ensures
        r@ == kw_describe(),
{
    let mut v: Vec<char> = Vec::new();
    v.push('d');
    v.push('e');
    v.push('s');
    v.push('c');
    v.push('r');
    v.push('i');
    v.push('b');
    v.push('e');
    proof {
        assert(v@ =~= kw_describe());
    }
    v
}

fn before_each_chars() -> (r: Vec<char>)
    ensures
        r@ == kw_before_each(),
{
    let mut v: Vec<char> = Vec::new();
    v.push('b');
    v.push('e');
    v.push('f');
    v.push('o');
    v.push('r');
    v.push('e');
    v.push('_');
    v.push('e');
    v.push('a');
    v.push('c');
    v.push('h');
    proof {
        assert(v@ =~= kw_before_each());
    }
    v
}

fn after_each_chars() -> (r: Vec<char>)
    ensures
        r@ == kw_after_each(),
{
    let mut v: Vec<char> = Vec::new();
    v.push('a');
    v.push('f');
    v.push('t');
    v.push('e');
    v.push('r');
    v.push('_');
    v.push('e');
    v.push('a');
    v.push('c');
    v.push('h');
    proof {
        assert(v@ =~= kw_after_each());
    }
    v
}

fn it_chars() -> (r: Vec<char>)
    ensures
        r@ == kw_it(),
{
    let mut v: Vec<char> = Vec::new();
    v.push('i');
    v.push('t');
    proof {
        assert(v@ =~= kw_it());
    }
    v
}

fn failing_chars() -> (r: Vec<char>)
    ensures
        r@ == kw_failing(),
{
    let mut v: Vec<char> = Vec::new();
    v.push('f');
    v.push('a');
    v.push('i');
    v.push('l');
    v.push('i');
    v.push('n');
    v.push('g');
    proof {
        assert(v@ =~= kw_failing());
    }
    v
}

fn ignore_chars() -> (r: Vec<char>)
    ensures
        r@ == kw_ignore(),
{
    let mut v: Vec<char> = Vec::new();
    v.push('i');
    v.push('g');
    v.push('n');
    v.push('o');
    v.push('r');
    v.push('e');
    proof {
        assert(v@ =~= kw_ignore());
    }
    v
}

fn bench_chars() -> (r: Vec<char>)
    ensures
        r@ == kw_bench(),
{
    let mut v: Vec<char> = Vec::new();
    v.push('b');
    v.push('e');
    v.push('n');
    v.push('c');
    v.push('h');
    proof {
        assert(v@ =~= kw_bench());
    }
    v
}

/// Recognizes which keyword a word spells, if any.
pub fn recognize_keyword(w: &Vec<char>) -> (r: Option<Keyword>)
    ensures
        r == keyword_of(w@),
{
    if chars_eq(w, &describe_chars()) {
        Some(Keyword::Describe)
    } else if chars_eq(w, &before_each_chars()) {
        Some(Keyword::BeforeEach)
    } else if chars_eq(w, &after_each_chars()) {
        Some(Keyword::AfterEach)
    } else if chars_eq(w, &it_chars()) {
        Some(Keyword::It)
    } else if chars_eq(w, &failing_chars()) {
        Some(Keyword::Failing)
    } else if chars_eq(w, &ignore_chars()) {
        Some(Keyword::Ignore)
    } else if chars_eq(w, &bench_chars()) {
        Some(Keyword::Bench)
    } else {
        None
    }
}

} // verus!
