//! The parser: from a token stream to the raw block tree.
//!
//! The grammar is block-structured.  A document is one group, written
//! `NAME { ... }`.  Inside a group body stand hook blocks
//! (`before_each { ... }`, `after_each { ... }`), test leaves
//! (`it "d" { ... }`, `failing "d" { ... }`, `failing "pat" "d" { ... }`,
//! `ignore "d" { ... }`), benchmark leaves (`bench "d" (h) { ... }`) and
//! nested groups (`describe NAME { ... }`), in any order.  Leaf and hook
//! bodies are opaque statement tokens.
//!
//! `parse_document_from` is the defining description of the parse; the
//! executable functions return exactly its value.  A missing token is
//! reported at position `t.len()`, a wrong one at its own position.

use vstd::prelude::*;
use crate::errors::TransformError;
use crate::mangle::{copy_chars, stmts_model};
use crate::raw::{lemma_raw_models_index, raw_model, raw_models, RawBlock, RawBlockModel};
use crate::tokens::{keyword_of, recognize_keyword, Keyword, Token};

verus! {

/// Parses the statements of a body, up to and past the closing brace.
pub open spec fn parse_stmts_from(t: Seq<Token>, pos: int) -> Result<
    (Seq<Seq<char>>, int),
    TransformError,
>
    decreases t.len() - pos, 0int,
{
    if pos < 0 || pos >= t.len() {
        Err(TransformError::Syntax(t.len() as usize))
    } else {
        match t[pos] {
            Token::CloseBrace => Ok((Seq::empty(), pos + 1)),
            Token::Stmt(s) => match parse_stmts_from(t, pos + 1) {
                Ok((rest, e)) => Ok((seq![s@] + rest, e)),
                Err(x) => Err(x),
            },
            _ => Err(TransformError::Syntax(pos as usize)),
        }
    }
}

/// Parses one block, introduced by the keyword standing at `pos`.
pub open spec fn parse_block_from(t: Seq<Token>, pos: int) -> Result<
    (RawBlockModel, int),
    TransformError,
>
    decreases t.len() - pos, 1int,
{
    if pos < 0 || pos >= t.len() {
        Err(TransformError::Syntax(t.len() as usize))
    } else {
        match t[pos] {
            Token::Word(w) => match keyword_of(w@) {
                None => Err(TransformError::Syntax(pos as usize)),
                Some(Keyword::Describe) => {
                    if pos + 1 >= t.len() {
                        Err(TransformError::Syntax(t.len() as usize))
                    } else {
                        match t[pos + 1] {
                            Token::Word(name) => {
                                if pos + 2 >= t.len() {
                                    Err(TransformError::Syntax(t.len() as usize))
                                } else if !(t[pos + 2] is OpenBrace) {
                                    Err(TransformError::Syntax((pos + 2) as usize))
                                } else {
                                    match parse_blocks_from(t, pos + 3) {
                                        Ok((children, e)) => Ok(
                                            (
                                                RawBlockModel {
                                                    kw: Keyword::Describe,
                                                    name: Some(name@),
                                                    arg: None,
                                                    body: None,
                                                    children,
                                                },
                                                e,
                                            ),
                                        ),
                                        Err(x) => Err(x),
                                    }
                                }
                            },
                            _ => Err(TransformError::Syntax((pos + 1) as usize)),
                        }
                    }
                },
                Some(Keyword::BeforeEach) | Some(Keyword::AfterEach) => {
                    if pos + 1 >= t.len() {
                        Err(TransformError::Syntax(t.len() as usize))
                    } else if !(t[pos + 1] is OpenBrace) {
                        Err(TransformError::Syntax((pos + 1) as usize))
                    } else {
                        match parse_stmts_from(t, pos + 2) {
                            Ok((stmts, e)) => Ok(
                                (
                                    RawBlockModel {
                                        kw: keyword_of(w@)->0,
                                        name: None,
                                        arg: None,
                                        body: Some(stmts),
                                        children: Seq::empty(),
                                    },
                                    e,
                                ),
                            ),
                            Err(x) => Err(x),
                        }
                    }
                },
                Some(Keyword::It) | Some(Keyword::Ignore) => {
                    if pos + 1 >= t.len() {
                        Err(TransformError::Syntax(t.len() as usize))
                    } else {
                        match t[pos + 1] {
                            Token::Quoted(d) => {
                                if pos + 2 >= t.len() {
                                    Err(TransformError::Syntax(t.len() as usize))
                                } else if !(t[pos + 2] is OpenBrace) {
                                    Err(TransformError::Syntax((pos + 2) as usize))
                                } else {
                                    match parse_stmts_from(t, pos + 3) {
                                        Ok((stmts, e)) => Ok(
                                            (
                                                RawBlockModel {
                                                    kw: keyword_of(w@)->0,
                                                    name: Some(d@),
                                                    arg: None,
                                                    body: Some(stmts),
                                                    children: Seq::empty(),
                                                },
                                                e,
                                            ),
                                        ),
                                        Err(x) => Err(x),
                                    }
                                }
                            },
                            _ => Err(TransformError::Syntax((pos + 1) as usize)),
                        }
                    }
                },
                Some(Keyword::Failing) => {
                    if pos + 1 >= t.len() {
                        Err(TransformError::Syntax(t.len() as usize))
                    } else {
                        match t[pos + 1] {
                            Token::Quoted(s1) => {
                                if pos + 2 >= t.len() {
                                    Err(TransformError::Syntax(t.len() as usize))
                                } else {
                                    match t[pos + 2] {
                                        Token::Quoted(s2) => {
                                            if pos + 3 >= t.len() {
                                                Err(TransformError::Syntax(t.len() as usize))
                                            } else if !(t[pos + 3] is OpenBrace) {
                                                Err(TransformError::Syntax((pos + 3) as usize))
                                            } else {
                                                match parse_stmts_from(t, pos + 4) {
                                                    Ok((stmts, e)) => Ok(
                                                        (
                                                            RawBlockModel {
                                                                kw: Keyword::Failing,
                                                                name: Some(s2@),
                                                                arg: Some(s1@),
                                                                body: Some(stmts),
                                                                children: Seq::empty(),
                                                            },
                                                            e,
                                                        ),
                                                    ),
                                                    Err(x) => Err(x),
                                                }
                                            }
                                        },
                                        Token::OpenBrace => {
                                            match parse_stmts_from(t, pos + 3) {
                                                Ok((stmts, e)) => Ok(
                                                    (
                                                        RawBlockModel {
                                                            kw: Keyword::Failing,
                                                            name: Some(s1@),
                                                            arg: None,
                                                            body: Some(stmts),
                                                            children: Seq::empty(),
                                                        },
                                                        e,
                                                    ),
                                                ),
                                                Err(x) => Err(x),
                                            }
                                        },
                                        _ => Err(TransformError::Syntax((pos + 2) as usize)),
                                    }
                                }
                            },
                            _ => Err(TransformError::Syntax((pos + 1) as usize)),
                        }
                    }
                },
                Some(Keyword::Bench) => {
                    if pos + 1 >= t.len() {
                        Err(TransformError::Syntax(t.len() as usize))
                    } else {
                        match t[pos + 1] {
                            Token::Quoted(d) => {
                                if pos + 2 >= t.len() {
                                    Err(TransformError::Syntax(t.len() as usize))
                                } else if !(t[pos + 2] is OpenParen) {
                                    Err(TransformError::Syntax((pos + 2) as usize))
                                } else if pos + 3 >= t.len() {
                                    Err(TransformError::Syntax(t.len() as usize))
                                } else {
                                    match t[pos + 3] {
                                        Token::Word(binding) => {
                                            if pos + 4 >= t.len() {
                                                Err(TransformError::Syntax(t.len() as usize))
                                            } else if !(t[pos + 4] is CloseParen) {
                                                Err(TransformError::Syntax((pos + 4) as usize))
                                            } else if pos + 5 >= t.len() {
                                                Err(TransformError::Syntax(t.len() as usize))
                                            } else if !(t[pos + 5] is OpenBrace) {
                                                Err(TransformError::Syntax((pos + 5) as usize))
                                            } else {
                                                match parse_stmts_from(t, pos + 6) {
                                                    Ok((stmts, e)) => Ok(
                                                        (
                                                            RawBlockModel {
                                                                kw: Keyword::Bench,
                                                                name: Some(d@),
                                                                arg: Some(binding@),
                                                                body: Some(stmts),
                                                                children: Seq::empty(),
                                                            },
                                                            e,
                                                        ),
                                                    ),
                                                    Err(x) => Err(x),
                                                }
                                            }
                                        },
                                        _ => Err(TransformError::Syntax((pos + 3) as usize)),
                                    }
                                }
                            },
                            _ => Err(TransformError::Syntax((pos + 1) as usize)),
                        }
                    }
                },
            },
            _ => Err(TransformError::Syntax(pos as usize)),
        }
    }
}

/// Parses the blocks of a group body, up to and past the closing brace.
pub open spec fn parse_blocks_from(t: Seq<Token>, pos: int) -> Result<
    (Seq<RawBlockModel>, int),
    TransformError,
>
    decreases t.len() - pos, 2int,
{
    if pos < 0 || pos >= t.len() {
        Err(TransformError::Syntax(t.len() as usize))
    } else if t[pos] is CloseBrace {
        Ok((Seq::empty(), pos + 1))
    } else {
        match parse_block_from(t, pos) {
            Err(x) => Err(x),
            Ok((b, e)) => if pos < e && e <= t.len() {
                match parse_blocks_from(t, e) {
                    Ok((rest, e2)) => Ok((seq![b] + rest, e2)),
                    Err(x) => Err(x),
                }
            } else {
                Err(TransformError::Syntax(pos as usize))
            },
        }
    }
}

/// Parses a whole document: one group, `NAME { ... }`, consuming every
/// token.
pub open spec fn parse_document_from(t: Seq<Token>) -> Result<RawBlockModel, TransformError> {
    if t.len() == 0 {
        Err(TransformError::Syntax(0))
    } else {
        match t[0] {
            Token::Word(name) => {
                if t.len() < 2 {
                    Err(TransformError::Syntax(t.len() as usize))
                } else if !(t[1] is OpenBrace) {
                    Err(TransformError::Syntax(1))
                } else {
                    match parse_blocks_from(t, 2) {
                        Err(x) => Err(x),
                        Ok((children, e)) => if e == t.len() {
                            Ok(
                                RawBlockModel {
                                    kw: Keyword::Describe,
                                    name: Some(name@),
                                    arg: None,
                                    body: None,
                                    children,
                                },
                            )
                        } else {
                            Err(TransformError::Syntax(e as usize))
                        },
                    }
                }
            },
            _ => Err(TransformError::Syntax(0)),
        }
    }
}

/// A successful parse consumes at least one token and stays in the stream.
pub proof fn lemma_parse_stmts_progress(t: Seq<Token>, pos: int)
    ensures
        parse_stmts_from(t, pos) matches Ok(v) ==> pos < v.1 <= t.len(),
    decreases t.len() - pos, 0int,
{
    if 0 <= pos < t.len() {
        if t[pos] is Stmt {
            lemma_parse_stmts_progress(t, pos + 1);
        }
    }
}

/// A successful parse consumes at least one token and stays in the stream.
pub proof fn lemma_parse_block_progress(t: Seq<Token>, pos: int)
    ensures
        parse_block_from(t, pos) matches Ok(v) ==> pos < v.1 <= t.len(),
    decreases t.len() - pos, 1int,
{
    if 0 <= pos < t.len() {
        match t[pos] {
            Token::Word(w) => match keyword_of(w@) {
                Some(Keyword::Describe) => {
                    if pos + 3 <= t.len() {
                        lemma_parse_blocks_progress(t, pos + 3);
                    }
                },
                Some(Keyword::BeforeEach) | Some(Keyword::AfterEach) => {
                    if pos + 2 <= t.len() {
                        lemma_parse_stmts_progress(t, pos + 2);
                    }
                },
                Some(Keyword::It) | Some(Keyword::Ignore) => {
                    if pos + 3 <= t.len() {
                        lemma_parse_stmts_progress(t, pos + 3);
                    }
                },
                Some(Keyword::Failing) => {
                    if pos + 3 <= t.len() {
                        lemma_parse_stmts_progress(t, pos + 3);
                    }
                    if pos + 4 <= t.len() {
                        lemma_parse_stmts_progress(t, pos + 4);
                    }
                },
                Some(Keyword::Bench) => {
                    if pos + 6 <= t.len() {
                        lemma_parse_stmts_progress(t, pos + 6);
                    }
                },
                None => {},
            },
            _ => {},
        }
    }
}

/// A successful parse consumes at least one token and stays in the stream.
pub proof fn lemma_parse_blocks_progress(t: Seq<Token>, pos: int)
    ensures
        parse_blocks_from(t, pos) matches Ok(v) ==> pos < v.1 <= t.len(),
    decreases t.len() - pos, 2int,
{
    if 0 <= pos < t.len() && !(t[pos] is CloseBrace) {
        lemma_parse_block_progress(t, pos);
        match parse_block_from(t, pos) {
            Ok((b, e)) => {
                if pos < e && e <= t.len() {
                    lemma_parse_blocks_progress(t, e);
                }
            },
            Err(_) => {},
        }
    }
}

/// Parses a statement body.
#[verifier::loop_isolation(false)]
fn parse_stmts(t: &Vec<Token>, pos: usize) -> (r: Result<(Vec<Vec<char>>, usize), TransformError>)
    requires
        pos <= t@.len(),
    ensures
        (r matches Ok(v) ==> parse_stmts_from(t@, pos as int) == Ok::<
            (Seq<Seq<char>>, int),
            TransformError,
        >((stmts_model(v.0@), v.1 as int))),
        (r matches Err(x) ==> parse_stmts_from(t@, pos as int) == Err::<
            (Seq<Seq<char>>, int),
            TransformError,
        >(x)),
{
    let mut acc: Vec<Vec<char>> = Vec::new();
    let mut p: usize = pos;
    loop
        invariant
            pos <= p <= t@.len(),
            (match parse_stmts_from(t@, p as int) {
                Ok((rest, e)) => parse_stmts_from(t@, pos as int) == Ok::<
                    (Seq<Seq<char>>, int),
                    TransformError,
                >((stmts_model(acc@) + rest, e)),
                Err(x) => parse_stmts_from(t@, pos as int) == Err::<
                    (Seq<Seq<char>>, int),
                    TransformError,
                >(x),
            }),
        decreases t@.len() - p,
    {
        if p == t.len() {
            return Err(TransformError::Syntax(t.len()));
        }
        match &t[p] {
            Token::CloseBrace => {
                proof {
                    assert(stmts_model(acc@) + Seq::<Seq<char>>::empty() =~= stmts_model(acc@));
                }
                return Ok((acc, p + 1));
            },
            Token::Stmt(s) => {
                let ghost acc0 = acc@;
                acc.push(copy_chars(s));
                proof {
                    assert(stmts_model(acc@) =~= stmts_model(acc0) + seq![s@]);
                    if parse_stmts_from(t@, p + 1) is Ok {
                        let (rest, _) = parse_stmts_from(t@, p + 1)->Ok_0;
                        assert((stmts_model(acc0) + (seq![s@] + rest)) =~= (stmts_model(acc@)
                            + rest));
                    }
                }
                p = p + 1;
            },
            _ => {
                return Err(TransformError::Syntax(p));
            },
        }
    }
}

/// Parses one block; the entry point for each keyword-introduced form.
#[verifier::loop_isolation(false)]
fn parse_block(t: &Vec<Token>, pos: usize) -> (r: Result<(RawBlock, usize), TransformError>)
    requires
        pos <= t@.len(),
    ensures
        (r matches Ok(v) ==> parse_block_from(t@, pos as int) == Ok::<
            (RawBlockModel, int),
            TransformError,
        >((raw_model(v.0), v.1 as int))),
        (r matches Err(x) ==> parse_block_from(t@, pos as int) == Err::<
            (RawBlockModel, int),
            TransformError,
        >(x)),
    decreases t@.len() - pos, 1int,
{
    if pos == t.len() {
        return Err(TransformError::Syntax(t.len()));
    }
    let kw = match &t[pos] {
        Token::Word(w) => match recognize_keyword(w) {
            Some(k) => k,
            None => {
                return Err(TransformError::Syntax(pos));
            },
        },
        _ => {
            return Err(TransformError::Syntax(pos));
        },
    };
    match kw {
        Keyword::Describe => {
            if t.len() - pos < 2 {
                return Err(TransformError::Syntax(t.len()));
            }
            let name = match &t[pos + 1] {
                Token::Word(n) => copy_chars(n),
                _ => {
                    return Err(TransformError::Syntax(pos + 1));
                },
            };
            if t.len() - pos < 3 {
                return Err(TransformError::Syntax(t.len()));
            }
            match &t[pos + 2] {
                Token::OpenBrace => {},
                _ => {
                    return Err(TransformError::Syntax(pos + 2));
                },
            }
            match parse_blocks(t, pos + 3) {
                Err(x) => Err(x),
                Ok((children, e)) => {
                    let b = RawBlock {
                        kw: Keyword::Describe,
                        name: Some(name),
                        arg: None,
                        body: None,
                        children,
                    };
                    Ok((b, e))
                },
            }
        },
        Keyword::BeforeEach | Keyword::AfterEach => {
            if t.len() - pos < 2 {
                return Err(TransformError::Syntax(t.len()));
            }
            match &t[pos + 1] {
                Token::OpenBrace => {},
                _ => {
                    return Err(TransformError::Syntax(pos + 1));
                },
            }
            match parse_stmts(t, pos + 2) {
                Err(x) => Err(x),
                Ok((stmts, e)) => {
                    let b = RawBlock {
                        kw,
                        name: None,
                        arg: None,
                        body: Some(stmts),
                        children: Vec::new(),
                    };
                    Ok((b, e))
                },
            }
        },
        Keyword::It | Keyword::Ignore => {
            if t.len() - pos < 2 {
                return Err(TransformError::Syntax(t.len()));
            }
            let d = match &t[pos + 1] {
                Token::Quoted(d) => copy_chars(d),
                _ => {
                    return Err(TransformError::Syntax(pos + 1));
                },
            };
            if t.len() - pos < 3 {
                return Err(TransformError::Syntax(t.len()));
            }
            match &t[pos + 2] {
                Token::OpenBrace => {},
                _ => {
                    return Err(TransformError::Syntax(pos + 2));
                },
            }
            match parse_stmts(t, pos + 3) {
                Err(x) => Err(x),
                Ok((stmts, e)) => {
                    let b = RawBlock {
                        kw,
                        name: Some(d),
                        arg: None,
                        body: Some(stmts),
                        children: Vec::new(),
                    };
                    Ok((b, e))
                },
            }
        },
        Keyword::Failing => {
            if t.len() - pos < 2 {
                return Err(TransformError::Syntax(t.len()));
            }
            let s1 = match &t[pos + 1] {
                Token::Quoted(s1) => copy_chars(s1),
                _ => {
                    return Err(TransformError::Syntax(pos + 1));
                },
            };
            if t.len() - pos < 3 {
                return Err(TransformError::Syntax(t.len()));
            }
            let two_strings = match &t[pos + 2] {
                Token::Quoted(_) => true,
                Token::OpenBrace => false,
                _ => {
                    return Err(TransformError::Syntax(pos + 2));
                },
            };
            if two_strings {
                let s2 = match &t[pos + 2] {
                    Token::Quoted(s2) => copy_chars(s2),
                    _ => {
                        return Err(TransformError::Syntax(pos + 2));
                    },
                };
                if t.len() - pos < 4 {
                    return Err(TransformError::Syntax(t.len()));
                }
                match &t[pos + 3] {
                    Token::OpenBrace => {},
                    _ => {
                        return Err(TransformError::Syntax(pos + 3));
                    },
                }
                match parse_stmts(t, pos + 4) {
                    Err(x) => Err(x),
                    Ok((stmts, e)) => {
                        let b = RawBlock {
                            kw: Keyword::Failing,
                            name: Some(s2),
                            arg: Some(s1),
                            body: Some(stmts),
                            children: Vec::new(),
                        };
                        Ok((b, e))
                    },
                }
            } else {
                match parse_stmts(t, pos + 3) {
                    Err(x) => Err(x),
                    Ok((stmts, e)) => {
                        let b = RawBlock {
                            kw: Keyword::Failing,
                            name: Some(s1),
                            arg: None,
                            body: Some(stmts),
                            children: Vec::new(),
                        };
                        Ok((b, e))
                    },
                }
            }
        },
        Keyword::Bench => {
            if t.len() - pos < 2 {
                return Err(TransformError::Syntax(t.len()));
            }
            let d = match &t[pos + 1] {
                Token::Quoted(d) => copy_chars(d),
                _ => {
                    return Err(TransformError::Syntax(pos + 1));
                },
            };
            if t.len() - pos < 3 {
                return Err(TransformError::Syntax(t.len()));
            }
            match &t[pos + 2] {
                Token::OpenParen => {},
                _ => {
                    return Err(TransformError::Syntax(pos + 2));
                },
            }
            if t.len() - pos < 4 {
                return Err(TransformError::Syntax(t.len()));
            }
            let binding = match &t[pos + 3] {
                Token::Word(b) => copy_chars(b),
                _ => {
                    return Err(TransformError::Syntax(pos + 3));
                },
            };
            if t.len() - pos < 5 {
                return Err(TransformError::Syntax(t.len()));
            }
            match &t[pos + 4] {
                Token::CloseParen => {},
                _ => {
                    return Err(TransformError::Syntax(pos + 4));
                },
            }
            if t.len() - pos < 6 {
                return Err(TransformError::Syntax(t.len()));
            }
            match &t[pos + 5] {
                Token::OpenBrace => {},
                _ => {
                    return Err(TransformError::Syntax(pos + 5));
                },
            }
            match parse_stmts(t, pos + 6) {
                Err(x) => Err(x),
                Ok((stmts, e)) => {
                    let b = RawBlock {
                        kw: Keyword::Bench,
                        name: Some(d),
                        arg: Some(binding),
                        body: Some(stmts),
                        children: Vec::new(),
                    };
                    Ok((b, e))
                },
            }
        },
    }
}

/// Parses a group body's blocks.
#[verifier::loop_isolation(false)]
fn parse_blocks(t: &Vec<Token>, pos: usize) -> (r: Result<(Vec<RawBlock>, usize), TransformError>)
    requires
        pos <= t@.len(),
    ensures
        (r matches Ok(v) ==> parse_blocks_from(t@, pos as int) == Ok::<
            (Seq<RawBlockModel>, int),
            TransformError,
        >((raw_models(v.0@), v.1 as int))),
        (r matches Err(x) ==> parse_blocks_from(t@, pos as int) == Err::<
            (Seq<RawBlockModel>, int),
            TransformError,
        >(x)),
    decreases t@.len() - pos, 2int,
{
    let mut acc: Vec<RawBlock> = Vec::new();
    let mut p: usize = pos;
    loop
        invariant
            pos <= p <= t@.len(),
            (match parse_blocks_from(t@, p as int) {
                Ok((rest, e)) => parse_blocks_from(t@, pos as int) == Ok::<
                    (Seq<RawBlockModel>, int),
                    TransformError,
                >((raw_models(acc@) + rest, e)),
                Err(x) => parse_blocks_from(t@, pos as int) == Err::<
                    (Seq<RawBlockModel>, int),
                    TransformError,
                >(x),
            }),
        decreases t@.len() - p,
    {
        if p == t.len() {
            return Err(TransformError::Syntax(t.len()));
        }
        let done = match &t[p] {
            Token::CloseBrace => true,
            _ => false,
        };
        if done {
            proof {
                lemma_raw_models_index(acc@);
                assert(raw_models(acc@) + Seq::<RawBlockModel>::empty() =~= raw_models(acc@));
            }
            return Ok((acc, p + 1));
        }
        match parse_block(t, p) {
            Err(x) => {
                return Err(x);
            },
            Ok((b, e)) => {
                proof {
                    lemma_parse_block_progress(t@, p as int);
                }
                let ghost acc0 = acc@;
                acc.push(b);
                proof {
                    lemma_raw_models_index(acc0);
                    lemma_raw_models_index(acc@);
                    assert(raw_models(acc@) =~= raw_models(acc0) + seq![raw_model(b)]);
                    if parse_blocks_from(t@, e as int) is Ok {
                        let (rest, _) = parse_blocks_from(t@, e as int)->Ok_0;
                        assert((raw_models(acc0) + (seq![raw_model(b)] + rest)) =~= (raw_models(
                            acc@,
                        ) + rest));
                    }
                }
                p = e;
            },
        }
    }
}

/// Parses a whole document into its raw block tree, exactly as
/// `parse_document_from` states.
pub fn parse_document(t: &Vec<Token>) -> (r: Result<RawBlock, TransformError>)
    ensures
        (r matches Ok(b) ==> parse_document_from(t@) == Ok::<RawBlockModel, TransformError>(
            raw_model(b),
        )),
        (r matches Err(x) ==> parse_document_from(t@) == Err::<RawBlockModel, TransformError>(x)),
{
    if t.len() == 0 {
        return Err(TransformError::Syntax(0));
    }
    let name = match &t[0] {
        Token::Word(n) => copy_chars(n),
        _ => {
            return Err(TransformError::Syntax(0));
        },
    };
    if t.len() < 2 {
        return Err(TransformError::Syntax(t.len()));
    }
    match &t[1] {
        Token::OpenBrace => {},
        _ => {
            return Err(TransformError::Syntax(1));
        },
    }
    match parse_blocks(t, 2) {
        Err(x) => Err(x),
        Ok((children, e)) => {
            if e == t.len() {
                let b = RawBlock {
                    kw: Keyword::Describe,
                    name: Some(name),
                    arg: None,
                    body: None,
                    children,
                };
                Ok(b)
            } else {
                Err(TransformError::Syntax(e))
            }
        },
    }
}

} // verus!
