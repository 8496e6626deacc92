//! The raw block tree the parser produces.
//!
//! A raw block records what was written, not yet what it means: a keyword
//! tag, the optional name or description, the optional secondary argument
//! (a failure-message pattern or a bencher binding), an unparsed body, and,
//! for `describe` blocks, the child blocks.  The hierarchy builder checks
//! and types it afterwards.

use vstd::prelude::*;
use crate::tokens::Keyword;

verus! {

/// One raw parsed block.
#[derive(Debug)]
pub struct RawBlock {
    /// The keyword that introduced the block.
    pub kw: Keyword,
    /// The group name or leaf description, where the grammar has one.
    pub name: Option<Vec<char>>,
    /// The secondary argument: a failure-message pattern for `failing`,
    /// the bencher binding for `bench`.
    pub arg: Option<Vec<char>>,
    /// The opaque statements of a hook or leaf body.
    pub body: Option<Vec<Vec<char>>>,
    /// The child blocks of a `describe` block.
    pub children: Vec<RawBlock>,
}

/// The mathematical shape of a raw block.
pub ghost struct RawBlockModel {
    pub kw: Keyword,
    pub name: Option<Seq<char>>,
    pub arg: Option<Seq<char>>,
    pub body: Option<Seq<Seq<char>>>,
    pub children: Seq<RawBlockModel>,
}

/// The model of a raw block: every character vector becomes its sequence.
pub open spec fn raw_model(b: RawBlock) -> RawBlockModel
    decreases b, 0int,
{
    RawBlockModel {
        kw: b.kw,
        name: match b.name {
            Some(n) => Some(n@),
            None => None,
        },
        arg: match b.arg {
            Some(a) => Some(a@),
            None => None,
        },
        body: match b.body {
            Some(s) => Some(crate::mangle::stmts_model(s@)),
            None => None,
        },
        children: raw_models(b.children@),
    }
}

/// The models of a sequence of raw blocks, in order.
pub open spec fn raw_models(s: Seq<RawBlock>) -> Seq<RawBlockModel>
    decreases s, 1int,
{
    if s.len() == 0 {
        Seq::empty()
    } else {
        seq![raw_model(s[0])] + raw_models(s.subrange(1, s.len() as int))
    }
}

impl View for RawBlock {
    type V = RawBlockModel;

    open spec fn view(&self) -> RawBlockModel {
        raw_model(*self)
    }
}

/// The model of a block sequence is the sequence of the models.
pub proof fn lemma_raw_models_index(s: Seq<RawBlock>)
    ensures
        raw_models(s).len() == s.len(),
        forall|i: int| 0 <= i < s.len() ==> raw_models(s)[i] == raw_model(s[i]),
    decreases s.len(),
{
    if s.len() > 0 {
        lemma_raw_models_index(s.subrange(1, s.len() as int));
        assert forall|i: int| 0 <= i < s.len() implies raw_models(s)[i] == raw_model(s[i]) by {
            if i > 0 {
                assert(s.subrange(1, s.len() as int)[i - 1] == s[i]);
            }
        }
    }
}

} // verus!
