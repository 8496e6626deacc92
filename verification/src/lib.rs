//! A transformer that flattens a hierarchical test-specification document
//! into independently runnable units.
//!
//! A document is a tree of named groups; a group may declare one setup hook
//! (`before_each`) and one teardown hook (`after_each`) and contains tests,
//! benchmarks, and nested groups.  The pipeline runs in one direction:
//! a token stream is parsed into raw blocks, the raw blocks are checked and
//! turned into a typed tree, and the tree is walked once to emit a container
//! tree of units, each test unit carrying every ancestor hook composed in
//! the right order.
//!
//! Text — names, descriptions, opaque statements, identifiers — is carried
//! as vectors of characters; its mathematical value is the character
//! sequence, and every contract speaks over such sequences.

use vstd::prelude::*;
use crate::errors::TransformError;
use crate::mangle::stmts_model;
use crate::output::{container_model, Container, ContainerModel};
use crate::tokens::Token;

pub mod builder;
pub mod errors;
pub mod generate;
pub mod mangle;
pub mod output;
pub mod parse;
pub mod raw;
pub mod tokens;
pub mod tree;

verus! {

/// The whole transformation: parse the token stream, build the typed
/// tree, compose hooks and emit the container tree.  All or nothing: any
/// structural defect yields one error and no units.
pub open spec fn transform_model(t: Seq<Token>) -> Result<ContainerModel, TransformError> {
    match crate::parse::parse_document_from(t) {
        Err(x) => Err(x),
        Ok(b) => match crate::builder::build_group_model(b) {
            Err(x) => Err(x),
            Ok(g) => crate::generate::gen_group_model(g, Seq::empty(), Seq::empty()),
        },
    }
}

/// Transforms a document's token stream into its container tree, exactly
/// as `transform_model` states.
pub fn transform(tokens: &Vec<Token>) -> (r: Result<Container, TransformError>)
    ensures
        (r matches Ok(c) ==> transform_model(tokens@) == Ok::<ContainerModel, TransformError>(
            container_model(c),
        )),
        (r matches Err(x) ==> transform_model(tokens@) == Err::<ContainerModel, TransformError>(
            x,
        )),
{
    let raw = match crate::parse::parse_document(tokens) {
        Ok(b) => b,
        Err(x) => {
            return Err(x);
        },
    };
    let group = match crate::builder::build_group(&raw) {
        Ok(g) => g,
        Err(x) => {
            return Err(x);
        },
    };
    let outer_before: Vec<Vec<char>> = Vec::new();
    let outer_after: Vec<Vec<char>> = Vec::new();
    proof {
        assert(stmts_model(outer_before@) =~= Seq::<Seq<char>>::empty());
        assert(stmts_model(outer_after@) =~= Seq::<Seq<char>>::empty());
    }
    crate::generate::generate_group(&group, &outer_before, &outer_after)
}

} // verus!
