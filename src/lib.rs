//! Schema-directed expansion of terse nested record literals into fully
//! typed constructor expressions.
//!
//! A literal such as `Person { name = "john", address = { house = 101 } }`
//! names only its root type. Each nested block takes the type that the
//! enclosing type's registered schema declares for its field, so the
//! expansion reads `Person { name: "john", address: Address { house: 101 } }`.
use vstd::prelude::*;

pub mod tokens;
pub mod literal;
pub mod registry;
pub mod expand;
pub mod emit;

use crate::emit::{render, render_spec};
use crate::expand::{expand, expand_spec, ExpandError, ExpandErrorV};
use crate::literal::{parse_literal, parse_literal_spec, ParseIssue};
use crate::registry::Registry;
use crate::tokens::Tok;

verus! {

/// Why a literal could not be expanded.
#[derive(Debug)]
pub enum LoadError {
    /// The literal's tokens do not follow its grammar.
    Parse(ParseIssue),
    /// The literal could not be resolved against the registered schemas.
    Expand(ExpandError),
}

pub enum LoadErrorV {
    Parse(ParseIssue),
    Expand(ExpandErrorV),
}

impl LoadError {
    pub open spec fn model(&self) -> LoadErrorV {
        match self {
            LoadError::Parse(p) => LoadErrorV::Parse(*p),
            LoadError::Expand(e) => LoadErrorV::Expand(e.model()),
        }
    }
}

/// The source text that a whole literal expands to, or the first failure.
pub open spec fn expand_tokens_spec(reg: Registry, ts: Seq<Tok>) -> Result<Seq<char>, LoadErrorV> {
    match parse_literal_spec(ts) {
        Err(p) => Err(LoadErrorV::Parse(p)),
        Ok((name, fs)) => match expand_spec(reg, fs, name) {
            Err(e) => Err(LoadErrorV::Expand(e)),
            Ok(x) => Ok(render_spec(x)),
        },
    }
}

/// Reads a literal `TypeName { field = value, ... }` from its tokens, resolves
/// every nested block against `reg`, and prints the typed constructor.
pub fn expand_tokens(reg: &Registry, ts: Vec<Tok>) -> (r: Result<String, LoadError>)
    ensures
        match r {
            Ok(s) => expand_tokens_spec(*reg, ts@) == Ok::<_, LoadErrorV>(s@),
            Err(e) => expand_tokens_spec(*reg, ts@) == Err::<Seq<char>, _>(e.model()),
        },
{
    match parse_literal(ts) {
        Err(p) => Err(LoadError::Parse(p)),
        Ok((name, lit)) => match expand(reg, lit, name) {
            Err(e) => Err(LoadError::Expand(e)),
            Ok(x) => Ok(render(&x)),
        },
    }
}

} // verus!
