pub mod checker;
pub mod content;
pub mod document;
pub mod enforest;
pub mod error;
pub mod expander;
pub mod hygiene;
pub mod interpreter;
pub mod lexer;
pub mod parser;
pub mod repr;
pub mod rules;
pub mod shrubbery;
pub mod types;

use vstd::prelude::*;
use vstd::string::StringSliceAdditionalSpecFns;
use crate::mrl::checker::{builtin_env, checked, fails_with, TypeChecker};
use crate::mrl::enforest::parse_failure;
use crate::mrl::error::MrlError;
use crate::mrl::lexer::{blank_end, lex_from, lexed, lexer_failure, token_at, tokenize};
use crate::mrl::parser::{p_parse, parse, PState};
use crate::mrl::shrubbery::Shrubbery;
use crate::mrl::types::MrlType;
use crate::mrl::content::Content;
use crate::mrl::expander::fresh_expand_state;
use crate::mrl::interpreter::{document_run, source_stage_fits, Interpreter};
use crate::mrl::checker::CheckState;

verus! {

proof fn lemma_blank_end(b: Seq<u8>, i: int)
    requires
        0 <= i <= b.len(),
    ensures
        i <= blank_end(b, i) <= b.len(),
    decreases b.len() - i,
{
    if 0 <= i < b.len() && crate::mrl::lexer::is_blank(b[i]) {
        lemma_blank_end(b, i + 1);
    }
}

/// Lexing from `i` gives at most one token per byte left, and the end.
pub(crate) proof fn lemma_token_count(b: Seq<u8>, i: int)
    requires
        0 <= i <= b.len(),
    ensures
        lex_from(b, i) matches Ok(ts) ==> ts.len() <= b.len() - i + 1,
    decreases b.len() - i,
{
    lemma_blank_end(b, i);
    let j = blank_end(b, i);
    if j < b.len() {
        match token_at(b, j) {
            Some((t, e)) => {
                if j < e <= b.len() && i <= j {
                    lemma_token_count(b, e);
                }
            },
            None => {},
        }
    }
}

/// The state a parser starts in.
pub open spec fn fresh_parse() -> PState {
    PState { pos: 0, syms: Map::empty(), next: 0 }
}

/// What parsing a source text gives: the lexer's error, or the parser's
/// outcome on its tokens.
pub open spec fn source_outcome(r: Result<Shrubbery, MrlError>, source: Seq<u8>) -> bool {
    match lexed(source) {
        Err(sp) => r matches Err(e) && lexer_failure(e, source, sp),
        Ok(ts) => match p_parse(ts, fresh_parse()) {
            Ok((m, _)) => r matches Ok(x) && x@ == m,
            Err(f) => r matches Err(e) && parse_failure(e, f),
        },
    }
}

/// Parse MRL source into shrubbery: tokenize it, then parse the tokens.
pub fn parse_source(source: &str) -> (r: Result<Shrubbery, MrlError>)
    requires
        source.spec_bytes().len() + 3 < u64::MAX,
    ensures
        source_outcome(r, source.spec_bytes()),
{
    let tokens = match tokenize(source) {
        Ok(t) => t,
        Err(e) => return Err(e),
    };
    proof {
        lemma_token_count(source.spec_bytes(), 0);
    }
    parse(tokens.as_slice())
}

/// Type check MRL source: parse it, then check the shrubbery with the
/// builtin environment and no symbol names.
pub fn typecheck(source: &str) -> (r: Result<MrlType, MrlError>)
    requires
        source.spec_bytes().len() + 3 < u64::MAX,
    ensures
        match lexed(source.spec_bytes()) {
            Err(sp) => r matches Err(e) && lexer_failure(e, source.spec_bytes(), sp),
            Ok(ts) => match p_parse(ts, fresh_parse()) {
                Err(f) => r matches Err(e) && parse_failure(e, f),
                Ok((m, _)) => match checked(builtin_env(), Map::empty(), m) {
                    Ok(t) => r matches Ok(x) && x@ == t,
                    Err(f) => r matches Err(e) && fails_with(e, f),
                },
            },
        },
{
    let shrub = match parse_source(source) {
        Ok(s) => s,
        Err(e) => return Err(e),
    };
    let mut checker = TypeChecker::new();
    checker.check(&shrub)
}

/// Execute MRL source to produce content: a fresh interpreter runs the
/// whole document.
pub fn execute(source: &str) -> (r: Result<Content, MrlError>)
    requires
        source.spec_bytes().len() + 3 < u64::MAX,
        source_stage_fits(0, source.spec_bytes()),
    ensures
        document_run(
            Map::empty(),
            CheckState { env: builtin_env(), stage: 0 },
            fresh_expand_state(),
            source.spec_bytes(),
            r,
        ),
{
    let mut interpreter = Interpreter::new();
    interpreter.execute_document(source)
}

} // verus!
