//! Front end for the Ro toy language.
//!
//! Ro source text is turned into a structured `Program` in four stages:
//! lexical tokenization (with comment handling), structural extraction of
//! `fn` and `result` blocks, signature parsing, and body parsing into a
//! sequence of semantic call operations.  Each stage is specified by a
//! mathematical model of the token stream and verified against it.

use vstd::prelude::*;

pub mod blocks;
pub mod function;
pub mod params;
pub mod program;
pub mod result;
pub mod tokenizer;

use crate::program::assemble;
use crate::program::extract_program;
use crate::program::Program;
use crate::program::ProgramParser;
use crate::program::ProgramParserView;
use crate::program::ProgramView;
use crate::tokenizer::spec_tokenize;

verus! {

/// The ways a Ro compilation can fail.  Every failure is reported as one of
/// these inspectable values; the parsing functions never panic.
#[derive(Clone, Copy, Debug, PartialEq, Eq)]
pub enum ParseError {
    /// A `fn` or `result` block never reaches its opening `{` or its
    /// matching closing `}` before the token stream ends.
    UnterminatedBlock,
    /// A result signature is missing its mandatory name, or its parameter
    /// list runs off the end of the header.
    MalformedSignature,
    /// The middle token of a three-token assignment expression is not one of
    /// the supported binary operators.
    UnknownOperator,
    /// A function's `=>` annotation names no known result group.
    UnresolvedResultReference,
}

/// What a whole source text compiles to: tokens, raw blocks, and the
/// assembled program — or the first failure along the way.
pub open spec fn spec_parse_program(code: Seq<char>) -> Result<ProgramView, ParseError> {
    match extract_program(spec_tokenize(code), 0) {
        Err(e) => Err(e),
        Ok(pp) => assemble(ProgramParserView { results: pp.1, functions: pp.0 }),
    }
}

/// The main entry point: compiles Ro source text into a `Program` for the
/// backend, or reports the first failure.
pub fn parse(code: String) -> (r: Result<Program, ParseError>)
    ensures
        match r {
            Ok(p) => spec_parse_program(code@) == Ok::<ProgramView, ParseError>(p@),
            Err(e) => spec_parse_program(code@) == Err::<ProgramView, ParseError>(e),
        },
{
    let tokens = tokenizer::tokenize(code);
    let mut pp = match ProgramParser::from_tokens(tokens) {
        Ok(pp) => pp,
        Err(e) => {
            return Err(e);
        },
    };
    proof {
        assert(pp@ =~~= (ProgramParserView {
            results: extract_program(spec_tokenize(code@), 0).unwrap().1,
            functions: extract_program(spec_tokenize(code@), 0).unwrap().0,
        }));
    }
    pp.parse()
}

} // verus!
