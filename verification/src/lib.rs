//! Builds a railroad (syntax) diagram tree from a parsing-expression
//! grammar's source text.
//!
//! The external grammar parser turns the source into a tagged parse tree;
//! the transformation here walks that tree and assembles a tree of diagram
//! primitives (terminals, choices, sequences, repeats, labeled boxes) that a
//! separate rendering component can lay out and draw. Constructs outside the
//! supported set degrade to warnings instead of aborting the whole diagram.

use vstd::prelude::*;

pub mod diagram;
pub mod expr;
pub mod laws;
pub mod numbers;
pub mod parse_tree;
pub mod parser;
pub mod repeat;
pub mod rules;

use crate::parser::grammar_parse;

verus! {

/// How diagram generation can fail.
#[derive(Debug, PartialEq)]
pub enum DiagramError {
    /// The grammar source itself did not parse; the payload is the external
    /// parser's rendering of the syntax error.
    Parse(String),
    /// The parse tree broke a structural guarantee of the grammar's own
    /// syntax (a repetition with no resolvable bound, an element where none
    /// can stand). This is a contract violation by the tree's producer, not
    /// a user error, and aborts the transformation. Of the tree shapes the
    /// grammar's syntax does admit, exactly one reaches this error: a
    /// bounded-repetition count too large for `u32`, which has no
    /// representable resolution; every other admitted shape builds a
    /// diagram (the repetition lemmas of `laws` cover the bounded cases).
    Malformed,
}

/// Creates a railroad (syntax) diagram tree from the grammar contained in
/// the input string, together with the list of warnings for the grammar
/// constructs that are not supported. Fails with `Parse` when the external
/// grammar parser rejects the source, and with `Malformed` when the parse
/// tree breaks the grammar's own structural guarantees — which, for a tree
/// the grammar admits, happens only when a repetition count exceeds
/// `u32::MAX`. Unsupported constructs never fail: they degrade to warnings.
pub fn generate_diagram(input: &str) -> (r: Result<
    (diagram::DiagramNode, Vec<String>),
    DiagramError,
>)
    ensures
        r matches Ok((d, warns)) ==> {
            &&& grammar_parse(input@) is Ok
            &&& rules::spec_diagram(grammar_parse(input@)->Ok_0) == Some(
                (d@, warns.deep_view()),
            )
        },
        r matches Err(e) ==> match e {
            DiagramError::Parse(m) => grammar_parse(input@) matches Err(em) && m@ == em,
            DiagramError::Malformed => grammar_parse(input@) matches Ok(ns)
                && rules::spec_diagram(ns) is None,
        },
        r is Ok <==> grammar_parse(input@) is Ok && rules::spec_diagram(
            grammar_parse(input@)->Ok_0,
        ) is Some,
{
    match parser::parse_grammar(input) {
        Err(msg) => Err(DiagramError::Parse(msg)),
        Ok(nodes) => rules::assemble_diagram(&nodes),
    }
}

} // verus!
