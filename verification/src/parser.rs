use vstd::prelude::*;

use crate::parse_tree::ParseNode;

verus! {

#[verifier::external_type_specification]
#[verifier::external_body]
#[verifier::reject_recursive_types(R)]
pub struct ExPair<'i, R>(pest::iterators::Pair<'i, R>);

#[verifier::external_type_specification]
#[verifier::external_body]
pub struct ExRule(pest_meta::parser::Rule);

/// What the external grammar parser returns for a given source text: the
/// top-level parse-tree nodes, or the rendering of a syntax error. The
/// result is a pure function of the text alone.
pub uninterp spec fn grammar_parse(s: Seq<char>) -> Result<Seq<ParseNode>, Seq<char>>;

/// Relies on pest_meta::parser::parse at its grammar-rules entry point: it
/// parses pest grammar source deterministically into a pair tree, or fails
/// with a syntax error that Display renders as a message.
#[verifier::external_body]
pub(crate) fn parse_grammar(input: &str) -> (r: Result<Vec<ParseNode>, String>)
    ensures
        r is Ok <==> grammar_parse(input@) is Ok,
        r matches Ok(nodes) ==> nodes@ == grammar_parse(input@)->Ok_0,
        r matches Err(m) ==> m@ == grammar_parse(input@)->Err_0,
{
    match pest_meta::parser::parse(pest_meta::parser::Rule::grammar_rules, input) {
        Ok(pairs) => {
            let mut nodes = Vec::new();
            for p in pairs {
                nodes.push(convert_pair(p));
            }
            Ok(nodes)
        },
        Err(e) => Err(e.to_string()),
    }
}

/// Relies on pest's Pair: `as_rule` is the node's kind tag (whose Debug
/// name is the grammar rule's name), `as_str` the matched source text, and
/// `into_inner` the ordered child pairs.
#[verifier::external_body]
fn convert_pair(p: pest::iterators::Pair<'_, pest_meta::parser::Rule>) -> ParseNode {
    let kind = format!("{:?}", p.as_rule());
    let text = p.as_str().to_string();
    let mut children = Vec::new();
    for c in p.into_inner() {
        children.push(convert_pair(c));
    }
    ParseNode { kind, text, children }
}

} // verus!
