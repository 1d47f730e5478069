use vstd::prelude::*;

verus! {

/// One node of the tagged parse tree that the external grammar parser hands
/// over: a kind tag (the name of the grammar rule that matched), the matched
/// source text, and the ordered child nodes.
pub struct ParseNode {
    pub kind: String,
    pub text: String,
    pub children: Vec<ParseNode>,
}

/// The closed set of parse-node kinds that the transformation understands.
/// Every other tag classifies as `Unsupported`.
#[derive(Clone, Copy, Debug)]
pub enum NodeKind {
    GrammarRule,
    GrammarDoc,
    EndOfInput,
    LineDoc,
    Identifier,
    AssignmentOperator,
    SilentModifier,
    AtomicModifier,
    CompoundAtomicModifier,
    NonAtomicModifier,
    OpeningBrace,
    ClosingBrace,
    Expression,
    Term,
    StringLiteral,
    InsensitiveString,
    CharRange,
    OpeningParen,
    ClosingParen,
    RepeatOperator,
    RepeatOnceOperator,
    OptionalOperator,
    PositivePredicateOperator,
    NegativePredicateOperator,
    RepeatExact,
    RepeatMin,
    RepeatMax,
    RepeatMinMax,
    SequenceOperator,
    ChoiceOperator,
    Number,
    Comma,
    Unsupported,
}

/// Classification of a kind tag, by the rule names of the grammar's parser.
pub open spec fn kind_of(s: Seq<char>) -> NodeKind {
    if s == "grammar_rule"@ {
        NodeKind::GrammarRule
    } else if s == "grammar_doc"@ {
        NodeKind::GrammarDoc
    } else if s == "EOI"@ {
        NodeKind::EndOfInput
    } else if s == "line_doc"@ {
        NodeKind::LineDoc
    } else if s == "identifier"@ {
        NodeKind::Identifier
    } else if s == "assignment_operator"@ {
        NodeKind::AssignmentOperator
    } else if s == "silent_modifier"@ {
        NodeKind::SilentModifier
    } else if s == "atomic_modifier"@ {
        NodeKind::AtomicModifier
    } else if s == "compound_atomic_modifier"@ {
        NodeKind::CompoundAtomicModifier
    } else if s == "non_atomic_modifier"@ {
        NodeKind::NonAtomicModifier
    } else if s == "opening_brace"@ {
        NodeKind::OpeningBrace
    } else if s == "closing_brace"@ {
        NodeKind::ClosingBrace
    } else if s == "expression"@ {
        NodeKind::Expression
    } else if s == "term"@ {
        NodeKind::Term
    } else if s == "string"@ {
        NodeKind::StringLiteral
    } else if s == "insensitive_string"@ {
        NodeKind::InsensitiveString
    } else if s == "range"@ {
        NodeKind::CharRange
    } else if s == "opening_paren"@ {
        NodeKind::OpeningParen
    } else if s == "closing_paren"@ {
        NodeKind::ClosingParen
    } else if s == "repeat_operator"@ {
        NodeKind::RepeatOperator
    } else if s == "repeat_once_operator"@ {
        NodeKind::RepeatOnceOperator
    } else if s == "optional_operator"@ {
        NodeKind::OptionalOperator
    } else if s == "positive_predicate_operator"@ {
        NodeKind::PositivePredicateOperator
    } else if s == "negative_predicate_operator"@ {
        NodeKind::NegativePredicateOperator
    } else if s == "repeat_exact"@ {
        NodeKind::RepeatExact
    } else if s == "repeat_min"@ {
        NodeKind::RepeatMin
    } else if s == "repeat_max"@ {
        NodeKind::RepeatMax
    } else if s == "repeat_min_max"@ {
        NodeKind::RepeatMinMax
    } else if s == "sequence_operator"@ {
        NodeKind::SequenceOperator
    } else if s == "choice_operator"@ {
        NodeKind::ChoiceOperator
    } else if s == "number"@ {
        NodeKind::Number
    } else if s == "comma"@ {
        NodeKind::Comma
    } else {
        NodeKind::Unsupported
    }
}

fn str_eq(a: &str, b: &str) -> (r: bool)
    ensures
        r == (a@ == b@),
{
    let aa: String = a.to_owned();
    let bb: String = b.to_owned();
    aa == bb
}

/// The executable counterpart of `kind_of`.
pub fn classify(kind: &str) -> (k: NodeKind)
    ensures
        k == kind_of(kind@),
{
    if str_eq(kind, "grammar_rule") {
        NodeKind::GrammarRule
    } else if str_eq(kind, "grammar_doc") {
        NodeKind::GrammarDoc
    } else if str_eq(kind, "EOI") {
        NodeKind::EndOfInput
    } else if str_eq(kind, "line_doc") {
        NodeKind::LineDoc
    } else if str_eq(kind, "identifier") {
        NodeKind::Identifier
    } else if str_eq(kind, "assignment_operator") {
        NodeKind::AssignmentOperator
    } else if str_eq(kind, "silent_modifier") {
        NodeKind::SilentModifier
    } else if str_eq(kind, "atomic_modifier") {
        NodeKind::AtomicModifier
    } else if str_eq(kind, "compound_atomic_modifier") {
        NodeKind::CompoundAtomicModifier
    } else if str_eq(kind, "non_atomic_modifier") {
        NodeKind::NonAtomicModifier
    } else if str_eq(kind, "opening_brace") {
        NodeKind::OpeningBrace
    } else if str_eq(kind, "closing_brace") {
        NodeKind::ClosingBrace
    } else if str_eq(kind, "expression") {
        NodeKind::Expression
    } else if str_eq(kind, "term") {
        NodeKind::Term
    } else if str_eq(kind, "string") {
        NodeKind::StringLiteral
    } else if str_eq(kind, "insensitive_string") {
        NodeKind::InsensitiveString
    } else if str_eq(kind, "range") {
        NodeKind::CharRange
    } else if str_eq(kind, "opening_paren") {
        NodeKind::OpeningParen
    } else if str_eq(kind, "closing_paren") {
        NodeKind::ClosingParen
    } else if str_eq(kind, "repeat_operator") {
        NodeKind::RepeatOperator
    } else if str_eq(kind, "repeat_once_operator") {
        NodeKind::RepeatOnceOperator
    } else if str_eq(kind, "optional_operator") {
        NodeKind::OptionalOperator
    } else if str_eq(kind, "positive_predicate_operator") {
        NodeKind::PositivePredicateOperator
    } else if str_eq(kind, "negative_predicate_operator") {
        NodeKind::NegativePredicateOperator
    } else if str_eq(kind, "repeat_exact") {
        NodeKind::RepeatExact
    } else if str_eq(kind, "repeat_min") {
        NodeKind::RepeatMin
    } else if str_eq(kind, "repeat_max") {
        NodeKind::RepeatMax
    } else if str_eq(kind, "repeat_min_max") {
        NodeKind::RepeatMinMax
    } else if str_eq(kind, "sequence_operator") {
        NodeKind::SequenceOperator
    } else if str_eq(kind, "choice_operator") {
        NodeKind::ChoiceOperator
    } else if str_eq(kind, "number") {
        NodeKind::Number
    } else if str_eq(kind, "comma") {
        NodeKind::Comma
    } else {
        NodeKind::Unsupported
    }
}

} // verus!
