use vstd::prelude::*;
use vstd::string::StringExecFns;

use crate::diagram::{
    dview_seq, lemma_dview_seq, make_one_or_more, make_zero_or_more, one_or_more, zero_or_more,
    DiagramNode, DiagramView,
};
use crate::parse_tree::{classify, kind_of, NodeKind, ParseNode};
use crate::repeat::{build_repeat, repeat_ok, spec_repeat};
use crate::DiagramError;

verus! {

/// The diagnostic appended when a term holds a construct outside the
/// supported set, naming the construct's kind tag.
pub open spec fn unsupported_warning(kind: Seq<char>) -> Seq<char> {
    "### Unsupported rule in term: "@ + kind + " ###"@
}

/// Executable counterpart of `unsupported_warning`.
pub fn make_unsupported_warning(kind: &str) -> (s: String)
    ensures
        s@ == unsupported_warning(kind@),
{
    let mut s = ("### Unsupported rule in term: ").to_owned();
    s.append(kind);
    s.append(" ###");
    proof {
        assert(s@ =~= unsupported_warning(kind@));
    }
    s
}

/// A label with its marker characters removed: terminals are labeled with
/// a literal's contents, not its source spelling, so the quote marks (and,
/// for case-insensitive strings, the marker in front) are stripped.
pub open spec fn without_marks(text: Seq<char>, a: char, b: char) -> Seq<char>
    decreases text.len(),
{
    if text.len() == 0 {
        text
    } else {
        let rest = without_marks(text.drop_last(), a, b);
        if text.last() != a && text.last() != b {
            rest.push(text.last())
        } else {
            rest
        }
    }
}

/// Executable counterpart of `without_marks`.
pub fn drop_marks(s: &str, a: char, b: char) -> (r: String)
    ensures
        r@ == without_marks(s@, a, b),
{
    let n = s.unicode_len();
    let mut out = String::new();
    let mut i: usize = 0;
    while i < n
        invariant
            i <= n == s@.len(),
            out@ == without_marks(s@.take(i as int), a, b),
        decreases n - i,
    {
        let ch = s.get_char(i);
        proof {
            assert(s@.take(i + 1).drop_last() =~= s@.take(i as int));
            assert(s@.take(i + 1).last() == s@[i as int]);
        }
        if !(ch == a || ch == b) {
            let piece = s.substring_char(i, i + 1);
            out.append(piece);
            proof {
                assert(piece@ =~= seq![s@[i as int]]);
                assert(out@ =~= without_marks(s@.take(i as int), a, b).push(s@[i as int]));
                assert(without_marks(s@.take(i + 1), a, b) == without_marks(
                    s@.take(i as int),
                    a,
                    b,
                ).push(s@[i as int]));
            }
        } else {
            proof {
                assert(without_marks(s@.take(i + 1), a, b) == without_marks(
                    s@.take(i as int),
                    a,
                    b,
                ));
            }
        }
        i += 1;
    }
    proof {
        assert(s@.take(n as int) =~= s@);
    }
    out
}

/// The caption of a lookahead annotation.
pub open spec fn lookahead_caption(must: bool) -> Seq<char> {
    if must {
        "Lookahead: Must match"@
    } else {
        "Lookahead: Can't match"@
    }
}

/// A lookahead annotation around a finished term.
pub open spec fn lookahead_box(inner: DiagramView, must: bool) -> DiagramView {
    DiagramView::LabeledBox(
        Box::new(inner),
        Box::new(DiagramView::Comment(lookahead_caption(must))),
    )
}

/// Executable counterpart of `lookahead_box`.
pub fn make_lookahead(inner: DiagramNode, must: bool) -> (r: DiagramNode)
    ensures
        r@ == lookahead_box(inner@, must),
{
    let ghost pre = inner@;
    let caption: &str = if must {
        "Lookahead: Must match"
    } else {
        "Lookahead: Can't match"
    };
    let binner = Box::new(inner);
    let blabel = Box::new(DiagramNode::Comment(caption.to_owned()));
    let r = DiagramNode::LabeledBox(binner, blabel);
    proof {
        assert((*binner).dview() == pre);
        assert((*blabel).dview() == DiagramView::Comment(lookahead_caption(must)));
        assert(r.dview() == lookahead_box(pre, must));
    }
    r
}

/// Executable counterpart of `DiagramView::Optional`.
pub fn make_optional(inner: DiagramNode) -> (r: DiagramNode)
    ensures
        r@ == DiagramView::Optional(Box::new(inner@)),
{
    let ghost pre = inner@;
    let b = Box::new(inner);
    let r = DiagramNode::Optional(b);
    proof {
        assert((*b).dview() == pre);
        assert(r.dview() == DiagramView::Optional(Box::new(pre)));
    }
    r
}

/// The state while scanning one term's children: the primary built so far
/// (absent until a primary was seen, or when the primary is unsupported),
/// the counts of positive and negative lookahead markers, and the warnings
/// issued so far.
pub open spec fn spec_term_init() -> (Option<DiagramView>, int, int, Seq<Seq<char>>) {
    (Option::None, 0int, 0int, Seq::empty())
}

/// One step of the term scan: how one child of a term changes the state.
/// `None` marks a child shape on which the transformation must abort.
/// String literals, case-insensitive strings and character ranges render as
/// terminal boxes labeled with their contents, the quote marks (and the
/// case-insensitivity marker) stripped; that the three then look alike is a
/// known limitation left to the renderer.
pub open spec fn term_step(
    st: (Option<DiagramView>, int, int, Seq<Seq<char>>),
    c: ParseNode,
) -> Option<(Option<DiagramView>, int, int, Seq<Seq<char>>)>
    decreases c, 1int,
{
    let (term, pos, neg, warns) = st;
    match kind_of(c.kind@) {
        NodeKind::Identifier => Option::Some(
            (Option::Some(DiagramView::NonTerminal(c.text@)), pos, neg, warns),
        ),
        NodeKind::StringLiteral => Option::Some(
            (
                Option::Some(DiagramView::Terminal(without_marks(c.text@, '"', '"'))),
                pos,
                neg,
                warns,
            ),
        ),
        NodeKind::InsensitiveString => Option::Some(
            (
                Option::Some(DiagramView::Terminal(without_marks(c.text@, '"', '^'))),
                pos,
                neg,
                warns,
            ),
        ),
        NodeKind::CharRange => Option::Some(
            (
                Option::Some(DiagramView::Terminal(without_marks(c.text@, '\'', '\''))),
                pos,
                neg,
                warns,
            ),
        ),
        NodeKind::OpeningParen => Option::Some(st),
        NodeKind::ClosingParen => Option::Some(st),
        NodeKind::Expression => match spec_expr(c.children@) {
            Option::None => Option::None,
            Option::Some((dv, w)) => Option::Some((Option::Some(dv), pos, neg, warns + w)),
        },
        NodeKind::RepeatOperator => Option::Some(
            (
                match term {
                    Option::None => Option::None,
                    Option::Some(t) => Option::Some(zero_or_more(t)),
                },
                pos,
                neg,
                warns,
            ),
        ),
        NodeKind::RepeatOnceOperator => Option::Some(
            (
                match term {
                    Option::None => Option::None,
                    Option::Some(t) => Option::Some(one_or_more(t)),
                },
                pos,
                neg,
                warns,
            ),
        ),
        NodeKind::OptionalOperator => Option::Some(
            (
                match term {
                    Option::None => Option::None,
                    Option::Some(t) => Option::Some(DiagramView::Optional(Box::new(t))),
                },
                pos,
                neg,
                warns,
            ),
        ),
        NodeKind::PositivePredicateOperator => Option::Some((term, pos + 1, neg, warns)),
        NodeKind::NegativePredicateOperator => Option::Some((term, pos, neg + 1, warns)),
        NodeKind::RepeatExact => term_step_bounded(st, c),
        NodeKind::RepeatMin => term_step_bounded(st, c),
        NodeKind::RepeatMax => term_step_bounded(st, c),
        NodeKind::RepeatMinMax => term_step_bounded(st, c),
        _ => Option::Some((term, pos, neg, warns.push(unsupported_warning(c.kind@)))),
    }
}

/// The step for a bounded-repetition child: resolves the specifier around
/// the primary built so far; with no primary the specifier is ignored.
pub open spec fn term_step_bounded(
    st: (Option<DiagramView>, int, int, Seq<Seq<char>>),
    c: ParseNode,
) -> Option<(Option<DiagramView>, int, int, Seq<Seq<char>>)>
    decreases c, 0int,
{
    let (term, pos, neg, warns) = st;
    match term {
        Option::None => Option::Some(st),
        Option::Some(t) => if repeat_ok(c.children@) {
            Option::Some((Option::Some(spec_repeat(c.children@, t)), pos, neg, warns))
        } else {
            Option::None
        },
    }
}

/// The term scan over the first `n` children.
pub open spec fn spec_term_scan(cs: Seq<ParseNode>, n: int) -> Option<(
    Option<DiagramView>,
    int,
    int,
    Seq<Seq<char>>,
)>
    decreases cs, n,
{
    if n <= 0 || cs.len() < n {
        Option::Some(spec_term_init())
    } else {
        match spec_term_scan(cs, n - 1) {
            Option::None => Option::None,
            Option::Some(st) => term_step(st, cs[n - 1]),
        }
    }
}

/// After the scan, an odd count of negative lookahead markers annotates the
/// term as must-not-match; otherwise an odd count of positive markers
/// annotates it as must-match; even counts cancel and annotate nothing.
/// That doubled markers cancel is an assumption of this transformation, not
/// a semantic the grammar dialect itself pins down.
pub open spec fn apply_lookahead(term: Option<DiagramView>, pos: int, neg: int) -> Option<
    DiagramView,
> {
    match term {
        Option::None => Option::None,
        Option::Some(t) => if neg % 2 == 1 {
            Option::Some(lookahead_box(t, false))
        } else if pos % 2 == 1 {
            Option::Some(lookahead_box(t, true))
        } else {
            Option::Some(t)
        },
    }
}

/// What one term contributes: at most one diagram node (none when the
/// term's primary is unsupported) and the warnings gathered on the way.
pub open spec fn spec_term(t: ParseNode) -> Option<(Option<DiagramView>, Seq<Seq<char>>)>
    decreases t, 0int,
{
    match spec_term_scan(t.children@, t.children@.len() as int) {
        Option::None => Option::None,
        Option::Some((term, pos, neg, warns)) => Option::Some(
            (apply_lookahead(term, pos, neg), warns),
        ),
    }
}

/// One step of the expression scan: terms extend the open alternative, a
/// choice separator closes it (even empty), sequence separators change
/// nothing, and anything else is a shape the grammar rules out. After the
/// whole scan the final alternative is closed too, even if empty: a bare
/// choice separator at either end yields an explicit empty alternative.
pub open spec fn expr_step(
    st: (Seq<Seq<DiagramView>>, Seq<DiagramView>, Seq<Seq<char>>),
    c: ParseNode,
) -> Option<(Seq<Seq<DiagramView>>, Seq<DiagramView>, Seq<Seq<char>>)>
    decreases c, 1int,
{
    let (alts, curr, warns) = st;
    match kind_of(c.kind@) {
        NodeKind::Term => match spec_term(c) {
            Option::None => Option::None,
            Option::Some((opt, w)) => Option::Some(
                (
                    alts,
                    match opt {
                        Option::None => curr,
                        Option::Some(dv) => curr.push(dv),
                    },
                    warns + w,
                ),
            ),
        },
        NodeKind::SequenceOperator => Option::Some(st),
        NodeKind::ChoiceOperator => Option::Some((alts.push(curr), Seq::empty(), warns)),
        _ => Option::None,
    }
}

/// The expression scan over the first `n` children: the closed
/// alternatives, the open alternative, and the warnings so far.
pub open spec fn spec_expr_scan(cs: Seq<ParseNode>, n: int) -> Option<(
    Seq<Seq<DiagramView>>,
    Seq<DiagramView>,
    Seq<Seq<char>>,
)>
    decreases cs, n,
{
    if n <= 0 || cs.len() < n {
        Option::Some((Seq::empty(), Seq::empty(), Seq::empty()))
    } else {
        match spec_expr_scan(cs, n - 1) {
            Option::None => Option::None,
            Option::Some(st) => expr_step(st, cs[n - 1]),
        }
    }
}

/// Flattening of one alternative: empty collapses to `Empty`, a single
/// node stands alone, anything longer becomes a sequence.
pub open spec fn flatten_alt(alt: Seq<DiagramView>) -> DiagramView {
    if alt.len() == 0 {
        DiagramView::Empty
    } else if alt.len() == 1 {
        alt[0]
    } else {
        DiagramView::Sequence(alt)
    }
}

/// Final combination of an expression's alternatives: a single alternative
/// stands alone, several fan out as a choice.
pub open spec fn combine_alts(alts: Seq<Seq<DiagramView>>) -> DiagramView {
    let flat = Seq::new(alts.len(), |i: int| flatten_alt(alts[i]));
    if flat.len() == 1 {
        flat[0]
    } else {
        DiagramView::Choice(flat)
    }
}

/// What one expression body builds: the combined diagram node and the
/// warnings gathered from its terms.
pub open spec fn spec_expr(cs: Seq<ParseNode>) -> Option<(DiagramView, Seq<Seq<char>>)>
    decreases cs, cs.len() + 1,
{
    match spec_expr_scan(cs, cs.len() as int) {
        Option::None => Option::None,
        Option::Some((alts, curr, warns)) => Option::Some(
            (combine_alts(alts.push(curr)), warns),
        ),
    }
}

pub open spec fn opt_dview(o: Option<DiagramNode>) -> Option<DiagramView> {
    match o {
        Option::None => Option::None,
        Option::Some(d) => Option::Some(d@),
    }
}

/// A scan that aborted never recovers on later children.
proof fn lemma_term_scan_none(cs: Seq<ParseNode>, i: int, j: int)
    requires
        0 <= i <= j <= cs.len(),
        spec_term_scan(cs, i) is None,
    ensures
        spec_term_scan(cs, j) is None,
    decreases j - i,
{
    if j > i {
        lemma_term_scan_none(cs, i, j - 1);
    }
}

/// A scan that aborted never recovers on later children.
proof fn lemma_expr_scan_none(cs: Seq<ParseNode>, i: int, j: int)
    requires
        0 <= i <= j <= cs.len(),
        spec_expr_scan(cs, i) is None,
    ensures
        spec_expr_scan(cs, j) is None,
    decreases j - i,
{
    if j > i {
        lemma_expr_scan_none(cs, i, j - 1);
    }
}

/// Builds one term: the primary with its prefix and postfix operators
/// applied, or nothing but a warning when the primary is unsupported.
pub fn build_term(node: &ParseNode) -> (r: Result<
    (Option<DiagramNode>, Vec<String>),
    DiagramError,
>)
    ensures
        r is Ok <==> spec_term(*node) is Some,
        r matches Ok((opt, warns)) ==> spec_term(*node) == Option::Some(
            (opt_dview(opt), warns.deep_view()),
        ),
        r matches Err(e) ==> e is Malformed,
    decreases *node, 0int,
{
    let ghost cs = node.children@;
    let mut term: Option<DiagramNode> = None;
    let mut positive: usize = 0;
    let mut negative: usize = 0;
    let mut warnings: Vec<String> = Vec::new();
    let n = node.children.len();
    let mut i: usize = 0;
    proof {
        assert(warnings.deep_view() =~= Seq::<Seq<char>>::empty());
    }
    while i < n
        invariant
            i <= n == cs.len(),
            cs == node.children@,
            positive <= i,
            negative <= i,
            spec_term_scan(cs, i as int) == Option::Some(
                (opt_dview(term), positive as int, negative as int, warnings.deep_view()),
            ),
        decreases n - i,
    {
        let ghost st = (opt_dview(term), positive as int, negative as int, warnings.deep_view());
        let c = &node.children[i];
        match classify(c.kind.as_str()) {
            NodeKind::Identifier => {
                term = Some(DiagramNode::NonTerminal(c.text.clone()));
            },
            NodeKind::StringLiteral => {
                term = Some(DiagramNode::Terminal(drop_marks(c.text.as_str(), '"', '"')));
            },
            NodeKind::InsensitiveString => {
                term = Some(DiagramNode::Terminal(drop_marks(c.text.as_str(), '"', '^')));
            },
            NodeKind::CharRange => {
                term = Some(DiagramNode::Terminal(drop_marks(c.text.as_str(), '\'', '\'')));
            },
            NodeKind::OpeningParen => {},
            NodeKind::ClosingParen => {},
            NodeKind::Expression => {
                match build_expr(&c.children) {
                    Ok((dv, mut w)) => {
                        term = Some(dv);
                        warnings.append(&mut w);
                        proof {
                            assert(warnings.deep_view() =~= st.3 + spec_expr(
                                c.children@,
                            )->Some_0.1);
                        }
                    },
                    Err(_) => {
                        proof {
                            lemma_term_scan_none(cs, i + 1, n as int);
                        }
                        return Err(DiagramError::Malformed);
                    },
                }
            },
            NodeKind::RepeatOperator => {
                term = match term {
                    Some(t) => Some(make_zero_or_more(t)),
                    None => None,
                };
            },
            NodeKind::RepeatOnceOperator => {
                term = match term {
                    Some(t) => Some(make_one_or_more(t)),
                    None => None,
                };
            },
            NodeKind::OptionalOperator => {
                term = match term {
                    Some(t) => Some(make_optional(t)),
                    None => None,
                };
            },
            NodeKind::PositivePredicateOperator => {
                positive = positive + 1;
            },
            NodeKind::NegativePredicateOperator => {
                negative = negative + 1;
            },
            NodeKind::RepeatExact | NodeKind::RepeatMin | NodeKind::RepeatMax
                | NodeKind::RepeatMinMax => {
                match term {
                    Some(t) => {
                        match build_repeat(&c.children, t) {
                            Ok(d) => {
                                term = Some(d);
                            },
                            Err(_) => {
                                proof {
                                    lemma_term_scan_none(cs, i + 1, n as int);
                                }
                                return Err(DiagramError::Malformed);
                            },
                        }
                    },
                    None => {
                        term = None;
                    },
                }
            },
            _ => {
                warnings.push(make_unsupported_warning(c.kind.as_str()));
                proof {
                    assert(warnings.deep_view() =~= st.3.push(unsupported_warning(c.kind@)));
                }
            },
        }
        proof {
            assert(spec_term_scan(cs, i + 1) == term_step(st, cs[i as int]));
            assert(term_step(st, cs[i as int]) == Option::Some(
                (opt_dview(term), positive as int, negative as int, warnings.deep_view()),
            ));
        }
        i += 1;
    }
    let result: Option<DiagramNode> = match term {
        None => None,
        Some(t) => {
            if negative % 2 == 1 {
                Some(make_lookahead(t, false))
            } else if positive % 2 == 1 {
                Some(make_lookahead(t, true))
            } else {
                Some(t)
            }
        },
    };
    proof {
        assert(opt_dview(result) == apply_lookahead(
            spec_term_scan(cs, n as int)->Some_0.0,
            positive as int,
            negative as int,
        ));
    }
    Ok((result, warnings))
}

/// Builds one expression body: accumulates terms into alternatives, splits
/// on choice separators, flattens, and combines.
pub fn build_expr(children: &Vec<ParseNode>) -> (r: Result<
    (DiagramNode, Vec<String>),
    DiagramError,
>)
    ensures
        r is Ok <==> spec_expr(children@) is Some,
        r matches Ok((d, warns)) ==> spec_expr(children@) == Option::Some(
            (d@, warns.deep_view()),
        ),
        r matches Err(e) ==> e is Malformed,
    decreases children@, 1int,
{
    let ghost cs = children@;
    let mut choices: Vec<Vec<DiagramNode>> = Vec::new();
    let mut curr_choice: Vec<DiagramNode> = Vec::new();
    let mut warnings: Vec<String> = Vec::new();
    let n = children.len();
    let mut i: usize = 0;
    proof {
        assert(choices.deep_view() =~= Seq::<Seq<DiagramView>>::empty());
        assert(curr_choice.deep_view() =~= Seq::<DiagramView>::empty());
        assert(warnings.deep_view() =~= Seq::<Seq<char>>::empty());
    }
    while i < n
        invariant
            i <= n == cs.len(),
            cs == children@,
            spec_expr_scan(cs, i as int) == Option::Some(
                (choices.deep_view(), curr_choice.deep_view(), warnings.deep_view()),
            ),
        decreases n - i,
    {
        let ghost st = (choices.deep_view(), curr_choice.deep_view(), warnings.deep_view());
        let c = &children[i];
        match classify(c.kind.as_str()) {
            NodeKind::Term => {
                match build_term(c) {
                    Ok((opt, mut w)) => {
                        match opt {
                            Some(d) => {
                                curr_choice.push(d);
                                proof {
                                    assert(curr_choice.deep_view() =~= st.1.push(
                                        spec_term(cs[i as int])->Some_0.0->Some_0,
                                    ));
                                }
                            },
                            None => {},
                        }
                        warnings.append(&mut w);
                        proof {
                            assert(warnings.deep_view() =~= st.2 + spec_term(cs[i as int])->Some_0.1);
                        }
                    },
                    Err(_) => {
                        proof {
                            lemma_expr_scan_none(cs, i + 1, n as int);
                        }
                        return Err(DiagramError::Malformed);
                    },
                }
            },
            NodeKind::SequenceOperator => {},
            NodeKind::ChoiceOperator => {
                let mut closed: Vec<DiagramNode> = Vec::new();
                core::mem::swap(&mut closed, &mut curr_choice);
                choices.push(closed);
                proof {
                    assert(choices.deep_view() =~= st.0.push(st.1));
                    assert(curr_choice.deep_view() =~= Seq::<DiagramView>::empty());
                }
            },
            _ => {
                proof {
                    lemma_expr_scan_none(cs, i + 1, n as int);
                }
                return Err(DiagramError::Malformed);
            },
        }
        proof {
            assert(spec_expr_scan(cs, i + 1) == expr_step(st, cs[i as int]));
            assert(expr_step(st, cs[i as int]) == Option::Some(
                (choices.deep_view(), curr_choice.deep_view(), warnings.deep_view()),
            ));
        }
        i += 1;
    }
    let ghost scan_alts = choices.deep_view();
    let ghost scan_curr = curr_choice.deep_view();
    let mut last_alt: Vec<DiagramNode> = Vec::new();
    core::mem::swap(&mut last_alt, &mut curr_choice);
    choices.push(last_alt);
    proof {
        assert(choices.deep_view() =~= scan_alts.push(scan_curr));
    }
    let ghost all = choices.deep_view();
    // flatten each alternative
    let mut remaining = choices;
    let mut flat: Vec<DiagramNode> = Vec::new();
    proof {
        assert(flat.deep_view() =~= Seq::new(0nat, |k: int| flatten_alt(all[k])));
        assert(remaining.deep_view() =~= all.skip(0));
    }
    while remaining.len() > 0
        invariant
            flat@.len() + remaining@.len() == all.len(),
            flat.deep_view() == Seq::new(flat@.len() as nat, |k: int| flatten_alt(all[k])),
            remaining.deep_view() == all.skip(flat@.len() as int),
        decreases remaining@.len(),
    {
        let ghost j = flat@.len() as int;
        let ghost rem_snapshot = remaining@;
        let mut alt = remaining.remove(0);
        proof {
            assert(remaining@ =~= rem_snapshot.remove(0));
            assert(remaining@ =~= rem_snapshot.skip(1));
        }
        let ghost aj = alt.deep_view();
        proof {
            assert(all.skip(j)[0] == all[j]);
            assert(aj == all[j]);
        }
        let node = if alt.len() == 0 {
            DiagramNode::Empty
        } else if alt.len() == 1 {
            alt.remove(0)
        } else {
            DiagramNode::Sequence(alt)
        };
        proof {
            if aj.len() == 0 {
                assert(node@ == flatten_alt(aj));
            } else if aj.len() == 1 {
                assert(node@ == flatten_alt(aj));
            } else {
                lemma_dview_seq(node->Sequence_0@);
                assert(node@ == DiagramView::Sequence(dview_seq(node->Sequence_0@)));
                assert(dview_seq(node->Sequence_0@) =~= aj);
            }
        }
        let ghost flat_pre = flat@;
        let ghost flat_deep_pre = flat.deep_view();
        let ghost rem_pre = rem_snapshot;
        let ghost node_val = node;
        flat.push(node);
        proof {
            assert forall|k: int| 0 <= k < flat@.len() implies flat.deep_view()[k] == flatten_alt(
                all[k],
            ) by {
                assert(flat.deep_view()[k] == flat@[k].deep_view());
                if k < j {
                    assert(flat@[k] == flat_pre[k]);
                    assert(flat_deep_pre[k] == flat_pre[k].deep_view());
                    assert(flat_deep_pre[k] == flatten_alt(all[k]));
                } else {
                    assert(flat@[k] == node_val);
                    assert(node_val.deep_view() == flatten_alt(all[k]));
                }
            }
            assert(flat.deep_view() =~= Seq::new(flat@.len() as nat, |k: int| flatten_alt(all[k])));
            assert forall|k: int| 0 <= k < remaining@.len() implies remaining.deep_view()[k]
                == all.skip(j + 1)[k] by {
                assert(remaining@[k] == rem_pre[k + 1]);
                assert(rem_pre[k + 1].deep_view() == all.skip(j)[k + 1]);
            }
            assert(remaining.deep_view() =~= all.skip(flat@.len() as int));
        }
    }
    proof {
        assert(flat.deep_view() == Seq::new(all.len(), |k: int| flatten_alt(all[k])));
    }
    if flat.len() == 1 {
        let mut f = flat;
        let d = f.remove(0);
        proof {
            assert(d@ == combine_alts(all));
        }
        Ok((d, warnings))
    } else {
        let ghost fv = flat.deep_view();
        let d = DiagramNode::Choice(flat);
        proof {
            lemma_dview_seq(d->Choice_0@);
            assert(dview_seq(d->Choice_0@) =~= fv);
            assert(d@ == combine_alts(all));
        }
        Ok((d, warnings))
    }
}

} // verus!
