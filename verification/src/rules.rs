use vstd::prelude::*;
use vstd::string::StringExecFns;

use crate::diagram::{dview_seq, lemma_dview_seq, DiagramNode, DiagramView};
use crate::expr::{build_expr, spec_expr};
use crate::parse_tree::{classify, kind_of, NodeKind, ParseNode};
use crate::DiagramError;

verus! {

/// The state while scanning one rule's elements: the display name being
/// built, the vertical grid rows finished so far, the open body sequence,
/// and the warnings issued so far.
pub open spec fn rule_init(name: Seq<char>) -> (Seq<char>, Seq<DiagramView>, Seq<DiagramView>, Seq<
    Seq<char>,
>) {
    (name, Seq::empty(), Seq::empty(), Seq::empty())
}

/// One step of the rule scan: modifiers annotate the display name, the
/// opening brace freezes it into the grid's first row and starts the body,
/// the body expression and the closing brace extend the body, and anything
/// else is a shape the grammar rules out.
pub open spec fn rule_step(
    st: (Seq<char>, Seq<DiagramView>, Seq<DiagramView>, Seq<Seq<char>>),
    c: ParseNode,
) -> Option<(Seq<char>, Seq<DiagramView>, Seq<DiagramView>, Seq<Seq<char>>)> {
    let (ident, grid, body, warns) = st;
    match kind_of(c.kind@) {
        NodeKind::AssignmentOperator => Option::Some(st),
        NodeKind::SilentModifier => Option::Some((ident + " (silent)"@, grid, body, warns)),
        NodeKind::AtomicModifier => Option::Some((ident + " (atomic)"@, grid, body, warns)),
        NodeKind::CompoundAtomicModifier => Option::Some(
            (ident + " (compound atomic)"@, grid, body, warns),
        ),
        NodeKind::NonAtomicModifier => Option::Some((ident + " (non-atomic)"@, grid, body, warns)),
        NodeKind::OpeningBrace => Option::Some(
            (
                Seq::empty(),
                grid.push(DiagramView::Comment(ident)),
                body.push(DiagramView::SimpleStart),
                warns,
            ),
        ),
        NodeKind::Expression => match spec_expr(c.children@) {
            Option::None => Option::None,
            Option::Some((dv, w)) => Option::Some((ident, grid, body.push(dv), warns + w)),
        },
        NodeKind::ClosingBrace => Option::Some(
            (ident, grid, body.push(DiagramView::SimpleEnd), warns),
        ),
        _ => Option::None,
    }
}

/// The rule scan over the first `n` elements after the rule's name.
pub open spec fn spec_rule_scan(name: Seq<char>, cs: Seq<ParseNode>, n: int) -> Option<(
    Seq<char>,
    Seq<DiagramView>,
    Seq<DiagramView>,
    Seq<Seq<char>>,
)>
    decreases n,
{
    if n <= 0 || cs.len() < n {
        Option::Some(rule_init(name))
    } else {
        match spec_rule_scan(name, cs, n - 1) {
            Option::None => Option::None,
            Option::Some(st) => rule_step(st, cs[n - 1]),
        }
    }
}

/// What one named rule builds: its display name stacked over the body
/// sequence, and the warnings gathered from the body.
pub open spec fn spec_rule(name: Seq<char>, cs: Seq<ParseNode>) -> Option<(DiagramView, Seq<
    Seq<char>,
>)> {
    match spec_rule_scan(name, cs, cs.len() as int) {
        Option::None => Option::None,
        Option::Some((ident, grid, body, warns)) => Option::Some(
            (DiagramView::VerticalGrid(grid.push(DiagramView::Sequence(body))), warns),
        ),
    }
}

/// A scan that aborted never recovers on later elements.
proof fn lemma_rule_scan_none(name: Seq<char>, cs: Seq<ParseNode>, i: int, j: int)
    requires
        0 <= i <= j <= cs.len(),
        spec_rule_scan(name, cs, i) is None,
    ensures
        spec_rule_scan(name, cs, j) is None,
    decreases j - i,
{
    if j > i {
        lemma_rule_scan_none(name, cs, i, j - 1);
    }
}

/// Builds one named grammar rule: the display name (annotated with its
/// modifiers) stacked over `SimpleStart`, the body expression, `SimpleEnd`.
/// `children` are the rule node's children; the first one carries the name
/// `name`, which the caller has already read, and is not scanned again.
pub fn build_rule(name: &str, children: &Vec<ParseNode>) -> (r: Result<
    (DiagramNode, Vec<String>),
    DiagramError,
>)
    requires
        children@.len() >= 1,
    ensures
        r is Ok <==> spec_rule(name@, children@.skip(1)) is Some,
        r matches Ok((d, warns)) ==> spec_rule(name@, children@.skip(1)) == Option::Some(
            (d@, warns.deep_view()),
        ),
        r matches Err(e) ==> e is Malformed,
{
    let ghost cs = children@.skip(1);
    let mut rule_ident: String = name.to_owned();
    let mut grid: Vec<DiagramNode> = Vec::new();
    let mut body: Vec<DiagramNode> = Vec::new();
    let mut warnings: Vec<String> = Vec::new();
    let n = children.len();
    let mut i: usize = 1;
    proof {
        assert(grid.deep_view() =~= Seq::<DiagramView>::empty());
        assert(body.deep_view() =~= Seq::<DiagramView>::empty());
        assert(warnings.deep_view() =~= Seq::<Seq<char>>::empty());
    }
    while i < n
        invariant
            1 <= i <= n == children@.len(),
            cs == children@.skip(1),
            spec_rule_scan(name@, cs, i - 1) == Option::Some(
                (rule_ident@, grid.deep_view(), body.deep_view(), warnings.deep_view()),
            ),
        decreases n - i,
    {
        let ghost st = (rule_ident@, grid.deep_view(), body.deep_view(), warnings.deep_view());
        let c = &children[i];
        proof {
            assert(cs[i - 1] == children@[i as int]);
        }
        match classify(c.kind.as_str()) {
            NodeKind::AssignmentOperator => {},
            NodeKind::SilentModifier => {
                rule_ident.append(" (silent)");
            },
            NodeKind::AtomicModifier => {
                rule_ident.append(" (atomic)");
            },
            NodeKind::CompoundAtomicModifier => {
                rule_ident.append(" (compound atomic)");
            },
            NodeKind::NonAtomicModifier => {
                rule_ident.append(" (non-atomic)");
            },
            NodeKind::OpeningBrace => {
                let mut taken: String = String::new();
                core::mem::swap(&mut taken, &mut rule_ident);
                grid.push(DiagramNode::Comment(taken));
                body.push(DiagramNode::SimpleStart);
                proof {
                    assert(grid.deep_view() =~= st.1.push(DiagramView::Comment(st.0)));
                    assert(body.deep_view() =~= st.2.push(DiagramView::SimpleStart));
                }
            },
            NodeKind::Expression => {
                match build_expr(&c.children) {
                    Ok((dv, mut w)) => {
                        body.push(dv);
                        warnings.append(&mut w);
                        proof {
                            assert(body.deep_view() =~= st.2.push(
                                spec_expr(c.children@)->Some_0.0,
                            ));
                            assert(warnings.deep_view() =~= st.3 + spec_expr(
                                c.children@,
                            )->Some_0.1);
                        }
                    },
                    Err(_) => {
                        proof {
                            lemma_rule_scan_none(name@, cs, i as int, cs.len() as int);
                        }
                        return Err(DiagramError::Malformed);
                    },
                }
            },
            NodeKind::ClosingBrace => {
                body.push(DiagramNode::SimpleEnd);
                proof {
                    assert(body.deep_view() =~= st.2.push(DiagramView::SimpleEnd));
                }
            },
            _ => {
                proof {
                    lemma_rule_scan_none(name@, cs, i as int, cs.len() as int);
                }
                return Err(DiagramError::Malformed);
            },
        }
        proof {
            assert(spec_rule_scan(name@, cs, i as int) == rule_step(st, cs[i - 1]));
            assert(rule_step(st, cs[i - 1]) == Option::Some(
                (rule_ident@, grid.deep_view(), body.deep_view(), warnings.deep_view()),
            ));
        }
        i += 1;
    }
    let ghost grid_deep = grid.deep_view();
    let ghost body_deep = body.deep_view();
    let row = DiagramNode::Sequence(body);
    proof {
        lemma_dview_seq(row->Sequence_0@);
        assert(dview_seq(row->Sequence_0@) =~= body_deep);
    }
    let ghost row_val = row;
    grid.push(row);
    let d = DiagramNode::VerticalGrid(grid);
    proof {
        lemma_dview_seq(d->VerticalGrid_0@);
        assert forall|k: int| 0 <= k < d->VerticalGrid_0@.len() implies dview_seq(
            d->VerticalGrid_0@,
        )[k] == grid_deep.push(DiagramView::Sequence(body_deep))[k] by {
            if k < grid_deep.len() {
                assert(d->VerticalGrid_0@[k].deep_view() == grid_deep[k]);
            } else {
                assert(d->VerticalGrid_0@[k] == row_val);
            }
        }
        assert(dview_seq(d->VerticalGrid_0@) =~= grid_deep.push(DiagramView::Sequence(body_deep)));
    }
    Ok((d, warnings))
}

/// One step of the top-level scan: a grammar rule contributes its comment
/// (for a documentation line) or its built rule block, grammar-level
/// documentation and the end-of-input marker contribute nothing, and
/// anything else is a shape the grammar rules out. A rule with no elements
/// at all cannot come from the grammar and aborts.
pub open spec fn top_step(
    st: (Seq<DiagramView>, Seq<Seq<char>>),
    c: ParseNode,
) -> Option<(Seq<DiagramView>, Seq<Seq<char>>)> {
    let (rows, warns) = st;
    match kind_of(c.kind@) {
        NodeKind::GrammarRule => if c.children@.len() == 0 {
            Option::None
        } else {
            let first = c.children@[0];
            match kind_of(first.kind@) {
                NodeKind::LineDoc => Option::Some(
                    (rows.push(DiagramView::Comment(first.text@)), warns),
                ),
                NodeKind::Identifier => match spec_rule(first.text@, c.children@.skip(1)) {
                    Option::None => Option::None,
                    Option::Some((dv, w)) => Option::Some((rows.push(dv), warns + w)),
                },
                _ => Option::None,
            }
        },
        NodeKind::GrammarDoc => Option::Some(st),
        NodeKind::EndOfInput => Option::Some(st),
        _ => Option::None,
    }
}

/// The top-level scan over the first `n` grammar elements.
pub open spec fn spec_top_scan(ns: Seq<ParseNode>, n: int) -> Option<(Seq<DiagramView>, Seq<
    Seq<char>,
>)>
    decreases n,
{
    if n <= 0 || ns.len() < n {
        Option::Some((Seq::empty(), Seq::empty()))
    } else {
        match spec_top_scan(ns, n - 1) {
            Option::None => Option::None,
            Option::Some(st) => top_step(st, ns[n - 1]),
        }
    }
}

/// What the whole grammar builds: every rule's block (and every rule-level
/// documentation comment) stacked vertically, in source order, with all
/// warnings in traversal order.
pub open spec fn spec_diagram(ns: Seq<ParseNode>) -> Option<(DiagramView, Seq<Seq<char>>)> {
    match spec_top_scan(ns, ns.len() as int) {
        Option::None => Option::None,
        Option::Some((rows, warns)) => Option::Some((DiagramView::VerticalGrid(rows), warns)),
    }
}

/// A scan that aborted never recovers on later elements.
proof fn lemma_top_scan_none(ns: Seq<ParseNode>, i: int, j: int)
    requires
        0 <= i <= j <= ns.len(),
        spec_top_scan(ns, i) is None,
    ensures
        spec_top_scan(ns, j) is None,
    decreases j - i,
{
    if j > i {
        lemma_top_scan_none(ns, i, j - 1);
    }
}

/// Walks the top-level grammar elements and stacks every rule's block into
/// one vertical grid, collecting all warnings in source order. Fails only
/// on tree shapes the grammar's own syntax rules out.
pub fn assemble_diagram(nodes: &Vec<ParseNode>) -> (r: Result<
    (DiagramNode, Vec<String>),
    DiagramError,
>)
    ensures
        r is Ok <==> spec_diagram(nodes@) is Some,
        r matches Ok((d, warns)) ==> spec_diagram(nodes@) == Option::Some(
            (d@, warns.deep_view()),
        ),
        r matches Err(e) ==> e is Malformed,
{
    let ghost ns = nodes@;
    let mut rows: Vec<DiagramNode> = Vec::new();
    let mut warnings: Vec<String> = Vec::new();
    let n = nodes.len();
    let mut i: usize = 0;
    proof {
        assert(rows.deep_view() =~= Seq::<DiagramView>::empty());
        assert(warnings.deep_view() =~= Seq::<Seq<char>>::empty());
    }
    while i < n
        invariant
            i <= n == ns.len(),
            ns == nodes@,
            spec_top_scan(ns, i as int) == Option::Some((rows.deep_view(), warnings.deep_view())),
        decreases n - i,
    {
        let ghost st = (rows.deep_view(), warnings.deep_view());
        let c = &nodes[i];
        match classify(c.kind.as_str()) {
            NodeKind::GrammarRule => {
                if c.children.len() == 0 {
                    proof {
                        lemma_top_scan_none(ns, i + 1, n as int);
                    }
                    return Err(DiagramError::Malformed);
                }
                let first = &c.children[0];
                match classify(first.kind.as_str()) {
                    NodeKind::LineDoc => {
                        rows.push(DiagramNode::Comment(first.text.clone()));
                        proof {
                            assert(rows.deep_view() =~= st.0.push(
                                DiagramView::Comment(first.text@),
                            ));
                        }
                    },
                    NodeKind::Identifier => {
                        match build_rule(first.text.as_str(), &c.children) {
                            Ok((d, mut w)) => {
                                rows.push(d);
                                warnings.append(&mut w);
                                proof {
                                    assert(rows.deep_view() =~= st.0.push(
                                        spec_rule(
                                            first.text@,
                                            c.children@.skip(1),
                                        )->Some_0.0,
                                    ));
                                    assert(warnings.deep_view() =~= st.1 + spec_rule(
                                        first.text@,
                                        c.children@.skip(1),
                                    )->Some_0.1);
                                }
                            },
                            Err(_) => {
                                proof {
                                    lemma_top_scan_none(ns, i + 1, n as int);
                                }
                                return Err(DiagramError::Malformed);
                            },
                        }
                    },
                    _ => {
                        proof {
                            lemma_top_scan_none(ns, i + 1, n as int);
                        }
                        return Err(DiagramError::Malformed);
                    },
                }
            },
            NodeKind::GrammarDoc => {},
            NodeKind::EndOfInput => {},
            _ => {
                proof {
                    lemma_top_scan_none(ns, i + 1, n as int);
                }
                return Err(DiagramError::Malformed);
            },
        }
        proof {
            assert(spec_top_scan(ns, i + 1) == top_step(st, ns[i as int]));
            assert(top_step(st, ns[i as int]) == Option::Some(
                (rows.deep_view(), warnings.deep_view()),
            ));
        }
        i += 1;
    }
    let ghost rows_deep = rows.deep_view();
    let d = DiagramNode::VerticalGrid(rows);
    proof {
        lemma_dview_seq(d->VerticalGrid_0@);
        assert(dview_seq(d->VerticalGrid_0@) =~= rows_deep);
    }
    Ok((d, warnings))
}

} // verus!
