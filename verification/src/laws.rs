use vstd::prelude::*;

use crate::diagram::{one_or_more, zero_or_more, DiagramView};
use crate::expr::{
    apply_lookahead, flatten_alt, spec_expr, spec_expr_scan, spec_term, spec_term_scan, term_step,
    without_marks,
};
use crate::numbers::{dec_str, dec_val, is_digits};
use crate::parse_tree::{kind_of, NodeKind, ParseNode};
use crate::repeat::{repeat_bounds, repeat_label, repeat_ok, repeat_scan, repeat_shape};
use crate::rules::{spec_diagram, spec_rule, spec_rule_scan, spec_top_scan};

verus! {

/// An exact count `{n}` resolves to minimum `n` and maximum `n`.
pub proof fn lemma_repeat_exact(cs: Seq<ParseNode>)
    requires
        cs.len() == 3,
        kind_of(cs[0].kind@) == NodeKind::OpeningBrace,
        kind_of(cs[1].kind@) == NodeKind::Number,
        is_digits(cs[1].text@),
        dec_val(cs[1].text@) <= u32::MAX,
        kind_of(cs[2].kind@) == NodeKind::ClosingBrace,
    ensures
        repeat_ok(cs),
        repeat_bounds(cs) == (dec_val(cs[1].text@), dec_val(cs[1].text@)),
        repeat_label(dec_val(cs[1].text@), dec_val(cs[1].text@)) == "Repeat "@ + dec_str(
            dec_val(cs[1].text@),
        ) + " time(s)"@,
{
    let v = dec_val(cs[1].text@);
    assert(repeat_scan(cs, 0) == Option::Some(
        (false, Option::<int>::None, Option::<int>::None),
    ));
    assert(repeat_scan(cs, 1) == Option::Some(
        (false, Option::<int>::None, Option::<int>::None),
    ));
    assert(repeat_scan(cs, 2) == Option::Some((false, Option::Some(v), Option::<int>::None)));
    assert(repeat_scan(cs, 3) == Option::Some((false, Option::Some(v), Option::Some(v))));
}

/// A lower bound `{n,}` resolves to minimum `n` and an unbounded maximum.
pub proof fn lemma_repeat_min(cs: Seq<ParseNode>)
    requires
        cs.len() == 4,
        kind_of(cs[0].kind@) == NodeKind::OpeningBrace,
        kind_of(cs[1].kind@) == NodeKind::Number,
        is_digits(cs[1].text@),
        dec_val(cs[1].text@) <= u32::MAX,
        kind_of(cs[2].kind@) == NodeKind::Comma,
        kind_of(cs[3].kind@) == NodeKind::ClosingBrace,
    ensures
        repeat_ok(cs),
        repeat_bounds(cs) == (dec_val(cs[1].text@), u32::MAX as int),
        dec_val(cs[1].text@) < u32::MAX ==> repeat_label(dec_val(cs[1].text@), u32::MAX as int)
            == "Repeat "@ + dec_str(dec_val(cs[1].text@)) + " or more times"@,
{
    let v = dec_val(cs[1].text@);
    assert(repeat_scan(cs, 0) == Option::Some(
        (false, Option::<int>::None, Option::<int>::None),
    ));
    assert(repeat_scan(cs, 1) == Option::Some(
        (false, Option::<int>::None, Option::<int>::None),
    ));
    assert(repeat_scan(cs, 2) == Option::Some((false, Option::Some(v), Option::<int>::None)));
    assert(repeat_scan(cs, 3) == Option::Some((true, Option::Some(v), Option::<int>::None)));
    assert(repeat_scan(cs, 4) == Option::Some(
        (true, Option::Some(v), Option::Some(u32::MAX as int)),
    ));
}

/// An upper bound `{,m}` resolves to minimum 0 and maximum `m`.
pub proof fn lemma_repeat_max(cs: Seq<ParseNode>)
    requires
        cs.len() == 4,
        kind_of(cs[0].kind@) == NodeKind::OpeningBrace,
        kind_of(cs[1].kind@) == NodeKind::Comma,
        kind_of(cs[2].kind@) == NodeKind::Number,
        is_digits(cs[2].text@),
        dec_val(cs[2].text@) <= u32::MAX,
        kind_of(cs[3].kind@) == NodeKind::ClosingBrace,
    ensures
        repeat_ok(cs),
        repeat_bounds(cs) == (0int, dec_val(cs[2].text@)),
        0 < dec_val(cs[2].text@) < u32::MAX ==> repeat_label(0, dec_val(cs[2].text@))
            == "Repeat at most "@ + dec_str(dec_val(cs[2].text@)) + " time(s)"@,
{
    let v = dec_val(cs[2].text@);
    assert(repeat_scan(cs, 0) == Option::Some(
        (false, Option::<int>::None, Option::<int>::None),
    ));
    assert(repeat_scan(cs, 1) == Option::Some(
        (false, Option::<int>::None, Option::<int>::None),
    ));
    assert(repeat_scan(cs, 2) == Option::Some((true, Option::<int>::None, Option::<int>::None)));
    assert(repeat_scan(cs, 3) == Option::Some((true, Option::<int>::None, Option::Some(v))));
    assert(repeat_scan(cs, 4) == Option::Some((true, Option::Some(0int), Option::Some(v))));
}

/// A full range `{n,m}` resolves to minimum `n` and maximum `m`.
pub proof fn lemma_repeat_min_max(cs: Seq<ParseNode>)
    requires
        cs.len() == 5,
        kind_of(cs[0].kind@) == NodeKind::OpeningBrace,
        kind_of(cs[1].kind@) == NodeKind::Number,
        is_digits(cs[1].text@),
        dec_val(cs[1].text@) <= u32::MAX,
        kind_of(cs[2].kind@) == NodeKind::Comma,
        kind_of(cs[3].kind@) == NodeKind::Number,
        is_digits(cs[3].text@),
        dec_val(cs[3].text@) <= u32::MAX,
        kind_of(cs[4].kind@) == NodeKind::ClosingBrace,
    ensures
        repeat_ok(cs),
        repeat_bounds(cs) == (dec_val(cs[1].text@), dec_val(cs[3].text@)),
        0 == dec_val(cs[1].text@) < dec_val(cs[3].text@) < u32::MAX ==> repeat_label(
            dec_val(cs[1].text@),
            dec_val(cs[3].text@),
        ) == "Repeat at most "@ + dec_str(dec_val(cs[3].text@)) + " time(s)"@,
        0 < dec_val(cs[1].text@) < dec_val(cs[3].text@) < u32::MAX ==> repeat_label(
            dec_val(cs[1].text@),
            dec_val(cs[3].text@),
        ) == "Repeat between "@ + dec_str(dec_val(cs[1].text@)) + " and "@ + dec_str(
            dec_val(cs[3].text@),
        ) + " time(s)"@,
{
    let lo = dec_val(cs[1].text@);
    let hi = dec_val(cs[3].text@);
    assert(repeat_scan(cs, 0) == Option::Some(
        (false, Option::<int>::None, Option::<int>::None),
    ));
    assert(repeat_scan(cs, 1) == Option::Some(
        (false, Option::<int>::None, Option::<int>::None),
    ));
    assert(repeat_scan(cs, 2) == Option::Some((false, Option::Some(lo), Option::<int>::None)));
    assert(repeat_scan(cs, 3) == Option::Some((true, Option::Some(lo), Option::<int>::None)));
    assert(repeat_scan(cs, 4) == Option::Some((true, Option::Some(lo), Option::Some(hi))));
    assert(repeat_scan(cs, 5) == Option::Some((true, Option::Some(lo), Option::Some(hi))));
}

/// Whether a diagram shape offers a path that traverses nothing: a choice
/// with an empty alternative.
pub open spec fn has_empty_bypass(d: DiagramView) -> bool {
    match d {
        DiagramView::Choice(cs) => exists|i: int| 0 <= i < cs.len() && cs[i] is Empty,
        _ => false,
    }
}

/// A resolved range with minimum 0 takes a shape that permits zero
/// traversals; a positive minimum takes one with no bypass path.
pub proof fn lemma_repeat_shape_bypass(min: int, inner: DiagramView)
    requires
        min >= 0,
    ensures
        has_empty_bypass(repeat_shape(min, inner)) <==> min == 0,
{
    if min == 0 {
        assert(zero_or_more(inner)->Choice_0[0] is Empty);
    } else {
        assert(repeat_shape(min, inner) == one_or_more(inner));
    }
}

/// An expression of exactly one term yields that term's node itself: no
/// single-child sequence wrapper and no single-alternative choice wrapper
/// is added around it.
pub proof fn lemma_single_term_expression(cs: Seq<ParseNode>, dv: DiagramView, w: Seq<Seq<char>>)
    requires
        cs.len() == 1,
        kind_of(cs[0].kind@) == NodeKind::Term,
        spec_term(cs[0]) == Option::Some((Option::Some(dv), w)),
    ensures
        spec_expr(cs) == Option::Some((dv, w)),
{
    assert(crate::expr::spec_expr_scan(cs, 1) == Option::Some(
        (Seq::<Seq<DiagramView>>::empty(), seq![dv], Seq::<Seq<char>>::empty() + w),
    ));
    assert(Seq::<Seq<char>>::empty() + w =~= w);
    let all = Seq::<Seq<DiagramView>>::empty().push(seq![dv]);
    let flat = Seq::new(all.len(), |i: int| crate::expr::flatten_alt(all[i]));
    assert(flat.len() == 1);
    assert(flat[0] == crate::expr::flatten_alt(seq![dv]));
    assert(crate::expr::flatten_alt(seq![dv]) == dv);
}

/// A term child outside the supported set aborts nothing and contributes
/// no node: the state keeps its primary and marker counts, and exactly one
/// warning naming the construct's kind tag is appended.
pub proof fn lemma_unsupported_term_child(
    st: (Option<DiagramView>, int, int, Seq<Seq<char>>),
    c: ParseNode,
)
    requires
        kind_of(c.kind@) == NodeKind::Unsupported,
    ensures
        term_step(st, c) == Option::Some(
            (st.0, st.1, st.2, st.3.push(crate::expr::unsupported_warning(c.kind@))),
        ),
{
}

/// An expression that closed two or more alternatives fans them out as one
/// choice: each alternative flattened in source order — an empty one to
/// `Empty`, a single node standing alone, several in sequence — with no
/// wrapper around any lone alternative's node.
pub proof fn lemma_choice_combination(
    cs: Seq<ParseNode>,
    alts: Seq<Seq<DiagramView>>,
    curr: Seq<DiagramView>,
    warns: Seq<Seq<char>>,
)
    requires
        spec_expr_scan(cs, cs.len() as int) == Option::Some((alts, curr, warns)),
        alts.push(curr).len() >= 2,
    ensures
        spec_expr(cs) == Option::Some(
            (
                DiagramView::Choice(
                    Seq::new(
                        alts.push(curr).len(),
                        |i: int| flatten_alt(alts.push(curr)[i]),
                    ),
                ),
                warns,
            ),
        ),
{
}

/// One term-scan step started from states that agree except for an extra
/// two negative-lookahead marks keeps the states in that same relation.
proof fn lemma_term_step_neg_shift(
    st1: (Option<DiagramView>, int, int, Seq<Seq<char>>),
    st2: (Option<DiagramView>, int, int, Seq<Seq<char>>),
    c: ParseNode,
)
    requires
        st1.0 == st2.0,
        st1.1 == st2.1,
        st1.2 == st2.2 + 2,
        st1.3 == st2.3,
    ensures
        term_step(st1, c) is Some <==> term_step(st2, c) is Some,
        term_step(st1, c) matches Some(r1) ==> term_step(st2, c) matches Some(r2) && r1.0 == r2.0
            && r1.1 == r2.1 && r1.2 == r2.2 + 2 && r1.3 == r2.3,
{
}

/// Two consecutive negative-lookahead markers in front of a term cancel:
/// the term builds exactly the node (and the warnings) it would build with
/// the two markers absent.
pub proof fn lemma_double_negative_lookahead(a: ParseNode, b: ParseNode)
    requires
        a.children@.len() >= 2,
        kind_of(a.children@[0].kind@) == NodeKind::NegativePredicateOperator,
        kind_of(a.children@[1].kind@) == NodeKind::NegativePredicateOperator,
        b.children@ == a.children@.skip(2),
    ensures
        spec_term(a) == spec_term(b),
{
    let ca = a.children@;
    let cb = b.children@;
    lemma_term_scan_neg_shift(ca, cb, cb.len() as int);
    let na = ca.len() as int;
    let nb = cb.len() as int;
    assert(na == nb + 2);
    match spec_term_scan(ca, na) {
        Option::None => {
            assert(spec_term_scan(cb, nb) is None);
        },
        Option::Some(r1) => {
            let r2 = spec_term_scan(cb, nb)->Some_0;
            assert(r1.2 % 2 == r2.2 % 2) by {
                assert(r1.2 == r2.2 + 2);
            }
            assert(apply_lookahead(r1.0, r1.1, r1.2) == apply_lookahead(r2.0, r2.1, r2.2));
        },
    }
}

/// The scans of a term and of the same term with two leading negative
/// lookahead markers stay in lock step, the marker counts two apart.
proof fn lemma_term_scan_neg_shift(ca: Seq<ParseNode>, cb: Seq<ParseNode>, n: int)
    requires
        0 <= n <= cb.len(),
        ca.len() == cb.len() + 2,
        kind_of(ca[0].kind@) == NodeKind::NegativePredicateOperator,
        kind_of(ca[1].kind@) == NodeKind::NegativePredicateOperator,
        cb == ca.skip(2),
    ensures
        spec_term_scan(ca, n + 2) is Some <==> spec_term_scan(cb, n) is Some,
        spec_term_scan(ca, n + 2) matches Some(r1) ==> spec_term_scan(cb, n) matches Some(r2)
            && r1.0 == r2.0 && r1.1 == r2.1 && r1.2 == r2.2 + 2 && r1.3 == r2.3,
    decreases n,
{
    if n == 0 {
        let init = crate::expr::spec_term_init();
        assert(spec_term_scan(ca, 0) == Option::Some(init));
        assert(spec_term_scan(ca, 1) == term_step(init, ca[0]));
        assert(term_step(init, ca[0]) == Option::Some((init.0, init.1, init.2 + 1, init.3)));
        assert(spec_term_scan(ca, 2) == term_step((init.0, init.1, init.2 + 1, init.3), ca[1]));
        assert(spec_term_scan(ca, 2) == Option::Some((init.0, init.1, init.2 + 2, init.3)));
        assert(spec_term_scan(cb, 0) == Option::Some(init));
    } else {
        lemma_term_scan_neg_shift(ca, cb, n - 1);
        assert(ca[n + 1] == cb[n - 1]);
        match spec_term_scan(ca, n + 1) {
            Option::None => {},
            Option::Some(r1) => {
                let r2 = spec_term_scan(cb, n - 1)->Some_0;
                lemma_term_step_neg_shift(r1, r2, cb[n - 1]);
            },
        }
    }
}

/// A grammar of a single rule whose body is one literal string builds a
/// two-level stack: the rule's name over the sequence start marker, the
/// literal's terminal box, and the end marker — and issues no warnings.
pub proof fn lemma_single_literal_rule(ns: Seq<ParseNode>)
    requires
        ns.len() == 2,
        kind_of(ns[0].kind@) == NodeKind::GrammarRule,
        kind_of(ns[1].kind@) == NodeKind::EndOfInput,
        ns[0].children@.len() == 5,
        kind_of(ns[0].children@[0].kind@) == NodeKind::Identifier,
        kind_of(ns[0].children@[1].kind@) == NodeKind::AssignmentOperator,
        kind_of(ns[0].children@[2].kind@) == NodeKind::OpeningBrace,
        kind_of(ns[0].children@[3].kind@) == NodeKind::Expression,
        kind_of(ns[0].children@[4].kind@) == NodeKind::ClosingBrace,
        ns[0].children@[3].children@.len() == 1,
        kind_of(ns[0].children@[3].children@[0].kind@) == NodeKind::Term,
        ns[0].children@[3].children@[0].children@.len() == 1,
        kind_of(ns[0].children@[3].children@[0].children@[0].kind@) == NodeKind::StringLiteral,
    ensures
        spec_diagram(ns) == Option::Some(
            (
                DiagramView::VerticalGrid(
                    seq![
                        DiagramView::VerticalGrid(
                            seq![
                                DiagramView::Comment(ns[0].children@[0].text@),
                                DiagramView::Sequence(
                                    seq![
                                        DiagramView::SimpleStart,
                                        DiagramView::Terminal(
                                            without_marks(
                                                ns[0].children@[3].children@[0].children@[0].text@,
                                                '"',
                                                '"',
                                            ),
                                        ),
                                        DiagramView::SimpleEnd,
                                    ],
                                ),
                            ],
                        ),
                    ],
                ),
                Seq::<Seq<char>>::empty(),
            ),
        ),
{
    let rule = ns[0];
    let name = rule.children@[0].text@;
    let expr_node = rule.children@[3];
    let term_node = expr_node.children@[0];
    let lit = term_node.children@[0];
    let terminal = DiagramView::Terminal(without_marks(lit.text@, '"', '"'));

    // the term builds the terminal box
    let tcs = term_node.children@;
    assert(spec_term_scan(tcs, 1) == term_step(
        (Option::None, 0int, 0int, Seq::<Seq<char>>::empty()),
        tcs[0],
    ));
    assert(spec_term_scan(tcs, 1) == Option::Some(
        (Option::Some(terminal), 0int, 0int, Seq::<Seq<char>>::empty()),
    ));
    assert(spec_term(term_node) == Option::Some(
        (Option::Some(terminal), Seq::<Seq<char>>::empty()),
    ));

    // the expression of that one term is the terminal itself
    lemma_single_term_expression(expr_node.children@, terminal, Seq::<Seq<char>>::empty());
    assert(spec_expr(expr_node.children@) == Option::Some(
        (terminal, Seq::<Seq<char>>::empty()),
    ));

    // the rule stacks its name over start, terminal, end
    let rcs = rule.children@.skip(1);
    assert(rcs.len() == 4);
    assert(rcs[0] == rule.children@[1]);
    assert(rcs[1] == rule.children@[2]);
    assert(rcs[2] == rule.children@[3]);
    assert(rcs[3] == rule.children@[4]);
    assert(spec_rule_scan(name, rcs, 0) == Option::Some(
        (name, Seq::<DiagramView>::empty(), Seq::<DiagramView>::empty(), Seq::<Seq<char>>::empty()),
    ));
    assert(spec_rule_scan(name, rcs, 1) == Option::Some(
        (name, Seq::<DiagramView>::empty(), Seq::<DiagramView>::empty(), Seq::<Seq<char>>::empty()),
    ));
    assert(spec_rule_scan(name, rcs, 2) == Option::Some(
        (
            Seq::<char>::empty(),
            seq![DiagramView::Comment(name)],
            seq![DiagramView::SimpleStart],
            Seq::<Seq<char>>::empty(),
        ),
    ));
    assert(spec_rule_scan(name, rcs, 3) matches Some(st3) && st3.2 =~= seq![
        DiagramView::SimpleStart,
        terminal,
    ] && st3.1 =~= seq![DiagramView::Comment(name)] && st3.0 =~= Seq::<char>::empty() && st3.3
        =~= Seq::<Seq<char>>::empty() + Seq::<Seq<char>>::empty());
    assert(Seq::<Seq<char>>::empty() + Seq::<Seq<char>>::empty() =~= Seq::<Seq<char>>::empty());
    let body = seq![DiagramView::SimpleStart, terminal, DiagramView::SimpleEnd];
    assert(spec_rule_scan(name, rcs, 4) matches Some(st4) && st4.1 =~= seq![
        DiagramView::Comment(name),
    ] && st4.2 =~= body && st4.3 =~= Seq::<Seq<char>>::empty());
    let block = DiagramView::VerticalGrid(
        seq![DiagramView::Comment(name), DiagramView::Sequence(body)],
    );
    assert(spec_rule(name, rcs) is Some);
    let rp = spec_rule(name, rcs)->Some_0;
    let st4 = spec_rule_scan(name, rcs, 4)->Some_0;
    assert(rp.0 == DiagramView::VerticalGrid(st4.1.push(DiagramView::Sequence(st4.2))));
    assert(st4.1.push(DiagramView::Sequence(st4.2)) =~= seq![
        DiagramView::Comment(name),
        DiagramView::Sequence(body),
    ]);
    assert(rp.0 == block);
    assert(rp.1 =~= Seq::<Seq<char>>::empty());

    // the whole grammar stacks the one rule block
    let empty_rows = Seq::<DiagramView>::empty();
    let empty_warns = Seq::<Seq<char>>::empty();
    assert(spec_top_scan(ns, 0) == Option::Some((empty_rows, empty_warns)));
    assert(spec_top_scan(ns, 1) == crate::rules::top_step((empty_rows, empty_warns), ns[0]));
    assert(ns[0].children@[0].text@ == name);
    assert(ns[0].children@.skip(1) == rcs);
    assert(spec_top_scan(ns, 1) == Option::Some((empty_rows.push(rp.0), empty_warns + rp.1)));
    assert(spec_top_scan(ns, 2) == crate::rules::top_step(
        (empty_rows.push(rp.0), empty_warns + rp.1),
        ns[1],
    ));
    assert(spec_top_scan(ns, 2) == Option::Some((empty_rows.push(rp.0), empty_warns + rp.1)));
    assert(spec_diagram(ns) is Some);
    let dp = spec_diagram(ns)->Some_0;
    assert(dp.0 == DiagramView::VerticalGrid(empty_rows.push(rp.0)));
    assert(empty_rows.push(rp.0) =~= seq![block]);
    assert(dp.1 =~= Seq::<Seq<char>>::empty());
}

} // verus!
