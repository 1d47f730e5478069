use vstd::prelude::*;
use vstd::string::StringExecFns;

use crate::diagram::{
    make_one_or_more, make_zero_or_more, one_or_more, zero_or_more, DiagramNode, DiagramView,
};
use crate::numbers::{dec_str, dec_val, is_digits, parse_u32, u32_to_dec};
use crate::parse_tree::{classify, kind_of, NodeKind, ParseNode};
use crate::DiagramError;

verus! {

pub open spec fn opt_int(o: Option<u32>) -> Option<int> {
    match o {
        Option::None => Option::None,
        Option::Some(v) => Option::Some(v as int),
    }
}

/// The token scan of a bounded-repetition specifier, over the first `n`
/// child tokens: tracks whether a comma was seen and the minimum and
/// maximum counts resolved so far. `None` marks a token shape the
/// grammar's syntax rules out (or an unreadable count).
pub open spec fn repeat_scan(cs: Seq<ParseNode>, n: int) -> Option<(bool, Option<int>, Option<
    int,
>)>
    decreases n,
{
    if n <= 0 {
        Option::Some((false, Option::None, Option::None))
    } else {
        match repeat_scan(cs, n - 1) {
            Option::None => Option::None,
            Option::Some((comma, min, max)) => {
                let c = cs[n - 1];
                match kind_of(c.kind@) {
                    NodeKind::OpeningBrace => Option::Some((comma, min, max)),
                    NodeKind::ClosingBrace => if !comma {
                        // an exact count: the maximum is the minimum
                        Option::Some((comma, min, min))
                    } else {
                        // with a comma, absent bounds default to 0 and unbounded
                        Option::Some(
                            (
                                comma,
                                if min is None {
                                    Option::Some(0int)
                                } else {
                                    min
                                },
                                if max is None {
                                    Option::Some(u32::MAX as int)
                                } else {
                                    max
                                },
                            ),
                        )
                    },
                    NodeKind::Number => if is_digits(c.text@) && dec_val(c.text@) <= u32::MAX {
                        if comma {
                            Option::Some((comma, min, Option::Some(dec_val(c.text@))))
                        } else {
                            Option::Some((comma, Option::Some(dec_val(c.text@)), max))
                        }
                    } else {
                        Option::None
                    },
                    NodeKind::Comma => Option::Some((true, min, max)),
                    _ => Option::None,
                }
            },
        }
    }
}

/// Whether the specifier's tokens resolve to both a minimum and a maximum.
pub open spec fn repeat_ok(cs: Seq<ParseNode>) -> bool {
    match repeat_scan(cs, cs.len() as int) {
        Option::Some((_, Option::Some(_), Option::Some(_))) => true,
        _ => false,
    }
}

/// The resolved (minimum, maximum) of the specifier's tokens.
pub open spec fn repeat_bounds(cs: Seq<ParseNode>) -> (int, int) {
    let st = repeat_scan(cs, cs.len() as int)->0;
    (st.1->0, st.2->0)
}

/// The repetition's diagram shape: a mandatory loop when at least one
/// traversal is required, otherwise a loop with a bypass.
pub open spec fn repeat_shape(min: int, inner: DiagramView) -> DiagramView {
    if min > 0 {
        one_or_more(inner)
    } else {
        zero_or_more(inner)
    }
}

/// The human-readable caption of a resolved repetition range.
pub open spec fn repeat_label(min: int, max: int) -> Seq<char> {
    if min == max {
        "Repeat "@ + dec_str(min) + " time(s)"@
    } else if max == u32::MAX {
        "Repeat "@ + dec_str(min) + " or more times"@
    } else if min == 0 {
        "Repeat at most "@ + dec_str(max) + " time(s)"@
    } else {
        "Repeat between "@ + dec_str(min) + " and "@ + dec_str(max) + " time(s)"@
    }
}

/// The finished repetition subtree: the shape in a labeled box whose
/// caption is the range's comment.
pub open spec fn spec_repeat(cs: Seq<ParseNode>, inner: DiagramView) -> DiagramView {
    let (min, max) = repeat_bounds(cs);
    DiagramView::LabeledBox(
        Box::new(repeat_shape(min, inner)),
        Box::new(DiagramView::Comment(repeat_label(min, max))),
    )
}

/// Once the scan hits a token it cannot place, no continuation recovers.
proof fn lemma_repeat_scan_none(cs: Seq<ParseNode>, i: int, j: int)
    requires
        0 <= i <= j,
        repeat_scan(cs, i) is None,
    ensures
        repeat_scan(cs, j) is None,
    decreases j - i,
{
    if j > i {
        lemma_repeat_scan_none(cs, i, j - 1);
    }
}

/// Executable counterpart of `repeat_label`.
pub fn build_repeat_label(min: u32, max: u32) -> (s: String)
    ensures
        s@ == repeat_label(min as int, max as int),
{
    if min == max {
        let d = u32_to_dec(min);
        let mut s = ("Repeat ").to_owned();
        s.append(d.as_str());
        s.append(" time(s)");
        proof {
            assert(s@ =~= repeat_label(min as int, max as int));
        }
        s
    } else if max == u32::MAX {
        let d = u32_to_dec(min);
        let mut s = ("Repeat ").to_owned();
        s.append(d.as_str());
        s.append(" or more times");
        proof {
            assert(s@ =~= repeat_label(min as int, max as int));
        }
        s
    } else if min == 0 {
        let d = u32_to_dec(max);
        let mut s = ("Repeat at most ").to_owned();
        s.append(d.as_str());
        s.append(" time(s)");
        proof {
            assert(s@ =~= repeat_label(min as int, max as int));
        }
        s
    } else {
        let dmin = u32_to_dec(min);
        let dmax = u32_to_dec(max);
        let mut s = ("Repeat between ").to_owned();
        s.append(dmin.as_str());
        s.append(" and ");
        s.append(dmax.as_str());
        s.append(" time(s)");
        proof {
            assert(s@ =~= repeat_label(min as int, max as int));
        }
        s
    }
}

/// Resolves a bounded-repetition specifier's tokens and wraps the already
/// built inner node in the labeled repetition subtree. Fails only on token
/// shapes the grammar's own syntax rules out.
pub fn build_repeat(children: &Vec<ParseNode>, inner: DiagramNode) -> (r: Result<
    DiagramNode,
    DiagramError,
>)
    ensures
        r is Ok <==> repeat_ok(children@),
        r matches Ok(d) ==> d@ == spec_repeat(children@, inner@),
        r matches Err(e) ==> e is Malformed,
{
    let ghost pre = inner@;
    let mut comma_seen = false;
    let mut min_repeat: Option<u32> = None;
    let mut max_repeat: Option<u32> = None;
    let n = children.len();
    let mut i: usize = 0;
    while i < n
        invariant
            0 <= i <= n == children@.len(),
            repeat_scan(children@, i as int) == Option::Some(
                (comma_seen, opt_int(min_repeat), opt_int(max_repeat)),
            ),
        decreases n - i,
    {
        let c = &children[i];
        match classify(c.kind.as_str()) {
            NodeKind::OpeningBrace => {},
            NodeKind::ClosingBrace => {
                if !comma_seen {
                    max_repeat = min_repeat;
                } else {
                    if min_repeat.is_none() {
                        min_repeat = Some(0);
                    }
                    if max_repeat.is_none() {
                        max_repeat = Some(u32::MAX);
                    }
                }
            },
            NodeKind::Number => {
                match parse_u32(c.text.as_str()) {
                    Some(v) => {
                        if comma_seen {
                            max_repeat = Some(v);
                        } else {
                            min_repeat = Some(v);
                        }
                    },
                    None => {
                        proof {
                            lemma_repeat_scan_none(children@, i + 1, n as int);
                        }
                        return Err(DiagramError::Malformed);
                    },
                }
            },
            NodeKind::Comma => {
                comma_seen = true;
            },
            _ => {
                proof {
                    lemma_repeat_scan_none(children@, i + 1, n as int);
                }
                return Err(DiagramError::Malformed);
            },
        }
        i += 1;
    }
    match (min_repeat, max_repeat) {
        (Some(min), Some(max)) => {
            let shape = if min > 0 {
                make_one_or_more(inner)
            } else {
                make_zero_or_more(inner)
            };
            let label = build_repeat_label(min, max);
            let bshape = Box::new(shape);
            let blabel = Box::new(DiagramNode::Comment(label));
            let r = DiagramNode::LabeledBox(bshape, blabel);
            proof {
                assert(repeat_bounds(children@) == (min as int, max as int));
                assert((*bshape).dview() == repeat_shape(min as int, pre));
                assert((*blabel).dview() == DiagramView::Comment(
                    repeat_label(min as int, max as int),
                ));
                assert(r.dview() == spec_repeat(children@, pre));
            }
            Ok(r)
        },
        _ => Err(DiagramError::Malformed),
    }
}

} // verus!
