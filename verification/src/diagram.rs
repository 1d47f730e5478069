use vstd::prelude::*;

verus! {

/// One visual primitive of the output tree, a closed set of variants.
/// `Repeat`'s second child is the loop-back path, a rendering hint; the
/// whole tree is single-parent and immutable once built.
#[derive(Debug, PartialEq)]
pub enum DiagramNode {
    Terminal(String),
    NonTerminal(String),
    Comment(String),
    Sequence(Vec<DiagramNode>),
    Choice(Vec<DiagramNode>),
    Optional(Box<DiagramNode>),
    Repeat(Box<DiagramNode>, Box<DiagramNode>),
    LabeledBox(Box<DiagramNode>, Box<DiagramNode>),
    Empty,
    SimpleStart,
    SimpleEnd,
    VerticalGrid(Vec<DiagramNode>),
}

/// The mathematical shape of a diagram tree: labels as character sequences,
/// child lists as sequences.
#[verifier::ext_equal]
pub enum DiagramView {
    Terminal(Seq<char>),
    NonTerminal(Seq<char>),
    Comment(Seq<char>),
    Sequence(Seq<DiagramView>),
    Choice(Seq<DiagramView>),
    Optional(Box<DiagramView>),
    Repeat(Box<DiagramView>, Box<DiagramView>),
    LabeledBox(Box<DiagramView>, Box<DiagramView>),
    Empty,
    SimpleStart,
    SimpleEnd,
    VerticalGrid(Seq<DiagramView>),
}

impl DiagramNode {
    pub open spec fn dview(self) -> DiagramView
        decreases self,
    {
        match self {
            DiagramNode::Terminal(t) => DiagramView::Terminal(t@),
            DiagramNode::NonTerminal(t) => DiagramView::NonTerminal(t@),
            DiagramNode::Comment(t) => DiagramView::Comment(t@),
            DiagramNode::Sequence(cs) => DiagramView::Sequence(dview_seq(cs@)),
            DiagramNode::Choice(cs) => DiagramView::Choice(dview_seq(cs@)),
            DiagramNode::Optional(c) => DiagramView::Optional(Box::new((*c).dview())),
            DiagramNode::Repeat(f, b) => DiagramView::Repeat(
                Box::new((*f).dview()),
                Box::new((*b).dview()),
            ),
            DiagramNode::LabeledBox(c, l) => DiagramView::LabeledBox(
                Box::new((*c).dview()),
                Box::new((*l).dview()),
            ),
            DiagramNode::Empty => DiagramView::Empty,
            DiagramNode::SimpleStart => DiagramView::SimpleStart,
            DiagramNode::SimpleEnd => DiagramView::SimpleEnd,
            DiagramNode::VerticalGrid(cs) => DiagramView::VerticalGrid(dview_seq(cs@)),
        }
    }
}

pub open spec fn dview_seq(cs: Seq<DiagramNode>) -> Seq<DiagramView>
    decreases cs,
{
    if cs.len() == 0 {
        Seq::empty()
    } else {
        dview_seq(cs.drop_last()).push(cs.last().dview())
    }
}

pub broadcast proof fn lemma_dview_seq(cs: Seq<DiagramNode>)
    ensures
        (#[trigger] dview_seq(cs)).len() == cs.len(),
        forall|i: int| 0 <= i < cs.len() ==> #[trigger] dview_seq(cs)[i] == cs[i].dview(),
    decreases cs,
{
    if cs.len() > 0 {
        lemma_dview_seq(cs.drop_last());
    }
}

impl View for DiagramNode {
    type V = DiagramView;

    open spec fn view(&self) -> DiagramView {
        (*self).dview()
    }
}

impl DeepView for DiagramNode {
    type V = DiagramView;

    open spec fn deep_view(&self) -> DiagramView {
        (*self).dview()
    }
}

/// The shape of a zero-or-more repetition: loop around the element, with an
/// explicit bypass alternative.
pub open spec fn zero_or_more(inner: DiagramView) -> DiagramView {
    DiagramView::Choice(
        seq![
            DiagramView::Empty,
            DiagramView::Repeat(Box::new(inner), Box::new(DiagramView::Empty)),
        ],
    )
}

/// The shape of a one-or-more repetition: the element is traversed at least
/// once, looping back over an empty path.
pub open spec fn one_or_more(inner: DiagramView) -> DiagramView {
    DiagramView::Repeat(Box::new(inner), Box::new(DiagramView::Empty))
}

/// Executable counterpart of `zero_or_more`.
pub fn make_zero_or_more(inner: DiagramNode) -> (r: DiagramNode)
    ensures
        r@ == zero_or_more(inner@),
{
    let ghost pre = inner@;
    let rep = make_one_or_more(inner);
    let mut cs: Vec<DiagramNode> = Vec::new();
    cs.push(DiagramNode::Empty);
    cs.push(rep);
    let r = DiagramNode::Choice(cs);
    proof {
        lemma_dview_seq(cs@);
        assert(dview_seq(cs@) =~= seq![DiagramView::Empty, one_or_more(pre)]);
        assert(r.dview() == DiagramView::Choice(dview_seq(cs@)));
        assert(r.dview() =~= zero_or_more(pre));
    }
    r
}

/// Executable counterpart of `one_or_more`.
pub fn make_one_or_more(inner: DiagramNode) -> (r: DiagramNode)
    ensures
        r@ == one_or_more(inner@),
{
    let ghost pre = inner@;
    let f = Box::new(inner);
    let b = Box::new(DiagramNode::Empty);
    let r = DiagramNode::Repeat(f, b);
    proof {
        assert((*f).dview() == pre);
        assert((*b).dview() == DiagramView::Empty);
        assert(r.dview() == one_or_more(pre));
    }
    r
}

} // verus!
