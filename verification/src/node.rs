//! Assembled comment-tree nodes and their mathematical view.

use vstd::prelude::*;

verus! {

/// One node of the assembled comment tree: the comment's own fields plus its
/// resolved replies, in the order the upstream item listed them.
#[derive(Debug, PartialEq, Eq)]
pub struct CommentNode {
    pub id: u32,
    pub by: Option<String>,
    pub time: Option<u64>,
    pub text: Option<String>,
    pub replies: Vec<CommentNode>,
}

/// Mathematical model of a `CommentNode`: strings as character sequences,
/// replies as a sequence of models.
pub struct NodeView {
    pub id: u32,
    pub by: Option<Seq<char>>,
    pub time: Option<u64>,
    pub text: Option<Seq<char>>,
    pub replies: Seq<NodeView>,
}

impl View for CommentNode {
    type V = NodeView;

    open spec fn view(&self) -> NodeView
        decreases self,
    {
        NodeView {
            id: self.id,
            by: self.by.deep_view(),
            time: self.time,
            text: self.text.deep_view(),
            replies: views_of_nodes(self.replies@),
        }
    }
}

/// The models of a sequence of nodes, element by element.
pub open spec fn views_of_nodes(s: Seq<CommentNode>) -> Seq<NodeView>
    decreases s,
{
    if s.len() == 0 {
        Seq::empty()
    } else {
        views_of_nodes(s.drop_last()).push(s.last()@)
    }
}

impl DeepView for CommentNode {
    type V = NodeView;

    open spec fn deep_view(&self) -> NodeView {
        self@
    }
}

/// Holds when every node of the tree below `n` (the replies, their replies,
/// and so on, not `n` itself) carries body text.
pub open spec fn replies_have_text(n: NodeView) -> bool
    decreases n,
{
    forall|i: int|
        0 <= i < n.replies.len() ==> (#[trigger] n.replies[i]).text is Some
            && replies_have_text(n.replies[i])
}

} // verus!
