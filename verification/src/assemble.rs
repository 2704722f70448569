//! Per-level assembly steps: which children to fetch for a node, and how the
//! per-branch outcomes are filtered, in original order, into the reply list.

use vstd::prelude::*;
use crate::item::{Item, clone_ids, clone_opt_string, kids_of};
use crate::node::{CommentNode, NodeView, views_of_nodes};

verus! {

/// Whether a per-branch outcome survives: the branch must have resolved, and
/// the resolved node must carry body text.
pub open spec fn keeps(o: Option<NodeView>) -> bool {
    o is Some && o->0.text is Some
}

/// The branches that survive, in their original order: failed branches and
/// textless nodes are dropped, nothing is reordered.
pub open spec fn kept(rs: Seq<Option<NodeView>>) -> Seq<NodeView>
    decreases rs.len(),
{
    if rs.len() == 0 {
        Seq::empty()
    } else if keeps(rs.last()) {
        kept(rs.drop_last()).push(rs.last()->0)
    } else {
        kept(rs.drop_last())
    }
}

/// The child ids a node's resolution fetches next, given how much depth
/// remains.  At depth zero no children are fetched; a node without body text
/// is going to be dropped by whoever asked for it, so its children are not
/// fetched either; otherwise the item's own child list, in order.
pub open spec fn plan_spec(it: crate::item::ItemView, remaining_depth: u32) -> Seq<u32> {
    if remaining_depth > 0 && it.text is Some {
        kids_of(it)
    } else {
        Seq::empty()
    }
}

/// Decides which child ids to fetch for `item` with `remaining_depth` levels
/// of replies still wanted.
pub fn plan_children(item: &Item, remaining_depth: u32) -> (r: Vec<u32>)
    ensures
        r@ == plan_spec(item@, remaining_depth),
{
    if remaining_depth > 0 && item.text.is_some() {
        match &item.kids {
            Some(k) => clone_ids(k),
            None => Vec::new(),
        }
    } else {
        Vec::new()
    }
}

/// Keeps, in original branch order, the branches that resolved to a node with
/// body text; everything else is dropped.
pub fn filter_kept(results: Vec<Option<CommentNode>>) -> (r: Vec<CommentNode>)
    ensures
        views_of_nodes(r@) == kept(results.deep_view()),
{
    let n = results.len();
    let ghost full = results.deep_view();
    let mut src = results;
    let mut out: Vec<CommentNode> = Vec::new();
    let mut k: usize = 0;
    proof {
        assert(full.len() == n as int);
        assert(full.take(0) =~= Seq::<Option<NodeView>>::empty());
        assert(full.skip(0) =~= full);
    }
    while src.len() > 0
        invariant
            k <= n,
            k + src@.len() == n as int,
            full.len() == n as int,
            src.deep_view() == full.skip(k as int),
            views_of_nodes(out@) == kept(full.take(k as int)),
        decreases src@.len(),
    {
        let ghost src_before = src.deep_view();
        let first = src.remove(0);
        proof {
            assert(src.deep_view() =~= src_before.drop_first());
            assert(src_before.drop_first() =~= full.skip(k as int + 1));
            assert(first.deep_view() == src_before[0]);
            assert(src_before[0] == full[k as int]);
            assert(full.take(k as int + 1).drop_last() =~= full.take(k as int));
            assert(full.take(k as int + 1).last() == full[k as int]);
        }
        match first {
            Some(node) => {
                if node.text.is_some() {
                    let ghost out_before = out@;
                    out.push(node);
                    proof {
                        assert(out@.drop_last() =~= out_before);
                    }
                } else {
                    proof {
                        assert(!keeps(full[k as int]));
                    }
                }
            },
            None => {
                proof {
                    assert(!keeps(full[k as int]));
                }
            },
        }
        k = k + 1;
    }
    proof {
        assert(full.take(full.len() as int) =~= full);
    }
    out
}

/// Builds the node for `id` from its fetched item and the outcomes of its
/// child branches: the node carries the item's author, time and text, and as
/// replies the surviving branches in original order.
pub fn assemble_node(id: u32, item: &Item, children: Vec<Option<CommentNode>>) -> (r: CommentNode)
    ensures
        r@ == (NodeView {
            id,
            by: item@.by,
            time: item@.time,
            text: item@.text,
            replies: kept(children.deep_view()),
        }),
{
    let by = clone_opt_string(&item.by);
    let time = item.time;
    let text = clone_opt_string(&item.text);
    let replies = filter_kept(children);
    CommentNode { id, by, time, text, replies }
}

} // verus!
