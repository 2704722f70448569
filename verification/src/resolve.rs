//! The recursive tree resolver: fetch one item, resolve its children up to
//! the remaining depth, keep the surviving branches in original order.

use vstd::prelude::*;
use crate::assemble::{assemble_node, kept, plan_children, plan_spec};
use crate::item::kids_of;
use crate::node::{CommentNode, NodeView};
use crate::upstream::{EntryView, FetchError, Upstream, fetch_spec};

verus! {

/// What resolving `id` with `depth` levels of replies still wanted yields
/// against the snapshot `s`: `None` when the item's own fetch fails, else the
/// assembled node.  A node's replies are the surviving child branches, in the
/// child-id order of its item; at depth zero, and below a node without body
/// text, no children are resolved at all.
pub open spec fn resolve_spec(s: Seq<EntryView>, id: u32, depth: u32) -> Option<NodeView>
    decreases depth, 0int,
{
    match fetch_spec(s, id) {
        Ok(it) => Some(
            NodeView {
                id,
                by: it.by,
                time: it.time,
                text: it.text,
                replies: if depth > 0 && it.text is Some {
                    kept(resolve_list(s, kids_of(it), (depth - 1) as u32))
                } else {
                    Seq::empty()
                },
            },
        ),
        Err(_) => None,
    }
}

/// The per-branch outcomes for a list of child ids, each resolved at `depth`,
/// in the order of the list.
pub open spec fn resolve_list(s: Seq<EntryView>, ids: Seq<u32>, depth: u32) -> Seq<
    Option<NodeView>,
>
    decreases depth, ids.len() + 1,
{
    if ids.len() == 0 {
        Seq::empty()
    } else {
        resolve_list(s, ids.drop_last(), depth).push(resolve_spec(s, ids.last(), depth))
    }
}

pub proof fn lemma_resolve_list_index(s: Seq<EntryView>, ids: Seq<u32>, depth: u32)
    ensures
        resolve_list(s, ids, depth).len() == ids.len(),
        forall|i: int|
            0 <= i < ids.len() ==> resolve_list(s, ids, depth)[i] == resolve_spec(
                s,
                ids[i],
                depth,
            ),
    decreases ids.len(),
{
    if ids.len() > 0 {
        lemma_resolve_list_index(s, ids.drop_last(), depth);
        assert forall|i: int|
            0 <= i < ids.len() implies resolve_list(s, ids, depth)[i] == resolve_spec(
            s,
            ids[i],
            depth,
        ) by {
            if i < ids.len() - 1 {
                assert(resolve_list(s, ids, depth)[i] == resolve_list(
                    s,
                    ids.drop_last(),
                    depth,
                )[i]);
                assert(ids.drop_last()[i] == ids[i]);
            } else {
                assert(ids.last() == ids[i]);
            }
        }
    }
}

/// Resolves the subtree rooted at `id`: fetches the item, and if the fetch
/// fails the whole call fails with that fetch's error — the caller drops this
/// one branch.  Otherwise the node is assembled from the item and its
/// resolved children, exactly as `resolve_spec` states.
pub fn resolve_comment(store: &Upstream, id: u32, remaining_depth: u32) -> (r: Result<
    CommentNode,
    FetchError,
>)
    ensures
        match r {
            Ok(node) => resolve_spec(store@, id, remaining_depth) == Some(node@),
            Err(e) => fetch_spec(store@, id) == Err::<crate::item::ItemView, FetchError>(e)
                && resolve_spec(store@, id, remaining_depth) is None,
        },
    decreases remaining_depth, 1int,
{
    match store.fetch_item(id) {
        Err(e) => Err(e),
        Ok(item) => {
            let kid_ids = plan_children(&item, remaining_depth);
            let next_depth = if remaining_depth > 0 {
                remaining_depth - 1
            } else {
                0
            };
            let results = resolve_branches(store, &kid_ids, next_depth, Ghost(remaining_depth as int));
            proof {
                if !(remaining_depth > 0 && item@.text is Some) {
                    assert(plan_spec(item@, remaining_depth) == Seq::<u32>::empty());
                    assert(results.deep_view() =~= Seq::<Option<NodeView>>::empty());
                }
            }
            Ok(assemble_node(id, &item, results))
        },
    }
}

/// Resolves every id of `ids` at `depth`, recording each branch's outcome in
/// order: a failed branch is `None`, never a stop for its siblings.
///
/// `fuel` bounds the recursion: callers pass their own remaining depth, which
/// exceeds `depth` whenever `ids` is nonempty.
pub fn resolve_branches(
    store: &Upstream,
    ids: &Vec<u32>,
    depth: u32,
    Ghost(fuel): Ghost<int>,
) -> (r: Vec<Option<CommentNode>>)
    requires
        ids@.len() > 0 ==> depth < fuel,
    ensures
        r.deep_view() == resolve_list(store@, ids@, depth),
    decreases fuel, 0int,
{
    let mut r: Vec<Option<CommentNode>> = Vec::new();
    let mut i: usize = 0;
    proof {
        lemma_resolve_list_index(store@, ids@.take(0), depth);
        assert(r.deep_view() =~= resolve_list(store@, ids@.take(0), depth));
    }
    while i < ids.len()
        invariant
            i <= ids@.len(),
            ids@.len() > 0 ==> depth < fuel,
            r.deep_view() == resolve_list(store@, ids@.take(i as int), depth),
        decreases ids@.len() - i,
    {
        let ghost r_before = r.deep_view();
        let c = resolve_comment(store, ids[i], depth);
        let entry = match c {
            Ok(node) => Some(node),
            Err(_) => None,
        };
        r.push(entry);
        proof {
            assert(r.deep_view() =~= r_before.push(entry.deep_view()));
            assert(ids@.take(i as int + 1).drop_last() =~= ids@.take(i as int));
            assert(ids@.take(i as int + 1).last() == ids@[i as int]);
            assert(entry.deep_view() == resolve_spec(store@, ids@[i as int], depth));
        }
        i = i + 1;
    }
    proof {
        assert(ids@.take(ids@.len() as int) =~= ids@);
    }
    r
}

} // verus!
