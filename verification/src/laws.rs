//! The guarantees the aggregator gives, stated over the mathematical model
//! and proved once and for all: which ids are ever fetched, what survives the
//! filter, how failures propagate, and that the whole computation is a
//! function of the snapshot.

use vstd::prelude::*;
use crate::aggregate::{AggView, aggregate_spec, depth_or_default, take_limit};
use crate::assemble::{keeps, kept};
use crate::item::kids_of;
use crate::node::{NodeView, replies_have_text};
use crate::resolve::{lemma_resolve_list_index, resolve_list, resolve_spec};
use crate::upstream::{AggError, EntryView, OutcomeView, fetch_spec, lookup};

verus! {

/// The ids a resolution of `id` at `depth` ever looks up: `id` itself, and —
/// only when the item arrives, carries text, and depth remains — the ids its
/// child branches look up in turn.  This mirrors `resolve_spec` lookup for
/// lookup: a failed or textless or depth-exhausted node expands no further.
pub open spec fn resolve_fetched(s: Seq<EntryView>, id: u32, depth: u32) -> Set<u32>
    decreases depth, 0int,
{
    match fetch_spec(s, id) {
        Ok(it) => if depth > 0 && it.text is Some {
            set![id].union(list_fetched(s, kids_of(it), (depth - 1) as u32))
        } else {
            set![id]
        },
        Err(_) => set![id],
    }
}

/// The ids a list of branches, each resolved at `depth`, ever looks up.
pub open spec fn list_fetched(s: Seq<EntryView>, ids: Seq<u32>, depth: u32) -> Set<u32>
    decreases depth, ids.len() + 1,
{
    if ids.len() == 0 {
        Set::empty()
    } else {
        list_fetched(s, ids.drop_last(), depth).union(resolve_fetched(s, ids.last(), depth))
    }
}

/// The ids an aggregation ever looks up: the root, and — only when the root
/// arrives and is a story — what the retained top-level branches look up.
pub open spec fn aggregate_fetched(
    s: Seq<EntryView>,
    story_id: u32,
    max_depth: Option<u32>,
    limit: Option<usize>,
) -> Set<u32> {
    match fetch_spec(s, story_id) {
        Err(_) => set![story_id],
        Ok(it) => if it.item_type != "story"@ {
            set![story_id]
        } else {
            set![story_id].union(
                list_fetched(s, take_limit(kids_of(it), limit), depth_or_default(max_depth)),
            )
        },
    }
}

/// A faithful snapshot: whatever item an id resolves to carries that id.
/// The real upstream keeps this; nothing else here depends on it.
pub open spec fn wf_snapshot(s: Seq<EntryView>) -> bool {
    forall|i: int|
        0 <= i < s.len() ==> ((#[trigger] s[i]).outcome is Success ==> s[i].outcome->Success_0.id
            == s[i].id)
}

pub proof fn lemma_lookup_wf(s: Seq<EntryView>, id: u32)
    requires
        wf_snapshot(s),
    ensures
        lookup(s, id) is Some && lookup(s, id)->0 is Success ==> lookup(s, id)->0->Success_0.id == id,
    decreases s.len(),
{
    if s.len() > 0 && s[0].id != id {
        assert(wf_snapshot(s.drop_first())) by {
            assert forall|i: int|
                0 <= i < s.drop_first().len() implies ((#[trigger] s.drop_first()[i]).outcome
                is Success ==> s.drop_first()[i].outcome->Success_0.id == s.drop_first()[i].id) by {
                assert(s.drop_first()[i] == s[i + 1]);
            }
        }
        lemma_lookup_wf(s.drop_first(), id);
    }
}

/// Every element of `kept(rs)` is the node of some surviving branch of `rs`.
pub proof fn lemma_kept_member(rs: Seq<Option<NodeView>>, k: int)
    requires
        0 <= k < kept(rs).len(),
    ensures
        exists|j: int| 0 <= j < rs.len() && rs[j] == Some(kept(rs)[k]) && keeps(#[trigger] rs[j]),
    decreases rs.len(),
{
    if rs.len() > 0 {
        if keeps(rs.last()) && k == kept(rs).len() - 1 {
            assert(rs[rs.len() - 1] == Some(kept(rs)[k]) && keeps(rs[rs.len() - 1]));
        } else {
            lemma_kept_member(rs.drop_last(), k);
            let j = choose|j: int|
                0 <= j < rs.drop_last().len() && rs.drop_last()[j] == Some(
                    kept(rs.drop_last())[k],
                ) && keeps(#[trigger] rs.drop_last()[j]);
            assert(rs[j] == Some(kept(rs)[k]) && keeps(rs[j]));
        }
    }
}

/// The requested story is the one returned: a successful aggregation of
/// `story_id` against a faithful snapshot yields a story item with that very
/// id; and a root of any other kind is rejected as `WrongKind` after the one
/// root fetch, with nothing else ever fetched.
pub proof fn lemma_story_identity(
    s: Seq<EntryView>,
    story_id: u32,
    max_depth: Option<u32>,
    limit: Option<usize>,
)
    requires
        wf_snapshot(s),
    ensures
        aggregate_spec(s, story_id, max_depth, limit) is Ok ==> {
            let res = aggregate_spec(s, story_id, max_depth, limit)->Ok_0;
            res.story.id == story_id && res.story.item_type == "story"@
        },
        fetch_spec(s, story_id) is Ok && fetch_spec(s, story_id)->Ok_0.item_type != "story"@
            ==> aggregate_spec(s, story_id, max_depth, limit) == Err::<AggView, AggError>(
            AggError::WrongKind { id: story_id },
        ) && aggregate_fetched(s, story_id, max_depth, limit) == set![story_id],
{
    lemma_lookup_wf(s, story_id);
}

/// A root whose own fetch fails takes the whole aggregation down with exactly
/// that error, and nothing beyond the root is ever fetched.
pub proof fn lemma_root_failure(
    s: Seq<EntryView>,
    story_id: u32,
    max_depth: Option<u32>,
    limit: Option<usize>,
)
    requires
        fetch_spec(s, story_id) is Err,
    ensures
        aggregate_spec(s, story_id, max_depth, limit) == Err::<AggView, AggError>(
            AggError::Upstream { err: fetch_spec(s, story_id)->Err_0 },
        ),
        aggregate_fetched(s, story_id, max_depth, limit) == set![story_id],
{
}

/// Aggregation succeeds exactly when the root item arrives and is a story:
/// no branch outcome — failed fetch, missing text, anything — can take the
/// whole request down.
pub proof fn lemma_partial_failure_isolated(
    s: Seq<EntryView>,
    story_id: u32,
    max_depth: Option<u32>,
    limit: Option<usize>,
)
    ensures
        aggregate_spec(s, story_id, max_depth, limit) is Ok <==> (fetch_spec(s, story_id) is Ok
            && fetch_spec(s, story_id)->Ok_0.item_type == "story"@),
{
}

pub proof fn lemma_list_fetched_member(s: Seq<EntryView>, ids: Seq<u32>, depth: u32, x: u32)
    requires
        list_fetched(s, ids, depth).contains(x),
    ensures
        exists|i: int|
            0 <= i < ids.len() && resolve_fetched(s, #[trigger] ids[i], depth).contains(x),
    decreases ids.len(),
{
    if ids.len() > 0 {
        if resolve_fetched(s, ids.last(), depth).contains(x) {
            assert(resolve_fetched(s, ids[ids.len() - 1], depth).contains(x));
        } else {
            lemma_list_fetched_member(s, ids.drop_last(), depth, x);
            let i = choose|i: int|
                0 <= i < ids.drop_last().len() && resolve_fetched(
                    s,
                    #[trigger] ids.drop_last()[i],
                    depth,
                ).contains(x);
            assert(resolve_fetched(s, ids[i], depth).contains(x));
        }
    }
}

/// Breadth limiting: under a limit of `limit`, every id the aggregation ever
/// looks up is the root itself or is looked up by one of the first `limit`
/// child branches — the children beyond the limit trigger nothing.
pub proof fn lemma_breadth_limit(
    s: Seq<EntryView>,
    story_id: u32,
    max_depth: Option<u32>,
    limit: usize,
    x: u32,
)
    requires
        aggregate_fetched(s, story_id, max_depth, Some(limit)).contains(x),
        x != story_id,
    ensures
        fetch_spec(s, story_id) is Ok,
        fetch_spec(s, story_id)->Ok_0.item_type == "story"@,
        exists|i: int|
            0 <= i < limit && i < kids_of(fetch_spec(s, story_id)->Ok_0).len()
                && resolve_fetched(
                s,
                #[trigger] kids_of(fetch_spec(s, story_id)->Ok_0)[i],
                depth_or_default(max_depth),
            ).contains(x),
{
    let root = fetch_spec(s, story_id)->Ok_0;
    let kids = kids_of(root);
    let taken = take_limit(kids, Some(limit));
    let d = depth_or_default(max_depth);
    lemma_list_fetched_member(s, taken, d, x);
    let i = choose|i: int|
        0 <= i < taken.len() && resolve_fetched(s, #[trigger] taken[i], d).contains(x);
    assert(taken[i] == kids[i]);
    assert(resolve_fetched(s, kids[i], d).contains(x));
}

/// Depth limiting: at depth zero every returned top-level node has an empty
/// reply list, whatever children its item announces.
pub proof fn lemma_depth_zero(s: Seq<EntryView>, story_id: u32, limit: Option<usize>)
    ensures
        aggregate_spec(s, story_id, Some(0), limit) is Ok ==> {
            let comments = aggregate_spec(s, story_id, Some(0), limit)->Ok_0.comments;
            forall|i: int|
                0 <= i < comments.len() ==> (#[trigger] comments[i]).replies.len() == 0
        },
{
    if aggregate_spec(s, story_id, Some(0), limit) is Ok {
        let root = fetch_spec(s, story_id)->Ok_0;
        let taken = take_limit(kids_of(root), limit);
        let rl = resolve_list(s, taken, 0);
        let comments = aggregate_spec(s, story_id, Some(0), limit)->Ok_0.comments;
        lemma_resolve_list_index(s, taken, 0);
        assert forall|i: int|
            0 <= i < comments.len() implies (#[trigger] comments[i]).replies.len() == 0 by {
            lemma_kept_member(rl, i);
            let j = choose|j: int| 0 <= j < rl.len() && rl[j] == Some(kept(rl)[i]) && keeps(#[trigger] rl[j]);
            assert(rl[j] == resolve_spec(s, taken[j], 0));
        }
    }
}

/// Ordering: the surviving branches come out as the in-order filter of the
/// branch outcomes — original child order, never completion order.
pub proof fn lemma_kept_is_ordered_filter(rs: Seq<Option<NodeView>>)
    ensures
        kept(rs) == rs.filter(|o: Option<NodeView>| keeps(o)).map_values(
            |o: Option<NodeView>| o->0,
        ),
    decreases rs.len(),
{
    reveal(Seq::filter);
    let pred = |o: Option<NodeView>| keeps(o);
    let f = |o: Option<NodeView>| o->0;
    if rs.len() == 0 {
        assert(kept(rs) =~= rs.filter(pred).map_values(f));
    } else {
        lemma_kept_is_ordered_filter(rs.drop_last());
        if pred(rs.last()) {
            assert(rs.filter(pred) == rs.drop_last().filter(pred).push(rs.last()));
            assert(rs.filter(pred).map_values(f) =~= rs.drop_last().filter(pred).map_values(
                f,
            ).push(f(rs.last())));
            assert(kept(rs) =~= rs.filter(pred).map_values(f));
        } else {
            assert(rs.filter(pred) == rs.drop_last().filter(pred));
            assert(kept(rs) =~= rs.filter(pred).map_values(f));
        }
    }
}

/// Filtering, within one resolved branch: every reply anywhere below a
/// resolved node carries body text — textless nodes never survive.
pub proof fn lemma_resolve_filtered(s: Seq<EntryView>, id: u32, depth: u32)
    ensures
        resolve_spec(s, id, depth) is Some ==> replies_have_text(resolve_spec(s, id, depth)->0),
    decreases depth, 0int,
{
    if fetch_spec(s, id) is Ok {
        let it = fetch_spec(s, id)->Ok_0;
        let n = resolve_spec(s, id, depth)->0;
        if depth > 0 && it.text is Some {
            let d2 = (depth - 1) as u32;
            let rl = resolve_list(s, kids_of(it), d2);
            lemma_list_filtered(s, kids_of(it), d2);
            lemma_resolve_list_index(s, kids_of(it), d2);
            assert forall|i: int|
                0 <= i < n.replies.len() implies (#[trigger] n.replies[i]).text is Some
                && replies_have_text(n.replies[i]) by {
                lemma_kept_member(rl, i);
                let j = choose|j: int| 0 <= j < rl.len() && rl[j] == Some(kept(rl)[i]) && keeps(#[trigger] rl[j]);
                assert(rl[j] == resolve_spec(s, kids_of(it)[j], d2));
            }
            assert(replies_have_text(n));
        } else {
            assert(replies_have_text(n));
        }
    }
}

pub proof fn lemma_list_filtered(s: Seq<EntryView>, ids: Seq<u32>, depth: u32)
    ensures
        forall|i: int|
            0 <= i < ids.len() ==> (resolve_spec(s, #[trigger] ids[i], depth) is Some
                ==> replies_have_text(resolve_spec(s, ids[i], depth)->0)),
    decreases depth, 1int,
{
    assert forall|i: int|
        0 <= i < ids.len() && resolve_spec(s, #[trigger] ids[i], depth) is Some
        implies replies_have_text(resolve_spec(s, ids[i], depth)->0) by {
        lemma_resolve_filtered(s, ids[i], depth);
    }
}

/// Filtering, at the top level: every returned comment tree carries body
/// text at its root and everywhere below it.
pub proof fn lemma_aggregate_filtered(
    s: Seq<EntryView>,
    story_id: u32,
    max_depth: Option<u32>,
    limit: Option<usize>,
)
    ensures
        aggregate_spec(s, story_id, max_depth, limit) is Ok ==> {
            let comments = aggregate_spec(s, story_id, max_depth, limit)->Ok_0.comments;
            forall|i: int|
                0 <= i < comments.len() ==> (#[trigger] comments[i]).text is Some
                    && replies_have_text(comments[i])
        },
{
    if aggregate_spec(s, story_id, max_depth, limit) is Ok {
        let root = fetch_spec(s, story_id)->Ok_0;
        let taken = take_limit(kids_of(root), limit);
        let d = depth_or_default(max_depth);
        let rl = resolve_list(s, taken, d);
        let comments = aggregate_spec(s, story_id, max_depth, limit)->Ok_0.comments;
        lemma_resolve_list_index(s, taken, d);
        lemma_list_filtered(s, taken, d);
        assert forall|i: int|
            0 <= i < comments.len() implies (#[trigger] comments[i]).text is Some
            && replies_have_text(comments[i]) by {
            lemma_kept_member(rl, i);
            let j = choose|j: int| 0 <= j < rl.len() && rl[j] == Some(kept(rl)[i]) && keeps(#[trigger] rl[j]);
            assert(rl[j] == resolve_spec(s, taken[j], d));
        }
    }
}

/// Filtering, at the fetch level: a node without body text is a dead end —
/// resolving it looks nothing else up and returns a node with no replies.
pub proof fn lemma_textless_not_expanded(s: Seq<EntryView>, id: u32, depth: u32)
    requires
        fetch_spec(s, id) is Ok,
        fetch_spec(s, id)->Ok_0.text is None,
    ensures
        resolve_fetched(s, id, depth) == set![id],
        resolve_spec(s, id, depth)->0.replies == Seq::<NodeView>::empty(),
{
}

/// Partial-failure isolation, branch by branch: a branch whose resolution
/// fails contributes nothing, and the surviving output is exactly what the
/// remaining branches alone would have produced.
pub proof fn lemma_branch_isolation(s: Seq<EntryView>, ids: Seq<u32>, depth: u32, k: int)
    requires
        0 <= k < ids.len(),
        resolve_spec(s, ids[k], depth) is None,
    ensures
        kept(resolve_list(s, ids, depth)) == kept(resolve_list(s, ids.remove(k), depth)),
    decreases ids.len(),
{
    let a = resolve_list(s, ids.drop_last(), depth);
    let x = resolve_spec(s, ids.last(), depth);
    assert(resolve_list(s, ids, depth) == a.push(x));
    assert(a.push(x).drop_last() =~= a);
    if k == ids.len() - 1 {
        assert(ids.remove(k) =~= ids.drop_last());
        assert(!keeps(x));
    } else {
        assert(ids.drop_last()[k] == ids[k]);
        lemma_branch_isolation(s, ids.drop_last(), depth, k);
        assert(ids.remove(k).drop_last() =~= ids.drop_last().remove(k));
        assert(ids.remove(k).last() == ids.last());
        let b = resolve_list(s, ids.drop_last().remove(k), depth);
        assert(resolve_list(s, ids.remove(k), depth) == b.push(x));
        assert(b.push(x).drop_last() =~= b);
    }
}

/// The aggregation is a function of the snapshot and the parameters alone:
/// two runs against an unchanged snapshot yield the same document.
pub proof fn lemma_idempotent(
    s: Seq<EntryView>,
    story_id: u32,
    max_depth: Option<u32>,
    limit: Option<usize>,
    r1: Result<AggView, AggError>,
    r2: Result<AggView, AggError>,
)
    requires
        r1 == aggregate_spec(s, story_id, max_depth, limit),
        r2 == aggregate_spec(s, story_id, max_depth, limit),
    ensures
        r1 == r2,
{
}

} // verus!
