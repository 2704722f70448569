//! The story aggregator: validates the root item, applies the top-level
//! breadth limit, drives tree resolution for each retained child, and collects
//! the surviving comment trees in order.

use vstd::prelude::*;
use crate::assemble::{filter_kept, kept};
use crate::item::{Item, ItemView, clone_ids, kids_of};
use crate::node::{CommentNode, NodeView, views_of_nodes};
use crate::resolve::{resolve_branches, resolve_list};
use crate::upstream::{AggError, EntryView, FetchError, Upstream, fetch_spec};

verus! {

/// How many levels of replies are resolved when the caller supplies no depth.
pub const DEFAULT_DEPTH: u32 = 10;

/// The depth to resolve at: the caller's, or the default.
pub open spec fn depth_or_default(max_depth: Option<u32>) -> u32 {
    match max_depth {
        Some(d) => d,
        None => DEFAULT_DEPTH,
    }
}

/// The child ids retained at the top level: the first `limit` of them when a
/// limit is supplied, all of them otherwise.
pub open spec fn take_limit(ids: Seq<u32>, limit: Option<usize>) -> Seq<u32> {
    match limit {
        Some(l) => if l < ids.len() {
            ids.take(l as int)
        } else {
            ids
        },
        None => ids,
    }
}

/// The assembled document: the root story item and the surviving top-level
/// comment trees, in the story's child-id order.
#[derive(Debug, PartialEq, Eq)]
pub struct AggregateResult {
    pub story: Item,
    pub comments: Vec<CommentNode>,
}

/// Mathematical model of an `AggregateResult`.
pub struct AggView {
    pub story: ItemView,
    pub comments: Seq<NodeView>,
}

impl View for AggregateResult {
    type V = AggView;

    open spec fn view(&self) -> AggView {
        AggView { story: self.story@, comments: views_of_nodes(self.comments@) }
    }
}

/// What aggregating `story_id` yields against the snapshot `s`: the error
/// when the root fetch fails or the root is not a story, else the story with
/// the surviving trees of its retained children.
pub open spec fn aggregate_spec(
    s: Seq<EntryView>,
    story_id: u32,
    max_depth: Option<u32>,
    limit: Option<usize>,
) -> Result<AggView, AggError> {
    match fetch_spec(s, story_id) {
        Err(e) => Err(AggError::Upstream { err: e }),
        Ok(it) => if it.item_type != "story"@ {
            Err(AggError::WrongKind { id: story_id })
        } else {
            Ok(
                AggView {
                    story: it,
                    comments: kept(
                        resolve_list(
                            s,
                            take_limit(kids_of(it), limit),
                            depth_or_default(max_depth),
                        ),
                    ),
                },
            )
        },
    }
}

/// Whether the item's kind tag is "story".
pub fn is_story(item: &Item) -> (r: bool)
    ensures
        r == (item@.item_type == "story"@),
{
    item.item_type == "story".to_owned()
}

/// The top-level child ids to drive branches for: the story's child list,
/// truncated to the first `limit` entries when a limit is supplied.
pub fn plan_branches(story: &Item, limit: Option<usize>) -> (r: Vec<u32>)
    ensures
        r@ == take_limit(kids_of(story@), limit),
{
    let mut kids: Vec<u32> = match &story.kids {
        Some(k) => clone_ids(k),
        None => Vec::new(),
    };
    match limit {
        Some(l) => {
            if l < kids.len() {
                kids.truncate(l);
                proof {
                    assert(kids@ =~= take_limit(kids_of(story@), limit));
                }
            }
            kids
        },
        None => kids,
    }
}

/// Aggregates the story `story_id`: fetches the root item, fails with the
/// fetch's error or with `WrongKind` when the root is no story, and otherwise
/// resolves each retained top-level child — at `max_depth` levels, ten when
/// absent — dropping failed and textless branches, exactly as
/// `aggregate_spec` states.
pub fn aggregate(
    store: &Upstream,
    story_id: u32,
    max_depth: Option<u32>,
    limit: Option<usize>,
) -> (r: Result<AggregateResult, AggError>)
    ensures
        match r {
            Ok(res) => aggregate_spec(store@, story_id, max_depth, limit) == Ok::<
                AggView,
                AggError,
            >(res@),
            Err(e) => aggregate_spec(store@, story_id, max_depth, limit) == Err::<
                AggView,
                AggError,
            >(e),
        },
{
    let story = match store.fetch_item(story_id) {
        Ok(item) => item,
        Err(e) => {
            return Err(AggError::Upstream { err: e });
        },
    };
    if !is_story(&story) {
        return Err(AggError::WrongKind { id: story_id });
    }
    let branch_ids = plan_branches(&story, limit);
    let depth = match max_depth {
        Some(d) => d,
        None => DEFAULT_DEPTH,
    };
    let results = resolve_branches(store, &branch_ids, depth, Ghost(depth as int + 1));
    let comments = filter_kept(results);
    Ok(AggregateResult { story, comments })
}

} // verus!
