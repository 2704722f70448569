use hn_comments::aggregate::{AggregateResult, aggregate, DEFAULT_DEPTH};
use hn_comments::item::Item;
use hn_comments::node::CommentNode;
use hn_comments::upstream::{AggError, FetchError, FetchOutcome, Upstream};

fn item(id: u32, kind: &str, text: Option<&str>, kids: Option<Vec<u32>>) -> Item {
    Item {
        id,
        item_type: kind.to_string(),
        deleted: None,
        by: Some(format!("user{}", id)),
        time: Some(1_000_000 + id as u64),
        text: text.map(|t| t.to_string()),
        dead: None,
        parent: None,
        poll: None,
        kids,
        url: None,
        score: None,
        title: None,
        parts: None,
        descendants: None,
    }
}

fn store_of(entries: Vec<(u32, FetchOutcome)>) -> Upstream {
    let mut st = Upstream::new();
    for (id, outcome) in entries {
        st.record(id, outcome);
    }
    st
}

fn ids_of(comments: &[CommentNode]) -> Vec<u32> {
    comments.iter().map(|c| c.id).collect()
}

#[test]
fn story_identity_and_children() {
    let st = store_of(vec![
        (1, FetchOutcome::Success(item(1, "story", None, Some(vec![2, 3])))),
        (2, FetchOutcome::Success(item(2, "comment", Some("first"), None))),
        (3, FetchOutcome::Success(item(3, "comment", Some("second"), None))),
    ]);
    let res = aggregate(&st, 1, None, None).unwrap();
    assert_eq!(res.story.id, 1);
    assert_eq!(res.story.item_type, "story");
    assert_eq!(ids_of(&res.comments), vec![2, 3]);
    assert_eq!(res.comments[0].text.as_deref(), Some("first"));
    assert_eq!(res.comments[0].by.as_deref(), Some("user2"));
}

#[test]
fn non_story_root_is_wrong_kind() {
    let st = store_of(vec![
        (7, FetchOutcome::Success(item(7, "comment", Some("not a story"), None))),
    ]);
    let err = aggregate(&st, 7, None, None).unwrap_err();
    assert_eq!(err, AggError::WrongKind { id: 7 });
}

#[test]
fn breadth_limit_keeps_first_children() {
    let kids: Vec<u32> = (2..=11).collect();
    let mut entries = vec![
        (1, FetchOutcome::Success(item(1, "story", None, Some(kids.clone())))),
    ];
    for k in kids {
        let body = format!("comment {}", k);
        entries.push((k, FetchOutcome::Success(item(k, "comment", Some(&body), None))));
    }
    let st = store_of(entries);
    let res = aggregate(&st, 1, None, Some(3)).unwrap();
    assert_eq!(ids_of(&res.comments), vec![2, 3, 4]);
}

#[test]
fn breadth_limit_ignores_missing_tail() {
    // The children beyond the limit are not even present in the snapshot:
    // since they are never fetched, the result is unaffected.
    let st = store_of(vec![
        (1, FetchOutcome::Success(item(1, "story", None, Some(vec![2, 3, 4, 5])))),
        (2, FetchOutcome::Success(item(2, "comment", Some("a"), None))),
        (3, FetchOutcome::Success(item(3, "comment", Some("b"), None))),
    ]);
    let res = aggregate(&st, 1, None, Some(2)).unwrap();
    assert_eq!(ids_of(&res.comments), vec![2, 3]);
}

#[test]
fn depth_zero_gives_leaf_comments() {
    let st = store_of(vec![
        (1, FetchOutcome::Success(item(1, "story", None, Some(vec![2])))),
        (2, FetchOutcome::Success(item(2, "comment", Some("top"), Some(vec![3])))),
        (3, FetchOutcome::Success(item(3, "comment", Some("reply"), None))),
    ]);
    let res = aggregate(&st, 1, Some(0), None).unwrap();
    assert_eq!(ids_of(&res.comments), vec![2]);
    assert!(res.comments[0].replies.is_empty());
}

#[test]
fn depth_one_gives_one_reply_level() {
    let st = store_of(vec![
        (1, FetchOutcome::Success(item(1, "story", None, Some(vec![2])))),
        (2, FetchOutcome::Success(item(2, "comment", Some("top"), Some(vec![3])))),
        (3, FetchOutcome::Success(item(3, "comment", Some("reply"), Some(vec![4])))),
        (4, FetchOutcome::Success(item(4, "comment", Some("deep"), None))),
    ]);
    let res = aggregate(&st, 1, Some(1), None).unwrap();
    assert_eq!(ids_of(&res.comments), vec![2]);
    assert_eq!(ids_of(&res.comments[0].replies), vec![3]);
    assert!(res.comments[0].replies[0].replies.is_empty());
}

#[test]
fn default_depth_reaches_ten_levels() {
    // A chain 2 -> 3 -> ... deeper than the default depth: the eleventh
    // level of comments (resolved at depth zero) is a leaf.
    let mut entries = vec![
        (1, FetchOutcome::Success(item(1, "story", None, Some(vec![2])))),
    ];
    for id in 2u32..=14 {
        let body = format!("level {}", id);
        entries.push((
            id,
            FetchOutcome::Success(item(id, "comment", Some(&body), Some(vec![id + 1]))),
        ));
    }
    let st = store_of(entries);
    let res = aggregate(&st, 1, None, None).unwrap();
    assert_eq!(DEFAULT_DEPTH, 10);
    let mut depth: u32 = 0;
    let mut node = &res.comments[0];
    while !node.replies.is_empty() {
        node = &node.replies[0];
        depth += 1;
    }
    assert_eq!(depth, 10);
}

#[test]
fn ordering_follows_child_ids_not_store_order() {
    // The snapshot lists the children in scrambled order; the output must
    // follow the story's child-id order.
    let st = store_of(vec![
        (4, FetchOutcome::Success(item(4, "comment", Some("third"), None))),
        (2, FetchOutcome::Success(item(2, "comment", Some("first"), None))),
        (1, FetchOutcome::Success(item(1, "story", None, Some(vec![2, 3, 4])))),
        (3, FetchOutcome::Success(item(3, "comment", Some("second"), None))),
    ]);
    let res = aggregate(&st, 1, None, None).unwrap();
    assert_eq!(ids_of(&res.comments), vec![2, 3, 4]);
}

#[test]
fn textless_comment_is_dropped_with_its_subtree() {
    // Comment 3 has no text (deleted); its child 5 is present and texted,
    // but must appear nowhere in the result.
    let st = store_of(vec![
        (1, FetchOutcome::Success(item(1, "story", None, Some(vec![2, 3, 4])))),
        (2, FetchOutcome::Success(item(2, "comment", Some("a"), None))),
        (3, FetchOutcome::Success(item(3, "comment", None, Some(vec![5])))),
        (4, FetchOutcome::Success(item(4, "comment", Some("c"), None))),
        (5, FetchOutcome::Success(item(5, "comment", Some("orphan"), None))),
    ]);
    let res = aggregate(&st, 1, None, None).unwrap();
    assert_eq!(ids_of(&res.comments), vec![2, 4]);
    assert!(res.comments.iter().all(|c| c.replies.is_empty()));
}

#[test]
fn failed_branch_is_isolated() {
    let st = store_of(vec![
        (1, FetchOutcome::Success(item(1, "story", None, Some(vec![2, 3, 4])))),
        (2, FetchOutcome::Success(item(2, "comment", Some("a"), None))),
        (3, FetchOutcome::Status(500)),
        (4, FetchOutcome::Success(item(4, "comment", Some("c"), None))),
    ]);
    let res = aggregate(&st, 1, None, None).unwrap();
    assert_eq!(ids_of(&res.comments), vec![2, 4]);
}

#[test]
fn failed_reply_is_isolated_deeper_down() {
    let st = store_of(vec![
        (1, FetchOutcome::Success(item(1, "story", None, Some(vec![2])))),
        (2, FetchOutcome::Success(item(2, "comment", Some("top"), Some(vec![3, 4])))),
        (3, FetchOutcome::Transport),
        (4, FetchOutcome::Success(item(4, "comment", Some("kept"), None))),
    ]);
    let res = aggregate(&st, 1, None, None).unwrap();
    assert_eq!(ids_of(&res.comments[0].replies), vec![4]);
}

#[test]
fn root_status_failure_propagates() {
    let st = store_of(vec![(1, FetchOutcome::Status(500))]);
    let err = aggregate(&st, 1, None, None).unwrap_err();
    assert_eq!(err, AggError::Upstream { err: FetchError::Status { id: 1, code: 500 } });
}

#[test]
fn root_transport_failure_propagates() {
    let st = store_of(vec![(1, FetchOutcome::Transport)]);
    let err = aggregate(&st, 1, None, None).unwrap_err();
    assert_eq!(err, AggError::Upstream { err: FetchError::Transport { id: 1 } });
}

#[test]
fn missing_root_is_a_decode_error() {
    let st = Upstream::new();
    let err = aggregate(&st, 9, None, None).unwrap_err();
    assert_eq!(err, AggError::Upstream { err: FetchError::Decode { id: 9 } });
}

#[test]
fn malformed_root_body_is_a_decode_error() {
    let st = store_of(vec![(1, FetchOutcome::Decode)]);
    let err = aggregate(&st, 1, None, None).unwrap_err();
    assert_eq!(err, AggError::Upstream { err: FetchError::Decode { id: 1 } });
}

#[test]
fn repeated_aggregation_is_identical() {
    let st = store_of(vec![
        (1, FetchOutcome::Success(item(1, "story", None, Some(vec![2, 3])))),
        (2, FetchOutcome::Success(item(2, "comment", Some("a"), Some(vec![4])))),
        (3, FetchOutcome::Status(503)),
        (4, FetchOutcome::Success(item(4, "comment", Some("b"), None))),
    ]);
    let r1: AggregateResult = aggregate(&st, 1, Some(5), Some(10)).unwrap();
    let r2: AggregateResult = aggregate(&st, 1, Some(5), Some(10)).unwrap();
    assert_eq!(r1, r2);
}

#[test]
fn story_without_kids_has_no_comments() {
    let st = store_of(vec![
        (1, FetchOutcome::Success(item(1, "story", None, None))),
    ]);
    let res = aggregate(&st, 1, None, None).unwrap();
    assert!(res.comments.is_empty());
}
