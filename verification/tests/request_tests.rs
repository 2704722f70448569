use hn_comments::item::Item;
use hn_comments::request::{aggregate_request, parse_story_id};
use hn_comments::upstream::{AggError, FetchOutcome, Upstream};

fn story(id: u32) -> Item {
    Item {
        id,
        item_type: "story".to_string(),
        deleted: None,
        by: Some("op".to_string()),
        time: Some(1_700_000_000),
        text: None,
        dead: None,
        parent: None,
        poll: None,
        kids: None,
        url: Some("https://example.com".to_string()),
        score: Some(42),
        title: Some("a story".to_string()),
        parts: None,
        descendants: Some(0),
    }
}

#[test]
fn parses_plain_ids() {
    assert_eq!(parse_story_id("0"), Some(0));
    assert_eq!(parse_story_id("36919310"), Some(36919310));
    assert_eq!(parse_story_id("007"), Some(7));
}

#[test]
fn parses_the_largest_id() {
    assert_eq!(parse_story_id("4294967295"), Some(u32::MAX));
}

#[test]
fn rejects_ids_that_do_not_fit() {
    assert_eq!(parse_story_id("4294967296"), None);
    assert_eq!(parse_story_id("99999999999999999999999999"), None);
}

#[test]
fn rejects_malformed_ids() {
    assert_eq!(parse_story_id(""), None);
    assert_eq!(parse_story_id("abc"), None);
    assert_eq!(parse_story_id("12a"), None);
    assert_eq!(parse_story_id("-5"), None);
    assert_eq!(parse_story_id(" 5"), None);
}

#[test]
fn request_with_good_id_aggregates() {
    let mut st = Upstream::new();
    st.record(5, FetchOutcome::Success(story(5)));
    let res = aggregate_request(&st, "5", None, None).unwrap();
    assert_eq!(res.story.id, 5);
    assert!(res.comments.is_empty());
}

#[test]
fn request_with_bad_id_is_invalid_input() {
    let mut st = Upstream::new();
    st.record(5, FetchOutcome::Success(story(5)));
    let err = aggregate_request(&st, "5x", None, None).unwrap_err();
    assert_eq!(err, AggError::InvalidInput);
}
