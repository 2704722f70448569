//! The upstream item record: one remote record per id, carrying a kind tag
//! and the optional fields the upstream may supply or omit.

use vstd::prelude::*;

verus! {

/// A remote record identified by a positive integer id.  The kind tag
/// (`item_type`) is one of "job", "story", "comment", "poll", "pollopt".
/// Every other field may be absent: the upstream omits fields freely, and
/// deleted or dead items carry almost nothing.
#[derive(Debug, PartialEq, Eq)]
pub struct Item {
    pub id: u32,
    pub item_type: String,
    pub deleted: Option<bool>,
    pub by: Option<String>,
    pub time: Option<u64>,
    pub text: Option<String>,
    pub dead: Option<bool>,
    pub parent: Option<u32>,
    pub poll: Option<u32>,
    pub kids: Option<Vec<u32>>,
    pub url: Option<String>,
    pub score: Option<u32>,
    pub title: Option<String>,
    pub parts: Option<Vec<u32>>,
    pub descendants: Option<u32>,
}

/// Mathematical model of an `Item`: strings as character sequences, id lists
/// as integer sequences.
pub struct ItemView {
    pub id: u32,
    pub item_type: Seq<char>,
    pub deleted: Option<bool>,
    pub by: Option<Seq<char>>,
    pub time: Option<u64>,
    pub text: Option<Seq<char>>,
    pub dead: Option<bool>,
    pub parent: Option<u32>,
    pub poll: Option<u32>,
    pub kids: Option<Seq<u32>>,
    pub url: Option<Seq<char>>,
    pub score: Option<u32>,
    pub title: Option<Seq<char>>,
    pub parts: Option<Seq<u32>>,
    pub descendants: Option<u32>,
}

impl View for Item {
    type V = ItemView;

    open spec fn view(&self) -> ItemView {
        ItemView {
            id: self.id,
            item_type: self.item_type.deep_view(),
            deleted: self.deleted,
            by: self.by.deep_view(),
            time: self.time,
            text: self.text.deep_view(),
            dead: self.dead,
            parent: self.parent,
            poll: self.poll,
            kids: self.kids.deep_view(),
            url: self.url.deep_view(),
            score: self.score,
            title: self.title.deep_view(),
            parts: self.parts.deep_view(),
            descendants: self.descendants,
        }
    }
}

impl DeepView for Item {
    type V = ItemView;

    open spec fn deep_view(&self) -> ItemView {
        self@
    }
}

/// The item's child ids, an absent list standing for the empty one.
pub open spec fn kids_of(it: ItemView) -> Seq<u32> {
    match it.kids {
        Some(k) => k,
        None => Seq::empty(),
    }
}

/// Copies an optional string; the copy models to the same character sequence.
pub fn clone_opt_string(o: &Option<String>) -> (r: Option<String>)
    ensures
        r.deep_view() == o.deep_view(),
{
    match o {
        Some(s) => Some(s.clone()),
        None => None,
    }
}

/// Copies an id list element by element; the copy models to the same sequence.
pub fn clone_ids(v: &Vec<u32>) -> (r: Vec<u32>)
    ensures
        r@ == v@,
{
    let mut r: Vec<u32> = Vec::new();
    let mut i: usize = 0;
    while i < v.len()
        invariant
            i <= v@.len(),
            r@ == v@.take(i as int),
        decreases v@.len() - i,
    {
        r.push(v[i]);
        i = i + 1;
        proof {
            assert(r@ =~= v@.take(i as int));
        }
    }
    proof {
        assert(v@.take(v@.len() as int) =~= v@);
    }
    r
}

/// Copies an optional id list; the copy models to the same value.
pub fn clone_opt_ids(o: &Option<Vec<u32>>) -> (r: Option<Vec<u32>>)
    ensures
        r.deep_view() == o.deep_view(),
{
    match o {
        Some(v) => {
            let c = clone_ids(v);
            proof {
                assert(c.deep_view() =~= v.deep_view());
            }
            Some(c)
        },
        None => None,
    }
}

impl Clone for Item {
    /// The copy models to the same `ItemView`.
    fn clone(&self) -> (r: Self)
        ensures
            r@ == self@,
    {
        Item {
            id: self.id,
            item_type: self.item_type.clone(),
            deleted: self.deleted,
            by: clone_opt_string(&self.by),
            time: self.time,
            text: clone_opt_string(&self.text),
            dead: self.dead,
            parent: self.parent,
            poll: self.poll,
            kids: clone_opt_ids(&self.kids),
            url: clone_opt_string(&self.url),
            score: self.score,
            title: clone_opt_string(&self.title),
            parts: clone_opt_ids(&self.parts),
            descendants: self.descendants,
        }
    }
}

} // verus!
