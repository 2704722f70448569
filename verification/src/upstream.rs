//! The upstream item source, modelled as a snapshot: one recorded outcome per
//! item id.  A single-item lookup either yields the item or fails with a
//! distinct error kind, exactly as a remote fetch would.

use vstd::prelude::*;
use crate::item::{Item, ItemView};

verus! {

/// Why a single-item fetch failed; every kind carries the id it was for.
#[derive(Clone, Copy, Debug, PartialEq, Eq, Structural)]
pub enum FetchError {
    /// A network-level failure reaching the upstream.
    Transport { id: u32 },
    /// A non-2xx response; carries the HTTP status code.
    Status { id: u32, code: u16 },
    /// A body that is not an item: malformed JSON, a mismatched shape, or the
    /// `null` the upstream returns for an id that does not exist.
    Decode { id: u32 },
}

/// What the whole aggregation fails with.
#[derive(Clone, Copy, Debug, PartialEq, Eq, Structural)]
pub enum AggError {
    /// The root identifier was not a well-formed id; rejected before any fetch.
    InvalidInput,
    /// The root item exists but is not a story.
    WrongKind { id: u32 },
    /// Fetching the root item itself failed.
    Upstream { err: FetchError },
}

/// What the upstream holds for one id.
pub enum FetchOutcome {
    /// The id resolves to this item.
    Success(Item),
    /// Asking for this id fails at the network level.
    Transport,
    /// Asking for this id yields a non-2xx status.
    Status(u16),
    /// Asking for this id yields a body that does not decode to an item.
    Decode,
}

/// Mathematical model of a `FetchOutcome`.
pub enum OutcomeView {
    Success(ItemView),
    Transport,
    Status(u16),
    Decode,
}

impl View for FetchOutcome {
    type V = OutcomeView;

    open spec fn view(&self) -> OutcomeView {
        match self {
            FetchOutcome::Success(it) => OutcomeView::Success(it@),
            FetchOutcome::Transport => OutcomeView::Transport,
            FetchOutcome::Status(code) => OutcomeView::Status(*code),
            FetchOutcome::Decode => OutcomeView::Decode,
        }
    }
}

/// One id of the upstream dataset paired with what fetching it yields.
pub struct Entry {
    pub id: u32,
    pub outcome: FetchOutcome,
}

/// Mathematical model of an `Entry`.
pub struct EntryView {
    pub id: u32,
    pub outcome: OutcomeView,
}

impl View for Entry {
    type V = EntryView;

    open spec fn view(&self) -> EntryView {
        EntryView { id: self.id, outcome: self.outcome@ }
    }
}

/// A snapshot of the upstream dataset.  An id not listed behaves as the
/// upstream does for a nonexistent id: the response decodes to no item.
pub struct Upstream {
    pub entries: Vec<Entry>,
}

impl View for Upstream {
    type V = Seq<EntryView>;

    open spec fn view(&self) -> Seq<EntryView> {
        self.entries@.map_values(|e: Entry| e@)
    }
}

/// The recorded outcome for `id`: the first entry with that id, if any.
pub open spec fn lookup(s: Seq<EntryView>, id: u32) -> Option<OutcomeView>
    decreases s.len(),
{
    if s.len() == 0 {
        None
    } else if s[0].id == id {
        Some(s[0].outcome)
    } else {
        lookup(s.drop_first(), id)
    }
}

/// What a single-item fetch of `id` returns against the snapshot `s`: the
/// item on success, else the error kind the outcome dictates, carrying `id`.
/// An unlisted id yields a decode error, as the upstream's `null` body would.
pub open spec fn fetch_spec(s: Seq<EntryView>, id: u32) -> Result<ItemView, FetchError> {
    match lookup(s, id) {
        Some(OutcomeView::Success(it)) => Ok(it),
        Some(OutcomeView::Transport) => Err(FetchError::Transport { id }),
        Some(OutcomeView::Status(code)) => Err(FetchError::Status { id, code }),
        Some(OutcomeView::Decode) => Err(FetchError::Decode { id }),
        None => Err(FetchError::Decode { id }),
    }
}

impl Upstream {
    /// An empty snapshot.
    pub fn new() -> (r: Upstream)
        ensures
            r@ == Seq::<EntryView>::empty(),
    {
        let r = Upstream { entries: Vec::new() };
        proof {
            assert(r@ =~= Seq::<EntryView>::empty());
        }
        r
    }

    /// Records that fetching `id` yields `outcome`.  Earlier entries for the
    /// same id win: the snapshot is append-only and lookup takes the first.
    pub fn record(&mut self, id: u32, outcome: FetchOutcome)
        ensures
            final(self)@ == old(self)@.push(EntryView { id, outcome: outcome@ }),
    {
        let ghost before = self@;
        let ghost o = outcome@;
        self.entries.push(Entry { id, outcome });
        proof {
            assert(self@ =~= before.push(EntryView { id, outcome: o }));
        }
    }

    /// The single-item lookup: returns the item recorded for `id` or the
    /// error the snapshot dictates, exactly as `fetch_spec` states.
    pub fn fetch_item(&self, id: u32) -> (r: Result<Item, FetchError>)
        ensures
            r is Ok <==> fetch_spec(self@, id) is Ok,
            r is Ok ==> r->Ok_0@ == fetch_spec(self@, id)->Ok_0,
            r is Err ==> r->Err_0 == fetch_spec(self@, id)->Err_0,
    {
        let mut i: usize = 0;
        proof {
            assert(self@.skip(0) =~= self@);
        }
        while i < self.entries.len()
            invariant
                i <= self.entries@.len(),
                lookup(self@, id) == lookup(self@.skip(i as int), id),
            decreases self.entries@.len() - i,
        {
            proof {
                assert(self@.skip(i as int)[0] == self@[i as int]);
                assert(self@.skip(i as int).drop_first() =~= self@.skip(i as int + 1));
            }
            let e = &self.entries[i];
            if e.id == id {
                match &e.outcome {
                    FetchOutcome::Success(it) => {
                        return Ok(it.clone());
                    },
                    FetchOutcome::Transport => {
                        return Err(FetchError::Transport { id });
                    },
                    FetchOutcome::Status(code) => {
                        return Err(FetchError::Status { id, code: *code });
                    },
                    FetchOutcome::Decode => {
                        return Err(FetchError::Decode { id });
                    },
                }
            }
            i = i + 1;
        }
        proof {
            assert(self@.skip(self.entries@.len() as int) =~= Seq::<EntryView>::empty());
        }
        Err(FetchError::Decode { id })
    }
}

} // verus!
