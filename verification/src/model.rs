//! The store as a mathematical value: a table of prompts keyed by identifier
//! and the counter that hands the identifiers out.

use vstd::prelude::*;
use crate::prompt::PromptView;

verus! {

/// What a publisher hands in: every field of a prompt but its identifier.
pub struct Submission {
    pub title: Seq<char>,
    pub description: Seq<char>,
    pub content: Seq<char>,
    pub price_icp: u64,
    pub owner: Seq<char>,
}

impl Submission {
    /// The prompt that this submission becomes under the identifier `id`:
    /// every field as it was handed in, the owner included.
    pub open spec fn stamped(self, id: nat) -> PromptView {
        PromptView {
            id,
            title: self.title,
            description: self.description,
            content: self.content,
            owner: self.owner,
            price_icp: self.price_icp,
        }
    }
}

/// The state of a store.
pub struct StoreState {
    /// The published prompts, each under its identifier.
    pub prompts: Map<nat, PromptView>,
    /// The identifier that the next submission receives.
    pub next_id: nat,
}

impl StoreState {
    /// The state of a store that nothing was submitted to.
    pub open spec fn empty() -> StoreState {
        StoreState { prompts: Map::empty(), next_id: 0 }
    }

    /// The identifiers in use are exactly those below the counter, and every
    /// prompt is stored under its own identifier.
    pub open spec fn wf(self) -> bool {
        &&& forall|id: nat| #[trigger] self.prompts.contains_key(id) <==> id < self.next_id
        &&& forall|id: nat| #[trigger] self.prompts.contains_key(id) ==> self.prompts[id].id == id
    }

    /// The prompt `p` is in the table.
    pub open spec fn holds(self, p: PromptView) -> bool {
        self.prompts.contains_key(p.id) && self.prompts[p.id] == p
    }

    /// The state after submitting `s`: the table gains `s` under the
    /// identifier that the counter showed, and the counter moves on by one.
    pub open spec fn submit(self, s: Submission) -> StoreState {
        StoreState {
            prompts: self.prompts.insert(self.next_id, s.stamped(self.next_id)),
            next_id: self.next_id + 1,
        }
    }

    /// `out` is a listing of the store: it holds every prompt of the table
    /// once and nothing else, in any order.
    pub open spec fn lists(self, out: Seq<PromptView>) -> bool {
        &&& out.no_duplicates()
        &&& forall|p: PromptView| #[trigger] out.contains(p) <==> self.holds(p)
    }

    /// The prompts of the table in the order of their identifiers.
    pub open spec fn in_id_order(self) -> Seq<PromptView> {
        Seq::new(self.next_id, |id: int| self.prompts[id as nat])
    }
}

/// A submission to a well-formed store leaves it well-formed, moves the
/// counter up by one, stores the new prompt under an identifier that was not
/// in use, and changes no prompt that was there before.
pub proof fn submit_preserves_wf(store: StoreState, s: Submission)
    requires
        store.wf(),
    ensures
        store.submit(s).wf(),
        store.submit(s).next_id == store.next_id + 1,
        !store.prompts.contains_key(store.next_id),
        store.submit(s).holds(s.stamped(store.next_id)),
        forall|p: PromptView| store.holds(p) ==> #[trigger] store.submit(s).holds(p),
{
}

/// Two listings of one state hold the same prompts the same number of times.
pub proof fn listings_agree(store: StoreState, first: Seq<PromptView>, second: Seq<PromptView>)
    requires
        store.lists(first),
        store.lists(second),
    ensures
        first.to_multiset() == second.to_multiset(),
        first.len() == second.len(),
{
    first.to_multiset_ensures();
    second.to_multiset_ensures();
    first.lemma_multiset_has_no_duplicates();
    second.lemma_multiset_has_no_duplicates();
}

/// The prompts of a well-formed store in the order of their identifiers are
/// a listing of it.
pub proof fn id_order_lists(store: StoreState)
    requires
        store.wf(),
    ensures
        store.lists(store.in_id_order()),
{
    let ordered = store.in_id_order();
    assert forall|i: int| 0 <= i < ordered.len() implies (#[trigger] ordered[i]).id == i by {
        assert(store.prompts.contains_key(i as nat));
    }
    assert forall|p: PromptView| #[trigger] ordered.contains(p) <==> store.holds(p) by {
        if store.holds(p) {
            assert(ordered[p.id as int] == p);
        }
    }
}

/// A listing of a well-formed store is a rearrangement of its prompts in
/// the order of their identifiers, so it has as many entries as the counter
/// shows.
pub proof fn listing_rearranges_id_order(store: StoreState, listing: Seq<PromptView>)
    requires
        store.wf(),
        store.lists(listing),
    ensures
        listing.to_multiset() == store.in_id_order().to_multiset(),
        listing.len() == store.next_id,
{
    id_order_lists(store);
    listings_agree(store, listing, store.in_id_order());
}

} // verus!
