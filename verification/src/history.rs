//! What holds of a store after any number of submissions.

use vstd::prelude::*;
use crate::model::{listing_rearranges_id_order, submit_preserves_wf, StoreState, Submission};
use crate::prompt::PromptView;

verus! {

/// The state of a store that started empty and received `subs` in order.
pub open spec fn state_after(subs: Seq<Submission>) -> StoreState
    decreases subs.len(),
{
    if subs.len() == 0 {
        StoreState::empty()
    } else {
        state_after(subs.drop_last()).submit(subs.last())
    }
}

/// The prompts that those submissions handed back, in the order of the calls.
pub open spec fn returned(subs: Seq<Submission>) -> Seq<PromptView>
    decreases subs.len(),
{
    if subs.len() == 0 {
        Seq::empty()
    } else {
        returned(subs.drop_last()).push(
            subs.last().stamped(state_after(subs.drop_last()).next_id),
        )
    }
}

/// The identifiers of a sequence of prompts, in the same order.
pub open spec fn ids(prompts: Seq<PromptView>) -> Seq<nat> {
    prompts.map_values(|p: PromptView| p.id)
}

/// After `n` submissions to an empty store the store is well-formed and its
/// counter shows `n`.
pub proof fn state_after_is_wf(subs: Seq<Submission>)
    ensures
        state_after(subs).wf(),
        state_after(subs).next_id == subs.len(),
    decreases subs.len(),
{
    if subs.len() > 0 {
        state_after_is_wf(subs.drop_last());
        submit_preserves_wf(state_after(subs.drop_last()), subs.last());
    }
}

/// A prompt that the table holds stays in it, unchanged, whatever is
/// submitted later.
pub proof fn prompts_persist(subs: Seq<Submission>, later: Seq<Submission>, p: PromptView)
    requires
        state_after(subs).holds(p),
    ensures
        state_after(subs + later).holds(p),
    decreases later.len(),
{
    if later.len() == 0 {
        assert(subs + later =~= subs);
    } else {
        let all_but_last = subs + later.drop_last();
        prompts_persist(subs, later.drop_last(), p);
        assert((subs + later).drop_last() =~= all_but_last);
        state_after_is_wf(all_but_last);
        submit_preserves_wf(state_after(all_but_last), later.last());
    }
}

/// The call number `i`, counted from zero, hands back the submission it was
/// given under the identifier `i`: the owner is the identity that was handed
/// in and no other field is changed.
pub proof fn returned_is_stamped(subs: Seq<Submission>)
    ensures
        returned(subs).len() == subs.len(),
        forall|i: int|
            0 <= i < subs.len() ==> #[trigger] returned(subs)[i] == subs[i].stamped(i as nat),
    decreases subs.len(),
{
    if subs.len() > 0 {
        returned_is_stamped(subs.drop_last());
        state_after_is_wf(subs.drop_last());
    }
}

/// The identifiers handed back by `n` submissions are `0, 1, .., n - 1` in
/// the order of the calls: none is repeated and none is left out.
pub proof fn returned_ids_count_up(subs: Seq<Submission>)
    ensures
        ids(returned(subs)) == Seq::new(subs.len(), |i: int| i as nat),
        ids(returned(subs)).no_duplicates(),
        ids(returned(subs)).to_set() == Set::new(|id: nat| id < subs.len()),
{
    returned_is_stamped(subs);
    let handed = ids(returned(subs));
    assert forall|id: nat| handed.to_set().contains(id) <==> id < subs.len() by {
        if id < subs.len() {
            assert(handed[id as int] == id);
        }
    }
}

/// The table after the submissions holds the prompts that were handed back
/// and no others: read in the order of the identifiers, it is the sequence of
/// what the calls returned.
pub proof fn table_is_what_was_returned(subs: Seq<Submission>)
    ensures
        state_after(subs).in_id_order() == returned(subs),
    decreases subs.len(),
{
    state_after_is_wf(subs);
    returned_is_stamped(subs);
    if subs.len() > 0 {
        let earlier = subs.drop_last();
        table_is_what_was_returned(earlier);
        state_after_is_wf(earlier);
        returned_is_stamped(earlier);
    }
}

/// A listing taken after any submissions holds, as a multiset, the prompts
/// that those submissions handed back: each of them once and nothing else.
pub proof fn listing_is_what_was_returned(subs: Seq<Submission>, listing: Seq<PromptView>)
    requires
        state_after(subs).lists(listing),
    ensures
        listing.to_multiset() == returned(subs).to_multiset(),
        listing.len() == subs.len(),
{
    state_after_is_wf(subs);
    table_is_what_was_returned(subs);
    listing_rearranges_id_order(state_after(subs), listing);
}

} // verus!
