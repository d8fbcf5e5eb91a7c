//! The executable store.

use std::collections::HashMap;
use vstd::prelude::*;
use vstd::std_specs::iter::IteratorSpec;
use crate::model::{listing_rearranges_id_order, StoreState, Submission};
use crate::prompt::{views, Prompt, PromptView};

verus! {

broadcast use vstd::std_specs::hash::group_hash_axioms;

/// The table of published prompts together with the identifier counter.
///
/// A store changes only through [`PromptStore::upload_prompt`], which takes it
/// by exclusive reference: two submissions cannot overlap, and a listing sees
/// the store either before a submission or after it.
pub struct PromptStore {
    prompts: HashMap<u64, Prompt>,
    next_id: u64,
}

impl View for PromptStore {
    type V = StoreState;

    closed spec fn view(&self) -> StoreState {
        StoreState { prompts: table_view(self.prompts@), next_id: self.next_id as nat }
    }
}

/// The table as the model has it: keyed by natural numbers, holding values.
spec fn table_view(table: Map<u64, Prompt>) -> Map<nat, PromptView> {
    Map::new(
        |id: nat| id <= u64::MAX && table.contains_key(id as u64),
        |id: nat| table[id as u64]@,
    )
}

impl PromptStore {
    #[verifier::type_invariant]
    spec fn inv(self) -> bool {
        &&& self@.wf()
        &&& self.prompts@.len() == self.next_id
    }

    /// A store that holds nothing; the first prompt will get identifier 0.
    pub fn new() -> (store: Self)
        ensures
            store@ == StoreState::empty(),
    {
        let store = PromptStore { prompts: HashMap::new(), next_id: 0 };
        assert(store@.prompts =~= Map::<nat, PromptView>::empty());
        store
    }

    /// The identifier that the next submission will receive.
    pub fn next_id(&self) -> (id: u64)
        ensures
            self@.wf(),
            id == self@.next_id,
    {
        proof {
            use_type_invariant(self);
        }
        self.next_id
    }

    /// Publishes a prompt for `owner` and hands back a copy of it.
    ///
    /// The prompt gets the identifier that the counter shows, and the counter
    /// moves on by one. No field is validated or changed: empty texts and any
    /// price are taken as they are, and `owner` is stored as it was handed in.
    /// The counter cannot overflow: it equals the number of prompts in the
    /// table, and that number is a `usize`.
    ///
    /// The table and the counter are taken out of the store, changed, and put
    /// back together, so that no state in between is ever the store's.
    pub fn upload_prompt(
        &mut self,
        title: String,
        description: String,
        content: String,
        price_icp: u64,
        owner: String,
    ) -> (prompt: Prompt)
        ensures
            ({
                let s = Submission {
                    title: title@,
                    description: description@,
                    content: content@,
                    price_icp,
                    owner: owner@,
                };
                &&& prompt@ == s.stamped(old(self)@.next_id)
                &&& final(self)@ == old(self)@.submit(s)
            }),
            old(self)@.wf(),
            final(self)@.wf(),
    {
        proof {
            use_type_invariant(&*self);
        }
        let id = self.next_id;
        let prompt = Prompt { id, title, description, content, owner, price_icp };
        let stored = prompt.clone();
        let mut taken = PromptStore::new();
        std::mem::swap(self, &mut taken);
        let mut table = taken.prompts;
        table.insert(id, stored);
        proof {
            let before = old(self)@.prompts;
            let after = table_view(table@);
            assert forall|k: nat| #[trigger] after.contains_key(k) implies k < id + 1
                && after[k].id == k by {
                if k != id {
                    assert(before.contains_key(k));
                }
            }
            assert forall|k: nat| k < id + 1 implies #[trigger] after.contains_key(k) by {
                if k != id {
                    assert(before.contains_key(k));
                }
            }
            assert(after =~= before.insert(id as nat, prompt@));
            // The identifier was free, so the table grew by one entry; and
            // the size of a table is a `usize`, so `id + 1` is one as well.
            assert(!old(self).prompts@.contains_key(id)) by {
                assert(!before.contains_key(id as nat));
            }
            assert(table@.len() == id + 1);
            assert(table.len() == table@.len());
        }
        *self = PromptStore { prompts: table, next_id: id + 1 };
        prompt
    }

    /// A copy of every published prompt, once each.
    ///
    /// The order is that in which the table is walked. It is not the order of
    /// submission or of the identifiers, and it may differ from one store to
    /// the next; the contract promises none.
    pub fn list_prompts(&self) -> (out: Vec<Prompt>)
        ensures
            self@.wf(),
            self@.lists(views(out@)),
            out@.len() == self@.next_id,
    {
        proof {
            use_type_invariant(self);
        }
        let ghost walked = self.prompts.values().remaining();
        let mut out: Vec<Prompt> = Vec::new();
        for prompt in walk: self.prompts.values()
            invariant
                walk.seq() == walked,
                out@.len() == walk.index(),
                forall|i: int| 0 <= i < out@.len() ==> (#[trigger] out@[i])@ == (*walked[i])@,
        {
            out.push(prompt.clone());
        }
        proof {
            lemma_walk_lists(self.prompts@, self.next_id as nat, walked.unref(), out@);
            listing_rearranges_id_order(self@, views(out@));
        }
        out
    }
}

/// A walk over the values of a well-formed table, copied value for value,
/// is a listing of the store.
proof fn lemma_walk_lists(
    table: Map<u64, Prompt>,
    next_id: nat,
    walked: Seq<Prompt>,
    out: Seq<Prompt>,
)
    requires
        table.dom().finite(),
        (StoreState { prompts: table_view(table), next_id }).wf(),
        walked.to_set() == table.values(),
        walked.len() == table.dom().len(),
        out.len() == walked.len(),
        forall|i: int| 0 <= i < out.len() ==> (#[trigger] out[i])@ == walked[i]@,
    ensures
        (StoreState { prompts: table_view(table), next_id }).lists(views(out)),
{
    let store = StoreState { prompts: table_view(table), next_id };
    assert forall|k: u64| #[trigger] table.contains_key(k) implies table[k].id == k by {
        assert(store.prompts.contains_key(k as nat));
    }
    table.lemma_injective_values_len();
    walked.lemma_no_dup_set_cardinality();
    let listed = views(out);
    assert forall|i: int, j: int|
        0 <= i < listed.len() && 0 <= j < listed.len() && i != j implies listed[i]
        != listed[j] by {
        assert(table.values().contains(walked[i]));
        assert(table.values().contains(walked[j]));
    }
    assert forall|p: PromptView| #[trigger] listed.contains(p) <==> store.holds(p) by {
        if listed.contains(p) {
            let i = choose|i: int| 0 <= i < listed.len() && listed[i] == p;
            assert(table.values().contains(walked[i]));
        }
        if store.holds(p) {
            let k = p.id as u64;
            assert(table.values().contains(table[k]));
            let i = choose|i: int| 0 <= i < walked.len() && walked[i] == table[k];
            assert(listed[i] == p);
        }
    }
}

} // verus!
