//! The published item and its mathematical value.

use vstd::prelude::*;

verus! {

/// The mathematical value of a [`Prompt`]: the identifier as a natural number
/// and every text as its sequence of characters.
pub struct PromptView {
    pub id: nat,
    pub title: Seq<char>,
    pub description: Seq<char>,
    pub content: Seq<char>,
    pub owner: Seq<char>,
    pub price_icp: u64,
}

/// One published item.
///
/// `id` is assigned by the store and `owner` is the identity that published
/// the item. The other fields are kept exactly as they were supplied; the
/// price is data only and nothing acts on it.
#[derive(Debug)]
pub struct Prompt {
    pub id: u64,
    pub title: String,
    pub description: String,
    pub content: String,
    pub owner: String,
    pub price_icp: u64,
}

impl View for Prompt {
    type V = PromptView;

    open spec fn view(&self) -> PromptView {
        PromptView {
            id: self.id as nat,
            title: self.title@,
            description: self.description@,
            content: self.content@,
            owner: self.owner@,
            price_icp: self.price_icp,
        }
    }
}

/// The values of a sequence of prompts, in the same order.
pub open spec fn views(prompts: Seq<Prompt>) -> Seq<PromptView> {
    prompts.map_values(|p: Prompt| p@)
}

impl Clone for Prompt {
    /// A copy with the same value in every field.
    fn clone(&self) -> (copy: Self)
        ensures
            copy@ == self@,
    {
        Prompt {
            id: self.id,
            title: self.title.clone(),
            description: self.description.clone(),
            content: self.content.clone(),
            owner: self.owner.clone(),
            price_icp: self.price_icp,
        }
    }
}

} // verus!
