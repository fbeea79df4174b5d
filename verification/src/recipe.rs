//! Recipes from which branches are rebuilt.

use std::collections::BTreeMap;

use vstd::prelude::*;

use crate::ids::{draw_uuid, is_random_uuid, Uuid};
use crate::protocol::{zero_digest, ContextRecipeRef, Digest32};

verus! {

broadcast use vstd::std_specs::btree::group_btree_axioms;

/// The tokens of a root prompt, and of each branch those that follow it.
#[derive(Debug, PartialEq, Eq)]
pub struct ContextRecipe {
    pub recipe_id: Uuid,
    pub root_prompt_tokens: Vec<u32>,
    pub branch_deltas: BTreeMap<Uuid, Vec<u32>>,
}

#[verifier::ext_equal]
pub struct RecipeView {
    pub recipe_id: Uuid,
    pub root_prompt_tokens: Seq<u32>,
    pub branch_deltas: Map<Uuid, Seq<u32>>,
}

impl RecipeView {
    /// The recipe in which `delta` follows the root prompt on `branch_id`.
    pub open spec fn with_delta(self, branch_id: Uuid, delta: Seq<u32>) -> RecipeView {
        RecipeView { branch_deltas: self.branch_deltas.insert(branch_id, delta), ..self }
    }

    /// The tokens of a branch: the root prompt, then what the recipe holds of the branch.
    pub open spec fn full_tokens(self, branch_id: Uuid) -> Seq<u32> {
        if self.branch_deltas.contains_key(branch_id) {
            self.root_prompt_tokens + self.branch_deltas[branch_id]
        } else {
            self.root_prompt_tokens
        }
    }

    /// The reference to this recipe under a digest.
    pub open spec fn reference(self, digest: Digest32) -> ContextRecipeRef {
        ContextRecipeRef { recipe_id: self.recipe_id, recipe_digest: digest }
    }
}

impl View for ContextRecipe {
    type V = RecipeView;

    open spec fn view(&self) -> RecipeView {
        RecipeView {
            recipe_id: self.recipe_id,
            root_prompt_tokens: self.root_prompt_tokens@,
            branch_deltas: self.branch_deltas@.map_values(|delta: Vec<u32>| delta@),
        }
    }
}

impl Clone for ContextRecipe {
    fn clone(&self) -> (r: Self)
        ensures
            r@ == self@,
    {
        ContextRecipe {
            recipe_id: self.recipe_id,
            root_prompt_tokens: self.root_prompt_tokens.clone(),
            branch_deltas: self.branch_deltas.clone(),
        }
    }
}

/// The digest of a value whose canonical form is digested to `canonical`, or could not be.
pub open spec fn digest_or_zero(canonical: Option<Digest32>) -> Digest32 {
    match canonical {
        Some(digest) => digest,
        None => zero_digest(),
    }
}

impl ContextRecipe {
    /// A recipe of a root prompt alone, under a random identifier.
    pub fn new(root_prompt_tokens: Vec<u32>) -> (recipe: ContextRecipe)
        ensures
            is_random_uuid(recipe@.recipe_id),
            recipe@.root_prompt_tokens == root_prompt_tokens@,
            recipe@.branch_deltas == Map::<Uuid, Seq<u32>>::empty(),
    {
        ContextRecipe::with_id(draw_uuid(), root_prompt_tokens)
    }

    /// A recipe of a root prompt alone, under a given identifier.
    pub fn with_id(recipe_id: Uuid, root_prompt_tokens: Vec<u32>) -> (recipe: ContextRecipe)
        ensures
            recipe@ == (RecipeView {
                recipe_id,
                root_prompt_tokens: root_prompt_tokens@,
                branch_deltas: Map::empty(),
            }),
    {
        ContextRecipe { recipe_id, root_prompt_tokens, branch_deltas: BTreeMap::new() }
    }

    /// The recipe in which `delta` follows the root prompt on `branch_id`, in place of what
    /// followed it before.
    pub fn with_branch_delta(self, branch_id: Uuid, delta: Vec<u32>) -> (recipe: ContextRecipe)
        ensures
            recipe@ == self@.with_delta(branch_id, delta@),
    {
        let mut recipe = self;
        recipe.branch_deltas.insert(branch_id, delta);
        recipe
    }

    /// The digest of this recipe, where `canonical` is the digest of its canonical JSON: the zero
    /// digest where it has none.
    pub fn compute_digest(&self, canonical: Option<Digest32>) -> (digest: Digest32)
        ensures
            digest == digest_or_zero(canonical),
    {
        match canonical {
            Some(digest) => digest,
            None => Digest32::zero(),
        }
    }

    /// The reference to this recipe, where `canonical` is the digest of its canonical JSON.
    pub fn to_ref(&self, canonical: Option<Digest32>) -> (r: ContextRecipeRef)
        ensures
            r == self@.reference(digest_or_zero(canonical)),
    {
        ContextRecipeRef {
            recipe_id: self.recipe_id,
            recipe_digest: self.compute_digest(canonical),
        }
    }

    /// The tokens of a branch: the root prompt, then what the recipe holds of the branch.
    pub fn full_tokens_for_branch(&self, branch_id: &Uuid) -> (tokens: Vec<u32>)
        ensures
            tokens@ == self@.full_tokens(*branch_id),
    {
        let mut tokens = self.root_prompt_tokens.clone();
        if let Some(delta) = self.branch_deltas.get(branch_id) {
            tokens.extend_from_slice(delta.as_slice());
            assert(tokens@ =~= self.root_prompt_tokens@ + delta@);
        }
        tokens
    }
}

} // verus!
