//! The state of a branch, and the bytes by which its digest is taken.

use vstd::bytes::{spec_u32_to_le_bytes, u32_to_le_bytes};
use vstd::prelude::*;

use crate::ids::{uuid_bytes, uuid_to_bytes, Uuid};
use crate::protocol::{
    CacheIsolationKey, ContextLineage, ContextRecipeRef, Digest32, Generation,
};

verus! {

/// A branch that the engine holds under `handle`. One that was `rebuilt` from a recipe starts in the
/// first generation again, although the branch that it stands for was further on; it counts as
/// rebuilt until a turn on it is completed.
#[derive(Debug)]
pub struct BranchState {
    pub handle: u64,
    pub branch_id: Uuid,
    pub context_id: Uuid,
    pub generation: Generation,
    pub token_count: u64,
    pub tokens: Vec<u32>,
    pub logical_state_digest: Digest32,
    pub recipe_ref: ContextRecipeRef,
    pub isolation: CacheIsolationKey,
    pub lineage: ContextLineage,
    pub rebuilt: bool,
}

#[verifier::ext_equal]
pub struct BranchView {
    pub handle: u64,
    pub branch_id: Uuid,
    pub context_id: Uuid,
    pub generation: Generation,
    pub token_count: u64,
    pub tokens: Seq<u32>,
    pub logical_state_digest: Digest32,
    pub recipe_ref: ContextRecipeRef,
    pub isolation: CacheIsolationKey,
    pub lineage: ContextLineage,
    pub rebuilt: bool,
}

impl View for BranchState {
    type V = BranchView;

    open spec fn view(&self) -> BranchView {
        BranchView {
            handle: self.handle,
            branch_id: self.branch_id,
            context_id: self.context_id,
            generation: self.generation,
            token_count: self.token_count,
            tokens: self.tokens@,
            logical_state_digest: self.logical_state_digest,
            recipe_ref: self.recipe_ref,
            isolation: self.isolation,
            lineage: self.lineage,
            rebuilt: self.rebuilt,
        }
    }
}

impl Clone for BranchState {
    fn clone(&self) -> (r: Self)
        ensures
            r@ == self@,
    {
        BranchState {
            handle: self.handle,
            branch_id: self.branch_id,
            context_id: self.context_id,
            generation: self.generation,
            token_count: self.token_count,
            tokens: self.tokens.clone(),
            logical_state_digest: self.logical_state_digest,
            recipe_ref: self.recipe_ref,
            isolation: self.isolation,
            lineage: self.lineage,
            rebuilt: self.rebuilt,
        }
    }
}

impl BranchView {
    /// Whether a reference in this generation is one to the branch as it stands: it is in the
    /// branch's generation or, where the branch was rebuilt, ahead of it and not in the last one.
    pub open spec fn admits(self, generation: Generation) -> bool {
        generation == self.generation || self.rebuilt && self.generation.0 < generation.0 < u64::MAX
    }
}

/// Each token in four bytes, the least significant first.
pub open spec fn token_bytes(tokens: Seq<u32>) -> Seq<u8> {
    Seq::new(4 * tokens.len(), |i: int| spec_u32_to_le_bytes(tokens[i / 4])[i % 4])
}

/// The bytes whose digest stands for the tokens of a branch: those of its identifier, then those of
/// its tokens.
pub open spec fn state_digest_input(branch_id: Uuid, tokens: Seq<u32>) -> Seq<u8> {
    uuid_bytes(branch_id) + token_bytes(tokens)
}

/// Appends the bytes of a token.
proof fn lemma_token_bytes_push(tokens: Seq<u32>, token: u32)
    ensures
        token_bytes(tokens.push(token)) == token_bytes(tokens) + spec_u32_to_le_bytes(token),
{
    vstd::bytes::lemma_auto_spec_u32_to_from_le_bytes();
    assert(token_bytes(tokens.push(token)) =~= token_bytes(tokens) + spec_u32_to_le_bytes(token));
}

impl BranchState {
    /// Whether a reference in this generation is one to the branch as it stands.
    pub(crate) fn admits(&self, generation: Generation) -> (r: bool)
        ensures
            r == self@.admits(generation),
    {
        generation == self.generation || (self.rebuilt && self.generation.0 < generation.0
            && generation.0 < u64::MAX)
    }

    /// The bytes whose SHA-256 is the logical digest of a branch with these tokens.
    pub fn compute_digest(branch_id: &Uuid, tokens: &[u32]) -> (bytes: Vec<u8>)
        ensures
            bytes@ == state_digest_input(*branch_id, tokens@),
    {
        let mut bytes: Vec<u8> = uuid_to_bytes(*branch_id);
        let mut i: usize = 0;
        assert(bytes@ =~= state_digest_input(*branch_id, tokens@.take(0)));
        while i < tokens.len()
            invariant
                i <= tokens.len(),
                bytes@ == state_digest_input(*branch_id, tokens@.take(i as int)),
            decreases tokens.len() - i,
        {
            let ghost before = bytes@;
            let token = u32_to_le_bytes(tokens[i]);
            bytes.extend_from_slice(token.as_slice());
            proof {
                lemma_token_bytes_push(tokens@.take(i as int), tokens@[i as int]);
                assert(tokens@.take(i as int).push(tokens@[i as int]) =~= tokens@.take(i + 1));
                assert(bytes@ =~= before + token@);
                assert(bytes@ =~= state_digest_input(*branch_id, tokens@.take(i + 1)));
            }
            i = i + 1;
        }
        assert(tokens@.take(tokens@.len() as int) =~= tokens@);
        bytes
    }
}

} // verus!
