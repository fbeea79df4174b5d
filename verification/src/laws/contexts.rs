//! What a service starts with, what it refers to a branch by, and how branches become active and
//! go.

use vstd::bytes::spec_u64_to_le_bytes;
use vstd::prelude::*;
use vstd::utf8::encode_utf8;

use crate::branch::BranchView;
use crate::demo::verified_names;
use crate::ids::Uuid;
use crate::protocol::{
    BranchId, ContextId, ContextLineage, Digest32, KvFormatView,
};
use crate::recipe::{digest_or_zero, RecipeView};
use crate::service::{
    embedded_config, kv_format_view, pruned, released_handles, IsolationDomain, LinuxMemoryKind,
    ModelConfig, ModelDigests, PendingView, ServiceView,
};

verus! {

/// The model that the service embeds.
pub proof fn law_embedded_model()
    ensures
        embedded_config().num_layers == 2,
        embedded_config().num_heads == 4,
        embedded_config().num_kv_heads == 2,
        embedded_config().head_dim == 16,
        embedded_config().hidden_dim == 64,
        embedded_config().intermediate_dim == 128,
        embedded_config().vocab_size == 256,
        embedded_config().block_size == 16,
{
}

/// A service that starts has no branch, and is that of its model, its run and its machine.
pub proof fn law_fresh_service(
    service: ServiceView,
    config: ModelConfig,
    epoch: u64,
    memory: LinuxMemoryKind,
    digests: ModelDigests,
)
    requires
        service.is_fresh(config, epoch, memory, digests),
    ensures
        service.config == config,
        service.digests == digests,
        service.epoch == epoch,
        forall|id: Uuid| !(#[trigger] service.branches.contains_key(id)),
        service.engine_id == "aien-sovereign-gb10"@,
        service.backend_name == "ReferenceCpuBackend (CPU Golden Oracle)"@,
        !service.is_accelerated,
        memory is AtsSystem ==> service.memory_kind
            == "AtsSystem (Hardware Coherent Grace-Blackwell)"@,
        memory is HmmSystem ==> service.memory_kind
            == "HmmSystem (Heterogeneous Memory Management)"@,
        memory is CudaManagedFallback ==> service.memory_kind == "CudaManagedFallback"@,
{
}

/// The weights are identified by three numbers of the model, and the tokenizer by the size of the
/// vocabulary and its name, each number in eight bytes, the least significant first.
pub proof fn law_identifying_bytes(config: ModelConfig)
    ensures
        config.weights_input().len() == 24,
        config.weights_input().subrange(0, 8) == spec_u64_to_le_bytes(config.hidden_dim as u64),
        config.weights_input().subrange(8, 16) == spec_u64_to_le_bytes(config.num_layers as u64),
        config.weights_input().subrange(16, 24) == spec_u64_to_le_bytes(config.vocab_size as u64),
        config.tokenizer_input().take(8) == spec_u64_to_le_bytes(config.vocab_size as u64),
        config.tokenizer_input().skip(8) == encode_utf8("sovereign-reference-tokenizer-v1"@),
{
    vstd::bytes::lemma_auto_spec_u64_to_from_le_bytes();
    let bytes = config.weights_input();
    assert(bytes.subrange(0, 8) =~= spec_u64_to_le_bytes(config.hidden_dim as u64));
    assert(bytes.subrange(8, 16) =~= spec_u64_to_le_bytes(config.num_layers as u64));
    assert(bytes.subrange(16, 24) =~= spec_u64_to_le_bytes(config.vocab_size as u64));
    let name = config.tokenizer_input();
    assert(name.take(8) =~= spec_u64_to_le_bytes(config.vocab_size as u64));
    assert(name.skip(8) =~= encode_utf8("sovereign-reference-tokenizer-v1"@));
}

/// The reference to a branch gives all that the branch says of itself, the digests of the model, and
/// the run of the engine that it is bound to.
pub proof fn law_reference_to_a_branch(service: ServiceView, branch: BranchView)
    ensures
        ({
            let context = service.context_ref(branch);
            &&& context.abi_version == 1
            &&& context.context_id == ContextId(branch.context_id)
            &&& context.branch_id == BranchId(branch.branch_id)
            &&& context.generation == branch.generation
            &&& context.model.weights_digest == service.digests.weights
            &&& context.model.model_config_digest == digest_or_zero(service.digests.config)
            &&& context.tokenizer.tokenizer_digest == service.digests.tokenizer
            &&& context.kv_format == (KvFormatView { format_version: 1, dtype: "FP32"@ })
            &&& context.logical_state_digest == branch.logical_state_digest
            &&& context.token_count == branch.token_count
            &&& context.lineage == branch.lineage
            &&& context.isolation == branch.isolation
            &&& context.recovery == branch.recipe_ref
            &&& context.binding matches Some(binding) && binding.engine_id == service.engine_id
                && binding.runtime_epoch == service.epoch && binding.binding_id
                == branch.branch_id && binding.lease_generation == 1
            &&& context.model == service.model_fingerprint()
            &&& context.tokenizer == service.tokenizer_fingerprint()
            &&& context.kv_format == kv_format_view()
        }),
{
}

/// A context becomes active in the first generation, with no lineage, with the tokens that the
/// engine has taken in and the digests that were taken of it; one that comes from a recipe counts as
/// rebuilt.
pub proof fn law_context_becomes_active(
    pending: PendingView,
    state_digest: Digest32,
    domain_digest: Digest32,
)
    ensures
        ({
            let branch = pending.branch(state_digest, domain_digest);
            &&& branch.handle == pending.handle.0
            &&& branch.branch_id == pending.branch_id
            &&& branch.context_id == pending.context_id
            &&& branch.generation.0 == 1
            &&& branch.tokens == pending.tokens
            &&& pending.tokens.len() <= u64::MAX ==> branch.token_count == pending.tokens.len()
            &&& branch.logical_state_digest == state_digest
            &&& branch.recipe_ref == pending.recipe_ref
            &&& branch.isolation.domain_id == pending.domain_id
            &&& branch.isolation.domain_digest == domain_digest
            &&& branch.lineage == (ContextLineage {
                parent_context: None,
                parent_branch: None,
                parent_digest: None,
                fork_token_index: None,
            })
            &&& branch.rebuilt <==> pending.domain is Reconstruction
        }),
{
}

/// A branch that is put under an identifier stands there, and everything else stays as it is.
pub proof fn law_branch_is_put(service: ServiceView, id: Uuid, branch: BranchView, other: Uuid)
    ensures
        ({
            let after = service.with_branch(id, branch);
            &&& after.branches.contains_key(id)
            &&& after.branches[id] == branch
            &&& other != id ==> (after.branches.contains_key(other)
                <==> service.branches.contains_key(other))
            &&& other != id && service.branches.contains_key(other) ==> after.branches[other]
                == service.branches[other]
            &&& after.config == service.config
            &&& after.digests == service.digests
            &&& after.epoch == service.epoch
            &&& after.engine_id == service.engine_id
            &&& after.backend_name == service.backend_name
            &&& after.is_accelerated == service.is_accelerated
            &&& after.memory_kind == service.memory_kind
        }),
{
}

/// The names of the two domains.
pub proof fn law_names_of_domains(domain: IsolationDomain)
    ensures
        domain is TenantRoot ==> domain.name() == "sovereign-tenant-root"@,
        domain is Reconstruction ==> domain.name() == "sovereign-reconstruction-domain"@,
{
}

/// A branch that is rebuilt from a recipe that holds nothing of it has the whole root prompt; one of
/// which the recipe holds a delta has the root prompt and then the delta.
pub proof fn law_rebuilt_branch_has_the_tokens_of_its_recipe(
    recipe: RecipeView,
    pending: PendingView,
    state_digest: Digest32,
    domain_digest: Digest32,
)
    requires
        pending.tokens == recipe.full_tokens(pending.branch_id),
    ensures
        ({
            let branch = pending.branch(state_digest, domain_digest);
            let root = recipe.root_prompt_tokens;
            let id = pending.branch_id;
            &&& root.is_prefix_of(branch.tokens)
            &&& !recipe.branch_deltas.contains_key(id) ==> branch.tokens == root
            &&& recipe.branch_deltas.contains_key(id) ==> branch.tokens.skip(root.len() as int)
                == recipe.branch_deltas[id]
            &&& branch.tokens.len() <= u64::MAX ==> branch.token_count == branch.tokens.len()
        }),
{
    let root = recipe.root_prompt_tokens;
    let id = pending.branch_id;
    assert(pending.tokens.take(root.len() as int) =~= root);
    if recipe.branch_deltas.contains_key(id) {
        assert(pending.tokens.skip(root.len() as int) =~= recipe.branch_deltas[id]);
    }
}

/// The handles that are released come in the order of the siblings: where these are different
/// branches, all active and none the selected one, the handles are theirs, one for one.
pub proof fn law_order_of_released_handles(
    branches: Map<Uuid, BranchView>,
    selected: Uuid,
    siblings: Seq<Uuid>,
)
    requires
        siblings.no_duplicates(),
        forall|i: int|
            0 <= i < siblings.len() ==> #[trigger] siblings[i] != selected
                && branches.contains_key(siblings[i]),
    ensures
        released_handles(branches, selected, siblings).len() == siblings.len(),
        forall|i: int|
            0 <= i < siblings.len() ==> #[trigger] released_handles(
                branches,
                selected,
                siblings,
            )[i] == branches[siblings[i]].handle,
    decreases siblings.len(),
{
    if siblings.len() > 0 {
        let earlier = siblings.drop_last();
        let last = siblings.last();
        assert(forall|i: int| 0 <= i < earlier.len() ==> earlier[i] == siblings[i]);
        law_order_of_released_handles(branches, selected, earlier);
        assert(!earlier.contains(last)) by {
            if earlier.contains(last) {
                let i = earlier.index_of(last);
                assert(siblings[i] == siblings[siblings.len() - 1]);
            }
        }
    }
}

/// One more sibling releases its handle after the others, once, if it is active and is not the one
/// that is selected.
pub proof fn law_one_more_sibling(
    branches: Map<Uuid, BranchView>,
    selected: Uuid,
    siblings: Seq<Uuid>,
    sibling: Uuid,
)
    ensures
        released_handles(branches, selected, Seq::empty()) == Seq::<u64>::empty(),
        released_handles(branches, selected, siblings.push(sibling)) == (if sibling == selected
            || !branches.contains_key(sibling) || siblings.contains(sibling) {
            released_handles(branches, selected, siblings)
        } else {
            released_handles(branches, selected, siblings).push(branches[sibling].handle)
        }),
        pruned(branches, selected, Seq::empty()) == branches,
{
    assert(siblings.push(sibling).drop_last() =~= siblings);
    assert(pruned(branches, selected, Seq::empty()) =~= branches);
}

/// What a run of the demonstration verifies.
pub proof fn law_names_of_what_is_verified()
    ensures
        verified_names().len() == 8,
        verified_names()[0] == "flat_zero_copy_branch_fork"@,
        verified_names()[1] == "isolated_tail_page_cow_fault"@,
        verified_names()[2] == "untouched_sibling_block_sharing"@,
        verified_names()[3] == "branch_delta_state_divergence"@,
        verified_names()[4] == "zero_copy_logical_merge_select_branch"@,
        verified_names()[5] == "stale_runtime_epoch_rejection"@,
        verified_names()[6] == "durable_recipe_hash_verification"@,
        verified_names()[7] == "post_crash_logical_state_digest_parity"@,
{
}

} // verus!
