//! The inference service: the branches that are active on the engine and what is done with them.

use std::collections::HashMap;

use vstd::bytes::{spec_u64_to_le_bytes, u64_to_le_bytes};
use vstd::prelude::*;
use vstd::utf8::encode_utf8;

use crate::branch::{state_digest_input, BranchState, BranchView};
use crate::ids::{draw_uuid, is_random_uuid, uuid_text, uuid_to_text, Uuid};
use crate::protocol::{
    BindingView, BranchId, CacheIsolationKey, ContextHandle, ContextId, ContextLineage,
    ContextRecipeRef, ContextRefView, Digest32, Generation, InferenceCapabilities,
    InferenceContextRef, KvFormatFingerprint, KvFormatView, ModelFingerprint, OpaqueBindingRef,
    ProtocolVersion, TokenizerFingerprint,
};
use crate::recipe::{digest_or_zero, ContextRecipe};
use crate::text::joined3;

pub mod fork;
pub mod infer;

verus! {

broadcast use vstd::std_specs::hash::group_hash_axioms;

/// The most tokens that a context can have.
pub const MAX_CONTEXT_TOKENS: u64 = 4096;

/// The shape of a model.
#[derive(Clone, Copy, Debug, PartialEq, Eq, Structural)]
pub struct ModelConfig {
    pub num_layers: usize,
    pub num_heads: usize,
    pub num_kv_heads: usize,
    pub head_dim: usize,
    pub hidden_dim: usize,
    pub intermediate_dim: usize,
    pub vocab_size: usize,
    pub block_size: usize,
}

pub open spec fn embedded_config() -> ModelConfig {
    ModelConfig {
        num_layers: 2,
        num_heads: 4,
        num_kv_heads: 2,
        head_dim: 16,
        hidden_dim: 64,
        intermediate_dim: 128,
        vocab_size: 256,
        block_size: 16,
    }
}

impl ModelConfig {
    /// The model that the service embeds.
    pub fn embedded() -> (config: ModelConfig)
        ensures
            config == embedded_config(),
    {
        ModelConfig {
            num_layers: 2,
            num_heads: 4,
            num_kv_heads: 2,
            head_dim: 16,
            hidden_dim: 64,
            intermediate_dim: 128,
            vocab_size: 256,
            block_size: 16,
        }
    }

    /// How many blocks of the key-value cache the engine is started with, and how many tokens each
    /// of them holds.
    pub fn kv_pool(&self) -> (r: (usize, usize))
        ensures
            r == (1024usize, self.block_size),
    {
        (1024, self.block_size)
    }

    pub open spec fn weights_input(self) -> Seq<u8> {
        spec_u64_to_le_bytes(self.hidden_dim as u64) + spec_u64_to_le_bytes(self.num_layers as u64)
            + spec_u64_to_le_bytes(self.vocab_size as u64)
    }

    /// The bytes whose SHA-256 identifies the weights: the hidden dimension, the number of layers
    /// and the size of the vocabulary, each in eight bytes, the least significant first.
    pub fn weights_digest_input(&self) -> (bytes: Vec<u8>)
        ensures
            bytes@ == self.weights_input(),
    {
        let mut bytes: Vec<u8> = u64_to_le_bytes(self.hidden_dim as u64);
        let layers: Vec<u8> = u64_to_le_bytes(self.num_layers as u64);
        let vocab: Vec<u8> = u64_to_le_bytes(self.vocab_size as u64);
        bytes.extend_from_slice(layers.as_slice());
        bytes.extend_from_slice(vocab.as_slice());
        assert(bytes@ =~= self.weights_input());
        bytes
    }

    pub open spec fn tokenizer_input(self) -> Seq<u8> {
        spec_u64_to_le_bytes(self.vocab_size as u64) + encode_utf8(
            "sovereign-reference-tokenizer-v1"@,
        )
    }

    /// The bytes whose SHA-256 identifies the tokenizer: the size of the vocabulary in eight bytes,
    /// the least significant first, and the tokenizer's name.
    pub fn tokenizer_digest_input(&self) -> (bytes: Vec<u8>)
        ensures
            bytes@ == self.tokenizer_input(),
    {
        let mut bytes: Vec<u8> = u64_to_le_bytes(self.vocab_size as u64);
        bytes.extend_from_slice("sovereign-reference-tokenizer-v1".as_bytes());
        assert(bytes@ =~= self.tokenizer_input());
        bytes
    }
}

/// The digests that identify a model: SHA-256 of the two inputs that `ModelConfig` gives, and the
/// digest of the canonical JSON of the configuration, if it has one.
#[derive(Clone, Copy, Debug)]
pub struct ModelDigests {
    pub weights: Digest32,
    pub tokenizer: Digest32,
    pub config: Option<Digest32>,
}

/// The kinds of memory that a Linux machine can give the engine.
#[derive(Clone, Copy, Debug, PartialEq, Eq, Structural)]
pub enum LinuxMemoryKind {
    AtsSystem,
    HmmSystem,
    CudaManagedFallback,
}

impl LinuxMemoryKind {
    pub open spec fn label_text(self) -> Seq<char> {
        match self {
            LinuxMemoryKind::AtsSystem => "AtsSystem (Hardware Coherent Grace-Blackwell)"@,
            LinuxMemoryKind::HmmSystem => "HmmSystem (Heterogeneous Memory Management)"@,
            LinuxMemoryKind::CudaManagedFallback => "CudaManagedFallback"@,
        }
    }

    /// The name of this kind of memory.
    pub fn label(&self) -> (text: String)
        ensures
            text@ == self.label_text(),
    {
        match self {
            LinuxMemoryKind::AtsSystem => {
                "AtsSystem (Hardware Coherent Grace-Blackwell)".to_string()
            },
            LinuxMemoryKind::HmmSystem => {
                "HmmSystem (Heterogeneous Memory Management)".to_string()
            },
            LinuxMemoryKind::CudaManagedFallback => "CudaManagedFallback".to_string(),
        }
    }
}

/// The service. The engine stands beside it: a method that needs it says what to ask and takes the
/// answer.
#[derive(Debug)]
pub struct SovereignInferenceService {
    config: ModelConfig,
    digests: ModelDigests,
    active_branches: HashMap<Uuid, BranchState>,
    epoch: u64,
    pub engine_id: String,
    pub backend_name: String,
    pub is_accelerated: bool,
    pub memory_kind: String,
}

#[verifier::ext_equal]
pub struct ServiceView {
    pub config: ModelConfig,
    pub digests: ModelDigests,
    pub branches: Map<Uuid, BranchView>,
    pub epoch: u64,
    pub engine_id: Seq<char>,
    pub backend_name: Seq<char>,
    pub is_accelerated: bool,
    pub memory_kind: Seq<char>,
}

impl ServiceView {
    /// Each branch stands under its own identifier and counts no token that it does not have.
    pub open spec fn wf(self) -> bool {
        forall|id: Uuid| #[trigger]
            self.branches.contains_key(id) ==> self.branches[id].branch_id == id
                && self.branches[id].token_count <= self.branches[id].tokens.len()
    }

    /// The service as it starts, with no branch.
    pub open spec fn is_fresh(
        self,
        config: ModelConfig,
        epoch: u64,
        memory: LinuxMemoryKind,
        digests: ModelDigests,
    ) -> bool {
        &&& self.config == config
        &&& self.digests == digests
        &&& self.branches == Map::<Uuid, BranchView>::empty()
        &&& self.epoch == epoch
        &&& self.engine_id == "aien-sovereign-gb10"@
        &&& self.backend_name == "ReferenceCpuBackend (CPU Golden Oracle)"@
        &&& self.is_accelerated == false
        &&& self.memory_kind == memory.label_text()
    }

    pub open spec fn with_branch(self, id: Uuid, branch: BranchView) -> ServiceView {
        ServiceView { branches: self.branches.insert(id, branch), ..self }
    }

    pub open spec fn model_fingerprint(self) -> ModelFingerprint {
        ModelFingerprint {
            weights_digest: self.digests.weights,
            model_config_digest: digest_or_zero(self.digests.config),
        }
    }

    pub open spec fn tokenizer_fingerprint(self) -> TokenizerFingerprint {
        TokenizerFingerprint { tokenizer_digest: self.digests.tokenizer }
    }

    /// The reference to a branch that this service hands out.
    pub open spec fn context_ref(self, branch: BranchView) -> ContextRefView {
        ContextRefView {
            abi_version: 1,
            context_id: ContextId(branch.context_id),
            branch_id: BranchId(branch.branch_id),
            generation: branch.generation,
            model: self.model_fingerprint(),
            tokenizer: self.tokenizer_fingerprint(),
            kv_format: kv_format_view(),
            logical_state_digest: branch.logical_state_digest,
            token_count: branch.token_count,
            lineage: branch.lineage,
            isolation: branch.isolation,
            binding: Some(
                BindingView {
                    engine_id: self.engine_id,
                    runtime_epoch: self.epoch,
                    binding_id: branch.branch_id,
                    lease_generation: 1,
                },
            ),
            recovery: branch.recipe_ref,
        }
    }
}

/// The layout of the key-value cache that the service works with.
pub open spec fn kv_format_view() -> KvFormatView {
    KvFormatView { format_version: 1, dtype: "FP32"@ }
}

impl BranchState {
    /// The reference to this branch on a service.
    pub fn to_context_ref(&self, service: &SovereignInferenceService) -> (r: InferenceContextRef)
        ensures
            r@ == service@.context_ref(self@),
    {
        InferenceContextRef {
            abi_version: 1,
            context_id: ContextId(self.context_id),
            branch_id: BranchId(self.branch_id),
            generation: self.generation,
            model: service.model_fingerprint(),
            tokenizer: service.tokenizer_fingerprint(),
            kv_format: service.kv_format_fingerprint(),
            logical_state_digest: self.logical_state_digest,
            token_count: self.token_count,
            lineage: self.lineage,
            isolation: self.isolation,
            binding: Some(
                OpaqueBindingRef {
                    engine_id: service.engine_id.clone(),
                    runtime_epoch: service.runtime_epoch(),
                    binding_id: self.branch_id,
                    lease_generation: 1,
                },
            ),
            recovery: self.recipe_ref,
        }
    }
}

impl SovereignInferenceService {
    pub closed spec fn view(&self) -> ServiceView {
        ServiceView {
            config: self.config,
            digests: self.digests,
            branches: self.active_branches@.map_values(|b: BranchState| b@),
            epoch: self.epoch,
            engine_id: self.engine_id@,
            backend_name: self.backend_name@,
            is_accelerated: self.is_accelerated,
            memory_kind: self.memory_kind@,
        }
    }

    /// The view of a service shows what is written on it.
    proof fn law_view_of_a_service(&self)
        ensures
            self@.engine_id == self.engine_id@,
            self@.backend_name == self.backend_name@,
            self@.is_accelerated == self.is_accelerated,
            self@.memory_kind == self.memory_kind@,
    {
    }

    /// A service over an engine with reference weights for `config`. `backend` is what came of
    /// starting the engine, `memory` the kind of memory that the machine prefers, `digests` what
    /// identifies the model.
    pub fn new_with_reference_weights(
        config: &ModelConfig,
        epoch: u64,
        backend: Result<(), String>,
        memory: LinuxMemoryKind,
        digests: ModelDigests,
    ) -> (r: Result<SovereignInferenceService, String>)
        ensures
            backend matches Err(e) ==> r == Err::<SovereignInferenceService, String>(e),
            backend is Ok ==> r is Ok && r->Ok_0@.is_fresh(*config, epoch, memory, digests)
                && r->Ok_0@.wf(),
    {
        match backend {
            Err(e) => Err(e),
            Ok(()) => {
                let service = SovereignInferenceService {
                    config: *config,
                    digests,
                    active_branches: HashMap::new(),
                    epoch,
                    engine_id: "aien-sovereign-gb10".to_string(),
                    backend_name: "ReferenceCpuBackend (CPU Golden Oracle)".to_string(),
                    is_accelerated: false,
                    memory_kind: memory.label(),
                };
                assert(service@.branches =~= Map::empty());
                Ok(service)
            },
        }
    }

    /// A service over the embedded model in its first run.
    pub fn new_default(
        backend: Result<(), String>,
        memory: LinuxMemoryKind,
        digests: ModelDigests,
    ) -> (r: Result<SovereignInferenceService, String>)
        ensures
            backend matches Err(e) ==> r == Err::<SovereignInferenceService, String>(e),
            backend is Ok ==> r is Ok && r->Ok_0@.is_fresh(embedded_config(), 1, memory, digests)
                && r->Ok_0@.wf(),
    {
        SovereignInferenceService::new_with_epoch(1, backend, memory, digests)
    }

    /// A service over the embedded model in the run that `epoch` numbers.
    pub fn new_with_epoch(
        epoch: u64,
        backend: Result<(), String>,
        memory: LinuxMemoryKind,
        digests: ModelDigests,
    ) -> (r: Result<SovereignInferenceService, String>)
        ensures
            backend matches Err(e) ==> r == Err::<SovereignInferenceService, String>(e),
            backend is Ok ==> r is Ok && r->Ok_0@.is_fresh(
                embedded_config(),
                epoch,
                memory,
                digests,
            ) && r->Ok_0@.wf(),
    {
        let config = ModelConfig::embedded();
        SovereignInferenceService::new_with_reference_weights(
            &config,
            epoch,
            backend,
            memory,
            digests,
        )
    }

    /// The model's configuration.
    pub fn model_config(&self) -> (config: ModelConfig)
        ensures
            config == self@.config,
    {
        self.config
    }

    /// What identifies the model of this service.
    pub fn model_fingerprint(&self) -> (r: ModelFingerprint)
        ensures
            r == self@.model_fingerprint(),
    {
        ModelFingerprint {
            weights_digest: self.digests.weights,
            model_config_digest: match self.digests.config {
                Some(digest) => digest,
                None => Digest32::zero(),
            },
        }
    }

    /// What identifies the tokenizer of this service.
    pub fn tokenizer_fingerprint(&self) -> (r: TokenizerFingerprint)
        ensures
            r == self@.tokenizer_fingerprint(),
    {
        TokenizerFingerprint { tokenizer_digest: self.digests.tokenizer }
    }

    /// The layout of the key-value cache of this service.
    pub fn kv_format_fingerprint(&self) -> (r: KvFormatFingerprint)
        ensures
            r@ == kv_format_view(),
    {
        KvFormatFingerprint { format_version: 1, dtype: "FP32".to_string() }
    }

    /// The number of the engine's run.
    pub fn runtime_epoch(&self) -> (epoch: u64)
        ensures
            epoch == self@.epoch,
    {
        self.epoch
    }

    /// Starts the next run: no branch of this one is active any more.
    pub fn bump_runtime_epoch(&mut self) -> (epoch: u64)
        requires
            old(self)@.epoch < u64::MAX,
        ensures
            epoch == old(self)@.epoch + 1,
            final(self)@ == (ServiceView { epoch, branches: Map::empty(), ..old(self)@ }),
            final(self)@.wf(),
    {
        self.epoch = self.epoch + 1;
        self.active_branches.clear();
        assert(self@.branches =~= Map::empty());
        self.epoch
    }

    /// What the service can do.
    pub fn get_capabilities(&self) -> (r: InferenceCapabilities)
        ensures
            r == (InferenceCapabilities {
                protocol: ProtocolVersion { major: 1, minor: 0 },
                context_branching: true,
                physical_cow: true,
                streaming: false,
                cancellation: true,
                max_context_tokens: Some(MAX_CONTEXT_TOKENS),
            }),
            r.max_context_tokens == Some(4096u64),
    {
        InferenceCapabilities {
            protocol: ProtocolVersion { major: 1, minor: 0 },
            context_branching: true,
            physical_cow: true,
            streaming: false,
            cancellation: true,
            max_context_tokens: Some(MAX_CONTEXT_TOKENS),
        }
    }

    /// The handle under which the engine holds a branch, and its table of blocks.
    pub fn get_block_table(&self, id: Uuid) -> (handle: Option<u64>)
        ensures
            handle == (if self@.branches.contains_key(id) {
                Some(self@.branches[id].handle)
            } else {
                None
            }),
    {
        match self.active_branches.get(&id) {
            Some(branch) => Some(branch.handle),
            None => None,
        }
    }

    /// The tokens of a branch.
    pub fn get_branch_tokens(&self, branch_id: Uuid) -> (tokens: Option<Vec<u32>>)
        ensures
            tokens is Some <==> self@.branches.contains_key(branch_id),
            tokens matches Some(t) ==> t@ == self@.branches[branch_id].tokens,
    {
        match self.active_branches.get(&branch_id) {
            Some(branch) => Some(branch.tokens.clone()),
            None => None,
        }
    }

    /// The first step of starting a context on a prompt: draws its identifiers. `created` is what
    /// came of having the engine take the prompt in, `canonical` the digest of the recipe's
    /// canonical JSON. `register_context` is the second step.
    pub fn create_root_context(
        &self,
        prompt_tokens: &[u32],
        recipe: &ContextRecipe,
        canonical: Option<Digest32>,
        created: Result<ContextHandle, String>,
    ) -> (r: Result<PendingContext, String>)
        ensures
            created matches Err(e) ==> r == Err::<PendingContext, String>(e),
            created matches Ok(handle) ==> r is Ok && {
                let p = r->Ok_0;
                &&& p.handle == handle
                &&& p.tokens@ == prompt_tokens@
                &&& p.recipe_ref == recipe@.reference(digest_or_zero(canonical))
                &&& p.domain == IsolationDomain::TenantRoot
                &&& is_random_uuid(p.context_id)
                &&& is_random_uuid(p.branch_id)
                &&& is_random_uuid(p.domain_id)
            },
    {
        match created {
            Err(e) => Err(e),
            Ok(handle) => {
                let context_id = draw_uuid();
                let branch_id = draw_uuid();
                let recipe_ref = recipe.to_ref(canonical);
                let domain_id = draw_uuid();
                Ok(
                    PendingContext {
                        handle,
                        branch_id,
                        context_id,
                        domain_id,
                        tokens: vstd::slice::slice_to_vec(prompt_tokens),
                        recipe_ref,
                        domain: IsolationDomain::TenantRoot,
                    },
                )
            },
        }
    }

    /// The first step of rebuilding a branch from a recipe: draws the identifiers of its new
    /// context. `created` is what came of having the engine take the recipe's tokens of the branch
    /// in, `canonical` the digest of the recipe's canonical JSON. `register_context` is the second
    /// step.
    pub fn reconstruct_from_recipe(
        &self,
        branch_id: Uuid,
        recipe: &ContextRecipe,
        canonical: Option<Digest32>,
        created: Result<ContextHandle, String>,
    ) -> (r: Result<PendingContext, String>)
        ensures
            created matches Err(e) ==> r == Err::<PendingContext, String>(e),
            created matches Ok(handle) ==> r is Ok && {
                let p = r->Ok_0;
                &&& p.handle == handle
                &&& p.branch_id == branch_id
                &&& p.tokens@ == recipe@.full_tokens(branch_id)
                &&& p.recipe_ref == recipe@.reference(digest_or_zero(canonical))
                &&& p.domain == IsolationDomain::Reconstruction
                &&& is_random_uuid(p.context_id)
                &&& is_random_uuid(p.domain_id)
            },
    {
        match created {
            Err(e) => Err(e),
            Ok(handle) => {
                let tokens = recipe.full_tokens_for_branch(&branch_id);
                let context_id = draw_uuid();
                let recipe_ref = recipe.to_ref(canonical);
                let domain_id = draw_uuid();
                Ok(
                    PendingContext {
                        handle,
                        branch_id,
                        context_id,
                        domain_id,
                        tokens,
                        recipe_ref,
                        domain: IsolationDomain::Reconstruction,
                    },
                )
            },
        }
    }

    /// Makes a context active, as the only branch of it. `state_digest` and `domain_digest` are the
    /// SHA-256 of the two inputs that `pending` gives.
    pub fn register_context(
        &mut self,
        pending: PendingContext,
        state_digest: Digest32,
        domain_digest: Digest32,
    ) -> (r: (ContextHandle, InferenceContextRef))
        ensures
            r.0 == pending.handle,
            r.1@ == old(self)@.context_ref(pending@.branch(state_digest, domain_digest)),
            final(self)@ == old(self)@.with_branch(
                pending.branch_id,
                pending@.branch(state_digest, domain_digest),
            ),
            old(self)@.wf() ==> final(self)@.wf(),
    {
        let handle = pending.handle;
        let branch_id = pending.branch_id;
        let ghost expected = pending@.branch(state_digest, domain_digest);
        let branch = BranchState {
            handle: handle.0,
            branch_id,
            context_id: pending.context_id,
            generation: Generation(1),
            token_count: pending.tokens.len() as u64,
            tokens: pending.tokens,
            logical_state_digest: state_digest,
            recipe_ref: pending.recipe_ref,
            isolation: CacheIsolationKey { domain_id: pending.domain_id, domain_digest },
            lineage: ContextLineage {
                parent_context: None,
                parent_branch: None,
                parent_digest: None,
                fork_token_index: None,
            },
            rebuilt: pending.domain == IsolationDomain::Reconstruction,
        };
        assert(branch@ =~= expected);
        let reference = branch.to_context_ref(self);
        self.put_branch(branch_id, branch);
        (handle, reference)
    }

    /// Puts a branch under an identifier.
    fn put_branch(&mut self, id: Uuid, branch: BranchState)
        ensures
            final(self)@ == old(self)@.with_branch(id, branch@),
    {
        let ghost before = self@;
        self.active_branches.insert(id, branch);
        assert(self@ =~= before.with_branch(id, branch@));
    }

    /// Takes a branch out.
    fn take_branch(&mut self, id: Uuid) -> (r: Option<BranchState>)
        ensures
            r is Some <==> old(self)@.branches.contains_key(id),
            r matches Some(branch) ==> branch@ == old(self)@.branches[id],
            final(self)@ == (ServiceView {
                branches: old(self)@.branches.remove(id),
                ..old(self)@
            }),
    {
        let ghost before = self@;
        let taken = self.active_branches.remove(&id);
        assert(self@ =~= (ServiceView { branches: before.branches.remove(id), ..before }));
        taken
    }

    /// The recipe from which a branch can be rebuilt as it stands: `recipe`, with what the branch
    /// holds beyond the root prompt. `None` where the branch is not active, or does not start with
    /// the root prompt of `recipe`.
    pub fn snapshot_branch_recipe(&self, branch_id: Uuid, recipe: &ContextRecipe) -> (r: Option<
        ContextRecipe,
    >)
        ensures
            r is Some <==> self@.branches.contains_key(branch_id)
                && recipe@.root_prompt_tokens.is_prefix_of(self@.branches[branch_id].tokens),
            r matches Some(s) ==> s@ == recipe@.with_delta(
                branch_id,
                self@.branches[branch_id].tokens.skip(recipe@.root_prompt_tokens.len() as int),
            ),
    {
        match self.active_branches.get(&branch_id) {
            None => None,
            Some(state) => {
                let root_len: usize = recipe.root_prompt_tokens.len();
                if state.tokens.len() < root_len {
                    return None;
                }
                let mut i: usize = 0;
                while i < root_len
                    invariant
                        i <= root_len,
                        root_len == recipe.root_prompt_tokens@.len(),
                        root_len <= state.tokens@.len(),
                        self@.branches.contains_key(branch_id),
                        self@.branches[branch_id] == state@,
                        forall|j: int|
                            0 <= j < i ==> state.tokens@[j] == recipe.root_prompt_tokens@[j],
                    decreases root_len - i,
                {
                    if state.tokens[i] != recipe.root_prompt_tokens[i] {
                        assert(state.tokens@.take(root_len as int)[i as int]
                            != recipe.root_prompt_tokens@[i as int]);
                        return None;
                    }
                    i = i + 1;
                }
                assert(recipe.root_prompt_tokens@ =~= state.tokens@.take(root_len as int));
                let delta = vstd::slice::slice_to_vec(
                    vstd::slice::slice_subrange(
                        state.tokens.as_slice(),
                        root_len,
                        state.tokens.len(),
                    ),
                );
                assert(delta@ =~= state.tokens@.skip(root_len as int));
                Some(recipe.clone().with_branch_delta(branch_id, delta))
            },
        }
    }

    /// Keeps `selected_branch` of a group of siblings: the others are active no more. Hands back
    /// the handles that the engine is to release, in the order of the siblings.
    pub fn select_branch(&mut self, selected_branch: Uuid, sibling_branches: &[Uuid]) -> (r: Result<
        Vec<u64>,
        String,
    >)
        ensures
            r is Err <==> !old(self)@.branches.contains_key(selected_branch),
            r matches Err(message) ==> message@ == "Selected branch "@ + uuid_text(selected_branch)
                + " not found"@ && final(self)@ == old(self)@,
            r matches Ok(released) ==> {
                &&& final(self)@ == (ServiceView {
                    branches: pruned(
                        old(self)@.branches,
                        selected_branch,
                        sibling_branches@,
                    ),
                    ..old(self)@
                })
                &&& released@ == released_handles(
                    old(self)@.branches,
                    selected_branch,
                    sibling_branches@,
                )
            },
            old(self)@.wf() ==> final(self)@.wf(),
    {
        if !self.active_branches.contains_key(&selected_branch) {
            return Err(
                joined3("Selected branch ", uuid_to_text(selected_branch).as_str(), " not found"),
            );
        }
        let ghost before = self@;
        let mut released: Vec<u64> = Vec::new();
        let mut i: usize = 0;
        assert(self@.branches =~= pruned(
            before.branches,
            selected_branch,
            sibling_branches@.take(0),
        ));
        while i < sibling_branches.len()
            invariant
                i <= sibling_branches.len(),
                self@ == (ServiceView {
                    branches: pruned(
                        before.branches,
                        selected_branch,
                        sibling_branches@.take(i as int),
                    ),
                    ..before
                }),
                released@ == released_handles(
                    before.branches,
                    selected_branch,
                    sibling_branches@.take(i as int),
                ),
            decreases sibling_branches.len() - i,
        {
            let sibling: Uuid = sibling_branches[i];
            let ghost seen = sibling_branches@.take(i as int);
            let ghost here = self@;
            proof {
                assert(sibling_branches@.take(i + 1).drop_last() =~= seen);
                assert(sibling_branches@.take(i + 1) =~= seen.push(sibling));
                assert(sibling_branches@.take(i + 1).last() == sibling);
                assert(sibling != selected_branch ==> (here.branches.contains_key(sibling)
                    <==> before.branches.contains_key(sibling) && !seen.contains(sibling)));
            }
            if sibling != selected_branch {
                assert(self.active_branches@.contains_key(sibling) <==> here.branches.contains_key(
                    sibling,
                ));
                if let Some(branch) = self.active_branches.remove(&sibling) {
                    assert(here.branches[sibling] == branch@);
                    assert(here.branches[sibling] == before.branches[sibling]);
                    released.push(branch.handle);
                }
                assert(self@ =~= (ServiceView { branches: here.branches.remove(sibling), ..here }));
            }
            proof {
                lemma_pruned_push(before.branches, selected_branch, seen, sibling);
            }
            i = i + 1;
        }
        assert(sibling_branches@.take(sibling_branches@.len() as int) =~= sibling_branches@);
        Ok(released)
    }
}

/// To whom the cache of a context belongs that was not forked.
#[derive(Clone, Copy, Debug, PartialEq, Eq, Structural)]
pub enum IsolationDomain {
    TenantRoot,
    Reconstruction,
}

impl IsolationDomain {
    pub open spec fn name(self) -> Seq<char> {
        match self {
            IsolationDomain::TenantRoot => "sovereign-tenant-root"@,
            IsolationDomain::Reconstruction => "sovereign-reconstruction-domain"@,
        }
    }
}

/// A context that the engine has taken in and that is to become active.
#[derive(Debug)]
pub struct PendingContext {
    pub handle: ContextHandle,
    pub branch_id: Uuid,
    pub context_id: Uuid,
    pub domain_id: Uuid,
    pub tokens: Vec<u32>,
    pub recipe_ref: ContextRecipeRef,
    pub domain: IsolationDomain,
}

pub struct PendingView {
    pub handle: ContextHandle,
    pub branch_id: Uuid,
    pub context_id: Uuid,
    pub domain_id: Uuid,
    pub tokens: Seq<u32>,
    pub recipe_ref: ContextRecipeRef,
    pub domain: IsolationDomain,
}

impl View for PendingContext {
    type V = PendingView;

    open spec fn view(&self) -> PendingView {
        PendingView {
            handle: self.handle,
            branch_id: self.branch_id,
            context_id: self.context_id,
            domain_id: self.domain_id,
            tokens: self.tokens@,
            recipe_ref: self.recipe_ref,
            domain: self.domain,
        }
    }
}

impl PendingView {
    /// The branch as which the context becomes active.
    pub open spec fn branch(self, state_digest: Digest32, domain_digest: Digest32) -> BranchView {
        BranchView {
            handle: self.handle.0,
            branch_id: self.branch_id,
            context_id: self.context_id,
            generation: Generation(1),
            token_count: self.tokens.len() as u64,
            tokens: self.tokens,
            logical_state_digest: state_digest,
            recipe_ref: self.recipe_ref,
            isolation: CacheIsolationKey { domain_id: self.domain_id, domain_digest },
            lineage: ContextLineage {
                parent_context: None,
                parent_branch: None,
                parent_digest: None,
                fork_token_index: None,
            },
            rebuilt: self.domain == IsolationDomain::Reconstruction,
        }
    }
}

impl PendingContext {
    /// The bytes whose SHA-256 is the context's logical digest.
    pub fn state_digest_input(&self) -> (bytes: Vec<u8>)
        ensures
            bytes@ == state_digest_input(self.branch_id, self.tokens@),
    {
        BranchState::compute_digest(&self.branch_id, self.tokens.as_slice())
    }

    /// The bytes whose SHA-256 is the digest of the context's isolation domain.
    pub fn domain_digest_input(&self) -> (bytes: Vec<u8>)
        ensures
            bytes@ == encode_utf8(self.domain.name()),
    {
        match self.domain {
            IsolationDomain::TenantRoot => {
                vstd::slice::slice_to_vec("sovereign-tenant-root".as_bytes())
            },
            IsolationDomain::Reconstruction => {
                vstd::slice::slice_to_vec("sovereign-reconstruction-domain".as_bytes())
            },
        }
    }
}

/// The branches that are left when those of `siblings` go but for `selected`.
pub open spec fn pruned(
    branches: Map<Uuid, BranchView>,
    selected: Uuid,
    siblings: Seq<Uuid>,
) -> Map<Uuid, BranchView> {
    branches.restrict(Set::new(|id: Uuid| id == selected || !siblings.contains(id)))
}

/// The handles of the branches of `siblings` that go when `selected` is kept: each once, in the
/// order in which the siblings are first named.
pub open spec fn released_handles(
    branches: Map<Uuid, BranchView>,
    selected: Uuid,
    siblings: Seq<Uuid>,
) -> Seq<u64>
    decreases siblings.len(),
{
    if siblings.len() == 0 {
        Seq::empty()
    } else {
        let earlier = siblings.drop_last();
        let last = siblings.last();
        let handles = released_handles(branches, selected, earlier);
        if last != selected && branches.contains_key(last) && !earlier.contains(last) {
            handles.push(branches[last].handle)
        } else {
            handles
        }
    }
}

/// One more sibling: it goes unless it is the one that is kept.
proof fn lemma_pruned_push(
    branches: Map<Uuid, BranchView>,
    selected: Uuid,
    siblings: Seq<Uuid>,
    sibling: Uuid,
)
    ensures
        sibling == selected ==> pruned(branches, selected, siblings.push(sibling)) == pruned(
            branches,
            selected,
            siblings,
        ),
        sibling != selected ==> pruned(branches, selected, siblings.push(sibling)) == pruned(
            branches,
            selected,
            siblings,
        ).remove(sibling),
{
    let more = siblings.push(sibling);
    assert forall|id: Uuid| #[trigger] more.contains(id) <==> siblings.contains(id) || id
        == sibling by {
        if siblings.contains(id) {
            let i = siblings.index_of(id);
            assert(more[i] == id);
        }
        assert(more[siblings.len() as int] == sibling);
        if more.contains(id) {
            let i = more.index_of(id);
            if i < siblings.len() {
                assert(siblings[i] == id);
            }
        }
    }
    if sibling == selected {
        assert(pruned(branches, selected, more) =~= pruned(branches, selected, siblings));
    } else {
        assert(pruned(branches, selected, more) =~= pruned(branches, selected, siblings).remove(
            sibling,
        ));
    }
}

} // verus!
