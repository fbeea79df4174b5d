//! Whole lifecycles on a small engine that keeps its cache in blocks and copies them on write.

use aien_local_stack::protocol::{
    BranchContextReceipt, BranchContextRequest, BranchId, CacheIsolationKey, ContextHandle,
    ContextId, ContextLineage, ContextRecipeRef, Digest32, Generation, InferenceContextRef,
    InferenceError, InferenceMessage, InferenceRequest, InferenceResponse, KvFormatFingerprint,
    ModelFingerprint, OpaqueBindingRef, TokenizerFingerprint,
};
use aien_local_stack::service::fork::{ForkCall, ForkReply, ForkStep, PageUsage};
use aien_local_stack::service::infer::{EngineCall, EngineReply, InferStep, SequenceCounter};
use aien_local_stack::service::{
    IsolationDomain, LinuxMemoryKind, ModelConfig, ModelDigests, PendingContext,
};
use aien_local_stack::{ContextRecipe, SovereignInferenceService};
use std::collections::HashMap;
use uuid::Uuid;

/// The blocks of a context and how many tokens they hold.
#[derive(Clone)]
struct Table {
    block_ids: Vec<usize>,
    tokens: usize,
}

struct Engine {
    block_size: usize,
    ref_counts: Vec<usize>,
    tables: HashMap<u64, Table>,
    next_handle: u64,
    cow_faults: usize,
}

impl Engine {
    fn new(pool: (usize, usize)) -> Self {
        Engine {
            block_size: pool.1,
            ref_counts: vec![0; pool.0],
            tables: HashMap::new(),
            next_handle: 1,
            cow_faults: 0,
        }
    }

    fn allocate(&mut self) -> usize {
        let id = self.ref_counts.iter().position(|&count| count == 0).expect("a free block");
        self.ref_counts[id] = 1;
        id
    }

    fn add_table(&mut self, table: Table) -> ContextHandle {
        let handle = self.next_handle;
        self.next_handle += 1;
        self.tables.insert(handle, table);
        ContextHandle(handle)
    }

    fn create_context(&mut self, tokens: &[u32]) -> ContextHandle {
        let handle = self.add_table(Table { block_ids: vec![], tokens: 0 });
        self.append(handle.0, tokens.len());
        handle
    }

    fn append(&mut self, handle: u64, count: usize) {
        let mut table = self.tables.remove(&handle).expect("a context");
        for _ in 0..count {
            if table.tokens % self.block_size == 0 {
                let id = self.allocate();
                table.block_ids.push(id);
            } else {
                let tail = table.block_ids.pop().expect("a tail");
                if self.ref_counts[tail] > 1 {
                    self.ref_counts[tail] -= 1;
                    self.cow_faults += 1;
                    let id = self.allocate();
                    table.block_ids.push(id);
                } else {
                    table.block_ids.push(tail);
                }
            }
            table.tokens += 1;
        }
        self.tables.insert(handle, table);
    }

    fn decode(&mut self, handle: u64) -> u32 {
        self.append(handle, 1);
        (self.tables[&handle].tokens as u32 * 31) % 256
    }

    fn fork_context(&mut self, handle: ContextHandle) -> ContextHandle {
        let table = self.tables[&handle.0].clone();
        for &id in &table.block_ids {
            self.ref_counts[id] += 1;
        }
        self.add_table(table)
    }

    fn usage(&self, handle: ContextHandle) -> PageUsage {
        let ids = &self.tables[&handle.0].block_ids;
        let shared_pages = ids.iter().filter(|&&id| self.ref_counts[id] > 1).count();
        PageUsage { shared_pages, private_pages: ids.len() - shared_pages }
    }

    fn release(&mut self, handle: u64) {
        let table = self.tables.remove(&handle).expect("a context");
        for id in table.block_ids {
            self.ref_counts[id] -= 1;
        }
    }

    fn used_blocks(&self) -> usize {
        self.ref_counts.iter().filter(|&&count| count > 0).count()
    }
}

/// Stands in for SHA-256.
fn hash(bytes: &[u8]) -> Digest32 {
    let mut out = [bytes.len() as u8; 32];
    let mut state: u64 = 0xcbf2_9ce4_8422_2325;
    for (i, b) in bytes.iter().enumerate() {
        state = (state ^ *b as u64).wrapping_mul(0x0000_0100_0000_01b3);
        out[i % 32] ^= (state >> 32) as u8;
    }
    Digest32(out)
}

struct Stack {
    service: SovereignInferenceService,
    engine: Engine,
    counter: SequenceCounter,
}

impl Stack {
    fn new() -> Self {
        let config = ModelConfig::embedded();
        let digests = ModelDigests {
            weights: hash(&config.weights_digest_input()),
            tokenizer: hash(&config.tokenizer_digest_input()),
            config: None,
        };
        let memory = LinuxMemoryKind::HmmSystem;
        Stack {
            service: SovereignInferenceService::new_default(Ok(()), memory, digests).unwrap(),
            engine: Engine::new(config.kv_pool()),
            counter: SequenceCounter::new(),
        }
    }

    fn activate(&mut self, pending: PendingContext) -> (ContextHandle, InferenceContextRef) {
        let state = hash(&pending.state_digest_input());
        let domain = hash(&pending.domain_digest_input());
        self.service.register_context(pending, state, domain)
    }

    fn register_context(&mut self, branch_id: Uuid, tokens: &[u32]) -> ContextHandle {
        let handle = self.engine.create_context(tokens);
        let recipe = ContextRecipe::new(tokens.to_vec());
        let pending = PendingContext {
            handle,
            branch_id: branch_id.as_u128(),
            context_id: fresh(),
            domain_id: fresh(),
            tokens: tokens.to_vec(),
            recipe_ref: recipe.to_ref(None),
            domain: IsolationDomain::TenantRoot,
        };
        self.activate(pending).0
    }

    fn reconstruct_from_recipe(&mut self, branch_id: Uuid, tokens: &[u32]) -> ContextHandle {
        let recipe = ContextRecipe::new(tokens.to_vec());
        let id = branch_id.as_u128();
        let handle = self.engine.create_context(&recipe.full_tokens_for_branch(&id));
        let pending = self.service.reconstruct_from_recipe(id, &recipe, None, Ok(handle)).unwrap();
        self.activate(pending).0
    }

    fn get_block_table(&self, id: u128) -> Option<Vec<usize>> {
        let handle = self.service.get_block_table(id)?;
        self.engine.tables.get(&handle).map(|table| table.block_ids.clone())
    }

    fn get_block_refcount(&self, block_id: usize) -> Option<usize> {
        self.engine.ref_counts.get(block_id).copied()
    }

    fn select_branch(&mut self, selected: u128, siblings: &[u128]) -> Result<(), String> {
        for handle in self.service.select_branch(selected, siblings)? {
            self.engine.release(handle);
        }
        Ok(())
    }

    fn infer(&mut self, req: InferenceRequest) -> Result<InferenceResponse, InferenceError> {
        assert!(self.service.can_infer(&req));
        let mut step = self.service.infer(&req, &mut self.counter);
        loop {
            match step {
                InferStep::Done(result) => return result,
                InferStep::Call(call, session) => {
                    let reply = match call {
                        EngineCall::AppendBranchTokens { handle, tokens } => {
                            self.engine.append(handle.0, tokens.len());
                            EngineReply::Appended(Ok(()))
                        }
                        EngineCall::DecodeBranchStep { handle } => {
                            EngineReply::Decoded(Ok(self.engine.decode(handle.0)))
                        }
                        EngineCall::GenerateTokens { max_tokens, .. } => {
                            EngineReply::Generated(Ok(vec![31; max_tokens]))
                        }
                        EngineCall::Sha256 { bytes } => EngineReply::Digested(hash(&bytes)),
                    };
                    assert!(self.service.can_resume(&session, &reply));
                    step = self.service.resume_infer(session, reply);
                }
            }
        }
    }

    fn branch_context(
        &mut self,
        req: BranchContextRequest,
    ) -> Result<BranchContextReceipt, InferenceError> {
        let mut step = self.service.branch_context(&req);
        loop {
            match step {
                ForkStep::Done(result) => return result,
                ForkStep::Call(call, session) => {
                    let reply = match call {
                        ForkCall::CreateContext { tokens } => {
                            ForkReply::Created(Ok(self.engine.create_context(&tokens)))
                        }
                        ForkCall::ForkContext { handle } => {
                            ForkReply::Forked(Ok(self.engine.fork_context(handle)))
                        }
                        ForkCall::GetUsageReceipt { handle } => {
                            ForkReply::Measured(Ok(self.engine.usage(handle)))
                        }
                    };
                    assert!(session.can_resume(&reply));
                    step = self.service.resume_branch_context(session, reply);
                }
            }
        }
    }
}

fn fresh() -> u128 {
    Uuid::new_v4().as_u128()
}

fn request(
    model: &str,
    content: &str,
    context: InferenceContextRef,
    max_tokens: u32,
) -> InferenceRequest {
    InferenceRequest {
        request_id: fresh(),
        model: model.to_string(),
        messages: vec![InferenceMessage {
            role: "user".to_string(),
            content: content.to_string(),
        }],
        context: Some(context),
        max_tokens,
        stop_sequences: vec![],
    }
}

fn no_lineage() -> ContextLineage {
    ContextLineage {
        parent_context: None,
        parent_branch: None,
        parent_digest: None,
        fork_token_index: None,
    }
}

#[test]
fn test_local_stack_branch_and_cow() {
    let mut stack = Stack::new();

    let parent_ctx = InferenceContextRef {
        abi_version: 1,
        context_id: ContextId(fresh()),
        branch_id: BranchId(fresh()),
        generation: Generation(1),
        model: ModelFingerprint {
            weights_digest: Digest32([0u8; 32]),
            model_config_digest: Digest32([0u8; 32]),
        },
        tokenizer: TokenizerFingerprint { tokenizer_digest: Digest32([0u8; 32]) },
        kv_format: KvFormatFingerprint { format_version: 1, dtype: "BF16".to_string() },
        logical_state_digest: Digest32([0u8; 32]),
        token_count: 32,
        lineage: no_lineage(),
        isolation: CacheIsolationKey {
            domain_id: fresh(),
            domain_digest: Digest32([1u8; 32]),
        },
        binding: None,
        recovery: ContextRecipeRef {
            recipe_id: fresh(),
            recipe_digest: Digest32([2u8; 32]),
        },
    };

    let branch_req = BranchContextRequest {
        operation_id: fresh(),
        parent_context: parent_ctx.clone(),
        child_branch_id: BranchId(fresh()),
        isolation: parent_ctx.isolation,
    };

    let receipt = stack.branch_context(branch_req).unwrap();
    assert!(receipt.shared_pages > 0);
    assert_eq!(receipt.copied_pages, 0);

    let infer_req = request("sovereign-embedded-model", "step", receipt.child_context, 2);
    let res = stack.infer(infer_req).unwrap();
    assert_eq!(res.completion_tokens, 2);
}

#[test]
fn test_flagship_cow_multi_branch_gb10_lifecycle() {
    let mut stack = Stack::new();

    // Prefill the root: 40 tokens are two full blocks and a partial one.
    let root_ctx_id = Uuid::new_v4();
    let root_branch_id = Uuid::new_v4();
    let prompt_tokens: Vec<u32> = (1..=40).map(|x| (x * 7) % 256).collect();
    let _root_handle = stack.register_context(root_branch_id, &prompt_tokens);

    let root_blocks = stack.get_block_table(root_branch_id.as_u128()).unwrap();
    assert_eq!(root_blocks.len(), 3, "40 tokens / 16 block_size must allocate 3 blocks");
    for &b in &root_blocks {
        assert_eq!(stack.get_block_refcount(b), Some(1));
    }
    assert_eq!(stack.engine.cow_faults, 0);

    let root_context_ref = InferenceContextRef {
        abi_version: 1,
        context_id: ContextId(root_ctx_id.as_u128()),
        branch_id: BranchId(root_branch_id.as_u128()),
        generation: Generation(1),
        model: ModelFingerprint {
            weights_digest: Digest32([1u8; 32]),
            model_config_digest: Digest32([2u8; 32]),
        },
        tokenizer: TokenizerFingerprint { tokenizer_digest: Digest32([3u8; 32]) },
        kv_format: KvFormatFingerprint { format_version: 1, dtype: "BF16".to_string() },
        logical_state_digest: Digest32([4u8; 32]),
        token_count: 40,
        lineage: no_lineage(),
        isolation: CacheIsolationKey {
            domain_id: fresh(),
            domain_digest: Digest32([5u8; 32]),
        },
        binding: Some(OpaqueBindingRef {
            engine_id: "aien-sovereign-gb10".to_string(),
            runtime_epoch: stack.service.runtime_epoch(),
            binding_id: root_branch_id.as_u128(),
            lease_generation: 1,
        }),
        recovery: ContextRecipeRef {
            recipe_id: fresh(),
            recipe_digest: Digest32([6u8; 32]),
        },
    };

    // Fork three agent branches.
    let mut branch_contexts = Vec::new();
    for _ in 0..3 {
        let branch_req = BranchContextRequest {
            operation_id: fresh(),
            parent_context: root_context_ref.clone(),
            child_branch_id: BranchId(fresh()),
            isolation: root_context_ref.isolation,
        };
        let receipt = stack.branch_context(branch_req).unwrap();
        assert_eq!(receipt.shared_pages, 3);
        assert_eq!(receipt.copied_pages, 0);
        branch_contexts.push(receipt.child_context);
    }

    assert_eq!(stack.engine.used_blocks(), 3, "Flat zero-copy invariant across forks");
    for &b in &root_blocks {
        assert_eq!(stack.get_block_refcount(b), Some(4), "1 root + 3 branches = ref_count 4");
    }

    // Branches diverge, and each copies the block that it writes to.
    let req0 = request("sovereign-gb10", "code-gen", branch_contexts[0].clone(), 1);
    let res0 = stack.infer(req0).unwrap();
    assert_eq!(res0.completion_tokens, 1);
    assert_eq!(stack.engine.cow_faults, 1, "Branch 0 triggers exactly 1 CoW fault");

    let tail_block = *root_blocks.last().unwrap();
    assert_eq!(stack.get_block_refcount(tail_block), Some(3));

    let req1 = request("sovereign-gb10", "security-audit", branch_contexts[1].clone(), 1);
    let res1 = stack.infer(req1).unwrap();
    assert_eq!(res1.completion_tokens, 1);
    assert_eq!(stack.engine.cow_faults, 2, "Branch 1 triggers second CoW fault");
    assert_eq!(stack.get_block_refcount(tail_block), Some(2));

    let b2_blocks = stack.get_block_table(branch_contexts[2].branch_id.0).unwrap();
    assert_eq!(b2_blocks, root_blocks);

    // Keep the first branch.
    let winner_id = branch_contexts[0].branch_id.0;
    let sibling_ids = [branch_contexts[1].branch_id.0, branch_contexts[2].branch_id.0];
    stack.select_branch(winner_id, &sibling_ids).unwrap();

    // The engine is lost, and a branch is rebuilt in its next run.
    let old_epoch = stack.service.bump_runtime_epoch();
    let stale_req = request("sovereign-gb10", "resume", branch_contexts[0].clone(), 1);
    match stack.infer(stale_req) {
        Err(InferenceError::StaleRuntimeEpoch) => {}
        other => panic!("Expected StaleRuntimeEpoch, got {:?}", other),
    }

    let mut recipe_tokens = prompt_tokens.clone();
    recipe_tokens.push(42);
    let recon_id = Uuid::new_v4();
    let _recon_handle = stack.reconstruct_from_recipe(recon_id, &recipe_tokens);

    let mut recon_ctx = branch_contexts[0].clone();
    recon_ctx.branch_id = BranchId(recon_id.as_u128());
    recon_ctx.binding = Some(OpaqueBindingRef {
        engine_id: "aien-sovereign-gb10".to_string(),
        runtime_epoch: stack.service.runtime_epoch(),
        binding_id: recon_id.as_u128(),
        lease_generation: 1,
    });

    let recon_req = request("sovereign-gb10", "continue", recon_ctx, 1);
    let recon_res = stack.infer(recon_req).unwrap();
    assert_eq!(recon_res.completion_tokens, 1);
    assert_eq!(stack.service.runtime_epoch(), old_epoch);
}
