use aien_local_stack::demo::{
    average_fork_latency, demo_prompt_tokens, DependencyShas, ExecutionReceipt,
    HardwareDescriptor, Measurements, RuntimeDescriptor,
};
use aien_local_stack::protocol::{
    BranchContextRequest, BranchId, ContextHandle, Digest32, Generation, InferenceContextRef,
    InferenceError, InferenceMessage, InferenceRequest, InferenceResponse,
};
use aien_local_stack::service::fork::{ForkReply, ForkStep, PageUsage};
use aien_local_stack::service::infer::{EngineCall, EngineReply, InferStep, SequenceCounter};
use aien_local_stack::service::{LinuxMemoryKind, ModelDigests, PendingContext};
use aien_local_stack::store::{ResolveStep, StoreCall, StoreReply};
use aien_local_stack::{ContextRecipe, RecipeStore, SovereignInferenceService};

/// Stands in for SHA-256: a digest of the bytes and of how many there are.
fn hash(bytes: &[u8]) -> Digest32 {
    let mut out = [bytes.len() as u8; 32];
    let mut state: u64 = 0xcbf2_9ce4_8422_2325;
    for (i, b) in bytes.iter().enumerate() {
        state = (state ^ *b as u64).wrapping_mul(0x0000_0100_0000_01b3);
        out[i % 32] ^= (state >> 32) as u8;
    }
    Digest32(out)
}

fn recipe_digest(recipe: &ContextRecipe) -> Option<Digest32> {
    Some(hash(format!("{:?}", recipe).as_bytes()))
}

fn service(epoch: u64) -> SovereignInferenceService {
    let digests = ModelDigests { weights: hash(b"w"), tokenizer: hash(b"t"), config: None };
    SovereignInferenceService::new_with_epoch(epoch, Ok(()), LinuxMemoryKind::HmmSystem, digests)
        .unwrap()
}

fn register(
    s: &mut SovereignInferenceService,
    pending: PendingContext,
) -> (ContextHandle, InferenceContextRef) {
    let state = hash(&pending.state_digest_input());
    let domain = hash(&pending.domain_digest_input());
    s.register_context(pending, state, domain)
}

fn fork(
    s: &mut SovereignInferenceService,
    parent: &InferenceContextRef,
    id: u128,
    handle: u64,
) -> InferenceContextRef {
    let req = BranchContextRequest {
        operation_id: 1,
        parent_context: parent.clone(),
        child_branch_id: BranchId(id),
        isolation: parent.isolation,
    };
    let session = match s.branch_context(&req) {
        ForkStep::Call(_, session) => session,
        other => panic!("{:?}", other),
    };
    let forked = ForkReply::Forked(Ok(ContextHandle(handle)));
    let session = match s.resume_branch_context(session, forked) {
        ForkStep::Call(_, session) => session,
        other => panic!("{:?}", other),
    };
    let measured = ForkReply::Measured(Ok(PageUsage { shared_pages: 3, private_pages: 0 }));
    match s.resume_branch_context(session, measured) {
        ForkStep::Done(Ok(receipt)) => {
            assert_eq!(receipt.shared_pages, 3);
            assert_eq!(receipt.copied_pages, 0);
            receipt.child_context
        }
        other => panic!("{:?}", other),
    }
}

fn infer(
    s: &mut SovereignInferenceService,
    context: &InferenceContextRef,
    content: &str,
    tokens: &[u32],
) -> Result<InferenceResponse, InferenceError> {
    let req = InferenceRequest {
        request_id: 2,
        model: "sovereign-embedded".to_string(),
        messages: vec![InferenceMessage {
            role: "user".to_string(),
            content: content.to_string(),
        }],
        context: Some(context.clone()),
        max_tokens: tokens.len() as u32,
        stop_sequences: vec![],
    };
    let mut next = 0;
    let mut step = s.infer(&req, &mut SequenceCounter::new());
    loop {
        match step {
            InferStep::Done(r) => return r,
            InferStep::Call(call, session) => {
                let reply = match call {
                    EngineCall::AppendBranchTokens { .. } => EngineReply::Appended(Ok(())),
                    EngineCall::DecodeBranchStep { .. } => {
                        next += 1;
                        EngineReply::Decoded(Ok(tokens[next - 1]))
                    }
                    EngineCall::Sha256 { bytes } => EngineReply::Digested(hash(&bytes)),
                    EngineCall::GenerateTokens { .. } => panic!("no context"),
                };
                step = s.resume_infer(session, reply);
            }
        }
    }
}

#[test]
fn branches_diverge_and_recover_after_a_crash() {
    let prompt = demo_prompt_tokens();
    let recipe = ContextRecipe::with_id(77, prompt.clone());
    let mut store = RecipeStore::new();
    let mut s = service(1);

    let created = Ok(ContextHandle(0));
    let pending =
        s.create_root_context(&prompt, &recipe, recipe_digest(&recipe), created).unwrap();
    let (_, root) = register(&mut s, pending);
    assert_eq!(root.token_count, 40);
    assert_eq!(root.generation, Generation(1));

    let branches = [
        fork(&mut s, &root, 10, 1),
        fork(&mut s, &root, 11, 2),
        fork(&mut s, &root, 12, 3),
    ];
    for b in &branches {
        assert_eq!(b.generation, Generation(2));
        assert_eq!(b.logical_state_digest, root.logical_state_digest);
    }

    let moved0 = infer(&mut s, &branches[0], "generate code", &[5, 6]).unwrap();
    assert_eq!(moved0.completion_tokens, 2);
    assert_eq!(moved0.prompt_tokens, 13);
    let moved0 = moved0.context.unwrap();
    let moved1 = infer(&mut s, &branches[1], "audit security", &[5, 6]).unwrap().context.unwrap();
    assert_eq!(moved0.generation, Generation(3));
    assert_eq!(moved1.generation, Generation(3));
    assert_eq!(moved0.token_count, 55);
    assert_ne!(moved0.logical_state_digest, moved1.logical_state_digest);
    assert_eq!(s.get_branch_tokens(12), Some(prompt.clone()));

    let kept = s.snapshot_branch_recipe(10, &recipe).unwrap();
    store.insert(kept.clone(), Ok::<(), ()>(())).unwrap();
    assert_eq!(s.select_branch(10, &[11, 12]), Ok(vec![2, 3]));

    let mut fresh = service(2);
    assert_eq!(
        infer(&mut fresh, &moved0, "resume", &[1]),
        Err(InferenceError::StaleRuntimeEpoch)
    );
    let reference = kept.to_ref(recipe_digest(&kept));
    let (found, session) = match store.verify_and_get(&reference) {
        ResolveStep::Call(StoreCall::DigestRecipe { recipe }, session) => (recipe, session),
        other => panic!("{:?}", other),
    };
    let reply = StoreReply::Digested(recipe_digest(&found));
    let durable = match store.resume_verify_and_get(session, reply) {
        ResolveStep::Done(r) => r.unwrap(),
        other => panic!("{:?}", other),
    };
    assert_eq!(durable.full_tokens_for_branch(&10).len(), 55);
    let pending = fresh
        .reconstruct_from_recipe(10, &durable, recipe_digest(&durable), Ok(ContextHandle(0)))
        .unwrap();
    let (_, rebuilt) = register(&mut fresh, pending);
    assert_eq!(rebuilt.logical_state_digest, moved0.logical_state_digest);
    assert_eq!(rebuilt.token_count, moved0.token_count);
    assert_eq!(rebuilt.model, moved0.model);
    assert_eq!(rebuilt.tokenizer, moved0.tokenizer);
    let res = infer(&mut fresh, &rebuilt, "continue", &[1]).unwrap();
    assert_eq!(res.completion_tokens, 1);
}

#[test]
fn the_demonstration_prompt() {
    let tokens = demo_prompt_tokens();
    assert_eq!(tokens.len(), 40);
    assert_eq!(tokens[0], 7);
    assert_eq!(tokens[35], 252);
    assert_eq!(tokens[36], 3);
    assert_eq!(tokens[39], 24);
}

#[test]
fn the_average_of_three_forks() {
    assert_eq!(average_fork_latency(10, 11, 13), 11);
    assert_eq!(average_fork_latency(0, 0, 2), 0);
}

#[test]
fn a_receipt_names_what_was_verified() {
    let measurements = Measurements {
        prefill_latency_us: 1,
        fork_latency_avg_us: 2,
        branch_0_step_us: 3,
        branch_1_step_us: 4,
        zero_copy_merge_us: 5,
        recipe_reconstruction_us: 6,
        total_cow_faults: 7,
        bytes_saved_vs_full_copy: 8,
    };
    let receipt = ExecutionReceipt::undigested(
        DependencyShas {
            aien_protocols: "a".to_string(),
            aegis_runtime: "b".to_string(),
            aien_sovereign_core: "c".to_string(),
            aien_local_stack: "d".to_string(),
        },
        HardwareDescriptor {
            architecture: "aarch64".to_string(),
            kernel: "Linux".to_string(),
            memory_kind: "HmmSystem".to_string(),
            peak_rss_kb: 9,
        },
        RuntimeDescriptor {
            engine_id: "e".to_string(),
            backend: "f".to_string(),
            is_hardware_accelerated: false,
            kv_dtype: "FP32".to_string(),
            block_size: 16,
        },
        measurements,
    );
    assert_eq!(receipt.demo_version, "1.1.0");
    assert_eq!(receipt.invariants_verified.len(), 8);
    assert_eq!(receipt.invariants_verified[0], "flat_zero_copy_branch_fork");
    assert_eq!(receipt.invariants_verified[7], "post_crash_logical_state_digest_parity");
    assert_eq!(receipt.receipt_digest, "");
    let receipt = receipt.with_digest("00ff".to_string());
    assert_eq!(receipt.receipt_digest, "00ff");
    assert_eq!(receipt.measurements, measurements);
    assert_eq!(receipt.demo_version, "1.1.0");
}
