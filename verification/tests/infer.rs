use aien_local_stack::protocol::{
    BranchHandle, BranchId, ContextHandle, ContextId, Digest32, Generation, InferenceContextRef,
    InferenceError, InferenceMessage, InferenceRequest, InferenceResponse,
};
use aien_local_stack::service::infer::{
    EngineCall, EngineReply, InferSession, InferStep, SequenceCounter,
};
use aien_local_stack::service::{
    IsolationDomain, LinuxMemoryKind, ModelDigests, PendingContext,
};
use aien_local_stack::{BranchState, ContextRecipe, SovereignInferenceService};

fn digest(n: u8) -> Digest32 {
    Digest32([n; 32])
}

fn service(epoch: u64) -> SovereignInferenceService {
    let digests = ModelDigests { weights: digest(1), tokenizer: digest(2), config: None };
    SovereignInferenceService::new_with_epoch(epoch, Ok(()), LinuxMemoryKind::HmmSystem, digests)
        .unwrap()
}

fn with_branch(
    s: &mut SovereignInferenceService,
    id: u128,
    handle: u64,
    tokens: Vec<u32>,
) -> InferenceContextRef {
    register(s, id, handle, tokens, IsolationDomain::TenantRoot)
}

fn with_rebuilt(
    s: &mut SovereignInferenceService,
    id: u128,
    handle: u64,
    tokens: Vec<u32>,
) -> InferenceContextRef {
    register(s, id, handle, tokens, IsolationDomain::Reconstruction)
}

fn register(
    s: &mut SovereignInferenceService,
    id: u128,
    handle: u64,
    tokens: Vec<u32>,
    domain: IsolationDomain,
) -> InferenceContextRef {
    let pending = PendingContext {
        handle: ContextHandle(handle),
        branch_id: id,
        context_id: 500,
        domain_id: 900,
        tokens,
        recipe_ref: ContextRecipe::with_id(77, vec![]).to_ref(None),
        domain,
    };
    s.register_context(pending, digest(5), digest(6)).1
}

fn expect_call(step: InferStep) -> (EngineCall, InferSession) {
    match step {
        InferStep::Call(call, session) => (call, session),
        InferStep::Done(r) => panic!("{:?}", r),
    }
}

fn request(
    contents: &[&str],
    context: Option<InferenceContextRef>,
    max_tokens: u32,
) -> InferenceRequest {
    InferenceRequest {
        request_id: 33,
        model: "sovereign-embedded-model".to_string(),
        messages: contents
            .iter()
            .map(|c| InferenceMessage { role: "user".to_string(), content: c.to_string() })
            .collect(),
        context,
        max_tokens,
        stop_sequences: vec![],
    }
}

/// Runs a request against an engine that gives `decoded` one after the other, and collects what
/// was asked of it.
fn run(
    s: &mut SovereignInferenceService,
    req: &InferenceRequest,
    counter: &mut SequenceCounter,
    decoded: &[u32],
    state_digest: Digest32,
) -> (Vec<EngineCall>, Result<InferenceResponse, InferenceError>) {
    let mut calls = Vec::new();
    let mut next = 0;
    let mut step = s.infer(req, counter);
    loop {
        match step {
            InferStep::Done(r) => return (calls, r),
            InferStep::Call(call, session) => {
                let reply = match &call {
                    EngineCall::AppendBranchTokens { .. } => EngineReply::Appended(Ok(())),
                    EngineCall::DecodeBranchStep { .. } => {
                        next += 1;
                        EngineReply::Decoded(match decoded.get(next - 1) {
                            Some(token) => Ok(*token),
                            None => Err("no logits".to_string()),
                        })
                    }
                    EngineCall::GenerateTokens { .. } => {
                        EngineReply::Generated(Ok(decoded.to_vec()))
                    }
                    EngineCall::Sha256 { .. } => EngineReply::Digested(state_digest),
                };
                assert!(s.can_resume(&session, &reply));
                calls.push(call);
                step = s.resume_infer(session, reply);
            }
        }
    }
}

#[test]
fn test_local_stack_in_process_composition() {
    let mut s = service(1);
    let caps = s.get_capabilities();
    assert!(caps.context_branching);
    assert!(caps.physical_cow);

    let req = request(&["ping"], None, 4);
    let (_, res) = run(&mut s, &req, &mut SequenceCounter::new(), &[1, 2, 3, 4], digest(7));
    let res = res.unwrap();
    assert_eq!(res.finish_reason, "stop");
    assert!(res.completion_tokens > 0);
}

#[test]
fn a_prompt_without_a_context_is_generated_apart() {
    let mut s = service(1);
    with_branch(&mut s, 9, 42, vec![1]);
    let mut counter = SequenceCounter::new();
    let req = request(&["p\u{e9}", "!"], None, 2);
    let (calls, res) = run(&mut s, &req, &mut counter, &[72, 233], digest(7));
    assert_eq!(
        calls,
        vec![EngineCall::GenerateTokens {
            seq_id: 100,
            prompt_tokens: vec![1, 112, 0xc3, 0xa9, 33],
            max_tokens: 2,
        }]
    );
    assert_eq!(
        res,
        Ok(InferenceResponse {
            request_id: 33,
            content: "Hi".to_string(),
            finish_reason: "stop".to_string(),
            prompt_tokens: 4,
            completion_tokens: 2,
            context: None,
        })
    );
    assert_eq!(s.get_branch_tokens(9), Some(vec![1]));
    match s.infer(&req, &mut counter) {
        InferStep::Call(EngineCall::GenerateTokens { seq_id, .. }, _) => assert_eq!(seq_id, 101),
        other => panic!("{:?}", other),
    }
}

#[test]
fn a_turn_appends_decodes_and_digests() {
    let mut s = service(1);
    let context = with_branch(&mut s, 9, 42, vec![1, 2]);
    let mut counter = SequenceCounter::new();
    let req = request(&["ab"], Some(context.clone()), 2);
    let (calls, res) = run(&mut s, &req, &mut counter, &[200, 65], digest(7));
    assert_eq!(
        calls,
        vec![
            EngineCall::AppendBranchTokens { handle: BranchHandle(42), tokens: vec![97, 98] },
            EngineCall::DecodeBranchStep { handle: BranchHandle(42) },
            EngineCall::DecodeBranchStep { handle: BranchHandle(42) },
            EngineCall::Sha256 {
                bytes: BranchState::compute_digest(&9, &[1, 2, 97, 98, 200, 65]),
            },
        ]
    );
    let res = res.unwrap();
    assert_eq!(res.content, "HA");
    assert_eq!(res.prompt_tokens, 2);
    assert_eq!(res.completion_tokens, 2);
    let moved = res.context.unwrap();
    assert_eq!(moved.branch_id, BranchId(9));
    assert_eq!(moved.context_id, ContextId(500));
    assert_eq!(moved.generation, Generation(2));
    assert_eq!(moved.token_count, 6);
    assert_eq!(moved.logical_state_digest, digest(7));
    assert_eq!(moved.recovery, context.recovery);
    assert_eq!(moved.isolation, context.isolation);
    assert_eq!(s.get_branch_tokens(9), Some(vec![1, 2, 97, 98, 200, 65]));
    assert_eq!(s.get_block_table(9), Some(42));
    match s.infer(&request(&[], None, 0), &mut counter) {
        InferStep::Call(EngineCall::GenerateTokens { seq_id, .. }, _) => assert_eq!(seq_id, 100),
        other => panic!("{:?}", other),
    }
}

#[test]
fn a_turn_without_messages_or_tokens_only_digests() {
    let mut s = service(1);
    let context = with_branch(&mut s, 9, 42, vec![1, 2]);
    let req = request(&[""], Some(context), 0);
    let (calls, res) = run(&mut s, &req, &mut SequenceCounter::new(), &[], digest(7));
    assert_eq!(
        calls,
        vec![EngineCall::Sha256 { bytes: BranchState::compute_digest(&9, &[1, 2]) }]
    );
    let res = res.unwrap();
    assert_eq!(res.content, "");
    assert_eq!(res.completion_tokens, 0);
    assert_eq!(res.context.unwrap().generation, Generation(2));
}

#[test]
fn tokens_stay_below_the_size_of_the_vocabulary() {
    let mut config = aien_local_stack::service::ModelConfig::embedded();
    config.vocab_size = 100;
    let digests = ModelDigests { weights: digest(1), tokenizer: digest(2), config: None };
    let s = SovereignInferenceService::new_with_reference_weights(
        &config,
        1,
        Ok(()),
        LinuxMemoryKind::HmmSystem,
        digests,
    )
    .unwrap();
    match s.infer(&request(&["ad"], None, 1), &mut SequenceCounter::default()) {
        InferStep::Call(EngineCall::GenerateTokens { prompt_tokens, .. }, _) => {
            assert_eq!(prompt_tokens, vec![1, 97, 0])
        }
        other => panic!("{:?}", other),
    }
}

#[test]
fn a_used_context_is_refused_and_the_returned_one_admitted() {
    let mut s = service(1);
    let mut counter = SequenceCounter::new();
    let context = with_branch(&mut s, 9, 42, vec![1, 2]);
    let req = request(&["a"], Some(context), 1);
    let (_, res) = run(&mut s, &req, &mut counter, &[3], digest(7));
    let moved = res.unwrap().context;
    let (calls, again) = run(&mut s, &req, &mut counter, &[3], digest(7));
    assert_eq!(calls, vec![]);
    assert_eq!(
        again,
        Err(InferenceError::StaleGeneration { expected: Generation(2), actual: Generation(1) })
    );
    let (_, res) = run(&mut s, &request(&["b"], moved, 1), &mut counter, &[4], digest(8));
    assert_eq!(res.unwrap().context.unwrap().generation, Generation(3));
}

#[test]
fn a_context_ahead_of_a_rebuilt_branch_is_admitted() {
    let mut s = service(1);
    let mut counter = SequenceCounter::new();
    let mut context = with_rebuilt(&mut s, 9, 42, vec![1, 2]);
    assert_eq!(context.generation, Generation(1));
    context.generation = Generation(5);
    let req = request(&["a"], Some(context.clone()), 1);
    let (_, res) = run(&mut s, &req, &mut counter, &[3], digest(7));
    let moved = res.unwrap().context.unwrap();
    assert_eq!(moved.generation, Generation(6));
    assert_eq!(moved.token_count, 4);
    for generation in [1, 5, 7] {
        context.generation = Generation(generation);
        let req = request(&[], Some(context.clone()), 1);
        let (calls, res) = run(&mut s, &req, &mut counter, &[3], digest(7));
        assert_eq!(calls, vec![]);
        assert_eq!(
            res,
            Err(InferenceError::StaleGeneration {
                expected: Generation(6),
                actual: Generation(generation),
            })
        );
    }
    let (_, res) = run(&mut s, &request(&[], Some(moved), 1), &mut counter, &[4], digest(8));
    assert_eq!(res.unwrap().context.unwrap().generation, Generation(7));
}

#[test]
fn a_context_ahead_of_any_other_branch_is_refused() {
    let mut s = service(1);
    let mut context = with_branch(&mut s, 9, 42, vec![1, 2]);
    for generation in [0, 2, 9, u64::MAX] {
        context.generation = Generation(generation);
        let req = request(&["a"], Some(context.clone()), 1);
        let (calls, res) = run(&mut s, &req, &mut SequenceCounter::new(), &[3], digest(7));
        assert_eq!(calls, vec![]);
        assert_eq!(
            res,
            Err(InferenceError::StaleGeneration {
                expected: Generation(1),
                actual: Generation(generation),
            })
        );
    }
}

#[test]
fn the_last_generation_has_no_next() {
    let mut s = service(1);
    let mut counter = SequenceCounter::new();
    let mut context = with_rebuilt(&mut s, 9, 42, vec![1, 2]);
    context.generation = Generation(u64::MAX);
    let req = request(&[], Some(context.clone()), 0);
    let (_, res) = run(&mut s, &req, &mut counter, &[], digest(7));
    assert_eq!(
        res,
        Err(InferenceError::StaleGeneration {
            expected: Generation(1),
            actual: Generation(u64::MAX),
        })
    );
    context.generation = Generation(u64::MAX - 1);
    let (_, res) = run(&mut s, &request(&[], Some(context), 0), &mut counter, &[], digest(7));
    let last = res.unwrap().context;
    assert_eq!(last.as_ref().unwrap().generation, Generation(u64::MAX));
    let (_, session) = expect_call(s.infer(&request(&[], last, 0), &mut counter));
    assert!(!s.can_resume(&session, &EngineReply::Digested(digest(7))));
}

#[test]
fn of_two_requests_on_a_context_one_is_answered() {
    let mut s = service(1);
    let mut counter = SequenceCounter::new();
    let context = with_branch(&mut s, 9, 42, vec![1, 2]);
    let req = request(&[], Some(context), 0);
    let (_, first) = expect_call(s.infer(&req, &mut counter));
    let (_, second) = expect_call(s.infer(&req, &mut counter));
    match s.resume_infer(first, EngineReply::Digested(digest(7))) {
        InferStep::Done(Ok(res)) => assert_eq!(res.context.unwrap().generation, Generation(2)),
        other => panic!("{:?}", other),
    }
    assert_eq!(
        s.resume_infer(second, EngineReply::Digested(digest(8))),
        InferStep::Done(Err(InferenceError::StaleGeneration {
            expected: Generation(2),
            actual: Generation(1),
        }))
    );
    assert_eq!(s.get_branch_tokens(9), Some(vec![1, 2]));
}

#[test]
fn a_turn_ends_where_another_has_moved_the_branch_on() {
    let mut s = service(1);
    let mut counter = SequenceCounter::new();
    let context = with_branch(&mut s, 9, 42, vec![1, 2]);
    let slow = request(&["a"], Some(context.clone()), 2);
    let (_, session) = expect_call(s.infer(&slow, &mut counter));
    let (_, session) = expect_call(s.resume_infer(session, EngineReply::Appended(Ok(()))));
    let quick = request(&[], Some(context), 0);
    let (_, res) = run(&mut s, &quick, &mut counter, &[], digest(7));
    assert_eq!(res.unwrap().context.unwrap().token_count, 3);
    assert_eq!(
        s.resume_infer(session, EngineReply::Decoded(Ok(4))),
        InferStep::Done(Err(InferenceError::StaleGeneration {
            expected: Generation(2),
            actual: Generation(1),
        }))
    );
}

#[test]
fn a_branch_that_grew_since_it_was_digested_is_digested_anew() {
    let mut s = service(1);
    let mut counter = SequenceCounter::new();
    let context = with_branch(&mut s, 9, 42, vec![1, 2]);
    let (call, session) =
        expect_call(s.infer(&request(&[], Some(context.clone()), 0), &mut counter));
    assert_eq!(call, EngineCall::Sha256 { bytes: BranchState::compute_digest(&9, &[1, 2]) });
    let (_, other) = expect_call(s.infer(&request(&["a"], Some(context), 0), &mut counter));
    expect_call(s.resume_infer(other, EngineReply::Appended(Ok(()))));
    let (call, session) = expect_call(s.resume_infer(session, EngineReply::Digested(digest(7))));
    assert_eq!(call, EngineCall::Sha256 { bytes: BranchState::compute_digest(&9, &[1, 2, 97]) });
    match s.resume_infer(session, EngineReply::Digested(digest(8))) {
        InferStep::Done(Ok(res)) => {
            let moved = res.context.unwrap();
            assert_eq!(moved.logical_state_digest, digest(8));
            assert_eq!(moved.token_count, 3);
        }
        other => panic!("{:?}", other),
    }
}

#[test]
fn a_branch_that_was_replaced_is_left_alone() {
    let mut s = service(1);
    let context = with_branch(&mut s, 9, 42, vec![1, 2]);
    let req = request(&["a"], Some(context), 1);
    let (_, session) = expect_call(s.infer(&req, &mut SequenceCounter::new()));
    s.bump_runtime_epoch();
    with_rebuilt(&mut s, 9, 42, vec![1, 2]);
    assert_eq!(
        s.resume_infer(session, EngineReply::Appended(Ok(()))),
        InferStep::Done(Err(InferenceError::ContextNotFound(ContextId(500))))
    );
    assert_eq!(s.get_branch_tokens(9), Some(vec![1, 2]));
}

#[test]
fn a_context_of_another_run_is_refused() {
    let mut s = service(1);
    let mut counter = SequenceCounter::new();
    let context = with_branch(&mut s, 9, 42, vec![1, 2]);
    s.bump_runtime_epoch();
    let req = request(&["a"], Some(context.clone()), 1);
    let (calls, res) = run(&mut s, &req, &mut counter, &[3], digest(7));
    assert_eq!(calls, vec![]);
    assert_eq!(res, Err(InferenceError::StaleRuntimeEpoch));

    let mut unbound = context;
    unbound.binding = None;
    let (_, res) = run(&mut s, &request(&["a"], Some(unbound), 1), &mut counter, &[3], digest(7));
    assert_eq!(res, Err(InferenceError::ContextNotFound(ContextId(500))));
}

#[test]
fn another_cache_layout_is_refused() {
    let mut s = service(1);
    let mut context = with_branch(&mut s, 9, 42, vec![1, 2]);
    context.kv_format.dtype = "BF16".to_string();
    context.branch_id = BranchId(8);
    let req = request(&["a"], Some(context), 1);
    let (_, res) = run(&mut s, &req, &mut SequenceCounter::new(), &[3], digest(7));
    assert_eq!(
        res,
        Err(InferenceError::Internal("KV format mismatch: expected FP32, got BF16".to_string()))
    );
}

#[test]
fn a_failing_decode_keeps_what_was_taken_in() {
    let mut s = service(1);
    let mut counter = SequenceCounter::new();
    let context = with_branch(&mut s, 9, 42, vec![1, 2]);
    with_branch(&mut s, 8, 43, vec![5]);
    let req = request(&["a"], Some(context.clone()), 3);
    let (calls, res) = run(&mut s, &req, &mut counter, &[3], digest(7));
    assert_eq!(calls.len(), 3);
    assert_eq!(
        res,
        Err(InferenceError::Internal("Decode step failed: no logits".to_string()))
    );
    assert_eq!(s.get_branch_tokens(9), Some(vec![1, 2, 97]));
    assert_eq!(s.get_branch_tokens(8), Some(vec![5]));
    let (_, res) = run(&mut s, &request(&[], Some(context), 1), &mut counter, &[3], digest(7));
    assert_eq!(res.unwrap().context.unwrap().token_count, 4);
}

#[test]
fn other_failures_of_the_engine_are_handed_on() {
    let mut s = service(1);
    let mut counter = SequenceCounter::new();
    let context = with_branch(&mut s, 9, 42, vec![1, 2]);
    let session = match s.infer(&request(&["a"], Some(context), 1), &mut counter) {
        InferStep::Call(_, session) => session,
        other => panic!("{:?}", other),
    };
    let reply = EngineReply::Appended(Err("full".to_string()));
    assert_eq!(
        s.resume_infer(session, reply),
        InferStep::Done(Err(InferenceError::Internal(
            "Failed to append branch tokens: full".to_string()
        )))
    );
    assert_eq!(s.get_branch_tokens(9), Some(vec![1, 2]));

    let session = match s.infer(&request(&["a"], None, 1), &mut counter) {
        InferStep::Call(_, session) => session,
        other => panic!("{:?}", other),
    };
    assert_eq!(
        s.resume_infer(session, EngineReply::Generated(Err("full".to_string()))),
        InferStep::Done(Err(InferenceError::Internal("Generation failed: full".to_string())))
    );
}

#[test]
fn a_branch_that_is_gone_ends_its_turn() {
    let mut s = service(1);
    let context = with_branch(&mut s, 9, 42, vec![1, 2]);
    let session = match s.infer(&request(&["a"], Some(context), 1), &mut SequenceCounter::new()) {
        InferStep::Call(_, session) => session,
        other => panic!("{:?}", other),
    };
    s.bump_runtime_epoch();
    assert_eq!(
        s.resume_infer(session, EngineReply::Appended(Ok(()))),
        InferStep::Done(Err(InferenceError::ContextNotFound(ContextId(500))))
    );
}

#[test]
fn a_reply_to_another_call_is_not_taken() {
    let mut s = service(1);
    let context = with_branch(&mut s, 9, 42, vec![1, 2]);
    let session = match s.infer(&request(&["a"], Some(context), 1), &mut SequenceCounter::new()) {
        InferStep::Call(_, session) => session,
        other => panic!("{:?}", other),
    };
    assert!(s.can_resume(&session, &EngineReply::Appended(Ok(()))));
    assert!(s.can_resume(&session, &EngineReply::Appended(Err(String::new()))));
    assert!(!s.can_resume(&session, &EngineReply::Decoded(Ok(1))));
    assert!(!s.can_resume(&session, &EngineReply::Digested(digest(1))));
}

#[test]
fn an_empty_vocabulary_has_no_token_for_a_byte() {
    let mut config = aien_local_stack::service::ModelConfig::embedded();
    config.vocab_size = 0;
    let digests = ModelDigests { weights: digest(1), tokenizer: digest(2), config: None };
    let mut s = SovereignInferenceService::new_with_reference_weights(
        &config,
        1,
        Ok(()),
        LinuxMemoryKind::HmmSystem,
        digests,
    )
    .unwrap();
    let context = with_branch(&mut s, 9, 42, vec![1]);
    assert!(!s.can_infer(&request(&["a"], None, 1)));
    assert!(s.can_infer(&request(&["", ""], None, 1)));
    assert!(!s.can_infer(&request(&["", "a"], Some(context.clone()), 1)));
    s.bump_runtime_epoch();
    assert!(s.can_infer(&request(&["a"], Some(context), 1)));
    assert!(service(1).can_infer(&request(&["a"], None, 1)));
}
