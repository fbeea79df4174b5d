use aien_local_stack::protocol::{
    BranchContextReceipt, BranchContextRequest, BranchId, CacheIsolationKey, ContextHandle,
    ContextId, Digest32, Generation, InferenceContextRef, InferenceError,
};
use aien_local_stack::service::fork::{ForkCall, ForkReply, ForkSession, ForkStep, PageUsage};
use aien_local_stack::service::{
    IsolationDomain, LinuxMemoryKind, ModelDigests, PendingContext,
};
use aien_local_stack::{ContextRecipe, SovereignInferenceService};

fn digest(n: u8) -> Digest32 {
    Digest32([n; 32])
}

fn service_with_parent() -> (SovereignInferenceService, InferenceContextRef) {
    let digests = ModelDigests { weights: digest(1), tokenizer: digest(2), config: None };
    let mut s =
        SovereignInferenceService::new_default(Ok(()), LinuxMemoryKind::HmmSystem, digests)
            .unwrap();
    let pending = PendingContext {
        handle: ContextHandle(42),
        branch_id: 9,
        context_id: 500,
        domain_id: 900,
        tokens: vec![1, 2, 3],
        recipe_ref: ContextRecipe::with_id(77, vec![]).to_ref(None),
        domain: IsolationDomain::TenantRoot,
    };
    let context = s.register_context(pending, digest(5), digest(6)).1;
    (s, context)
}

fn request(parent_context: InferenceContextRef) -> BranchContextRequest {
    BranchContextRequest {
        operation_id: 44,
        parent_context,
        child_branch_id: BranchId(10),
        isolation: CacheIsolationKey { domain_id: 901, domain_digest: digest(9) },
    }
}

fn expect_call(step: ForkStep) -> (ForkCall, ForkSession) {
    match step {
        ForkStep::Call(call, session) => (call, session),
        ForkStep::Done(r) => panic!("{:?}", r),
    }
}

fn expect_done(step: ForkStep) -> Result<BranchContextReceipt, InferenceError> {
    match step {
        ForkStep::Done(r) => r,
        ForkStep::Call(call, _) => panic!("{:?}", call),
    }
}

#[test]
fn a_child_starts_with_what_its_parent_holds() {
    let (mut s, parent) = service_with_parent();
    let (call, session) = expect_call(s.branch_context(&request(parent.clone())));
    assert_eq!(call, ForkCall::ForkContext { handle: ContextHandle(42) });
    let reply = ForkReply::Forked(Ok(ContextHandle(43)));
    assert!(session.can_resume(&reply));
    let (call, session) = expect_call(s.resume_branch_context(session, reply));
    assert_eq!(call, ForkCall::GetUsageReceipt { handle: ContextHandle(43) });
    assert_eq!(s.get_branch_tokens(10), None);
    let reply = ForkReply::Measured(Ok(PageUsage { shared_pages: 3, private_pages: 0 }));
    assert!(session.can_resume(&reply));
    let receipt = expect_done(s.resume_branch_context(session, reply)).unwrap();
    assert_eq!(receipt.operation_id, 44);
    assert_eq!(receipt.shared_pages, 3);
    assert_eq!(receipt.copied_pages, 0);
    assert_eq!(receipt.lease_expires_at_monotonic, 9999999999);
    let child = receipt.child_context;
    assert_eq!(child.branch_id, BranchId(10));
    assert_eq!(child.context_id, ContextId(500));
    assert_eq!(child.generation, Generation(2));
    assert_eq!(child.token_count, 3);
    assert_eq!(child.logical_state_digest, digest(5));
    assert_eq!(child.recovery, parent.recovery);
    assert_eq!(child.isolation.domain_id, 901);
    assert_eq!(child.isolation.domain_digest, digest(9));
    assert_eq!(child.lineage.parent_context, Some(ContextId(500)));
    assert_eq!(child.lineage.parent_branch, Some(BranchId(9)));
    assert_eq!(child.lineage.parent_digest, Some(digest(5)));
    assert_eq!(child.lineage.fork_token_index, Some(3));
    assert_eq!(child.binding.unwrap().binding_id, 10);
    assert_eq!(s.get_branch_tokens(10), Some(vec![1, 2, 3]));
    assert_eq!(s.get_branch_tokens(9), Some(vec![1, 2, 3]));
    assert_eq!(s.get_block_table(10), Some(43));
    assert_eq!(s.get_block_table(9), Some(42));
}

fn unregistered(parent: &InferenceContextRef) -> InferenceContextRef {
    let mut parent = parent.clone();
    parent.context_id = ContextId(600);
    parent.branch_id = BranchId(8);
    parent.generation = Generation(4);
    parent.token_count = 5;
    parent.logical_state_digest = digest(11);
    parent.isolation = CacheIsolationKey { domain_id: 902, domain_digest: digest(12) };
    parent.recovery = ContextRecipe::with_id(78, vec![]).to_ref(Some(digest(13)));
    parent.kv_format.dtype = "BF16".to_string();
    parent.binding = None;
    parent
}

#[test]
fn a_parent_that_is_not_active_is_taken_in_first() {
    let (mut s, active) = service_with_parent();
    let parent = unregistered(&active);
    let req = request(parent.clone());
    let (call, session) = expect_call(s.branch_context(&req));
    assert_eq!(call, ForkCall::CreateContext { tokens: vec![1, 1, 1, 1, 1] });
    assert_eq!(s.get_branch_tokens(8), None);
    let reply = ForkReply::Created(Ok(ContextHandle(50)));
    assert!(session.can_resume(&reply));
    let (call, session) = expect_call(s.resume_branch_context(session, reply));
    assert_eq!(call, ForkCall::ForkContext { handle: ContextHandle(50) });
    assert_eq!(s.get_branch_tokens(8), Some(vec![1, 1, 1, 1, 1]));
    assert_eq!(s.get_block_table(8), Some(50));
    let reply = ForkReply::Forked(Ok(ContextHandle(51)));
    let (call, session) = expect_call(s.resume_branch_context(session, reply));
    assert_eq!(call, ForkCall::GetUsageReceipt { handle: ContextHandle(51) });
    let reply = ForkReply::Measured(Ok(PageUsage { shared_pages: 1, private_pages: 0 }));
    let receipt = expect_done(s.resume_branch_context(session, reply)).unwrap();
    let child = receipt.child_context;
    assert_eq!(child.context_id, ContextId(600));
    assert_eq!(child.branch_id, BranchId(10));
    assert_eq!(child.generation, Generation(5));
    assert_eq!(child.token_count, 5);
    assert_eq!(child.logical_state_digest, digest(11));
    assert_eq!(child.recovery, parent.recovery);
    assert_eq!(child.isolation.domain_id, 901);
    assert_eq!(child.kv_format.dtype, "FP32");
    assert_eq!(child.lineage.parent_branch, Some(BranchId(8)));
    assert_eq!(child.lineage.fork_token_index, Some(5));
    assert_eq!(s.get_block_table(10), Some(51));

    let mut second = request(parent);
    second.child_branch_id = BranchId(12);
    let (call, _) = expect_call(s.branch_context(&second));
    assert_eq!(call, ForkCall::ForkContext { handle: ContextHandle(50) });
    assert_eq!(s.get_branch_tokens(9), Some(vec![1, 2, 3]));
}

#[test]
fn a_parent_that_cannot_be_taken_in_is_not_active() {
    let (mut s, active) = service_with_parent();
    let (_, session) = expect_call(s.branch_context(&request(unregistered(&active))));
    assert!(!session.can_resume(&ForkReply::Forked(Ok(ContextHandle(1)))));
    let reply = ForkReply::Created(Err("full".to_string()));
    assert!(session.can_resume(&reply));
    assert_eq!(
        expect_done(s.resume_branch_context(session, reply)),
        Err(InferenceError::Internal("Fork context failed: full".to_string()))
    );
    assert_eq!(s.get_branch_tokens(8), None);
    assert_eq!(s.get_branch_tokens(10), None);
}

#[test]
fn a_parent_that_was_taken_in_stays_when_its_fork_fails() {
    let (mut s, active) = service_with_parent();
    let (_, session) = expect_call(s.branch_context(&request(unregistered(&active))));
    let reply = ForkReply::Created(Ok(ContextHandle(50)));
    let (_, session) = expect_call(s.resume_branch_context(session, reply));
    let reply = ForkReply::Forked(Err("full".to_string()));
    assert_eq!(
        expect_done(s.resume_branch_context(session, reply)),
        Err(InferenceError::Internal("Fork context failed: full".to_string()))
    );
    assert_eq!(s.get_block_table(8), Some(50));
    assert_eq!(s.get_branch_tokens(9), Some(vec![1, 2, 3]));
    assert_eq!(s.get_branch_tokens(10), None);
}

#[test]
fn a_reference_that_was_handed_out_is_not_taken_in() {
    let (mut s, parent) = service_with_parent();
    s.bump_runtime_epoch();
    assert_eq!(
        expect_done(s.branch_context(&request(parent))),
        Err(InferenceError::ContextNotFound(ContextId(500)))
    );
    assert_eq!(s.get_branch_tokens(9), None);
}

#[test]
fn a_pruned_branch_is_not_revived_by_a_fork() {
    let (mut s, parent) = service_with_parent();
    let (_, session) = expect_call(s.branch_context(&request(parent.clone())));
    let reply = ForkReply::Forked(Ok(ContextHandle(43)));
    let (_, session) = expect_call(s.resume_branch_context(session, reply));
    let reply = ForkReply::Measured(Ok(PageUsage { shared_pages: 3, private_pages: 0 }));
    expect_done(s.resume_branch_context(session, reply)).unwrap();
    assert_eq!(s.select_branch(10, &[9]), Ok(vec![42]));
    let mut claims = parent.clone();
    claims.token_count = 5;
    claims.generation = Generation(7);
    for reference in [parent, claims] {
        assert_eq!(
            expect_done(s.branch_context(&request(reference))),
            Err(InferenceError::ContextNotFound(ContextId(500)))
        );
    }
    assert_eq!(s.get_branch_tokens(9), None);
}

#[test]
fn not_every_unbound_reference_is_taken_in() {
    let (s, active) = service_with_parent();
    let parent = unregistered(&active);
    let mut last = parent.clone();
    last.generation = Generation(u64::MAX);
    let mut long = parent.clone();
    long.token_count = 4097;
    let mut own = parent.clone();
    own.branch_id = BranchId(10);
    for reference in [last, long, own] {
        assert_eq!(
            expect_done(s.branch_context(&request(reference))),
            Err(InferenceError::ContextNotFound(ContextId(600)))
        );
    }
    let mut full = parent;
    full.token_count = 4096;
    match expect_call(s.branch_context(&request(full))).0 {
        ForkCall::CreateContext { tokens } => assert_eq!(tokens, vec![1; 4096]),
        other => panic!("{:?}", other),
    }
}

#[test]
fn what_a_reference_claims_does_not_change_a_fork() {
    let mut receipts = Vec::new();
    for claimed in [false, true] {
        let (mut s, mut parent) = service_with_parent();
        if claimed {
            parent.generation = Generation(9);
            parent.token_count = 99;
            parent.logical_state_digest = digest(99);
            parent.kv_format.dtype = "BF16".to_string();
            parent.binding = None;
        }
        let (_, session) = expect_call(s.branch_context(&request(parent)));
        let reply = ForkReply::Forked(Ok(ContextHandle(43)));
        let (_, session) = expect_call(s.resume_branch_context(session, reply));
        let reply = ForkReply::Measured(Ok(PageUsage { shared_pages: 3, private_pages: 0 }));
        receipts.push(expect_done(s.resume_branch_context(session, reply)).unwrap());
    }
    assert_eq!(receipts[0], receipts[1]);
}

#[test]
fn a_parent_that_became_active_meanwhile_stays_as_it_is() {
    let (mut s, active) = service_with_parent();
    let parent = unregistered(&active);
    let (_, first) = expect_call(s.branch_context(&request(parent.clone())));
    let (_, second) = expect_call(s.branch_context(&request(parent)));
    expect_call(s.resume_branch_context(first, ForkReply::Created(Ok(ContextHandle(50)))));
    let reply = ForkReply::Created(Ok(ContextHandle(60)));
    let (call, _) = expect_call(s.resume_branch_context(second, reply));
    assert_eq!(call, ForkCall::ForkContext { handle: ContextHandle(50) });
    assert_eq!(s.get_block_table(8), Some(50));
}

#[test]
fn a_failing_fork_changes_nothing() {
    let (mut s, parent) = service_with_parent();
    let (_, session) = expect_call(s.branch_context(&request(parent.clone())));
    assert_eq!(
        expect_done(s.resume_branch_context(session, ForkReply::Forked(Err("full".to_string())))),
        Err(InferenceError::Internal("Fork context failed: full".to_string()))
    );
    let (_, session) = expect_call(s.branch_context(&request(parent)));
    let (_, session) = expect_call(
        s.resume_branch_context(session, ForkReply::Forked(Ok(ContextHandle(43)))),
    );
    assert_eq!(
        expect_done(s.resume_branch_context(session, ForkReply::Measured(Err("gone".to_string())))),
        Err(InferenceError::Internal("Usage receipt failed: gone".to_string()))
    );
    assert_eq!(s.get_branch_tokens(10), None);
}

#[test]
fn a_fork_takes_only_the_reply_that_it_waits_for() {
    let (s, parent) = service_with_parent();
    let (_, session) = expect_call(s.branch_context(&request(parent)));
    let measured = ForkReply::Measured(Ok(PageUsage { shared_pages: 3, private_pages: 0 }));
    assert!(!session.can_resume(&measured));
    assert!(session.can_resume(&ForkReply::Forked(Err(String::new()))));
}
