//! What holds of the library as a whole.

use vstd::bytes::{lemma_auto_spec_u32_to_from_le_bytes, spec_u32_to_le_bytes};
use vstd::prelude::*;

use crate::branch::{state_digest_input, token_bytes, BranchView};
use crate::ids::{uuid_bytes, Uuid};
use crate::protocol::{
    zero_digest, BranchId, ContextHandle, ContextRecipeRef, ContextRefView, Digest32, ErrorView,
    ForkReceiptView, Generation, RequestView,
};
use crate::recipe::{digest_or_zero, RecipeView};
use crate::rendering::content_tokens;
use crate::service::fork::{
    adopted, child_branch, fork_accepts, parent_ref, stand_in_tokens, ForkCallView, ForkReplyView,
    ForkStepView, ForkTask, PageUsage,
};
use crate::service::infer::{
    advanced, infer_task, response, BranchTarget, CallView, InferTask, PhaseView,
    ReplyView, SessionView, StepView,
};
use crate::service::{
    pruned, released_handles, IsolationDomain, ModelConfig, ModelDigests, PendingView, ServiceView,
};
use crate::store::{
    loaded_recipes, recipes_in, resolve_accepts, resolve_next, EntryView, RecipeErrorView,
    RecipeFileView, ResolveSessionView, ResolveStepView, StoreCallView, StoreReplyView, StoreView,
};

pub mod contexts;
pub mod forking;
pub mod keeping;
pub mod serving;
pub mod values;

verus! {

/// Identifiers with the same bytes agree in the byte at a place.
proof fn lemma_same_byte(a: Uuid, b: Uuid, i: int)
    requires
        0 <= i < 16,
        uuid_bytes(a) == uuid_bytes(b),
    ensures
        ((a >> ((8 * (15 - i)) as u128)) & 0xff) as u8 == ((b >> ((8 * (15 - i)) as u128)) & 0xff)
            as u8,
{
    assert(uuid_bytes(a)[i] == ((a >> ((8 * (15 - i)) as u128)) & 0xff) as u8);
    assert(uuid_bytes(b)[i] == ((b >> ((8 * (15 - i)) as u128)) & 0xff) as u8);
}

/// Two identifiers with the same bytes are the same.
proof fn lemma_uuid_bytes_injective(a: Uuid, b: Uuid)
    requires
        uuid_bytes(a) == uuid_bytes(b),
    ensures
        a == b,
{
    lemma_same_byte(a, b, 0);
    lemma_same_byte(a, b, 1);
    lemma_same_byte(a, b, 2);
    lemma_same_byte(a, b, 3);
    lemma_same_byte(a, b, 4);
    lemma_same_byte(a, b, 5);
    lemma_same_byte(a, b, 6);
    lemma_same_byte(a, b, 7);
    lemma_same_byte(a, b, 8);
    lemma_same_byte(a, b, 9);
    lemma_same_byte(a, b, 10);
    lemma_same_byte(a, b, 11);
    lemma_same_byte(a, b, 12);
    lemma_same_byte(a, b, 13);
    lemma_same_byte(a, b, 14);
    lemma_same_byte(a, b, 15);
    assert(a == b) by (bit_vector)
        requires
            ((a >> 120u128) & 0xff) as u8 == ((b >> 120u128) & 0xff) as u8,
            ((a >> 112u128) & 0xff) as u8 == ((b >> 112u128) & 0xff) as u8,
            ((a >> 104u128) & 0xff) as u8 == ((b >> 104u128) & 0xff) as u8,
            ((a >> 96u128) & 0xff) as u8 == ((b >> 96u128) & 0xff) as u8,
            ((a >> 88u128) & 0xff) as u8 == ((b >> 88u128) & 0xff) as u8,
            ((a >> 80u128) & 0xff) as u8 == ((b >> 80u128) & 0xff) as u8,
            ((a >> 72u128) & 0xff) as u8 == ((b >> 72u128) & 0xff) as u8,
            ((a >> 64u128) & 0xff) as u8 == ((b >> 64u128) & 0xff) as u8,
            ((a >> 56u128) & 0xff) as u8 == ((b >> 56u128) & 0xff) as u8,
            ((a >> 48u128) & 0xff) as u8 == ((b >> 48u128) & 0xff) as u8,
            ((a >> 40u128) & 0xff) as u8 == ((b >> 40u128) & 0xff) as u8,
            ((a >> 32u128) & 0xff) as u8 == ((b >> 32u128) & 0xff) as u8,
            ((a >> 24u128) & 0xff) as u8 == ((b >> 24u128) & 0xff) as u8,
            ((a >> 16u128) & 0xff) as u8 == ((b >> 16u128) & 0xff) as u8,
            ((a >> 8u128) & 0xff) as u8 == ((b >> 8u128) & 0xff) as u8,
            ((a >> 0u128) & 0xff) as u8 == ((b >> 0u128) & 0xff) as u8,
    ;
}

/// Branches that differ in their identifier or in their tokens are digested from different bytes:
/// only a collision of the digest function gives them the same digest.
pub proof fn law_divergent_branches_are_digested_apart(
    a_id: Uuid,
    a: Seq<u32>,
    b_id: Uuid,
    b: Seq<u32>,
)
    requires
        state_digest_input(a_id, a) == state_digest_input(b_id, b),
    ensures
        a_id == b_id,
        a == b,
{
    let bytes = state_digest_input(a_id, a);
    assert(bytes.take(16) =~= uuid_bytes(a_id));
    assert(bytes.take(16) =~= uuid_bytes(b_id));
    lemma_uuid_bytes_injective(a_id, b_id);
    assert(bytes.skip(16) =~= token_bytes(a));
    assert(bytes.skip(16) =~= token_bytes(b));
    assert(4 * a.len() == token_bytes(a).len());
    assert(4 * b.len() == token_bytes(b).len());
    lemma_auto_spec_u32_to_from_le_bytes();
    assert forall|i: int| 0 <= i < a.len() implies a[i] == b[i] by {
        let x = spec_u32_to_le_bytes(a[i]);
        let y = spec_u32_to_le_bytes(b[i]);
        assert forall|k: int| 0 <= k < 4 implies x[k] == y[k] by {
            assert(token_bytes(a)[4 * i + k] == x[k]);
            assert(token_bytes(b)[4 * i + k] == y[k]);
        }
        assert(x =~= y);
    }
    assert(a =~= b);
}

/// Where a request stands after replies, and the service with it. A request that is done takes no
/// further reply.
pub open spec fn infer_run(
    service: ServiceView,
    step: StepView,
    replies: Seq<ReplyView>,
) -> (ServiceView, StepView)
    decreases replies.len(),
{
    if replies.len() == 0 {
        (service, step)
    } else {
        match step {
            StepView::Done(_) => (service, step),
            StepView::Call(_, session) => infer_run(
                service.infer_effect(session, replies[0]),
                service.infer_next(session, replies[0]),
                replies.drop_first(),
            ),
        }
    }
}

/// Whether each of the replies comes to a call and can be taken.
pub open spec fn infer_run_accepts(
    service: ServiceView,
    step: StepView,
    replies: Seq<ReplyView>,
) -> bool
    decreases replies.len(),
{
    replies.len() == 0 || match step {
        StepView::Done(_) => false,
        StepView::Call(_, session) => service.accepts(session, replies[0]) && infer_run_accepts(
            service.infer_effect(session, replies[0]),
            service.infer_next(session, replies[0]),
            replies.drop_first(),
        ),
    }
}

/// The replies that decode `tokens`, then digest the branch to `digest`.
pub open spec fn decode_replies(tokens: Seq<u32>, digest: Digest32) -> Seq<ReplyView> {
    tokens.map_values(|token: u32| ReplyView::Decoded(Ok(token))).push(ReplyView::Digested(digest))
}

/// The replies of a turn in which nothing fails.
pub open spec fn turn_replies(
    delta: Seq<u32>,
    tokens: Seq<u32>,
    digest: Digest32,
) -> Seq<ReplyView> {
    if delta.len() > 0 {
        seq![ReplyView::Appended(Ok(()))] + decode_replies(tokens, digest)
    } else {
        decode_replies(tokens, digest)
    }
}

/// Decoding goes on until all tokens are there, and then the branch is digested with them.
proof fn lemma_decode_run(
    service: ServiceView,
    task: InferTask,
    target: BranchTarget,
    generated: Seq<u32>,
    tokens: Seq<u32>,
    digest: Digest32,
)
    requires
        service.has(target),
        service.branches[target.branch_id].admits(target.generation),
        target.generation.0 < u64::MAX,
        task.prompt_tokens is Some,
        generated.len() + tokens.len() == task.max_tokens,
    ensures
        ({
            let branch = service.branches[target.branch_id];
            let start = service.next_call(task, target, generated);
            let replies = decode_replies(tokens, digest);
            let after = service.with_branch(
                target.branch_id,
                advanced(branch, target.generation, generated + tokens, digest),
            );
            &&& infer_run_accepts(service, start, replies)
            &&& infer_run(service, start, replies.drop_last()) == (
                service,
                StepView::Call(
                    CallView::Sha256 {
                        bytes: state_digest_input(
                            branch.branch_id,
                            branch.tokens + (generated + tokens),
                        ),
                    },
                    SessionView {
                        task,
                        phase: PhaseView::Digesting {
                            target,
                            generated: generated + tokens,
                            tokens: branch.tokens + (generated + tokens),
                        },
                    },
                ),
            )
            &&& infer_run(service, start, replies) == (
                after,
                StepView::Done(
                    Ok(
                        response(
                            task,
                            generated + tokens,
                            Some(after.context_ref(after.branches[target.branch_id])),
                        ),
                    ),
                ),
            )
        }),
    decreases tokens.len(),
{
    let start = service.next_call(task, target, generated);
    let replies = decode_replies(tokens, digest);
    if tokens.len() == 0 {
        assert(generated + tokens =~= generated);
        assert(replies.drop_first() =~= Seq::empty());
        assert(replies.drop_last() =~= Seq::empty());
        assert(replies[0] == ReplyView::Digested(digest));
        reveal_with_fuel(infer_run, 2);
        reveal_with_fuel(infer_run_accepts, 2);
    } else {
        let rest = tokens.drop_first();
        let more = generated.push(tokens[0]);
        lemma_decode_run(service, task, target, more, rest, digest);
        assert(more + rest =~= generated + tokens);
        assert(replies[0] == ReplyView::Decoded(Ok(tokens[0])));
        assert(replies.drop_first() =~= decode_replies(rest, digest));
        assert(replies.drop_last().drop_first() =~= decode_replies(rest, digest).drop_last());
        assert(replies.drop_last()[0] == replies[0]);
    }
}

/// The branch after a turn in which the tokens `delta` of the messages were taken in and `tokens`
/// decoded, for a request that knew it in `generation`.
pub open spec fn branch_after_turn(
    branch: BranchView,
    generation: Generation,
    delta: Seq<u32>,
    tokens: Seq<u32>,
    digest: Digest32,
) -> BranchView {
    advanced(BranchView { tokens: branch.tokens + delta, ..branch }, generation, tokens, digest)
}

/// A turn on a branch in which nothing fails: the engine takes the tokens of the messages in and
/// decodes as many as were asked for, the branch is digested with all of them, and then holds them
/// in the generation after that of the request's context. The answer gives the decoded tokens and a
/// reference to the branch as it then stands.
pub proof fn law_turn(
    service: ServiceView,
    request: RequestView,
    context: ContextRefView,
    seq_id: u64,
    tokens: Seq<u32>,
    digest: Digest32,
)
    requires
        request.context == Some(context),
        service.refusal(context) is None,
        context.generation.0 < u64::MAX,
        infer_task(request).prompt_tokens is Some,
        tokens.len() == request.max_tokens,
    ensures
        ({
            let id = context.branch_id.0;
            let branch = service.branches[id];
            let delta = content_tokens(request.contents, service.vocab());
            let start = service.infer_start(request, seq_id);
            let replies = turn_replies(delta, tokens, digest);
            let moved = branch_after_turn(branch, context.generation, delta, tokens, digest);
            let after = service.with_branch(id, moved);
            let answer = response(infer_task(request), tokens, Some(after.context_ref(moved)));
            &&& infer_run_accepts(service, start, replies)
            &&& infer_run(service, start, replies.drop_last()).1 matches StepView::Call(
                CallView::Sha256 { bytes },
                _,
            ) && bytes == state_digest_input(branch.branch_id, branch.tokens + delta + tokens)
            &&& infer_run(service, start, replies) == (after, StepView::Done(Ok(answer)))
            &&& moved.tokens == branch.tokens + delta + tokens
            &&& moved.generation.0 == context.generation.0 + 1
            &&& branch.generation.0 < moved.generation.0
            &&& answer.completion_tokens == request.max_tokens
            &&& moved.tokens.len() <= u64::MAX ==> moved.token_count == moved.tokens.len()
        }),
{
    let id = context.branch_id.0;
    let branch = service.branches[id];
    let delta = content_tokens(request.contents, service.vocab());
    let task = infer_task(request);
    let target = service.branch_target(context);
    let start = service.infer_start(request, seq_id);
    let replies = turn_replies(delta, tokens, digest);
    let moved = branch_after_turn(branch, context.generation, delta, tokens, digest);
    assert(Seq::<u32>::empty() + tokens =~= tokens);
    if delta.len() > 0 {
        let session = SessionView { task, phase: PhaseView::Appending { target, delta } };
        let taken_in = BranchView { tokens: branch.tokens + delta, ..branch };
        let mid = service.with_branch(id, taken_in);
        let rest = decode_replies(tokens, digest);
        lemma_decode_run(mid, task, target, Seq::empty(), tokens, digest);
        assert(replies[0] == ReplyView::Appended(Ok(())));
        assert(replies.drop_first() =~= rest);
        assert(replies.drop_last().drop_first() =~= rest.drop_last());
        assert(replies.drop_last()[0] == replies[0]);
        assert(service.infer_effect(session, replies[0]) == mid);
        assert(mid.with_branch(id, moved) =~= service.with_branch(id, moved));
    } else {
        lemma_decode_run(service, task, target, Seq::empty(), tokens, digest);
        assert(branch.tokens + delta =~= branch.tokens);
        assert(BranchView { tokens: branch.tokens + delta, ..branch } =~= branch);
    }
}

/// The replies of a turn in which the engine decodes `tokens` and then fails with `error`.
pub open spec fn failing_replies(
    delta: Seq<u32>,
    tokens: Seq<u32>,
    error: Seq<char>,
) -> Seq<ReplyView> {
    let decoded = tokens.map_values(|token: u32| ReplyView::Decoded(Ok(token))).push(
        ReplyView::Decoded(Err(error)),
    );
    if delta.len() > 0 {
        seq![ReplyView::Appended(Ok(()))] + decoded
    } else {
        decoded
    }
}

/// When decoding fails, nothing of what was decoded is kept.
proof fn lemma_failing_run(
    service: ServiceView,
    task: InferTask,
    target: BranchTarget,
    generated: Seq<u32>,
    tokens: Seq<u32>,
    error: Seq<char>,
)
    requires
        service.has(target),
        service.branches[target.branch_id].admits(target.generation),
        generated.len() + tokens.len() < task.max_tokens,
    ensures
        ({
            let start = service.next_call(task, target, generated);
            let replies = failing_replies(Seq::empty(), tokens, error);
            &&& infer_run_accepts(service, start, replies)
            &&& infer_run(service, start, replies) == (
                service,
                StepView::Done(Err(ErrorView::Internal("Decode step failed: "@ + error))),
            )
        }),
    decreases tokens.len(),
{
    let replies = failing_replies(Seq::empty(), tokens, error);
    if tokens.len() == 0 {
        assert(replies.drop_first() =~= Seq::empty());
        assert(replies[0] == ReplyView::Decoded(Err(error)));
        reveal_with_fuel(infer_run, 2);
        reveal_with_fuel(infer_run_accepts, 2);
    } else {
        let rest = tokens.drop_first();
        lemma_failing_run(service, task, target, generated.push(tokens[0]), rest, error);
        assert(replies[0] == ReplyView::Decoded(Ok(tokens[0])));
        assert(replies.drop_first() =~= failing_replies(Seq::empty(), rest, error));
    }
}

/// A turn in which the engine fails to decode a token: the error is handed on, the branch keeps the
/// tokens of the messages, which the engine has taken in, and nothing of what was decoded, and the
/// context of the request is still admitted.
pub proof fn law_failed_turn(
    service: ServiceView,
    request: RequestView,
    context: ContextRefView,
    seq_id: u64,
    tokens: Seq<u32>,
    error: Seq<char>,
)
    requires
        request.context == Some(context),
        service.refusal(context) is None,
        tokens.len() < request.max_tokens,
    ensures
        ({
            let id = context.branch_id.0;
            let branch = service.branches[id];
            let delta = content_tokens(request.contents, service.vocab());
            let start = service.infer_start(request, seq_id);
            let replies = failing_replies(delta, tokens, error);
            let after = service.with_branch(
                id,
                BranchView { tokens: branch.tokens + delta, ..branch },
            );
            &&& infer_run_accepts(service, start, replies)
            &&& infer_run(service, start, replies) == (
                after,
                StepView::Done(Err(ErrorView::Internal("Decode step failed: "@ + error))),
            )
            &&& after.refusal(context) is None
        }),
{
    let id = context.branch_id.0;
    let branch = service.branches[id];
    let delta = content_tokens(request.contents, service.vocab());
    let task = infer_task(request);
    let target = service.branch_target(context);
    let replies = failing_replies(delta, tokens, error);
    let after = service.with_branch(id, BranchView { tokens: branch.tokens + delta, ..branch });
    if delta.len() > 0 {
        lemma_failing_run(after, task, target, Seq::empty(), tokens, error);
        assert(replies[0] == ReplyView::Appended(Ok(())));
        assert(replies.drop_first() =~= failing_replies(Seq::empty(), tokens, error));
    } else {
        lemma_failing_run(service, task, target, Seq::empty(), tokens, error);
        assert(delta =~= Seq::empty());
        assert(branch.tokens + delta =~= branch.tokens);
        assert(BranchView { tokens: branch.tokens + delta, ..branch } =~= branch);
        assert(after =~= service);
    }
}

/// The branch that a request under way is about, if any.
pub open spec fn session_target(session: SessionView) -> Option<BranchTarget> {
    match session.phase {
        PhaseView::Appending { target, .. } => Some(target),
        PhaseView::Decoding { target, .. } => Some(target),
        PhaseView::Digesting { target, .. } => Some(target),
        PhaseView::Generating => None,
    }
}

/// The branch that a request is about that waits for a reply, if any.
pub open spec fn step_target(step: StepView) -> Option<BranchTarget> {
    match step {
        StepView::Call(_, session) => session_target(session),
        StepView::Done(_) => None,
    }
}

/// The identifier of the branch that a request is about, if any.
pub open spec fn step_branch(step: StepView) -> Option<Uuid> {
    match step_target(step) {
        Some(target) => Some(target.branch_id),
        None => None,
    }
}

/// Whether two services differ in nothing but, possibly, the branch `id`.
pub open spec fn same_but_for(a: ServiceView, b: ServiceView, id: Option<Uuid>) -> bool {
    &&& a == (ServiceView { branches: a.branches, ..b })
    &&& forall|other: Uuid|
        Some(other) != id ==> (#[trigger] a.branches.contains_key(other)
            <==> b.branches.contains_key(other)) && (a.branches.contains_key(other)
            ==> a.branches[other] == b.branches[other])
}

/// Whatever the replies, a request touches no branch but its own, and one without a context none.
pub proof fn law_request_touches_only_its_branch(
    service: ServiceView,
    step: StepView,
    replies: Seq<ReplyView>,
)
    requires
        infer_run_accepts(service, step, replies),
    ensures
        same_but_for(infer_run(service, step, replies).0, service, step_branch(step)),
    decreases replies.len(),
{
    if replies.len() > 0 {
        if let StepView::Call(_, session) = step {
            let after = service.infer_effect(session, replies[0]);
            let next = service.infer_next(session, replies[0]);
            assert(same_but_for(after, service, step_branch(step)));
            law_request_touches_only_its_branch(after, next, replies.drop_first());
            assert(step_branch(next) is Some ==> step_branch(next) == step_branch(step));
        }
    }
}

/// Whatever the reply, tokens of a branch are never lost, and unless the reply completes the turn
/// the branch keeps its generation, its count of tokens and its digest.
pub proof fn law_unfinished_turn_keeps_generation(
    service: ServiceView,
    session: SessionView,
    reply: ReplyView,
    id: Uuid,
)
    requires
        service.accepts(session, reply),
        service.branches.contains_key(id),
    ensures
        ({
            let before = service.branches[id];
            let after = service.infer_effect(session, reply).branches[id];
            &&& service.infer_effect(session, reply).branches.contains_key(id)
            &&& before.tokens.is_prefix_of(after.tokens)
            &&& !(reply is Digested) ==> after == (BranchView { tokens: after.tokens, ..before })
        }),
{
}

/// A request about a branch that ends in an answer has moved the branch to the generation after the
/// one that it knew, and the answer refers to the branch as it then stands.
proof fn lemma_completed_run(
    service: ServiceView,
    step: StepView,
    replies: Seq<ReplyView>,
    target: BranchTarget,
)
    requires
        step_target(step) == Some(target),
        infer_run_accepts(service, step, replies),
        infer_run(service, step, replies).1 matches StepView::Done(Ok(_)),
    ensures
        ({
            let id = target.branch_id;
            let after = infer_run(service, step, replies).0;
            &&& target.generation.0 < u64::MAX
            &&& service.branches.contains_key(id)
            &&& after.branches.contains_key(id)
            &&& after.branches[id].branch_id == service.branches[id].branch_id
            &&& after.branches[id].generation == target.generation.succ()
            &&& !after.branches[id].rebuilt
            &&& after.epoch == service.epoch
            &&& infer_run(service, step, replies).1 matches StepView::Done(Ok(answer))
                && answer.context == Some(after.context_ref(after.branches[id]))
        }),
    decreases replies.len(),
{
    if let StepView::Call(_, session) = step {
        let after = service.infer_effect(session, replies[0]);
        let next = service.infer_next(session, replies[0]);
        let rest = replies.drop_first();
        if let StepView::Call(_, _) = next {
            lemma_completed_run(after, next, rest, target);
        } else {
            reveal_with_fuel(infer_run, 2);
            reveal_with_fuel(infer_run_accepts, 2);
        }
    }
}

/// A context that was used up is refused from then on, whatever the engine replied: once a request
/// on it has ended in an answer, its branch has moved on to the next generation.
pub proof fn law_used_context_is_refused(
    service: ServiceView,
    request: RequestView,
    context: ContextRefView,
    seq_id: u64,
    replies: Seq<ReplyView>,
)
    requires
        request.context == Some(context),
        infer_run_accepts(service, service.infer_start(request, seq_id), replies),
        infer_run(service, service.infer_start(request, seq_id), replies).1 matches StepView::Done(
            Ok(_),
        ),
    ensures
        infer_run(service, service.infer_start(request, seq_id), replies).0.refusal(context)
            == Some(
            ErrorView::StaleGeneration {
                expected: context.generation.succ(),
                actual: context.generation,
            },
        ),
{
    let start = service.infer_start(request, seq_id);
    lemma_completed_run(service, start, replies, service.branch_target(context));
}

/// The context that comes with an answer is admitted, whatever the engine replied on the way, and is
/// one generation ahead of the context of the request.
pub proof fn law_returned_context_is_admitted(
    service: ServiceView,
    request: RequestView,
    context: ContextRefView,
    seq_id: u64,
    replies: Seq<ReplyView>,
)
    requires
        service.wf(),
        request.context == Some(context),
        infer_run_accepts(service, service.infer_start(request, seq_id), replies),
        infer_run(service, service.infer_start(request, seq_id), replies).1 matches StepView::Done(
            Ok(_),
        ),
    ensures
        ({
            let (after, end) = infer_run(
                service,
                service.infer_start(request, seq_id),
                replies,
            );
            &&& end matches StepView::Done(Ok(answer)) && answer.context matches Some(returned)
                && after.refusal(returned) is None && returned.branch_id == context.branch_id
                && returned.generation.0 == context.generation.0 + 1
        }),
{
    let start = service.infer_start(request, seq_id);
    lemma_completed_run(service, start, replies, service.branch_target(context));
}

/// The service after replies to any number of requests, in the order in which they came.
pub open spec fn after_replies(
    service: ServiceView,
    events: Seq<(SessionView, ReplyView)>,
) -> ServiceView
    decreases events.len(),
{
    if events.len() == 0 {
        service
    } else {
        after_replies(service, events.drop_last()).infer_effect(events.last().0, events.last().1)
    }
}

/// Whether each of these replies can be taken when it comes.
pub open spec fn all_accepted(
    service: ServiceView,
    events: Seq<(SessionView, ReplyView)>,
) -> bool {
    forall|k: int|
        0 <= k < events.len() ==> after_replies(service, #[trigger] events.take(k)).accepts(
            events[k].0,
            events[k].1,
        )
}

/// Whether the branch that a request started on is past the generation that the request knows.
pub open spec fn is_past(service: ServiceView, target: BranchTarget) -> bool {
    &&& service.has(target)
    &&& !service.branches[target.branch_id].rebuilt
    &&& target.generation.0 < service.branches[target.branch_id].generation.0
}

/// A branch that is past a generation stays past it, whatever requests are answered.
proof fn lemma_stays_past(
    service: ServiceView,
    events: Seq<(SessionView, ReplyView)>,
    i: int,
    j: int,
    target: BranchTarget,
)
    requires
        0 <= i <= j <= events.len(),
        all_accepted(service, events),
        is_past(after_replies(service, events.take(i)), target),
    ensures
        is_past(after_replies(service, events.take(j)), target),
    decreases j - i,
{
    if i < j {
        assert(events.take(i + 1).drop_last() =~= events.take(i));
        assert(events.take(i + 1).last() == events[i]);
        lemma_stays_past(service, events, i + 1, j, target);
    }
}

/// A context is used up once. Of any number of requests on a context, whose steps may follow each
/// other in any order, one at most is answered: when one is, each of the others that still comes to
/// its end is told that the branch has moved on, and changes nothing.
pub proof fn law_context_is_used_up_once(
    service: ServiceView,
    events: Seq<(SessionView, ReplyView)>,
    i: int,
    j: int,
    target: BranchTarget,
)
    requires
        0 <= i < j < events.len(),
        all_accepted(service, events),
        session_target(events[i].0) == Some(target),
        session_target(events[j].0) == Some(target),
        after_replies(service, events.take(i)).infer_next(
            events[i].0,
            events[i].1,
        ) matches StepView::Done(Ok(_)),
    ensures
        ({
            let here = after_replies(service, events.take(j));
            let step = here.infer_next(events[j].0, events[j].1);
            &&& !(step matches StepView::Done(Ok(_)))
            &&& events[j].0.phase is Digesting ==> step == StepView::Done(
                Err(
                    ErrorView::StaleGeneration {
                        expected: here.branches[target.branch_id].generation,
                        actual: target.generation,
                    },
                ),
            ) && here.infer_effect(events[j].0, events[j].1) == here
        }),
{
    assert(events.take(i + 1).drop_last() =~= events.take(i));
    assert(events.take(i + 1).last() == events[i]);
    assert(after_replies(service, events.take(i)).accepts(events[i].0, events[i].1));
    assert(after_replies(service, events.take(j)).accepts(events[j].0, events[j].1));
    lemma_stays_past(service, events, i + 1, j, target);
}

/// A request whose branch is gone, or was replaced by another under the same identifier or in
/// another run of the engine, changes nothing any more and ends in an error.
pub proof fn law_request_on_a_lost_branch_ends(
    service: ServiceView,
    session: SessionView,
    reply: ReplyView,
    target: BranchTarget,
)
    requires
        session_target(session) == Some(target),
        service.accepts(session, reply),
        !service.has(target),
    ensures
        service.infer_effect(session, reply) == service,
        service.infer_next(session, reply) matches StepView::Done(Err(_)),
{
}

/// Only a branch that was rebuilt, and on which no turn has been completed since, admits a context
/// that is in another generation; and then one that is ahead of it.
pub proof fn law_other_generations_are_refused(service: ServiceView, context: ContextRefView)
    requires
        service.refusal(context) is None,
    ensures
        ({
            let branch = service.branches[context.branch_id.0];
            context.generation != branch.generation ==> branch.rebuilt && branch.generation.0
                < context.generation.0
        }),
{
}

/// The reference to a branch that stands under its own identifier is admitted.
pub proof fn law_current_context_is_admitted(service: ServiceView, id: Uuid)
    requires
        service.wf(),
        service.branches.contains_key(id),
    ensures
        service.refusal(service.context_ref(service.branches[id])) is None,
{
}

/// A context that was handed out in one run of the engine is refused in every other, whether or not
/// its branch is active there.
pub proof fn law_context_of_another_run_is_refused(
    issuer: ServiceView,
    branch: BranchView,
    service: ServiceView,
)
    requires
        issuer.epoch != service.epoch,
    ensures
        service.refusal(issuer.context_ref(branch)) == Some(ErrorView::StaleRuntimeEpoch),
{
}

/// Where a fork stands after replies, and the service with it. A fork that is done takes no further
/// reply.
pub open spec fn fork_run(
    service: ServiceView,
    step: ForkStepView,
    replies: Seq<ForkReplyView>,
) -> (ServiceView, ForkStepView)
    decreases replies.len(),
{
    if replies.len() == 0 {
        (service, step)
    } else {
        match step {
            ForkStepView::Done(_) => (service, step),
            ForkStepView::Call(_, session) => fork_run(
                service.fork_effect(session, replies[0]),
                service.fork_next(session, replies[0]),
                replies.drop_first(),
            ),
        }
    }
}

/// Whether each of the replies comes to a call and can be taken.
pub open spec fn fork_run_accepts(
    service: ServiceView,
    step: ForkStepView,
    replies: Seq<ForkReplyView>,
) -> bool
    decreases replies.len(),
{
    replies.len() == 0 || match step {
        ForkStepView::Done(_) => false,
        ForkStepView::Call(_, session) => fork_accepts(session, replies[0]) && fork_run_accepts(
            service.fork_effect(session, replies[0]),
            service.fork_next(session, replies[0]),
            replies.drop_first(),
        ),
    }
}

/// The replies of a fork in which nothing fails.
pub open spec fn fork_replies(
    service: ServiceView,
    task: ForkTask,
    adopting: ContextHandle,
    child: ContextHandle,
    usage: PageUsage,
) -> Seq<ForkReplyView> {
    let forked = seq![ForkReplyView::Forked(Ok(child)), ForkReplyView::Measured(Ok(usage))];
    if service.branches.contains_key(task.parent.branch_id.0) {
        forked
    } else {
        seq![ForkReplyView::Created(Ok(adopting))] + forked
    }
}

/// The receipt of a fork in which nothing fails.
pub open spec fn fork_receipt(
    service: ServiceView,
    task: ForkTask,
    branch: BranchView,
    usage: PageUsage,
) -> ForkReceiptView {
    ForkReceiptView {
        operation_id: task.operation_id,
        child_context: service.context_ref(branch),
        shared_pages: usage.shared_pages as u32,
        copied_pages: usage.private_pages as u32,
        lease_expires_at_monotonic: 9999999999,
    }
}

/// Forking a parent that is active: the engine is asked to fork it and for the pages of the child.
proof fn lemma_fork_of_active(
    service: ServiceView,
    task: ForkTask,
    child: ContextHandle,
    usage: PageUsage,
)
    requires
        service.branches.contains_key(task.parent.branch_id.0),
        service.branches[task.parent.branch_id.0].generation.0 < u64::MAX,
    ensures
        ({
            let parent = service.branches[task.parent.branch_id.0];
            let branch = child_branch(task, parent, child);
            let replies = seq![
                ForkReplyView::Forked(Ok(child)),
                ForkReplyView::Measured(Ok(usage)),
            ];
            &&& fork_run_accepts(service, service.fork_start(task), replies)
            &&& fork_run(service, service.fork_start(task), replies) == (
                service.with_branch(task.child_branch.0, branch),
                ForkStepView::Done(Ok(fork_receipt(service, task, branch, usage))),
            )
        }),
{
    let replies = seq![ForkReplyView::Forked(Ok(child)), ForkReplyView::Measured(Ok(usage))];
    assert(replies.drop_first() =~= seq![ForkReplyView::Measured(Ok(usage))]);
    assert(replies.drop_first().drop_first() =~= Seq::empty());
    reveal_with_fuel(fork_run, 3);
    reveal_with_fuel(fork_run_accepts, 3);
}

/// A fork in which nothing fails, of a parent that is active or is taken in. The engine is asked to
/// take in a parent that is not active, to fork the parent, and for the pages of the child. The
/// child then holds what the parent holds, in the next generation; the parent and all other branches
/// that were active stay as they are; and the reference that is handed out is admitted.
pub proof fn law_fork(
    service: ServiceView,
    task: ForkTask,
    adopting: ContextHandle,
    child: ContextHandle,
    usage: PageUsage,
)
    requires
        service.branches.contains_key(task.parent.branch_id.0) || task.adopts(),
        service.with_parent(task, adopting).branches[task.parent.branch_id.0].generation.0
            < u64::MAX,
    ensures
        ({
            let id = task.child_branch.0;
            let start = service.fork_start(task);
            let replies = fork_replies(service, task, adopting, child, usage);
            let taken_in = service.with_parent(task, adopting);
            let parent = taken_in.branches[task.parent.branch_id.0];
            let branch = child_branch(task, parent, child);
            let after = taken_in.with_branch(id, branch);
            let receipt = fork_receipt(service, task, branch, usage);
            &&& fork_run_accepts(service, start, replies)
            &&& fork_run(service, start, replies) == (after, ForkStepView::Done(Ok(receipt)))
            &&& after.refusal(receipt.child_context) is None
            &&& same_but_for(after, taken_in, Some(id))
            &&& branch.tokens == parent.tokens
            &&& branch.token_count == parent.token_count
            &&& branch.logical_state_digest == parent.logical_state_digest
            &&& branch.recipe_ref == parent.recipe_ref
            &&& branch.generation.0 == parent.generation.0 + 1
        }),
{
    let taken_in = service.with_parent(task, adopting);
    lemma_fork_of_active(taken_in, task, child, usage);
    if !service.branches.contains_key(task.parent.branch_id.0) {
        let replies = fork_replies(service, task, adopting, child, usage);
        assert(replies[0] == ForkReplyView::Created(Ok(adopting)));
        assert(replies.drop_first() =~= seq![
            ForkReplyView::Forked(Ok(child)),
            ForkReplyView::Measured(Ok(usage)),
        ]);
        assert(taken_in.branches[task.parent.branch_id.0] == adopted(task.parent, adopting));
    }
}

/// A reference that a service has handed out is not good for a fork where its branch is not active,
/// be it that the branch was pruned or that the engine is in another run: the branch is not found,
/// and the engine is asked nothing.
pub proof fn law_dropped_parent_is_not_found(
    issuer: ServiceView,
    branch: BranchView,
    service: ServiceView,
    task: ForkTask,
)
    requires
        task.parent == parent_ref(issuer.context_ref(branch)),
        !service.branches.contains_key(branch.branch_id),
    ensures
        service.fork_start(task) == ForkStepView::Done(
            Err(ErrorView::ContextNotFound(task.parent.context_id)),
        ),
{
}

/// A parent that is taken in is taken in with as many tokens as its reference counts, and then
/// stands under its identifier with all that the reference says of it.
pub proof fn law_adopted_parent_is_as_referred_to(
    service: ServiceView,
    task: ForkTask,
    adopting: ContextHandle,
)
    requires
        task.adopts(),
        !service.branches.contains_key(task.parent.branch_id.0),
    ensures
        ({
            let tokens = stand_in_tokens(task.parent.token_count);
            let created = seq![ForkReplyView::Created(Ok(adopting))];
            let (after, next) = fork_run(service, service.fork_start(task), created);
            let context = after.context_ref(after.branches[task.parent.branch_id.0]);
            &&& service.fork_start(task) matches ForkStepView::Call(call, _) && call
                == ForkCallView::CreateContext { tokens }
            &&& tokens.len() == task.parent.token_count
            &&& fork_run_accepts(service, service.fork_start(task), created)
            &&& next matches ForkStepView::Call(call, _) && call == ForkCallView::ForkContext {
                handle: adopting,
            }
            &&& after == service.with_parent(task, adopting)
            &&& service.wf() ==> after.wf()
            &&& after.refusal(context) is None
            &&& context.context_id == task.parent.context_id
            &&& context.branch_id == task.parent.branch_id
            &&& context.generation == task.parent.generation
            &&& context.token_count == task.parent.token_count
            &&& context.logical_state_digest == task.parent.logical_state_digest
            &&& context.lineage == task.parent.lineage
            &&& context.isolation == task.parent.isolation
            &&& context.recovery == task.parent.recovery
        }),
{
    let created = seq![ForkReplyView::Created(Ok(adopting))];
    assert(created.drop_first() =~= Seq::empty());
    reveal_with_fuel(fork_run, 2);
    reveal_with_fuel(fork_run_accepts, 2);
}

/// Whether a fork waits for its parent to be taken in.
pub open spec fn is_adopting(step: ForkStepView) -> bool {
    step matches ForkStepView::Call(_, session) && session.phase is Adopting
}

/// A fork that fails once its parent is active changes nothing from there on.
proof fn lemma_failed_fork(
    service: ServiceView,
    step: ForkStepView,
    replies: Seq<ForkReplyView>,
)
    requires
        !is_adopting(step),
        fork_run_accepts(service, step, replies),
        fork_run(service, step, replies).1 matches ForkStepView::Done(Err(_)),
    ensures
        fork_run(service, step, replies).0 == service,
    decreases replies.len(),
{
    if replies.len() > 0 {
        if let ForkStepView::Call(_, session) = step {
            let after = service.fork_effect(session, replies[0]);
            let next = service.fork_next(session, replies[0]);
            lemma_failed_fork(after, next, replies.drop_first());
        }
    }
}

/// A fork that fails leaves every branch that was active as it is, and makes none active but, where
/// the engine had taken it in by then, the parent. Where the parent was active, or was not taken in,
/// nothing at all has changed; and under the identifier of the child nothing ever has.
pub proof fn law_failed_fork_leaves_the_branches(
    service: ServiceView,
    task: ForkTask,
    replies: Seq<ForkReplyView>,
)
    requires
        fork_run_accepts(service, service.fork_start(task), replies),
        fork_run(service, service.fork_start(task), replies).1 matches ForkStepView::Done(Err(_)),
    ensures
        ({
            let child = task.child_branch.0;
            let after = fork_run(service, service.fork_start(task), replies).0;
            &&& if service.branches.contains_key(task.parent.branch_id.0) || replies.len() == 0 {
                after == service
            } else {
                match replies[0] {
                    ForkReplyView::Created(Ok(handle)) => after == service.with_parent(
                        task,
                        handle,
                    ),
                    _ => after == service,
                }
            }
            &&& after.branches.contains_key(child) <==> service.branches.contains_key(child)
            &&& after.branches.contains_key(child) ==> after.branches[child]
                == service.branches[child]
        }),
{
    let start = service.fork_start(task);
    if service.branches.contains_key(task.parent.branch_id.0) {
        lemma_failed_fork(service, start, replies);
    } else if replies.len() > 0 {
        if let ForkStepView::Call(_, session) = start {
            let after = service.fork_effect(session, replies[0]);
            let next = service.fork_next(session, replies[0]);
            lemma_failed_fork(after, next, replies.drop_first());
        }
    }
}

/// The reasons for which a fork fails that has been started.
proof fn lemma_fork_errors(
    service: ServiceView,
    step: ForkStepView,
    replies: Seq<ForkReplyView>,
    error: ErrorView,
)
    requires
        step is Call,
        fork_run_accepts(service, step, replies),
        fork_run(service, step, replies).1 == ForkStepView::Done(
            Err::<ForkReceiptView, ErrorView>(error),
        ),
    ensures
        exists|e: Seq<char>|
            error == ErrorView::Internal(#[trigger] ("Fork context failed: "@ + e)) || error
                == ErrorView::Internal("Usage receipt failed: "@ + e),
    decreases replies.len(),
{
    if let ForkStepView::Call(_, session) = step {
        let after = service.fork_effect(session, replies[0]);
        let next = service.fork_next(session, replies[0]);
        let rest = replies.drop_first();
        if let ForkStepView::Call(_, _) = next {
            lemma_fork_errors(after, next, rest, error);
        } else {
            reveal_with_fuel(fork_run, 2);
            reveal_with_fuel(fork_run_accepts, 2);
            let e = match replies[0] {
                ForkReplyView::Created(Err(e)) => e,
                ForkReplyView::Forked(Err(e)) => e,
                ForkReplyView::Measured(Err(e)) => e,
                _ => Seq::empty(),
            };
            assert("Fork context failed: "@ + e == "Fork context failed: "@ + e);
        }
    }
}

/// Why a fork fails: the parent is not active and was not found, or the engine failed to fork it or
/// to tell the pages of the child.
pub proof fn law_fork_errors(
    service: ServiceView,
    task: ForkTask,
    replies: Seq<ForkReplyView>,
    error: ErrorView,
)
    requires
        fork_run_accepts(service, service.fork_start(task), replies),
        fork_run(service, service.fork_start(task), replies).1 == ForkStepView::Done(
            Err::<ForkReceiptView, ErrorView>(error),
        ),
    ensures
        error == ErrorView::ContextNotFound(task.parent.context_id)
            && !service.branches.contains_key(task.parent.branch_id.0) && replies.len() == 0
            || exists|e: Seq<char>|
            error == ErrorView::Internal(#[trigger] ("Fork context failed: "@ + e)) || error
                == ErrorView::Internal("Usage receipt failed: "@ + e),
{
    let start = service.fork_start(task);
    if start is Call {
        lemma_fork_errors(service, start, replies, error);
    }
}

/// Whether two forks ask for the same child of the same parent, whatever else their references
/// claim of the parent.
pub open spec fn same_fork(a: ForkTask, b: ForkTask) -> bool {
    &&& a.operation_id == b.operation_id
    &&& a.child_branch == b.child_branch
    &&& a.isolation == b.isolation
    &&& a.parent.context_id == b.parent.context_id
    &&& a.parent.branch_id == b.parent.branch_id
}

/// Whether two forks ask the engine for the same, or end in the same way.
pub open spec fn same_step(a: ForkStepView, b: ForkStepView) -> bool {
    match (a, b) {
        (ForkStepView::Call(x, _), ForkStepView::Call(y, _)) => x == y,
        (ForkStepView::Done(x), ForkStepView::Done(y)) => x == y,
        _ => false,
    }
}

/// Whether two forks stand in the same place, past the taking in of a parent.
spec fn same_place(a: ForkStepView, b: ForkStepView) -> bool {
    &&& same_step(a, b)
    &&& !is_adopting(a)
    &&& a matches ForkStepView::Call(_, x) ==> {
        let y = b->Call_1;
        x.phase == y.phase && same_fork(x.task, y.task)
    }
}

/// Forks that stand in the same place go on in the same way.
proof fn lemma_same_place(
    service: ServiceView,
    a: ForkStepView,
    b: ForkStepView,
    replies: Seq<ForkReplyView>,
)
    requires
        same_place(a, b),
        fork_run_accepts(service, a, replies),
    ensures
        fork_run_accepts(service, b, replies),
        fork_run(service, a, replies).0 == fork_run(service, b, replies).0,
        same_step(fork_run(service, a, replies).1, fork_run(service, b, replies).1),
    decreases replies.len(),
{
    if replies.len() > 0 {
        if let ForkStepView::Call(_, x) = a {
            let y = b->Call_1;
            let reply = replies[0];
            let next = service.fork_next(x, reply);
            assert(service.fork_effect(x, reply) == service.fork_effect(y, reply));
            assert(same_place(next, service.fork_next(y, reply)));
            lemma_same_place(
                service.fork_effect(x, reply),
                next,
                service.fork_next(y, reply),
                replies.drop_first(),
            );
        }
    }
}

/// What a reference claims of its branch, beyond the identifiers, does not change a fork: not its
/// generation, count of tokens, digest or binding. The same replies lead to the same receipt, or to
/// the same error, and leave the service the same. Where the parent is not active, this holds of
/// references for which it is not taken in.
pub proof fn law_claims_do_not_change_a_fork(
    service: ServiceView,
    a: ForkTask,
    b: ForkTask,
    replies: Seq<ForkReplyView>,
)
    requires
        same_fork(a, b),
        service.branches.contains_key(a.parent.branch_id.0) || !a.adopts() && !b.adopts(),
        fork_run_accepts(service, service.fork_start(a), replies),
    ensures
        fork_run_accepts(service, service.fork_start(b), replies),
        fork_run(service, service.fork_start(a), replies).0 == fork_run(
            service,
            service.fork_start(b),
            replies,
        ).0,
        same_step(
            fork_run(service, service.fork_start(a), replies).1,
            fork_run(service, service.fork_start(b), replies).1,
        ),
{
    lemma_same_place(service, service.fork_start(a), service.fork_start(b), replies);
}

/// Selecting a branch keeps it and every branch that is no sibling, as they are, and no other.
pub proof fn law_selection(
    branches: Map<Uuid, BranchView>,
    selected: Uuid,
    siblings: Seq<Uuid>,
    id: Uuid,
)
    ensures
        pruned(branches, selected, siblings).contains_key(id) <==> branches.contains_key(id) && (id
            == selected || !siblings.contains(id)),
        pruned(branches, selected, siblings).contains_key(id) ==> pruned(
            branches,
            selected,
            siblings,
        )[id] == branches[id],
{
}

/// The branches that go when `selected` is kept.
pub open spec fn gone(
    branches: Map<Uuid, BranchView>,
    selected: Uuid,
    siblings: Seq<Uuid>,
) -> Set<Uuid> {
    branches.dom().difference(pruned(branches, selected, siblings).dom())
}

/// The engine is told to release the handles of the branches that go and no others, each of these
/// branches once.
pub proof fn law_selection_releases_what_goes(
    branches: Map<Uuid, BranchView>,
    selected: Uuid,
    siblings: Seq<Uuid>,
)
    ensures
        gone(branches, selected, siblings).finite(),
        released_handles(branches, selected, siblings).len() == gone(
            branches,
            selected,
            siblings,
        ).len(),
        forall|handle: u64| #[trigger]
            released_handles(branches, selected, siblings).contains(handle) <==> exists|id: Uuid|
                #[trigger] gone(branches, selected, siblings).contains(id) && branches[id].handle
                    == handle,
    decreases siblings.len(),
{
    let all = gone(branches, selected, siblings);
    let handles = released_handles(branches, selected, siblings);
    if siblings.len() == 0 {
        assert(all =~= Set::empty());
    } else {
        let earlier = siblings.drop_last();
        let last = siblings.last();
        let before = gone(branches, selected, earlier);
        let old_handles = released_handles(branches, selected, earlier);
        law_selection_releases_what_goes(branches, selected, earlier);
        assert forall|id: Uuid| #[trigger] siblings.contains(id) <==> earlier.contains(id) || id
            == last by {
            assert(siblings =~= earlier.push(last));
            if earlier.contains(id) {
                let i = earlier.index_of(id);
                assert(siblings[i] == id);
            }
            assert(siblings[siblings.len() - 1] == last);
        }
        if last != selected && branches.contains_key(last) && !earlier.contains(last) {
            assert(all =~= before.insert(last));
            assert forall|handle: u64| #[trigger] handles.contains(handle) <==> exists|id: Uuid|
                #[trigger] all.contains(id) && branches[id].handle == handle by {
                let last_handle = branches[last].handle;
                assert(handles =~= old_handles.push(last_handle));
                if handles.contains(handle) {
                    let i = handles.index_of(handle);
                    if i < old_handles.len() {
                        assert(old_handles[i] == handle);
                        assert(old_handles.contains(handle));
                        let id = choose|id: Uuid| #[trigger]
                            before.contains(id) && branches[id].handle == handle;
                        assert(all.contains(id));
                    } else {
                        assert(all.contains(last));
                    }
                }
                if exists|id: Uuid| #[trigger] all.contains(id) && branches[id].handle == handle {
                    let id = choose|id: Uuid| #[trigger]
                        all.contains(id) && branches[id].handle == handle;
                    if id == last {
                        assert(handles[old_handles.len() as int] == handle);
                    } else {
                        assert(before.contains(id));
                        assert(old_handles.contains(handle));
                        let i = old_handles.index_of(handle);
                        assert(handles[i] == handle);
                    }
                }
            }
        } else {
            assert(all =~= before);
        }
    }
}

/// The recipe of a branch as it stands gives back the tokens of the branch.
pub proof fn law_snapshot_restores_tokens(recipe: RecipeView, id: Uuid, tokens: Seq<u32>)
    requires
        recipe.root_prompt_tokens.is_prefix_of(tokens),
    ensures
        recipe.with_delta(id, tokens.skip(recipe.root_prompt_tokens.len() as int)).full_tokens(id)
            == tokens,
{
    let n = recipe.root_prompt_tokens.len() as int;
    assert(recipe.root_prompt_tokens =~= tokens.subrange(0, n));
    assert(recipe.root_prompt_tokens + tokens.skip(n) =~= tokens);
}

/// A delta follows the root prompt on its own branch and on no other.
pub proof fn law_delta_is_of_its_branch(
    recipe: RecipeView,
    id: Uuid,
    delta: Seq<u32>,
    other: Uuid,
)
    ensures
        recipe.with_delta(id, delta).full_tokens(id) == recipe.root_prompt_tokens + delta,
        other != id ==> recipe.with_delta(id, delta).full_tokens(other) == recipe.full_tokens(
            other,
        ),
{
}

/// Whether the digest of a branch is that of its identifier and its tokens under a digest function.
pub open spec fn digested_by(branch: BranchView, hash: spec_fn(Seq<u8>) -> Digest32) -> bool {
    branch.logical_state_digest == hash(state_digest_input(branch.branch_id, branch.tokens))
}

/// A context that becomes active is digested by the function that its digest was taken with.
pub proof fn law_new_context_is_digested(
    pending: PendingView,
    hash: spec_fn(Seq<u8>) -> Digest32,
    domain_digest: Digest32,
)
    ensures
        digested_by(
            pending.branch(
                hash(state_digest_input(pending.branch_id, pending.tokens)),
                domain_digest,
            ),
            hash,
        ),
{
}

/// A turn that goes on with a digest asks for that of the tokens that its branch is to have.
pub proof fn law_turn_is_digested_as_it_ends(
    service: ServiceView,
    task: InferTask,
    target: BranchTarget,
    generated: Seq<u32>,
    bytes: Seq<u8>,
    session: SessionView,
)
    requires
        service.wf(),
        service.next_call(task, target, generated) == StepView::Call(
            CallView::Sha256 { bytes },
            session,
        ),
    ensures
        session.phase matches PhaseView::Digesting { target: t, generated: g, tokens } && t
            == target && g == generated && bytes == state_digest_input(target.branch_id, tokens),
{
}

/// A branch on which a turn is completed is digested by the function that the reply was taken with,
/// whatever other requests have done to the branch since the digest was asked for.
pub proof fn law_moved_branch_is_digested(
    service: ServiceView,
    session: SessionView,
    target: BranchTarget,
    generated: Seq<u32>,
    tokens: Seq<u32>,
    hash: spec_fn(Seq<u8>) -> Digest32,
)
    requires
        service.wf(),
        session.phase == (PhaseView::Digesting { target, generated, tokens }),
    ensures
        ({
            let reply = ReplyView::Digested(hash(state_digest_input(target.branch_id, tokens)));
            service.infer_next(session, reply) matches StepView::Done(Ok(_)) ==> digested_by(
                service.infer_effect(session, reply).branches[target.branch_id],
                hash,
            )
        }),
{
}

/// A branch that is rebuilt from the recipe of it as it stood has the tokens and the digest that it
/// had, whatever the digest function and on whatever service.
pub proof fn law_reconstruction_restores_the_digest(
    branch: BranchView,
    recipe: RecipeView,
    pending: PendingView,
    hash: spec_fn(Seq<u8>) -> Digest32,
    domain_digest: Digest32,
)
    requires
        digested_by(branch, hash),
        recipe.root_prompt_tokens.is_prefix_of(branch.tokens),
        pending.branch_id == branch.branch_id,
        pending.tokens == snapshot(branch, recipe).full_tokens(branch.branch_id),
    ensures
        ({
            let rebuilt = pending.branch(
                hash(state_digest_input(pending.branch_id, pending.tokens)),
                domain_digest,
            );
            &&& rebuilt.logical_state_digest == branch.logical_state_digest
            &&& rebuilt.tokens == branch.tokens
            &&& rebuilt.branch_id == branch.branch_id
        }),
{
    law_snapshot_restores_tokens(recipe, branch.branch_id, branch.tokens);
}

/// Whether the digests of a service's model were taken with a digest function and with a way to
/// digest configurations.
pub open spec fn identified_by(
    service: ServiceView,
    hash: spec_fn(Seq<u8>) -> Digest32,
    canonical: spec_fn(ModelConfig) -> Option<Digest32>,
) -> bool {
    service.digests == ModelDigests {
        weights: hash(service.config.weights_input()),
        tokenizer: hash(service.config.tokenizer_input()),
        config: canonical(service.config),
    }
}

/// Services over the same model, digested in the same way, hand out the same fingerprints.
pub proof fn law_fingerprints_follow_the_model(
    a: ServiceView,
    b: ServiceView,
    hash: spec_fn(Seq<u8>) -> Digest32,
    canonical: spec_fn(ModelConfig) -> Option<Digest32>,
)
    requires
        a.config == b.config,
        identified_by(a, hash, canonical),
        identified_by(b, hash, canonical),
    ensures
        a.model_fingerprint() == b.model_fingerprint(),
        a.tokenizer_fingerprint() == b.tokenizer_fingerprint(),
{
}

/// What a call of the store is replied to: `file` is what reading a file gives, and `canonical` how
/// recipes are digested.
pub open spec fn store_reply(
    call: StoreCallView,
    file: RecipeFileView,
    canonical: spec_fn(RecipeView) -> Option<Digest32>,
) -> StoreReplyView {
    match call {
        StoreCallView::ReadFile { .. } => StoreReplyView::Read(file),
        StoreCallView::DigestRecipe { recipe } => StoreReplyView::Digested(canonical(recipe)),
    }
}

/// Where a store stands, and the resolving of a reference with it, after at most `calls` calls.
pub open spec fn resolve_run(
    store: StoreView,
    step: ResolveStepView,
    file: RecipeFileView,
    canonical: spec_fn(RecipeView) -> Option<Digest32>,
    calls: nat,
) -> (StoreView, ResolveStepView)
    decreases calls,
{
    match step {
        ResolveStepView::Call(call, session) if calls > 0 => {
            let reply = store_reply(call, file, canonical);
            resolve_run(
                store.resolve_effect(reply),
                resolve_next(session, reply),
                file,
                canonical,
                (calls - 1) as nat,
            )
        },
        _ => (store, step),
    }
}

/// What a reference to a recipe is resolved to: `file` is what reading the file of the recipe
/// gives, where the store asks for it, and `canonical` how recipes are digested.
pub open spec fn resolution(
    store: StoreView,
    recipe_ref: ContextRecipeRef,
    file: RecipeFileView,
    canonical: spec_fn(RecipeView) -> Option<Digest32>,
) -> Result<RecipeView, RecipeErrorView> {
    resolve_run(store, store.resolve_start(recipe_ref), file, canonical, 2).1->Done_0
}

/// A reference is resolved after at most two calls, each of which can be replied to.
pub proof fn law_reference_is_resolved(
    store: StoreView,
    recipe_ref: ContextRecipeRef,
    file: RecipeFileView,
    canonical: spec_fn(RecipeView) -> Option<Digest32>,
)
    ensures
        resolve_run(store, store.resolve_start(recipe_ref), file, canonical, 2).1
            == ResolveStepView::Done(resolution(store, recipe_ref, file, canonical)),
        store.resolve_start(recipe_ref) matches ResolveStepView::Call(call, session) ==> {
            let reply = store_reply(call, file, canonical);
            &&& resolve_accepts(session, reply)
            &&& resolve_next(session, reply) matches ResolveStepView::Call(next, later)
                ==> resolve_accepts(later, store_reply(next, file, canonical))
        },
{
    reveal_with_fuel(resolve_run, 3);
}

/// Only a recipe that was digested, and whose digest is the one that the reference names, is ever
/// handed out; and what is digested is the recipe that is then handed out.
pub proof fn law_only_verified_recipes_are_handed_out(
    store: StoreView,
    recipe_ref: ContextRecipeRef,
    session: ResolveSessionView,
    reply: StoreReplyView,
)
    requires
        resolve_accepts(session, reply),
    ensures
        !(store.resolve_start(recipe_ref) matches ResolveStepView::Done(Ok(_))),
        store.resolve_start(recipe_ref) matches ResolveStepView::Call(call, later) ==> (call
            matches StoreCallView::DigestRecipe { recipe } ==> later.recipe == Some(recipe)),
        resolve_next(session, reply) matches ResolveStepView::Call(call, later) ==> (call
            matches StoreCallView::DigestRecipe { recipe } && later.recipe == Some(recipe)),
        resolve_next(session, reply) matches ResolveStepView::Done(Ok(recipe)) ==> session.recipe
            == Some(recipe) && (reply matches StoreReplyView::Digested(canonical) && digest_or_zero(
            canonical,
        ) == session.recipe_ref.recipe_digest),
{
}

/// A recipe that was inserted is what its reference is resolved to, whatever the directory holds.
pub proof fn law_inserted_recipe_is_returned(
    store: StoreView,
    recipe: RecipeView,
    file: RecipeFileView,
    canonical: spec_fn(RecipeView) -> Option<Digest32>,
)
    ensures
        resolution(
            store.with_recipe(recipe),
            recipe.reference(digest_or_zero(canonical(recipe))),
            file,
            canonical,
        ) == Ok::<RecipeView, RecipeErrorView>(recipe),
{
    reveal_with_fuel(resolve_run, 3);
}

/// What a reference is resolved to has the digest that the reference names: a recipe that was
/// altered is refused.
pub proof fn law_resolved_recipe_has_the_digest(
    store: StoreView,
    recipe_ref: ContextRecipeRef,
    file: RecipeFileView,
    canonical: spec_fn(RecipeView) -> Option<Digest32>,
)
    ensures
        resolution(store, recipe_ref, file, canonical) matches Ok(recipe) ==> digest_or_zero(
            canonical(recipe),
        ) == recipe_ref.recipe_digest,
{
    reveal_with_fuel(resolve_run, 3);
}

/// Inserting a recipe changes nothing for the references to recipes under other identifiers.
pub proof fn law_insert_leaves_other_recipes(
    store: StoreView,
    recipe: RecipeView,
    recipe_ref: ContextRecipeRef,
    file: RecipeFileView,
    canonical: spec_fn(RecipeView) -> Option<Digest32>,
)
    requires
        recipe.recipe_id != recipe_ref.recipe_id,
    ensures
        resolution(store.with_recipe(recipe), recipe_ref, file, canonical) == resolution(
            store,
            recipe_ref,
            file,
            canonical,
        ),
{
    reveal_with_fuel(resolve_run, 3);
}

/// A recipe that was read from the directory is kept: its reference is resolved to it from then on.
pub proof fn law_read_recipe_is_kept(
    store: StoreView,
    recipe: RecipeView,
    file: RecipeFileView,
    canonical: spec_fn(RecipeView) -> Option<Digest32>,
)
    ensures
        resolution(
            store.resolve_effect(StoreReplyView::Read(RecipeFileView::Parsed(recipe))),
            recipe.reference(digest_or_zero(canonical(recipe))),
            file,
            canonical,
        ) == Ok::<RecipeView, RecipeErrorView>(recipe),
{
    reveal_with_fuel(resolve_run, 3);
}

/// One more file that holds a recipe puts it under its identifier; any other file changes nothing.
proof fn lemma_one_more_file(entries: Seq<EntryView>)
    requires
        entries.len() > 0,
    ensures
        loaded_recipes(recipes_in(entries)) == (if entries.last().holds_recipe() {
            loaded_recipes(recipes_in(entries.drop_last())).insert(
                entries.last().recipe().recipe_id,
                entries.last().recipe(),
            )
        } else {
            loaded_recipes(recipes_in(entries.drop_last()))
        }),
{
    if entries.last().holds_recipe() {
        let earlier = recipes_in(entries.drop_last());
        assert(recipes_in(entries).drop_last() =~= earlier);
        assert(recipes_in(entries).last() == entries.last().recipe());
    }
}

/// A store that is opened over a directory holds the recipe of every file whose name ends in `.json`
/// and that could be read and parsed, unless a later one has the same identifier.
pub proof fn law_opened_store_holds_what_was_read(entries: Seq<EntryView>, i: int)
    requires
        0 <= i < entries.len(),
        entries[i].holds_recipe(),
        forall|j: int|
            i < j < entries.len() && (#[trigger] entries[j]).holds_recipe()
                ==> entries[j].recipe().recipe_id != entries[i].recipe().recipe_id,
    ensures
        ({
            let held = loaded_recipes(recipes_in(entries));
            &&& held.contains_key(entries[i].recipe().recipe_id)
            &&& held[entries[i].recipe().recipe_id] == entries[i].recipe()
        }),
    decreases entries.len(),
{
    lemma_one_more_file(entries);
    if i < entries.len() - 1 {
        let earlier = entries.drop_last();
        assert(entries.last() == entries[entries.len() - 1]);
        assert(forall|j: int| 0 <= j < earlier.len() ==> earlier[j] == entries[j]);
        law_opened_store_holds_what_was_read(earlier, i);
    }
}

/// A store that is opened over a directory holds nothing but recipes of files whose names end in
/// `.json` and that could be read and parsed, each under the identifier that its file gives it.
pub proof fn law_opened_store_holds_nothing_else(entries: Seq<EntryView>, id: Uuid)
    requires
        loaded_recipes(recipes_in(entries)).contains_key(id),
    ensures
        exists|i: int|
            #![trigger entries[i]]
            0 <= i < entries.len() && entries[i].holds_recipe() && entries[i].recipe().recipe_id
                == id && entries[i].recipe() == loaded_recipes(recipes_in(entries))[id],
    decreases entries.len(),
{
    if entries.len() > 0 {
        lemma_one_more_file(entries);
        let last = entries.len() - 1;
        assert(entries.last() == entries[last]);
        if !(entries.last().holds_recipe() && entries.last().recipe().recipe_id == id) {
            let earlier = entries.drop_last();
            law_opened_store_holds_nothing_else(earlier, id);
            let i = choose|i: int|
                #![trigger earlier[i]]
                0 <= i < earlier.len() && earlier[i].holds_recipe() && earlier[i].recipe().recipe_id
                    == id && earlier[i].recipe() == loaded_recipes(recipes_in(earlier))[id];
            assert(entries[i] == earlier[i]);
        }
    }
}

/// It does not matter in which order the deltas of different branches are added: the recipe, and
/// with it its digest, is the same.
pub proof fn law_order_of_deltas_does_not_matter(
    recipe: RecipeView,
    a: Uuid,
    a_delta: Seq<u32>,
    b: Uuid,
    b_delta: Seq<u32>,
    canonical: spec_fn(RecipeView) -> Option<Digest32>,
)
    requires
        a != b,
    ensures
        ({
            let one = recipe.with_delta(a, a_delta).with_delta(b, b_delta);
            let other = recipe.with_delta(b, b_delta).with_delta(a, a_delta);
            &&& one == other
            &&& digest_or_zero(canonical(one)) == digest_or_zero(canonical(other))
        }),
{
    assert(recipe.with_delta(a, a_delta).with_delta(b, b_delta) =~= recipe.with_delta(
        b,
        b_delta,
    ).with_delta(a, a_delta));
}

/// How recipes are digested that are written as the documents that `document` gives, and these
/// digested by `hash`. A recipe without a document has no digest.
pub open spec fn digested_documents(
    document: spec_fn(RecipeView) -> Option<Seq<u8>>,
    hash: spec_fn(Seq<u8>) -> Digest32,
) -> spec_fn(RecipeView) -> Option<Digest32> {
    |recipe: RecipeView|
        match document(recipe) {
            Some(bytes) => Some(hash(bytes)),
            None => None,
        }
}

/// Whether different recipes are written as different documents.
pub open spec fn is_faithful(document: spec_fn(RecipeView) -> Option<Seq<u8>>) -> bool {
    forall|x: RecipeView, y: RecipeView|
        #![trigger document(x), document(y)]
        document(x) is Some && document(x) == document(y) ==> x == y
}

/// Whether two inputs show a collision of a digest function.
pub open spec fn is_collision(hash: spec_fn(Seq<u8>) -> Digest32, a: Seq<u8>, b: Seq<u8>) -> bool {
    a != b && hash(a) == hash(b)
}

/// The digest of a recipe is that of all of it. Recipes that differ in their identifier, in the root
/// prompt or in the delta of any branch, even in whether a branch has an empty delta or none, have
/// the same digest only by a collision of the digest function; and only a recipe that has no
/// document, or whose document is digested to it, has the zero digest.
pub proof fn law_recipe_digest_covers_the_recipe(
    x: RecipeView,
    y: RecipeView,
    id: Uuid,
    document: spec_fn(RecipeView) -> Option<Seq<u8>>,
    hash: spec_fn(Seq<u8>) -> Digest32,
)
    requires
        is_faithful(document),
        document(x) is Some,
        document(y) is Some,
    ensures
        ({
            let canonical = digested_documents(document, hash);
            let bare = RecipeView { branch_deltas: x.branch_deltas.remove(id), ..x };
            let empty = bare.with_delta(id, Seq::empty());
            &&& x == y ==> digest_or_zero(canonical(x)) == digest_or_zero(canonical(y))
            &&& (x.recipe_id != y.recipe_id || x.root_prompt_tokens != y.root_prompt_tokens
                || x.branch_deltas != y.branch_deltas) && digest_or_zero(canonical(x))
                == digest_or_zero(canonical(y)) ==> is_collision(
                hash,
                document(x)->0,
                document(y)->0,
            )
            &&& document(bare) is Some && document(empty) is Some && digest_or_zero(canonical(bare))
                == digest_or_zero(canonical(empty)) ==> is_collision(
                hash,
                document(bare)->0,
                document(empty)->0,
            )
            &&& digest_or_zero(canonical(x)) == zero_digest() ==> hash(document(x)->0)
                == zero_digest()
        }),
{
    let bare = RecipeView { branch_deltas: x.branch_deltas.remove(id), ..x };
    let empty = bare.with_delta(id, Seq::empty());
    assert(empty.branch_deltas.contains_key(id) && !bare.branch_deltas.contains_key(id));
}

/// What a reference is resolved to is the recipe that it was made of: an altered one is handed out
/// only by a collision of the digest function, or where it has no document and the recipe's is
/// digested to zero.
pub proof fn law_reference_is_resolved_to_its_recipe(
    store: StoreView,
    recipe: RecipeView,
    file: RecipeFileView,
    document: spec_fn(RecipeView) -> Option<Seq<u8>>,
    hash: spec_fn(Seq<u8>) -> Digest32,
)
    requires
        is_faithful(document),
        document(recipe) is Some,
    ensures
        ({
            let canonical = digested_documents(document, hash);
            let reference = recipe.reference(digest_or_zero(canonical(recipe)));
            resolution(store, reference, file, canonical) matches Ok(found) ==> {
                ||| found == recipe
                ||| document(found) is Some && is_collision(
                    hash,
                    document(found)->0,
                    document(recipe)->0,
                )
                ||| document(found) is None && hash(document(recipe)->0) == zero_digest()
            }
        }),
{
    let canonical = digested_documents(document, hash);
    let reference = recipe.reference(digest_or_zero(canonical(recipe)));
    reveal_with_fuel(resolve_run, 3);
    if let Ok(found) = resolution(store, reference, file, canonical) {
        if document(found) is Some && document(found) == document(recipe) {
            assert(found == recipe);
        }
    }
}

/// The reference to a lost branch is good for a branch that was just rebuilt, under whatever
/// identifier, once it names that branch and the run of the engine in which it was rebuilt: it is
/// ahead of the rebuilt branch, not behind it.
pub proof fn law_rebound_context_is_admitted(
    context: ContextRefView,
    service: ServiceView,
    pending: PendingView,
    state_digest: Digest32,
    domain_digest: Digest32,
)
    requires
        context.kv_format.dtype == "FP32"@,
        1 <= context.generation.0 < u64::MAX,
        pending.domain == IsolationDomain::Reconstruction,
    ensures
        ({
            let rebuilt = pending.branch(state_digest, domain_digest);
            let after = service.with_branch(pending.branch_id, rebuilt);
            let rebound = ContextRefView {
                branch_id: BranchId(pending.branch_id),
                binding: after.context_ref(rebuilt).binding,
                ..context
            };
            after.refusal(rebound) is None
        }),
{
}

/// Recovery after the engine was lost. The recipe of a branch as it stood, put into a store, is
/// what its reference is resolved to. A service in another run of the engine refuses the context
/// that the lost one handed out; once the branch is rebuilt there from the recipe, its context is
/// admitted and carries the digest and the count of tokens that the branch had.
pub proof fn law_recovery(
    lost: ServiceView,
    id: Uuid,
    recipe: RecipeView,
    store: StoreView,
    file: RecipeFileView,
    fresh: ServiceView,
    pending: PendingView,
    domain_digest: Digest32,
    hash: spec_fn(Seq<u8>) -> Digest32,
    canonical: spec_fn(RecipeView) -> Option<Digest32>,
)
    requires
        lost.wf(),
        lost.branches.contains_key(id),
        digested_by(lost.branches[id], hash),
        lost.branches[id].token_count == lost.branches[id].tokens.len(),
        recipe.root_prompt_tokens.is_prefix_of(lost.branches[id].tokens),
        fresh.epoch != lost.epoch,
        pending.branch_id == id,
        pending.tokens == snapshot(lost.branches[id], recipe).full_tokens(id),
    ensures
        ({
            let branch = lost.branches[id];
            let kept = snapshot(branch, recipe);
            let rebuilt = pending.branch(
                hash(state_digest_input(id, pending.tokens)),
                domain_digest,
            );
            let after = fresh.with_branch(id, rebuilt);
            let before_context = lost.context_ref(branch);
            let context = after.context_ref(rebuilt);
            &&& resolution(
                store.with_recipe(kept),
                kept.reference(digest_or_zero(canonical(kept))),
                file,
                canonical,
            ) == Ok::<RecipeView, RecipeErrorView>(kept)
            &&& fresh.refusal(before_context) == Some(ErrorView::StaleRuntimeEpoch)
            &&& after.refusal(context) is None
            &&& context.branch_id == before_context.branch_id
            &&& context.logical_state_digest == before_context.logical_state_digest
            &&& context.token_count == before_context.token_count
        }),
{
    law_snapshot_restores_tokens(recipe, id, lost.branches[id].tokens);
    law_inserted_recipe_is_returned(store, snapshot(lost.branches[id], recipe), file, canonical);
}

/// The recipe of a branch as it stands.
pub open spec fn snapshot(branch: BranchView, recipe: RecipeView) -> RecipeView {
    recipe.with_delta(
        branch.branch_id,
        branch.tokens.skip(recipe.root_prompt_tokens.len() as int),
    )
}

} // verus!
