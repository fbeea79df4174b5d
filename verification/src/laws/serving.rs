//! What a request for tokens does, in terms of what it asks for and what the engine replies.

use vstd::bytes::spec_u32_to_le_bytes;
use vstd::prelude::*;
use vstd::utf8::{encode_utf8, encode_utf8_decode_utf8};

use crate::branch::{state_digest_input, BranchView};
use crate::ids::{uuid_bytes, Uuid};
use crate::laws::{infer_run, infer_run_accepts, law_turn, turn_replies};
use crate::protocol::{
    BranchHandle, ContextRefView, Digest32, ErrorView, RequestView, ResponseView,
};
use crate::rendering::{
    content_bytes, content_tokens, prompt_length, prompt_length_u32, rendered,
};
use crate::service::infer::{
    infer_task, BranchTarget, CallView, InferTask, PhaseView, ReplyView, SessionView,
    StepView,
};
use crate::service::ServiceView;

verus! {

/// The bytes of texts are those of each of them in UTF-8, one after the other.
pub proof fn law_bytes_of_texts(contents: Seq<Seq<char>>, content: Seq<char>)
    ensures
        content_bytes(Seq::empty()) == Seq::<u8>::empty(),
        content_bytes(seq![content]) == encode_utf8(content),
        content_bytes(contents.push(content)) == content_bytes(contents) + encode_utf8(content),
{
    let one = seq![content];
    assert(one.drop_last() =~= Seq::empty());
    assert(content_bytes(one.drop_last()) =~= Seq::empty());
    assert(content_bytes(one) =~= encode_utf8(content));
    assert(contents.push(content).drop_last() =~= contents);
}

/// Each byte of a message becomes one token, in the order of the bytes: the one below the size of
/// the vocabulary that is congruent to the byte. In a vocabulary that has a token for every byte it
/// is the byte itself.
pub proof fn law_token_of_a_byte(contents: Seq<Seq<char>>, vocab: u32, i: int)
    requires
        vocab > 0,
        0 <= i < content_bytes(contents).len(),
    ensures
        content_tokens(contents, vocab).len() == content_bytes(contents).len(),
        content_tokens(contents, vocab)[i] < vocab,
        (content_bytes(contents)[i] as int - content_tokens(contents, vocab)[i] as int) % (
        vocab as int) == 0,
        content_bytes(contents)[i] < vocab ==> content_tokens(contents, vocab)[i]
            == content_bytes(contents)[i],
        vocab >= 256 ==> content_tokens(contents, vocab)[i] as int == content_bytes(
            contents,
        )[i] as int,
{
    let byte = content_bytes(contents)[i] as int;
    let v = vocab as int;
    assert(content_tokens(contents, vocab)[i] as int == byte % v);
    vstd::arithmetic::div_mod::lemma_fundamental_div_mod(byte, v);
    vstd::arithmetic::div_mod::lemma_mod_multiples_basic(byte / v, v);
    assert(byte - byte % v == (byte / v) * v) by (nonlinear_arith)
        requires
            byte == v * (byte / v) + byte % v,
    ;
    vstd::arithmetic::div_mod::lemma_mod_bound(byte, v);
    if byte < v {
        vstd::arithmetic::div_mod::lemma_small_mod(byte as nat, v as nat);
    }
}

/// Without messages, or with empty ones, there are no tokens; and the tokens of texts are those of
/// each of them, one after the other.
pub proof fn law_tokens_of_texts(contents: Seq<Seq<char>>, content: Seq<char>, vocab: u32)
    ensures
        content_tokens(Seq::empty(), vocab) == Seq::<u32>::empty(),
        content_tokens(contents, vocab).len() == content_bytes(contents).len(),
        content_tokens(contents.push(content), vocab) == content_tokens(contents, vocab)
            + content_tokens(seq![content], vocab),
{
    law_bytes_of_texts(contents, content);
    assert(content_tokens(Seq::empty(), vocab) =~= Seq::<u32>::empty());
    assert(content_tokens(contents.push(content), vocab) =~= content_tokens(contents, vocab)
        + content_tokens(seq![content], vocab));
}

/// Different messages give different tokens, where the vocabulary has a token for every byte.
pub proof fn law_different_messages_give_different_tokens(
    a: Seq<char>,
    b: Seq<char>,
    vocab: u32,
)
    requires
        vocab >= 256,
        content_tokens(seq![a], vocab) == content_tokens(seq![b], vocab),
    ensures
        a == b,
{
    law_bytes_of_texts(Seq::empty(), a);
    law_bytes_of_texts(Seq::empty(), b);
    let x = encode_utf8(a);
    let y = encode_utf8(b);
    assert(content_tokens(seq![a], vocab).len() == x.len());
    assert(content_tokens(seq![b], vocab).len() == y.len());
    assert forall|i: int| 0 <= i < x.len() implies x[i] == y[i] by {
        law_token_of_a_byte(seq![a], vocab, i);
        law_token_of_a_byte(seq![b], vocab, i);
    }
    assert(x =~= y);
    encode_utf8_decode_utf8(a);
    encode_utf8_decode_utf8(b);
}

/// A message counts for as many prompt tokens as it has bytes, and messages for the sum; a sum that
/// 32 bits do not hold is not given.
pub proof fn law_prompt_tokens(contents: Seq<Seq<char>>, content: Seq<char>)
    ensures
        prompt_length(Seq::empty()) == 0,
        prompt_length(contents.push(content)) == prompt_length(contents) + ((encode_utf8(
            content,
        ).len() as usize) as u32),
        encode_utf8(content).len() <= u32::MAX ==> prompt_length(contents.push(content))
            == prompt_length(contents) + encode_utf8(content).len(),
        prompt_length_u32(contents) is Some <==> prompt_length(contents) <= u32::MAX,
        prompt_length_u32(contents) matches Some(n) ==> n == prompt_length(contents),
{
    assert(contents.push(content).drop_last() =~= contents);
}

/// An answer writes a character of ASCII for each token: the one whose code is the remainder of the
/// token by 128.
pub proof fn law_text_of_tokens(tokens: Seq<u32>, i: int)
    requires
        0 <= i < tokens.len(),
    ensures
        rendered(tokens).len() == tokens.len(),
        rendered(tokens)[i] as int == tokens[i] as int % 128,
        (rendered(tokens)[i] as int) < 128,
{
}

/// The bytes that a branch is digested from are the sixteen of its identifier, then the four of each
/// token, the least significant first.
pub proof fn law_digested_bytes(id: Uuid, tokens: Seq<u32>, i: int)
    requires
        0 <= i < tokens.len(),
    ensures
        state_digest_input(id, tokens).len() == 16 + 4 * tokens.len(),
        state_digest_input(id, tokens).take(16) == uuid_bytes(id),
        state_digest_input(id, tokens).subrange(16 + 4 * i, 20 + 4 * i) == spec_u32_to_le_bytes(
            tokens[i],
        ),
        state_digest_input(id, Seq::empty()) == uuid_bytes(id),
{
    vstd::bytes::lemma_auto_spec_u32_to_from_le_bytes();
    let bytes = state_digest_input(id, tokens);
    assert(bytes.take(16) =~= uuid_bytes(id));
    let four = bytes.subrange(16 + 4 * i, 20 + 4 * i);
    assert forall|k: int| 0 <= k < 4 implies four[k] == spec_u32_to_le_bytes(tokens[i])[k] by {
        assert((4 * i + k) / 4 == i && (4 * i + k) % 4 == k);
    }
    assert(four =~= spec_u32_to_le_bytes(tokens[i]));
    assert(state_digest_input(id, Seq::empty()) =~= uuid_bytes(id));
}

/// A context is admitted if and only if it is bound to no other run of the engine, its cache is laid
/// out as the service's is, its branch is active, and it is in the generation of the branch or,
/// where the branch was rebuilt, ahead of it and not in the last one.
pub proof fn law_admission(service: ServiceView, context: ContextRefView)
    ensures
        service.refusal(context) is None <==> {
            &&& context.binding matches Some(binding) ==> binding.runtime_epoch == service.epoch
            &&& context.kv_format.dtype == "FP32"@
            &&& service.branches.contains_key(context.branch_id.0)
            &&& {
                let branch = service.branches[context.branch_id.0];
                context.generation.0 == branch.generation.0 || branch.rebuilt
                    && branch.generation.0 < context.generation.0 && context.generation.0
                    < u64::MAX
            }
        },
{
}

/// Why a context is refused: another run comes before another layout, that before a branch that is
/// not active, and that before another generation.
pub proof fn law_refusals(service: ServiceView, context: ContextRefView)
    ensures
        ({
            let other_run = context.binding is Some && context.binding->0.runtime_epoch
                != service.epoch;
            let other_layout = context.kv_format.dtype != "FP32"@;
            let active = service.branches.contains_key(context.branch_id.0);
            let refusal = service.refusal(context);
            &&& other_run <==> refusal == Some(ErrorView::StaleRuntimeEpoch)
            &&& !other_run && other_layout ==> refusal == Some(
                ErrorView::Internal(
                    "KV format mismatch: expected FP32, got "@ + context.kv_format.dtype,
                ),
            )
            &&& !other_run && !other_layout && !active <==> refusal == Some(
                ErrorView::ContextNotFound(context.context_id),
            )
            &&& !other_run && !other_layout && active && refusal is Some ==> refusal == Some(
                ErrorView::StaleGeneration {
                    expected: service.branches[context.branch_id.0].generation,
                    actual: context.generation,
                },
            )
        }),
{
}

/// A request that is refused is answered with the reason, and the engine is asked nothing.
pub proof fn law_refused_request(
    service: ServiceView,
    request: RequestView,
    context: ContextRefView,
    seq_id: u64,
)
    requires
        request.context == Some(context),
        service.refusal(context) is Some,
    ensures
        service.infer_start(request, seq_id) == StepView::Done(
            Err(service.refusal(context)->0),
        ),
        service.tokenizes(request),
{
}

/// A request can be started unless it is admitted and has a byte for which there is no token.
pub proof fn law_what_can_be_started(service: ServiceView, request: RequestView)
    ensures
        service.tokenizes(request) <==> {
            ||| request.context is Some && service.refusal(request.context->0) is Some
            ||| service.config.vocab_size as u32 != 0
            ||| content_bytes(request.contents).len() == 0
        },
{
}

/// What stays the same over a request is read from the request.
pub proof fn law_request_is_read(request: RequestView)
    ensures
        infer_task(request).request_id == request.request_id,
        infer_task(request).max_tokens == request.max_tokens,
        infer_task(request).prompt_tokens is Some <==> prompt_length(request.contents) <= u32::MAX,
        infer_task(request).prompt_tokens matches Some(n) ==> n == prompt_length(request.contents),
{
}

/// Whether a branch that a request started on is the one that stands under its identifier now.
pub open spec fn still_there(service: ServiceView, target: BranchTarget) -> bool {
    service.epoch == target.epoch && service.branches.contains_key(target.branch_id)
        && service.branches[target.branch_id].handle == target.handle
}

/// Whether the generation that a request knows is one in which its branch can be used.
pub open spec fn still_current(branch: BranchView, target: BranchTarget) -> bool {
    branch.generation.0 == target.generation.0 || branch.rebuilt && branch.generation.0
        < target.generation.0 && target.generation.0 < u64::MAX
}

/// Whether a request goes on as it should once `generated` was generated: it ends where its branch
/// is gone or was replaced, or where it has moved on; else the engine is asked for the next token of
/// that very branch, or, when there are as many as were asked for, the branch is digested with all
/// of them at its end.
pub open spec fn goes_on(
    service: ServiceView,
    task: InferTask,
    target: BranchTarget,
    generated: Seq<u32>,
    step: StepView,
) -> bool {
    let branch = service.branches[target.branch_id];
    &&& !still_there(service, target) ==> step == StepView::Done(
        Err(ErrorView::ContextNotFound(target.context_id)),
    )
    &&& still_there(service, target) && !still_current(branch, target) ==> step == StepView::Done(
        Err(
            ErrorView::StaleGeneration {
                expected: branch.generation,
                actual: target.generation,
            },
        ),
    )
    &&& still_there(service, target) && still_current(branch, target) ==> {
        &&& step matches StepView::Call(call, later) && later.task == task && if generated.len()
            < task.max_tokens {
            &&& call == CallView::DecodeBranchStep { handle: BranchHandle(target.handle) }
            &&& later.phase == PhaseView::Decoding { target, generated }
        } else {
            &&& call == CallView::Sha256 {
                bytes: state_digest_input(branch.branch_id, branch.tokens + generated),
            }
            &&& later.phase == PhaseView::Digesting {
                target,
                generated,
                tokens: branch.tokens + generated,
            }
        }
    }
}

/// How a request on a context that is admitted starts: the engine is asked to take the tokens of the
/// messages in at the end of the branch, under the branch's handle; without any, the request goes on
/// at once. It keeps by what it knows the branch.
pub proof fn law_request_on_a_context_starts(
    service: ServiceView,
    request: RequestView,
    context: ContextRefView,
    seq_id: u64,
)
    requires
        request.context == Some(context),
        service.refusal(context) is None,
    ensures
        ({
            let branch = service.branches[context.branch_id.0];
            let step = service.infer_start(request, seq_id);
            let target = BranchTarget {
                branch_id: context.branch_id.0,
                context_id: context.context_id,
                generation: context.generation,
                epoch: service.epoch,
                handle: branch.handle,
            };
            let tokens = content_tokens(request.contents, service.config.vocab_size as u32);
            &&& content_bytes(request.contents).len() > 0 ==> step == StepView::Call(
                CallView::AppendBranchTokens { handle: BranchHandle(branch.handle), tokens },
                SessionView {
                    task: infer_task(request),
                    phase: PhaseView::Appending { target, delta: tokens },
                },
            )
            &&& content_bytes(request.contents).len() == 0 ==> goes_on(
                service,
                infer_task(request),
                target,
                Seq::empty(),
                step,
            )
        }),
{
}

/// How a request without a context starts: the engine is asked to generate as many tokens as were
/// asked for, after a prompt of the start token 1 and the tokens of the messages, under the number
/// that the sequence was given.
pub proof fn law_request_without_a_context_starts(
    service: ServiceView,
    request: RequestView,
    seq_id: u64,
)
    requires
        request.context is None,
    ensures
        service.infer_start(request, seq_id) matches StepView::Call(
            CallView::GenerateTokens { seq_id: n, prompt_tokens, max_tokens },
            session,
        ) && {
            &&& n == seq_id
            &&& max_tokens == request.max_tokens
            &&& prompt_tokens.len() == 1 + content_bytes(request.contents).len()
            &&& prompt_tokens[0] == 1
            &&& prompt_tokens.skip(1) == content_tokens(
                request.contents,
                service.config.vocab_size as u32,
            )
            &&& session.task == infer_task(request)
            &&& session.phase is Generating
        },
{
    let tokens = content_tokens(request.contents, service.config.vocab_size as u32);
    assert((seq![1u32] + tokens).skip(1) =~= tokens);
}

/// What becomes of the engine's word on tokens that it was to take in: where it failed, the error is
/// handed on and nothing changes; else they stand at the end of the branch, of which nothing else
/// changes, nor of any other, and the request goes on.
pub proof fn law_tokens_are_taken_in(
    service: ServiceView,
    session: SessionView,
    target: BranchTarget,
    delta: Seq<u32>,
    result: Result<(), Seq<char>>,
)
    requires
        session.phase == (PhaseView::Appending { target, delta }),
    ensures
        ({
            let reply = ReplyView::Appended(result);
            let branch = service.branches[target.branch_id];
            let after = service.infer_effect(session, reply);
            let step = service.infer_next(session, reply);
            &&& service.accepts(session, reply)
            &&& result matches Err(e) ==> after == service && step == StepView::Done(
                Err(ErrorView::Internal("Failed to append branch tokens: "@ + e)),
            )
            &&& result is Ok && !still_there(service, target) ==> after == service
            &&& result is Ok && still_there(service, target) ==> after == (ServiceView {
                branches: service.branches.insert(
                    target.branch_id,
                    BranchView { tokens: branch.tokens + delta, ..branch },
                ),
                ..service
            })
            &&& result is Ok ==> goes_on(after, session.task, target, Seq::empty(), step)
        }),
{
}

/// What becomes of the engine's word on a token that it was to decode: where it failed, the error is
/// handed on; else the token follows those before it and the request goes on. Nothing changes yet.
pub proof fn law_token_is_decoded(
    service: ServiceView,
    session: SessionView,
    target: BranchTarget,
    generated: Seq<u32>,
    result: Result<u32, Seq<char>>,
)
    requires
        session.phase == (PhaseView::Decoding { target, generated }),
    ensures
        ({
            let reply = ReplyView::Decoded(result);
            let step = service.infer_next(session, reply);
            &&& service.accepts(session, reply)
            &&& service.infer_effect(session, reply) == service
            &&& result matches Err(e) ==> step == StepView::Done(
                Err(ErrorView::Internal("Decode step failed: "@ + e)),
            )
            &&& result matches Ok(token) ==> goes_on(
                service,
                session.task,
                target,
                generated.push(token),
                step,
            )
        }),
{
}

/// What becomes of the digest of a branch. Where the branch still stands as it was digested, the
/// turn is completed: the branch holds what was generated at its end, in the generation after the
/// one that the request knew, counts all its tokens, and has the digest; what the engine holds it
/// under, its names, its recipe, its domain and its lineage stay, and so does every other branch.
/// Else nothing changes, and the request goes on.
pub proof fn law_turn_is_completed(
    service: ServiceView,
    session: SessionView,
    target: BranchTarget,
    generated: Seq<u32>,
    tokens: Seq<u32>,
    digest: Digest32,
)
    requires
        session.phase == (PhaseView::Digesting { target, generated, tokens }),
    ensures
        ({
            let reply = ReplyView::Digested(digest);
            let branch = service.branches[target.branch_id];
            let complete = still_there(service, target) && still_current(branch, target)
                && branch.tokens + generated == tokens;
            let after = service.infer_effect(session, reply);
            let moved = after.branches[target.branch_id];
            let step = service.infer_next(session, reply);
            &&& service.accepts(session, reply) <==> (complete ==> session.task.prompt_tokens is Some
                && target.generation.0 < u64::MAX)
            &&& !complete ==> after == service && goes_on(
                service,
                session.task,
                target,
                generated,
                step,
            )
            &&& complete ==> {
                &&& after == ServiceView { branches: after.branches, ..service }
                &&& after.branches == service.branches.insert(target.branch_id, moved)
                &&& moved.tokens == branch.tokens + generated
                &&& moved.tokens.len() <= u64::MAX ==> moved.token_count == moved.tokens.len()
                &&& target.generation.0 < u64::MAX ==> moved.generation.0 == target.generation.0 + 1
                &&& moved.logical_state_digest == digest
                &&& !moved.rebuilt
                &&& moved.handle == branch.handle
                &&& moved.branch_id == branch.branch_id
                &&& moved.context_id == branch.context_id
                &&& moved.recipe_ref == branch.recipe_ref
                &&& moved.isolation == branch.isolation
                &&& moved.lineage == branch.lineage
                &&& step matches StepView::Done(Ok(answer)) && answers(
                    answer,
                    session.task,
                    generated,
                ) && answer.context == Some(after.context_ref(moved))
            }
        }),
{
}

/// Whether an answer is one to a request for which `generated` was generated: it names the request,
/// writes each token, and counts the bytes of the messages and the tokens.
pub open spec fn answers(answer: ResponseView, task: InferTask, generated: Seq<u32>) -> bool {
    &&& answer.request_id == task.request_id
    &&& answer.finish_reason == "stop"@
    &&& task.prompt_tokens == Some(answer.prompt_tokens) || task.prompt_tokens is None
    &&& generated.len() <= u32::MAX ==> answer.completion_tokens == generated.len()
    &&& answer.content.len() == generated.len()
    &&& forall|i: int|
        0 <= i < generated.len() ==> #[trigger] answer.content[i] as int == generated[i] as int
            % 128
}

/// What becomes of tokens that were generated apart from any branch: nothing changes, and they are
/// the answer, which comes without a context; an error of the engine is handed on.
pub proof fn law_tokens_are_generated(
    service: ServiceView,
    session: SessionView,
    result: Result<Seq<u32>, Seq<char>>,
)
    requires
        session.phase is Generating,
    ensures
        ({
            let reply = ReplyView::Generated(result);
            let step = service.infer_next(session, reply);
            &&& service.accepts(session, reply) <==> (result is Ok ==> session.task.prompt_tokens
                is Some)
            &&& service.infer_effect(session, reply) == service
            &&& result matches Err(e) ==> step == StepView::Done(
                Err(ErrorView::Internal("Generation failed: "@ + e)),
            )
            &&& result matches Ok(tokens) ==> (step matches StepView::Done(Ok(answer)) && answers(
                answer,
                session.task,
                tokens,
            ) && answer.context is None)
        }),
{
}

/// A reply to another call than the one that a request waits for is not taken.
pub proof fn law_other_replies_are_not_taken(
    service: ServiceView,
    session: SessionView,
    reply: ReplyView,
)
    requires
        service.accepts(session, reply),
    ensures
        session.phase is Appending <==> reply is Appended,
        session.phase is Decoding <==> reply is Decoded,
        session.phase is Digesting <==> reply is Digested,
        session.phase is Generating <==> reply is Generated,
{
}

/// A turn in which nothing fails, from its request to its answer. The branch then holds, after what
/// it held, a token for each byte of the messages, and then the tokens that were decoded; it is in
/// the generation after that of the request's context and has the digest that was replied. The
/// answer gives the tokens that were decoded and a reference to the branch as it then stands.
pub proof fn law_turn_from_request_to_answer(
    service: ServiceView,
    request: RequestView,
    context: ContextRefView,
    seq_id: u64,
    tokens: Seq<u32>,
    digest: Digest32,
)
    requires
        request.context == Some(context),
        service.refusal(context) is None,
        context.generation.0 < u64::MAX,
        prompt_length(request.contents) <= u32::MAX,
        tokens.len() == request.max_tokens,
        service.config.vocab_size as u32 > 0,
    ensures
        ({
            let id = context.branch_id.0;
            let vocab = service.config.vocab_size as u32;
            let branch = service.branches[id];
            let bytes = content_bytes(request.contents);
            let start = service.infer_start(request, seq_id);
            let replies = turn_replies(content_tokens(request.contents, vocab), tokens, digest);
            let (after, end) = infer_run(service, start, replies);
            let moved = after.branches[id];
            let n = branch.tokens.len() as int;
            &&& infer_run_accepts(service, start, replies)
            &&& after == ServiceView { branches: service.branches.insert(id, moved), ..service }
            &&& moved.tokens.len() == n + bytes.len() + tokens.len()
            &&& moved.tokens.take(n) == branch.tokens
            &&& forall|i: int|
                0 <= i < bytes.len() ==> #[trigger] moved.tokens[n + i] < vocab && (
                bytes[i] as int - moved.tokens[n + i] as int) % (vocab as int) == 0
            &&& moved.tokens.skip(n + bytes.len()) == tokens
            &&& moved.generation.0 == context.generation.0 + 1
            &&& moved.logical_state_digest == digest
            &&& moved.handle == branch.handle
            &&& moved.branch_id == branch.branch_id
            &&& moved.context_id == branch.context_id
            &&& moved.recipe_ref == branch.recipe_ref
            &&& moved.isolation == branch.isolation
            &&& moved.lineage == branch.lineage
            &&& end matches StepView::Done(Ok(answer)) && answer.request_id == request.request_id
                && answer.prompt_tokens == prompt_length(request.contents)
                && answer.completion_tokens == request.max_tokens && answer.content.len()
                == tokens.len() && answer.context == Some(after.context_ref(moved))
        }),
{
    let vocab = service.config.vocab_size as u32;
    let id = context.branch_id.0;
    let branch = service.branches[id];
    let delta = content_tokens(request.contents, vocab);
    let bytes = content_bytes(request.contents);
    let n = branch.tokens.len() as int;
    law_turn(service, request, context, seq_id, tokens, digest);
    let (after, end) = infer_run(
        service,
        service.infer_start(request, seq_id),
        turn_replies(delta, tokens, digest),
    );
    let moved = after.branches[id];
    assert(moved.tokens == branch.tokens + delta + tokens);
    assert(moved.tokens.take(n) =~= branch.tokens);
    assert(moved.tokens.skip(n + bytes.len()) =~= tokens);
    assert forall|i: int| 0 <= i < bytes.len() implies #[trigger] moved.tokens[n + i] < vocab && (
    bytes[i] as int - moved.tokens[n + i] as int) % (vocab as int) == 0 by {
        law_token_of_a_byte(request.contents, vocab, i);
        assert(moved.tokens[n + i] == delta[i]);
    }
}

} // verus!
