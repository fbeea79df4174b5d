//! Serving a request for tokens: which requests are refused, what the engine is asked for the
//! others, and what becomes of the branch.
//!
//! `infer` starts a request and `resume_infer` takes it on with each reply, until it is done.

use vstd::prelude::*;

use crate::branch::{state_digest_input, BranchState, BranchView};
use crate::ids::Uuid;
use crate::protocol::{
    context_view, BranchHandle, ContextId, ContextRefView, Digest32, ErrorView, Generation,
    InferenceContextRef, InferenceError, InferenceRequest, InferenceResponse, RequestView,
    ResponseView,
};
use crate::rendering::{
    content_bytes, content_tokens, count_prompt, prompt_length_u32, push_message_tokens,
    render_tokens, rendered, without_bytes, START_TOKEN,
};
use crate::service::{ServiceView, SovereignInferenceService};
use crate::text::joined;

verus! {

/// Numbers the sequences that the engine generates outside any context.
#[derive(Debug)]
pub struct SequenceCounter {
    next: u64,
}

impl SequenceCounter {
    /// The number that comes next.
    pub closed spec fn upcoming(&self) -> u64 {
        self.next
    }

    /// A counter that starts at 100.
    pub fn new() -> (counter: SequenceCounter)
        ensures
            counter.upcoming() == 100,
    {
        SequenceCounter { next: 100 }
    }

    /// Hands out the next number. After the largest it starts again at zero.
    pub fn fetch_next(&mut self) -> (seq_id: u64)
        ensures
            seq_id == old(self).upcoming(),
            final(self).upcoming() == (if seq_id == u64::MAX {
                0
            } else {
                (seq_id + 1) as u64
            }),
    {
        let seq_id = self.next;
        self.next = self.next.wrapping_add(1);
        seq_id
    }
}

impl Default for SequenceCounter {
    fn default() -> (counter: SequenceCounter)
        ensures
            counter.upcoming() == 100,
    {
        SequenceCounter::new()
    }
}

/// What is asked of the engine, or of the digest function, on the way to an answer.
#[derive(Debug, PartialEq, Eq)]
pub enum EngineCall {
    /// Take tokens in at the end of a branch.
    AppendBranchTokens { handle: BranchHandle, tokens: Vec<u32> },
    /// Decode the next token of a branch.
    DecodeBranchStep { handle: BranchHandle },
    /// Generate tokens that follow a prompt, with no stop sequences.
    GenerateTokens { seq_id: u64, prompt_tokens: Vec<u32>, max_tokens: usize },
    /// Digest bytes.
    Sha256 { bytes: Vec<u8> },
}

pub enum CallView {
    AppendBranchTokens { handle: BranchHandle, tokens: Seq<u32> },
    DecodeBranchStep { handle: BranchHandle },
    GenerateTokens { seq_id: u64, prompt_tokens: Seq<u32>, max_tokens: usize },
    Sha256 { bytes: Seq<u8> },
}

impl View for EngineCall {
    type V = CallView;

    open spec fn view(&self) -> CallView {
        match *self {
            EngineCall::AppendBranchTokens { handle, tokens } => CallView::AppendBranchTokens {
                handle,
                tokens: tokens@,
            },
            EngineCall::DecodeBranchStep { handle } => CallView::DecodeBranchStep { handle },
            EngineCall::GenerateTokens { seq_id, prompt_tokens, max_tokens } => {
                CallView::GenerateTokens { seq_id, prompt_tokens: prompt_tokens@, max_tokens }
            },
            EngineCall::Sha256 { bytes } => CallView::Sha256 { bytes: bytes@ },
        }
    }
}

/// What came of an `EngineCall`, in the same order.
#[derive(Debug, PartialEq, Eq)]
pub enum EngineReply {
    Appended(Result<(), String>),
    Decoded(Result<u32, String>),
    Generated(Result<Vec<u32>, String>),
    Digested(Digest32),
}

pub enum ReplyView {
    Appended(Result<(), Seq<char>>),
    Decoded(Result<u32, Seq<char>>),
    Generated(Result<Seq<u32>, Seq<char>>),
    Digested(Digest32),
}

impl View for EngineReply {
    type V = ReplyView;

    open spec fn view(&self) -> ReplyView {
        match *self {
            EngineReply::Appended(Ok(())) => ReplyView::Appended(Ok(())),
            EngineReply::Appended(Err(e)) => ReplyView::Appended(Err(e@)),
            EngineReply::Decoded(Ok(token)) => ReplyView::Decoded(Ok(token)),
            EngineReply::Decoded(Err(e)) => ReplyView::Decoded(Err(e@)),
            EngineReply::Generated(Ok(tokens)) => ReplyView::Generated(Ok(tokens@)),
            EngineReply::Generated(Err(e)) => ReplyView::Generated(Err(e@)),
            EngineReply::Digested(digest) => ReplyView::Digested(digest),
        }
    }
}

/// The branch that a request is about: the names and the generation by which the request knows it,
/// and the run and the handle in which the engine held it when the request started.
#[derive(Clone, Copy, Debug, PartialEq, Eq, Structural)]
pub struct BranchTarget {
    pub branch_id: Uuid,
    pub context_id: ContextId,
    pub generation: Generation,
    pub epoch: u64,
    pub handle: u64,
}

/// Which reply a request waits for.
#[derive(Debug, PartialEq, Eq)]
enum InferPhase {
    /// The engine takes the tokens of the messages in.
    Appending { target: BranchTarget, delta: Vec<u32> },
    /// The engine decodes the token after `generated`.
    Decoding { target: BranchTarget, generated: Vec<u32> },
    /// The branch is digested with `generated` at its end, which makes it `tokens`.
    Digesting { target: BranchTarget, generated: Vec<u32>, tokens: Vec<u32> },
    /// The engine generates all tokens at once.
    Generating,
}

pub enum PhaseView {
    Appending { target: BranchTarget, delta: Seq<u32> },
    Decoding { target: BranchTarget, generated: Seq<u32> },
    Digesting { target: BranchTarget, generated: Seq<u32>, tokens: Seq<u32> },
    Generating,
}

impl View for InferPhase {
    type V = PhaseView;

    closed spec fn view(&self) -> PhaseView {
        match *self {
            InferPhase::Appending { target, delta } => PhaseView::Appending {
                target,
                delta: delta@,
            },
            InferPhase::Decoding { target, generated } => PhaseView::Decoding {
                target,
                generated: generated@,
            },
            InferPhase::Digesting { target, generated, tokens } => PhaseView::Digesting {
                target,
                generated: generated@,
                tokens: tokens@,
            },
            InferPhase::Generating => PhaseView::Generating,
        }
    }
}

/// What stays the same over a request: its identifier, how many bytes its messages count for, if 32
/// bits hold it, and how many tokens it asks for.
#[derive(Clone, Copy, Debug, PartialEq, Eq)]
pub struct InferTask {
    pub request_id: Uuid,
    pub prompt_tokens: Option<u32>,
    pub max_tokens: u32,
}

/// A request under way, as `infer` and `resume_infer` hand it out.
#[derive(Debug, PartialEq, Eq)]
pub struct InferSession {
    task: InferTask,
    phase: InferPhase,
}

pub struct SessionView {
    pub task: InferTask,
    pub phase: PhaseView,
}

impl View for InferSession {
    type V = SessionView;

    closed spec fn view(&self) -> SessionView {
        SessionView { task: self.task, phase: self.phase@ }
    }
}

/// How a request goes on: with a call whose reply it waits for, or not at all.
#[derive(Debug, PartialEq, Eq)]
pub enum InferStep {
    Call(EngineCall, InferSession),
    Done(Result<InferenceResponse, InferenceError>),
}

pub enum StepView {
    Call(CallView, SessionView),
    Done(Result<ResponseView, ErrorView>),
}

impl View for InferStep {
    type V = StepView;

    open spec fn view(&self) -> StepView {
        match *self {
            InferStep::Call(call, session) => StepView::Call(call@, session@),
            InferStep::Done(Ok(response)) => StepView::Done(Ok(response@)),
            InferStep::Done(Err(error)) => StepView::Done(Err(error@)),
        }
    }
}

/// The answer to a request for which `generated` was generated.
pub open spec fn response(
    task: InferTask,
    generated: Seq<u32>,
    context: Option<ContextRefView>,
) -> ResponseView {
    ResponseView {
        request_id: task.request_id,
        content: rendered(generated),
        finish_reason: "stop"@,
        prompt_tokens: task.prompt_tokens.unwrap(),
        completion_tokens: generated.len() as u32,
        context,
    }
}

/// A branch after a turn in which `generated` was generated for a request that knew it in
/// `generation`.
pub open spec fn advanced(
    branch: BranchView,
    generation: Generation,
    generated: Seq<u32>,
    digest: Digest32,
) -> BranchView {
    BranchView {
        generation: generation.succ(),
        token_count: (branch.tokens + generated).len() as u64,
        tokens: branch.tokens + generated,
        logical_state_digest: digest,
        rebuilt: false,
        ..branch
    }
}

/// What stays the same over a request.
pub open spec fn infer_task(request: RequestView) -> InferTask {
    InferTask {
        request_id: request.request_id,
        prompt_tokens: prompt_length_u32(request.contents),
        max_tokens: request.max_tokens,
    }
}

impl ServiceView {
    /// The branch that a context is about.
    pub open spec fn branch_target(self, context: ContextRefView) -> BranchTarget {
        BranchTarget {
            branch_id: context.branch_id.0,
            context_id: context.context_id,
            generation: context.generation,
            epoch: self.epoch,
            handle: self.branches[context.branch_id.0].handle,
        }
    }

    /// Whether the branch that a request started on is still active, and was not replaced.
    pub open spec fn has(self, target: BranchTarget) -> bool {
        &&& self.epoch == target.epoch
        &&& self.branches.contains_key(target.branch_id)
        &&& self.branches[target.branch_id].handle == target.handle
    }

    /// Why a request on this context is refused, if it is: it is bound to another run of the
    /// engine, its cache has another layout, its branch is not active, or is in another generation.
    /// A context that is ahead of its branch is admitted where the branch was rebuilt.
    pub open spec fn refusal(self, context: ContextRefView) -> Option<ErrorView> {
        if context.binding is Some && context.binding->0.runtime_epoch != self.epoch {
            Some(ErrorView::StaleRuntimeEpoch)
        } else if context.kv_format.dtype != "FP32"@ {
            Some(
                ErrorView::Internal(
                    "KV format mismatch: expected FP32, got "@ + context.kv_format.dtype,
                ),
            )
        } else if !self.branches.contains_key(context.branch_id.0) {
            Some(ErrorView::ContextNotFound(context.context_id))
        } else if !self.branches[context.branch_id.0].admits(context.generation) {
            Some(
                ErrorView::StaleGeneration {
                    expected: self.branches[context.branch_id.0].generation,
                    actual: context.generation,
                },
            )
        } else {
            None
        }
    }

    /// Whether a request is not refused.
    pub open spec fn admits(self, request: RequestView) -> bool {
        request.context matches Some(context) ==> self.refusal(context) is None
    }

    /// The number of tokens that bytes are spread over.
    pub open spec fn vocab(self) -> u32 {
        self.config.vocab_size as u32
    }

    /// Whether a request can be started: its bytes, if it comes to that, can be turned into tokens.
    pub open spec fn tokenizes(self, request: RequestView) -> bool {
        self.admits(request) ==> self.vocab() != 0 || content_bytes(request.contents).len() == 0
    }

    /// The call with which a turn goes on once `generated` was generated: for another token, or,
    /// when there are enough of them, for the digest of the branch with them at its end. A turn on a
    /// branch that is gone, or that another turn has moved on, ends.
    pub open spec fn next_call(
        self,
        task: InferTask,
        target: BranchTarget,
        generated: Seq<u32>,
    ) -> StepView {
        if !self.has(target) {
            StepView::Done(Err(ErrorView::ContextNotFound(target.context_id)))
        } else {
            let branch = self.branches[target.branch_id];
            if !branch.admits(target.generation) {
                StepView::Done(
                    Err(
                        ErrorView::StaleGeneration {
                            expected: branch.generation,
                            actual: target.generation,
                        },
                    ),
                )
            } else if generated.len() < task.max_tokens {
                StepView::Call(
                    CallView::DecodeBranchStep { handle: BranchHandle(branch.handle) },
                    SessionView { task, phase: PhaseView::Decoding { target, generated } },
                )
            } else {
                StepView::Call(
                    CallView::Sha256 {
                        bytes: state_digest_input(branch.branch_id, branch.tokens + generated),
                    },
                    SessionView {
                        task,
                        phase: PhaseView::Digesting {
                            target,
                            generated,
                            tokens: branch.tokens + generated,
                        },
                    },
                )
            }
        }
    }

    /// Whether the digest of `tokens` completes a turn in which `generated` was generated: the
    /// branch is there, in the generation that the request knows, and still becomes `tokens`.
    pub open spec fn completes(
        self,
        target: BranchTarget,
        generated: Seq<u32>,
        tokens: Seq<u32>,
    ) -> bool {
        &&& self.has(target)
        &&& self.branches[target.branch_id].admits(target.generation)
        &&& self.branches[target.branch_id].tokens + generated == tokens
    }

    /// How a request starts.
    pub open spec fn infer_start(self, request: RequestView, seq_id: u64) -> StepView {
        let delta = content_tokens(request.contents, self.vocab());
        match request.context {
            None => StepView::Call(
                CallView::GenerateTokens {
                    seq_id,
                    prompt_tokens: seq![START_TOKEN] + delta,
                    max_tokens: request.max_tokens as usize,
                },
                SessionView { task: infer_task(request), phase: PhaseView::Generating },
            ),
            Some(context) => match self.refusal(context) {
                Some(error) => StepView::Done(Err(error)),
                None => {
                    let task = infer_task(request);
                    let target = self.branch_target(context);
                    if delta.len() > 0 {
                        StepView::Call(
                            CallView::AppendBranchTokens {
                                handle: BranchHandle(
                                    self.branches[context.branch_id.0].handle,
                                ),
                                tokens: delta,
                            },
                            SessionView { task, phase: PhaseView::Appending { target, delta } },
                        )
                    } else {
                        self.next_call(task, target, Seq::empty())
                    }
                },
            },
        }
    }

    /// Whether a request can go on with a reply: it is one to the call that the request waits for,
    /// and, where it completes an answer, the numbers of the answer can be had.
    pub open spec fn accepts(self, session: SessionView, reply: ReplyView) -> bool {
        match (session.phase, reply) {
            (PhaseView::Appending { .. }, ReplyView::Appended(_)) => true,
            (PhaseView::Decoding { .. }, ReplyView::Decoded(_)) => true,
            (PhaseView::Generating, ReplyView::Generated(Err(_))) => true,
            (PhaseView::Generating, ReplyView::Generated(Ok(_))) => {
                session.task.prompt_tokens is Some
            },
            (
                PhaseView::Digesting { target, generated, tokens },
                ReplyView::Digested(_),
            ) => {
                self.completes(target, generated, tokens) ==> {
                    &&& session.task.prompt_tokens is Some
                    &&& target.generation.0 < u64::MAX
                }
            },
            _ => false,
        }
    }

    /// The service after a reply.
    pub open spec fn infer_effect(self, session: SessionView, reply: ReplyView) -> ServiceView {
        match (session.phase, reply) {
            (PhaseView::Appending { target, delta }, ReplyView::Appended(Ok(_))) => {
                let branch = self.branches[target.branch_id];
                if self.has(target) {
                    self.with_branch(
                        target.branch_id,
                        BranchView { tokens: branch.tokens + delta, ..branch },
                    )
                } else {
                    self
                }
            },
            (
                PhaseView::Digesting { target, generated, tokens },
                ReplyView::Digested(digest),
            ) => {
                let branch = self.branches[target.branch_id];
                if self.completes(target, generated, tokens) {
                    self.with_branch(
                        target.branch_id,
                        advanced(branch, target.generation, generated, digest),
                    )
                } else {
                    self
                }
            },
            _ => self,
        }
    }

    /// How a request goes on after a reply.
    pub open spec fn infer_next(self, session: SessionView, reply: ReplyView) -> StepView {
        let task = session.task;
        let after = self.infer_effect(session, reply);
        match (session.phase, reply) {
            (PhaseView::Appending { .. }, ReplyView::Appended(Err(e))) => StepView::Done(
                Err(ErrorView::Internal("Failed to append branch tokens: "@ + e)),
            ),
            (PhaseView::Appending { target, .. }, _) => after.next_call(task, target, Seq::empty()),
            (PhaseView::Decoding { .. }, ReplyView::Decoded(Err(e))) => StepView::Done(
                Err(ErrorView::Internal("Decode step failed: "@ + e)),
            ),
            (PhaseView::Decoding { target, generated }, ReplyView::Decoded(Ok(token))) => {
                after.next_call(task, target, generated.push(token))
            },
            (PhaseView::Generating, ReplyView::Generated(Err(e))) => StepView::Done(
                Err(ErrorView::Internal("Generation failed: "@ + e)),
            ),
            (PhaseView::Generating, ReplyView::Generated(Ok(tokens))) => StepView::Done(
                Ok(response(task, tokens, None)),
            ),
            (PhaseView::Digesting { target, generated, tokens }, _) => {
                if self.completes(target, generated, tokens) {
                    StepView::Done(
                        Ok(
                            response(
                                task,
                                generated,
                                Some(after.context_ref(after.branches[target.branch_id])),
                            ),
                        ),
                    )
                } else {
                    self.next_call(task, target, generated)
                }
            },
            _ => arbitrary(),
        }
    }
}

/// Whether two vectors hold the same tokens.
fn same_tokens(a: &Vec<u32>, b: &Vec<u32>) -> (r: bool)
    ensures
        r == (a@ == b@),
{
    if a.len() != b.len() {
        return false;
    }
    let mut i: usize = 0;
    while i < a.len()
        invariant
            i <= a.len(),
            a@.len() == b@.len(),
            forall|j: int| 0 <= j < i ==> a@[j] == b@[j],
        decreases a.len() - i,
    {
        if a[i] != b[i] {
            return false;
        }
        i = i + 1;
    }
    assert(a@ =~= b@);
    true
}

fn answer(
    task: InferTask,
    generated: &Vec<u32>,
    context: Option<InferenceContextRef>,
) -> (r: InferenceResponse)
    requires
        task.prompt_tokens is Some,
    ensures
        r@ == response(task, generated@, context_view(context)),
{
    InferenceResponse {
        request_id: task.request_id,
        content: render_tokens(generated),
        finish_reason: "stop".to_string(),
        prompt_tokens: task.prompt_tokens.unwrap(),
        completion_tokens: generated.len() as u32,
        context,
    }
}

impl SovereignInferenceService {
    /// Why a request on this context is refused, if it is.
    fn check_context(&self, context: &InferenceContextRef) -> (r: Option<InferenceError>)
        ensures
            r is Some <==> self@.refusal(context@) is Some,
            r matches Some(error) ==> error@ == self@.refusal(context@)->0,
    {
        if let Some(binding) = &context.binding {
            if binding.runtime_epoch != self.epoch {
                return Some(InferenceError::StaleRuntimeEpoch);
            }
        }
        if context.kv_format.dtype != "FP32".to_string() {
            return Some(
                InferenceError::Internal(
                    joined(
                        "KV format mismatch: expected FP32, got ",
                        context.kv_format.dtype.as_str(),
                    ),
                ),
            );
        }
        match self.active_branches.get(&context.branch_id.0) {
            None => Some(InferenceError::ContextNotFound(context.context_id)),
            Some(branch) => {
                if !branch.admits(context.generation) {
                    Some(
                        InferenceError::StaleGeneration {
                            expected: branch.generation,
                            actual: context.generation,
                        },
                    )
                } else {
                    None
                }
            },
        }
    }

    /// The branch that a request started on, if it is still active and was not replaced.
    fn find(&self, target: &BranchTarget) -> (r: Option<&BranchState>)
        ensures
            r is Some <==> self@.has(*target),
            r matches Some(branch) ==> branch@ == self@.branches[target.branch_id],
    {
        match self.active_branches.get(&target.branch_id) {
            Some(branch) => {
                if self.epoch == target.epoch && branch.handle == target.handle {
                    Some(branch)
                } else {
                    None
                }
            },
            None => None,
        }
    }

    /// The call with which a turn goes on.
    fn go_on(&self, task: InferTask, target: BranchTarget, generated: Vec<u32>) -> (step:
        InferStep)
        ensures
            step@ == self@.next_call(task, target, generated@),
    {
        match self.find(&target) {
            None => InferStep::Done(Err(InferenceError::ContextNotFound(target.context_id))),
            Some(branch) => {
                if !branch.admits(target.generation) {
                    InferStep::Done(
                        Err(
                            InferenceError::StaleGeneration {
                                expected: branch.generation,
                                actual: target.generation,
                            },
                        ),
                    )
                } else if generated.len() < task.max_tokens as usize {
                    InferStep::Call(
                        EngineCall::DecodeBranchStep { handle: BranchHandle(branch.handle) },
                        InferSession { task, phase: InferPhase::Decoding { target, generated } },
                    )
                } else {
                    let mut tokens = branch.tokens.clone();
                    tokens.extend_from_slice(generated.as_slice());
                    assert(tokens@ =~= branch.tokens@ + generated@);
                    let bytes = BranchState::compute_digest(&branch.branch_id, tokens.as_slice());
                    InferStep::Call(
                        EngineCall::Sha256 { bytes },
                        InferSession {
                            task,
                            phase: InferPhase::Digesting { target, generated, tokens },
                        },
                    )
                }
            },
        }
    }

    /// Whether the digest of `tokens` completes a turn in which `generated` was generated.
    fn turn_is_complete(
        &self,
        target: &BranchTarget,
        generated: &Vec<u32>,
        tokens: &Vec<u32>,
    ) -> (r: bool)
        ensures
            r == self@.completes(*target, generated@, tokens@),
    {
        match self.find(target) {
            None => false,
            Some(branch) => {
                let mut present = branch.tokens.clone();
                present.extend_from_slice(generated.as_slice());
                assert(present@ =~= branch.tokens@ + generated@);
                branch.admits(target.generation) && same_tokens(&present, tokens)
            },
        }
    }

    /// Whether `infer` can start a request.
    pub fn can_infer(&self, req: &InferenceRequest) -> (r: bool)
        ensures
            r == self@.tokenizes(req@),
    {
        if let Some(context) = &req.context {
            if self.check_context(context).is_some() {
                return true;
            }
        }
        self.config.vocab_size as u32 != 0 || without_bytes(&req.messages)
    }

    /// Starts a request for tokens. A request on a context is refused where the context is bound to
    /// another run of the engine, has another cache layout, is not active or has moved on. Else the
    /// tokens of its messages are taken in at the end of the branch and tokens are decoded there.
    /// A request without a context has its tokens generated apart from any branch.
    pub fn infer(&self, req: &InferenceRequest, counter: &mut SequenceCounter) -> (step: InferStep)
        requires
            self@.tokenizes(req@),
        ensures
            step@ == self@.infer_start(req@, old(counter).upcoming()),
            req@.context is Some ==> *final(counter) == *old(counter),
            req@.context is None ==> final(counter).upcoming() == (if old(counter).upcoming()
                == u64::MAX {
                0
            } else {
                (old(counter).upcoming() + 1) as u64
            }),
    {
        let vocab: u32 = self.config.vocab_size as u32;
        let task = InferTask {
            request_id: req.request_id,
            prompt_tokens: count_prompt(&req.messages),
            max_tokens: req.max_tokens,
        };
        match &req.context {
            Some(context) => {
                if let Some(error) = self.check_context(context) {
                    return InferStep::Done(Err(error));
                }
                let branch = match self.active_branches.get(&context.branch_id.0) {
                    None => {
                        return InferStep::Done(
                            Err(InferenceError::ContextNotFound(context.context_id)),
                        );
                    },
                    Some(branch) => branch,
                };
                let target = BranchTarget {
                    branch_id: context.branch_id.0,
                    context_id: context.context_id,
                    generation: context.generation,
                    epoch: self.epoch,
                    handle: branch.handle,
                };
                let mut delta: Vec<u32> = Vec::new();
                push_message_tokens(&mut delta, &req.messages, vocab);
                assert(delta@ =~= content_tokens(req@.contents, vocab));
                if delta.len() == 0 {
                    assert(Seq::<u32>::empty() =~= delta@);
                    return self.go_on(task, target, delta);
                }
                InferStep::Call(
                    EngineCall::AppendBranchTokens {
                        handle: BranchHandle(branch.handle),
                        tokens: delta.clone(),
                    },
                    InferSession { task, phase: InferPhase::Appending { target, delta } },
                )
            },
            None => {
                let mut prompt_tokens: Vec<u32> = Vec::new();
                prompt_tokens.push(START_TOKEN);
                push_message_tokens(&mut prompt_tokens, &req.messages, vocab);
                assert(prompt_tokens@ =~= seq![START_TOKEN] + content_tokens(req@.contents, vocab));
                let seq_id = counter.fetch_next();
                InferStep::Call(
                    EngineCall::GenerateTokens {
                        seq_id,
                        prompt_tokens,
                        max_tokens: req.max_tokens as usize,
                    },
                    InferSession { task, phase: InferPhase::Generating },
                )
            },
        }
    }

    /// Whether `resume_infer` can take a request on with a reply.
    pub fn can_resume(&self, session: &InferSession, reply: &EngineReply) -> (r: bool)
        ensures
            r == self@.accepts(session@, reply@),
    {
        match (&session.phase, reply) {
            (InferPhase::Appending { .. }, EngineReply::Appended(_)) => true,
            (InferPhase::Decoding { .. }, EngineReply::Decoded(_)) => true,
            (InferPhase::Generating, EngineReply::Generated(Err(_))) => true,
            (InferPhase::Generating, EngineReply::Generated(Ok(_))) => {
                session.task.prompt_tokens.is_some()
            },
            (InferPhase::Digesting { target, generated, tokens }, EngineReply::Digested(_)) => {
                !self.turn_is_complete(target, generated, tokens) || (
                session.task.prompt_tokens.is_some() && target.generation.0 < u64::MAX)
            },
            _ => false,
        }
    }

    /// Takes a request on with the reply that it waits for. Tokens that the engine has taken in
    /// stay on the branch even if it fails afterwards; when all tokens are decoded and the branch is
    /// digested with them, it moves on to the generation after the one that the request knows. Where
    /// the branch is gone or was replaced by then, the request ends in `ContextNotFound`; where
    /// another request has moved the branch on, in `StaleGeneration`; and where another one's tokens
    /// were taken in since it was digested, it is digested anew.
    pub fn resume_infer(&mut self, session: InferSession, reply: EngineReply) -> (step: InferStep)
        requires
            old(self)@.accepts(session@, reply@),
        ensures
            step@ == old(self)@.infer_next(session@, reply@),
            final(self)@ == old(self)@.infer_effect(session@, reply@),
            old(self)@.wf() ==> final(self)@.wf(),
    {
        let task = session.task;
        let ghost before = self@;
        match (session.phase, reply) {
            (InferPhase::Appending { target, delta }, EngineReply::Appended(result)) => {
                match result {
                    Err(e) => InferStep::Done(
                        Err(
                            InferenceError::Internal(
                                joined("Failed to append branch tokens: ", e.as_str()),
                            ),
                        ),
                    ),
                    Ok(()) => {
                        let id = target.branch_id;
                        if self.find(&target).is_some() {
                            if let Some(mut branch) = self.take_branch(id) {
                                branch.tokens.extend_from_slice(delta.as_slice());
                                assert(branch.tokens@ =~= before.branches[id].tokens + delta@);
                                self.put_branch(id, branch);
                                assert(self@ =~= before.with_branch(id, branch@));
                            }
                        }
                        let generated: Vec<u32> = Vec::new();
                        assert(generated@ =~= Seq::empty());
                        self.go_on(task, target, generated)
                    },
                }
            },
            (InferPhase::Decoding { target, generated }, EngineReply::Decoded(result)) => {
                match result {
                    Err(e) => InferStep::Done(
                        Err(InferenceError::Internal(joined("Decode step failed: ", e.as_str()))),
                    ),
                    Ok(token) => {
                        let mut more = generated;
                        more.push(token);
                        self.go_on(task, target, more)
                    },
                }
            },
            (InferPhase::Generating, EngineReply::Generated(result)) => {
                match result {
                    Err(e) => InferStep::Done(
                        Err(InferenceError::Internal(joined("Generation failed: ", e.as_str()))),
                    ),
                    Ok(tokens) => InferStep::Done(Ok(answer(task, &tokens, None))),
                }
            },
            (
                InferPhase::Digesting { target, generated, tokens },
                EngineReply::Digested(digest),
            ) => {
                if !self.turn_is_complete(&target, &generated, &tokens) {
                    return self.go_on(task, target, generated);
                }
                match self.take_branch(target.branch_id) {
                    None => InferStep::Done(
                        Err(InferenceError::ContextNotFound(target.context_id)),
                    ),
                    Some(mut branch) => {
                        branch.tokens.extend_from_slice(generated.as_slice());
                        assert(branch.tokens@ =~= before.branches[target.branch_id].tokens
                            + generated@);
                        branch.generation = target.generation.next();
                        branch.token_count = branch.tokens.len() as u64;
                        branch.logical_state_digest = digest;
                        branch.rebuilt = false;
                        let reference = branch.to_context_ref(self);
                        self.put_branch(target.branch_id, branch);
                        assert(self@ =~= before.with_branch(target.branch_id, branch@));
                        InferStep::Done(Ok(answer(task, &generated, Some(reference))))
                    },
                }
            },
            _ => vstd::pervasive::unreached(),
        }
    }
}

} // verus!
