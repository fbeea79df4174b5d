//! Forking a branch: the child starts with all that its parent holds, and shares it on the engine.
//! A parent that is not active, and that a reference describes which no service has handed out, is
//! first taken in.
//!
//! `branch_context` starts a fork and `resume_branch_context` takes it on with each reply, until it
//! is done.

use vstd::prelude::*;

use crate::branch::{BranchState, BranchView};
use crate::ids::Uuid;
use crate::protocol::{
    BranchContextReceipt, BranchContextRequest, BranchId, CacheIsolationKey, ContextHandle,
    ContextId, ContextLineage, ContextRecipeRef, ContextRefView, Digest32, ErrorView,
    ForkReceiptView, Generation, InferenceError,
};
use crate::rendering::START_TOKEN;
use crate::service::{ServiceView, SovereignInferenceService, MAX_CONTEXT_TOKENS};
use crate::text::joined;

verus! {

broadcast use vstd::std_specs::hash::group_hash_axioms;

/// What is asked of the engine for a fork.
#[derive(Debug, PartialEq, Eq)]
pub enum ForkCall {
    /// Take in the tokens of a parent that is not active.
    CreateContext { tokens: Vec<u32> },
    /// Make a second context that holds what the one under `handle` holds.
    ForkContext { handle: ContextHandle },
    /// Tell how many pages the context under `handle` shares and has for itself.
    GetUsageReceipt { handle: ContextHandle },
}

pub enum ForkCallView {
    CreateContext { tokens: Seq<u32> },
    ForkContext { handle: ContextHandle },
    GetUsageReceipt { handle: ContextHandle },
}

impl View for ForkCall {
    type V = ForkCallView;

    open spec fn view(&self) -> ForkCallView {
        match *self {
            ForkCall::CreateContext { tokens } => ForkCallView::CreateContext { tokens: tokens@ },
            ForkCall::ForkContext { handle } => ForkCallView::ForkContext { handle },
            ForkCall::GetUsageReceipt { handle } => ForkCallView::GetUsageReceipt { handle },
        }
    }
}

/// The pages of a context: those that it shares with others and those that it has for itself.
#[derive(Clone, Copy, Debug, PartialEq, Eq, Structural)]
pub struct PageUsage {
    pub shared_pages: usize,
    pub private_pages: usize,
}

/// What came of a `ForkCall`, in the same order.
#[derive(Debug, PartialEq, Eq)]
pub enum ForkReply {
    Created(Result<ContextHandle, String>),
    Forked(Result<ContextHandle, String>),
    Measured(Result<PageUsage, String>),
}

pub enum ForkReplyView {
    Created(Result<ContextHandle, Seq<char>>),
    Forked(Result<ContextHandle, Seq<char>>),
    Measured(Result<PageUsage, Seq<char>>),
}

impl View for ForkReply {
    type V = ForkReplyView;

    open spec fn view(&self) -> ForkReplyView {
        match *self {
            ForkReply::Created(Ok(handle)) => ForkReplyView::Created(Ok(handle)),
            ForkReply::Created(Err(e)) => ForkReplyView::Created(Err(e@)),
            ForkReply::Forked(Ok(handle)) => ForkReplyView::Forked(Ok(handle)),
            ForkReply::Forked(Err(e)) => ForkReplyView::Forked(Err(e@)),
            ForkReply::Measured(Ok(usage)) => ForkReplyView::Measured(Ok(usage)),
            ForkReply::Measured(Err(e)) => ForkReplyView::Measured(Err(e@)),
        }
    }
}

/// What a fork reads of the reference to its parent. `bound` tells whether the reference is bound to
/// a run of an engine, as are all that a service hands out.
#[derive(Clone, Copy, Debug, PartialEq, Eq)]
pub struct ParentRef {
    pub context_id: ContextId,
    pub branch_id: BranchId,
    pub generation: Generation,
    pub token_count: u64,
    pub logical_state_digest: Digest32,
    pub lineage: ContextLineage,
    pub isolation: CacheIsolationKey,
    pub recovery: ContextRecipeRef,
    pub bound: bool,
}

/// What a fork reads of its request.
#[derive(Clone, Copy, Debug, PartialEq, Eq)]
pub struct ForkTask {
    pub operation_id: Uuid,
    pub parent: ParentRef,
    pub child_branch: BranchId,
    pub isolation: CacheIsolationKey,
}

impl ForkTask {
    /// Whether the engine is asked to take the parent in where it is not active. A reference that is
    /// bound was handed out for a branch that is gone; what is left are references to branches
    /// elsewhere, other than the child, with no more tokens than a context can have and a generation
    /// that another can follow.
    pub open spec fn adopts(self) -> bool {
        &&& !self.parent.bound
        &&& self.parent.branch_id != self.child_branch
        &&& self.parent.token_count <= MAX_CONTEXT_TOKENS
        &&& self.parent.generation.0 < u64::MAX
    }
}

pub open spec fn parent_ref(context: ContextRefView) -> ParentRef {
    ParentRef {
        context_id: context.context_id,
        branch_id: context.branch_id,
        generation: context.generation,
        token_count: context.token_count,
        logical_state_digest: context.logical_state_digest,
        lineage: context.lineage,
        isolation: context.isolation,
        recovery: context.recovery,
        bound: context.binding is Some,
    }
}

pub open spec fn fork_task(request: BranchContextRequest) -> ForkTask {
    ForkTask {
        operation_id: request.operation_id,
        parent: parent_ref(request.parent_context@),
        child_branch: request.child_branch_id,
        isolation: request.isolation,
    }
}

/// The tokens of a branch of which only their number is known. A reference counts the tokens of its
/// branch and does not hold them: the start token stands for each of them, so that the engine holds
/// as many tokens as the reference counts.
pub open spec fn stand_in_tokens(count: u64) -> Seq<u32> {
    Seq::new(count as nat, |i: int| START_TOKEN)
}

/// A parent that was not active, as its reference describes it, once the engine holds it under
/// `handle`.
pub open spec fn adopted(parent: ParentRef, handle: ContextHandle) -> BranchView {
    BranchView {
        handle: handle.0,
        branch_id: parent.branch_id.0,
        context_id: parent.context_id.0,
        generation: parent.generation,
        token_count: parent.token_count,
        tokens: stand_in_tokens(parent.token_count),
        logical_state_digest: parent.logical_state_digest,
        recipe_ref: parent.recovery,
        isolation: parent.isolation,
        lineage: parent.lineage,
        rebuilt: false,
    }
}

/// Which reply a fork waits for. `parent` is the parent as it was when its fork was asked for, and
/// `child` the handle under which the engine holds the child.
#[derive(Debug)]
enum ForkPhase {
    Adopting,
    Forking { parent: BranchState },
    Measuring { parent: BranchState, child: ContextHandle },
}

pub enum ForkPhaseView {
    Adopting,
    Forking { parent: BranchView },
    Measuring { parent: BranchView, child: ContextHandle },
}

impl View for ForkPhase {
    type V = ForkPhaseView;

    closed spec fn view(&self) -> ForkPhaseView {
        match *self {
            ForkPhase::Adopting => ForkPhaseView::Adopting,
            ForkPhase::Forking { parent } => ForkPhaseView::Forking { parent: parent@ },
            ForkPhase::Measuring { parent, child } => ForkPhaseView::Measuring {
                parent: parent@,
                child,
            },
        }
    }
}

/// A fork under way, as `branch_context` and `resume_branch_context` hand it out.
#[derive(Debug)]
pub struct ForkSession {
    task: ForkTask,
    phase: ForkPhase,
}

pub struct ForkSessionView {
    pub task: ForkTask,
    pub phase: ForkPhaseView,
}

impl View for ForkSession {
    type V = ForkSessionView;

    closed spec fn view(&self) -> ForkSessionView {
        ForkSessionView { task: self.task, phase: self.phase@ }
    }
}

/// How a fork goes on: with a call whose reply it waits for, or not at all.
#[derive(Debug)]
pub enum ForkStep {
    Call(ForkCall, ForkSession),
    Done(Result<BranchContextReceipt, InferenceError>),
}

pub enum ForkStepView {
    Call(ForkCallView, ForkSessionView),
    Done(Result<ForkReceiptView, ErrorView>),
}

impl View for ForkStep {
    type V = ForkStepView;

    open spec fn view(&self) -> ForkStepView {
        match *self {
            ForkStep::Call(call, session) => ForkStepView::Call(call@, session@),
            ForkStep::Done(Ok(receipt)) => ForkStepView::Done(Ok(receipt@)),
            ForkStep::Done(Err(error)) => ForkStepView::Done(Err(error@)),
        }
    }
}

/// The child of a branch, which the engine holds under `handle`: what the parent holds, in the
/// generation after the parent's, with the parent as its lineage.
pub open spec fn child_branch(
    task: ForkTask,
    parent: BranchView,
    handle: ContextHandle,
) -> BranchView {
    BranchView {
        handle: handle.0,
        branch_id: task.child_branch.0,
        context_id: parent.context_id,
        generation: parent.generation.succ(),
        token_count: parent.token_count,
        tokens: parent.tokens,
        logical_state_digest: parent.logical_state_digest,
        recipe_ref: parent.recipe_ref,
        isolation: task.isolation,
        lineage: ContextLineage {
            parent_context: Some(task.parent.context_id),
            parent_branch: Some(task.parent.branch_id),
            parent_digest: Some(parent.logical_state_digest),
            fork_token_index: Some(parent.token_count),
        },
        rebuilt: false,
    }
}

/// The step in which the engine is asked to fork `parent`.
pub open spec fn fork_of(task: ForkTask, parent: BranchView) -> ForkStepView {
    ForkStepView::Call(
        ForkCallView::ForkContext { handle: ContextHandle(parent.handle) },
        ForkSessionView { task, phase: ForkPhaseView::Forking { parent } },
    )
}

impl ServiceView {
    /// The service once the parent of a fork is active: as it is where the parent is, else with the
    /// parent as its reference describes it, under the handle that the engine gives it.
    pub open spec fn with_parent(self, task: ForkTask, handle: ContextHandle) -> ServiceView {
        if self.branches.contains_key(task.parent.branch_id.0) {
            self
        } else {
            self.with_branch(task.parent.branch_id.0, adopted(task.parent, handle))
        }
    }

    /// How a fork starts.
    pub open spec fn fork_start(self, task: ForkTask) -> ForkStepView {
        if self.branches.contains_key(task.parent.branch_id.0) {
            fork_of(task, self.branches[task.parent.branch_id.0])
        } else if !task.adopts() {
            ForkStepView::Done(Err(ErrorView::ContextNotFound(task.parent.context_id)))
        } else {
            ForkStepView::Call(
                ForkCallView::CreateContext { tokens: stand_in_tokens(task.parent.token_count) },
                ForkSessionView { task, phase: ForkPhaseView::Adopting },
            )
        }
    }

    /// The service after a reply: a parent that the engine has taken in is active, and when all
    /// went well the child is.
    pub open spec fn fork_effect(
        self,
        session: ForkSessionView,
        reply: ForkReplyView,
    ) -> ServiceView {
        let task = session.task;
        match (session.phase, reply) {
            (ForkPhaseView::Adopting, ForkReplyView::Created(Ok(handle))) => self.with_parent(
                task,
                handle,
            ),
            (ForkPhaseView::Measuring { parent, child }, ForkReplyView::Measured(Ok(_))) => {
                self.with_branch(task.child_branch.0, child_branch(task, parent, child))
            },
            _ => self,
        }
    }

    /// How a fork goes on after a reply.
    pub open spec fn fork_next(
        self,
        session: ForkSessionView,
        reply: ForkReplyView,
    ) -> ForkStepView {
        let task = session.task;
        match (session.phase, reply) {
            (ForkPhaseView::Adopting, ForkReplyView::Created(Err(e))) => ForkStepView::Done(
                Err(ErrorView::Internal("Fork context failed: "@ + e)),
            ),
            (ForkPhaseView::Adopting, ForkReplyView::Created(Ok(handle))) => fork_of(
                task,
                self.with_parent(task, handle).branches[task.parent.branch_id.0],
            ),
            (ForkPhaseView::Forking { .. }, ForkReplyView::Forked(Err(e))) => ForkStepView::Done(
                Err(ErrorView::Internal("Fork context failed: "@ + e)),
            ),
            (ForkPhaseView::Forking { parent }, ForkReplyView::Forked(Ok(child))) => {
                ForkStepView::Call(
                    ForkCallView::GetUsageReceipt { handle: child },
                    ForkSessionView { task, phase: ForkPhaseView::Measuring { parent, child } },
                )
            },
            (ForkPhaseView::Measuring { .. }, ForkReplyView::Measured(Err(e))) => {
                ForkStepView::Done(Err(ErrorView::Internal("Usage receipt failed: "@ + e)))
            },
            (ForkPhaseView::Measuring { parent, child }, ForkReplyView::Measured(Ok(usage))) => {
                ForkStepView::Done(
                    Ok(
                        ForkReceiptView {
                            operation_id: task.operation_id,
                            child_context: self.context_ref(child_branch(task, parent, child)),
                            shared_pages: usage.shared_pages as u32,
                            copied_pages: usage.private_pages as u32,
                            lease_expires_at_monotonic: 9999999999,
                        },
                    ),
                )
            },
            _ => arbitrary(),
        }
    }
}

/// Whether a fork can go on with a reply: it is one to the call that the fork waits for, and, where
/// it completes the fork, there is a generation after the parent's.
pub open spec fn fork_accepts(session: ForkSessionView, reply: ForkReplyView) -> bool {
    match (session.phase, reply) {
        (ForkPhaseView::Adopting, ForkReplyView::Created(Err(_))) => true,
        (ForkPhaseView::Adopting, ForkReplyView::Created(Ok(_))) => {
            session.task.parent.token_count <= MAX_CONTEXT_TOKENS
        },
        (ForkPhaseView::Forking { .. }, ForkReplyView::Forked(_)) => true,
        (ForkPhaseView::Measuring { .. }, ForkReplyView::Measured(Err(_))) => true,
        (ForkPhaseView::Measuring { parent, .. }, ForkReplyView::Measured(Ok(_))) => {
            parent.generation.0 < u64::MAX
        },
        _ => false,
    }
}

impl ForkSession {
    /// Whether `resume_branch_context` can take this fork on with a reply.
    pub fn can_resume(&self, reply: &ForkReply) -> (r: bool)
        ensures
            r == fork_accepts(self@, reply@),
    {
        match (&self.phase, reply) {
            (ForkPhase::Adopting, ForkReply::Created(Err(_))) => true,
            (ForkPhase::Adopting, ForkReply::Created(Ok(_))) => {
                self.task.parent.token_count <= MAX_CONTEXT_TOKENS
            },
            (ForkPhase::Forking { .. }, ForkReply::Forked(_)) => true,
            (ForkPhase::Measuring { .. }, ForkReply::Measured(Err(_))) => true,
            (ForkPhase::Measuring { parent, .. }, ForkReply::Measured(Ok(_))) => {
                parent.generation.0 < u64::MAX
            },
            _ => false,
        }
    }
}

/// The tokens that stand for `count` tokens that are not known.
fn make_stand_in_tokens(count: u64) -> (tokens: Vec<u32>)
    requires
        count <= MAX_CONTEXT_TOKENS,
    ensures
        tokens@ == stand_in_tokens(count),
{
    let mut tokens: Vec<u32> = Vec::new();
    let mut i: u64 = 0;
    while i < count
        invariant
            i <= count,
            tokens@ == stand_in_tokens(i),
        decreases count - i,
    {
        tokens.push(START_TOKEN);
        i = i + 1;
        assert(tokens@ =~= stand_in_tokens(i));
    }
    tokens
}

fn ask_to_fork(task: ForkTask, parent: BranchState) -> (step: ForkStep)
    ensures
        step@ == fork_of(task, parent@),
{
    ForkStep::Call(
        ForkCall::ForkContext { handle: ContextHandle(parent.handle) },
        ForkSession { task, phase: ForkPhase::Forking { parent } },
    )
}

fn read_task(req: &BranchContextRequest) -> (task: ForkTask)
    ensures
        task == fork_task(*req),
{
    ForkTask {
        operation_id: req.operation_id,
        parent: ParentRef {
            context_id: req.parent_context.context_id,
            branch_id: req.parent_context.branch_id,
            generation: req.parent_context.generation,
            token_count: req.parent_context.token_count,
            logical_state_digest: req.parent_context.logical_state_digest,
            lineage: req.parent_context.lineage,
            isolation: req.parent_context.isolation,
            recovery: req.parent_context.recovery,
            bound: req.parent_context.binding.is_some(),
        },
        child_branch: req.child_branch_id,
        isolation: req.isolation,
    }
}

impl SovereignInferenceService {
    /// Starts a fork of the branch that `req` names as parent. A branch that is not active is not
    /// found, unless the reference to it is bound to no run of an engine: then the engine is first
    /// asked to take the parent in, as many start tokens as the reference counts.
    pub fn branch_context(&self, req: &BranchContextRequest) -> (step: ForkStep)
        ensures
            step@ == self@.fork_start(fork_task(*req)),
    {
        let task = read_task(req);
        match self.active_branches.get(&task.parent.branch_id.0) {
            Some(parent) => ask_to_fork(task, parent.clone()),
            None => {
                if task.parent.bound || task.parent.branch_id == task.child_branch
                    || task.parent.token_count > MAX_CONTEXT_TOKENS || task.parent.generation.0
                    == u64::MAX {
                    return ForkStep::Done(
                        Err(InferenceError::ContextNotFound(task.parent.context_id)),
                    );
                }
                let tokens = make_stand_in_tokens(task.parent.token_count);
                ForkStep::Call(
                    ForkCall::CreateContext { tokens },
                    ForkSession { task, phase: ForkPhase::Adopting },
                )
            },
        }
    }

    /// Takes a fork on with the reply that it waits for. A parent that the engine has taken in is
    /// active, with what its reference says of it; one that has become active in the meantime stays
    /// as it is and is forked. The child is active,
    /// under its identifier and in place of what stood there, when the engine has forked the parent
    /// and told the pages of the child. A reply that fails the fork changes nothing.
    pub fn resume_branch_context(&mut self, session: ForkSession, reply: ForkReply) -> (step:
        ForkStep)
        requires
            fork_accepts(session@, reply@),
        ensures
            step@ == old(self)@.fork_next(session@, reply@),
            final(self)@ == old(self)@.fork_effect(session@, reply@),
            old(self)@.wf() && (session@.phase matches ForkPhaseView::Measuring { parent, .. }
                ==> parent.token_count <= parent.tokens.len()) ==> final(self)@.wf(),
    {
        let task = session.task;
        match (session.phase, reply) {
            (ForkPhase::Adopting, ForkReply::Created(Err(e))) => ForkStep::Done(
                Err(InferenceError::Internal(joined("Fork context failed: ", e.as_str()))),
            ),
            (ForkPhase::Adopting, ForkReply::Created(Ok(handle))) => {
                if let Some(parent) = self.active_branches.get(&task.parent.branch_id.0) {
                    return ask_to_fork(task, parent.clone());
                }
                let parent = BranchState {
                    handle: handle.0,
                    branch_id: task.parent.branch_id.0,
                    context_id: task.parent.context_id.0,
                    generation: task.parent.generation,
                    token_count: task.parent.token_count,
                    tokens: make_stand_in_tokens(task.parent.token_count),
                    logical_state_digest: task.parent.logical_state_digest,
                    recipe_ref: task.parent.recovery,
                    isolation: task.parent.isolation,
                    lineage: task.parent.lineage,
                    rebuilt: false,
                };
                assert(parent@ =~= adopted(task.parent, handle));
                self.put_branch(task.parent.branch_id.0, parent.clone());
                ask_to_fork(task, parent)
            },
            (ForkPhase::Forking { .. }, ForkReply::Forked(Err(e))) => ForkStep::Done(
                Err(InferenceError::Internal(joined("Fork context failed: ", e.as_str()))),
            ),
            (ForkPhase::Forking { parent }, ForkReply::Forked(Ok(child))) => ForkStep::Call(
                ForkCall::GetUsageReceipt { handle: child },
                ForkSession { task, phase: ForkPhase::Measuring { parent, child } },
            ),
            (ForkPhase::Measuring { .. }, ForkReply::Measured(Err(e))) => ForkStep::Done(
                Err(InferenceError::Internal(joined("Usage receipt failed: ", e.as_str()))),
            ),
            (ForkPhase::Measuring { parent, child }, ForkReply::Measured(Ok(usage))) => {
                let ghost parent_view = parent@;
                let state = BranchState {
                    handle: child.0,
                    branch_id: task.child_branch.0,
                    context_id: parent.context_id,
                    generation: parent.generation.next(),
                    token_count: parent.token_count,
                    tokens: parent.tokens,
                    logical_state_digest: parent.logical_state_digest,
                    recipe_ref: parent.recipe_ref,
                    isolation: task.isolation,
                    lineage: ContextLineage {
                        parent_context: Some(task.parent.context_id),
                        parent_branch: Some(task.parent.branch_id),
                        parent_digest: Some(parent.logical_state_digest),
                        fork_token_index: Some(parent.token_count),
                    },
                    rebuilt: false,
                };
                assert(state@ =~= child_branch(task, parent_view, child));
                let child_context = state.to_context_ref(self);
                self.put_branch(task.child_branch.0, state);
                ForkStep::Done(
                    Ok(
                        BranchContextReceipt {
                            operation_id: task.operation_id,
                            child_context,
                            shared_pages: usage.shared_pages as u32,
                            copied_pages: usage.private_pages as u32,
                            lease_expires_at_monotonic: 9999999999,
                        },
                    ),
                )
            },
            _ => vstd::pervasive::unreached(),
        }
    }
}

} // verus!
