//! What a fork does, in terms of what it asks for and what the engine replies.

use vstd::prelude::*;

use crate::branch::BranchView;
use crate::ids::Uuid;
use crate::laws::{fork_replies, fork_run, fork_run_accepts, law_fork};
use crate::protocol::{
    BranchContextRequest, ContextHandle, ContextLineage, ErrorView, ForkReceiptView,
};
use crate::service::fork::{
    fork_accepts, fork_task, ForkCallView, ForkPhaseView, ForkReplyView,
    ForkSessionView, ForkStepView, ForkTask, PageUsage, ParentRef,
};
use crate::service::ServiceView;

verus! {

/// What a fork does is read from its request.
pub proof fn law_fork_request_is_read(request: BranchContextRequest)
    ensures
        fork_task(request) == (ForkTask {
            operation_id: request.operation_id,
            child_branch: request.child_branch_id,
            isolation: request.isolation,
            parent: ParentRef {
                context_id: request.parent_context.context_id,
                branch_id: request.parent_context.branch_id,
                generation: request.parent_context.generation,
                token_count: request.parent_context.token_count,
                logical_state_digest: request.parent_context.logical_state_digest,
                lineage: request.parent_context.lineage,
                isolation: request.parent_context.isolation,
                recovery: request.parent_context.recovery,
                bound: request.parent_context.binding is Some,
            },
        }),
{
}

/// Whether a parent that is not active can be taken in: its reference is bound to no run of an
/// engine, names another branch than the child, counts no more tokens than a context can have and
/// is not in the last generation.
pub open spec fn can_be_taken_in(task: ForkTask) -> bool {
    &&& !task.parent.bound
    &&& task.parent.branch_id != task.child_branch
    &&& task.parent.token_count <= 4096
    &&& task.parent.generation.0 < u64::MAX
}

/// How a fork starts: an active parent is forked by its handle; one that is not is taken in where it
/// can be, as so many tokens 1 as its reference counts, and else is not found.
pub proof fn law_fork_starts(service: ServiceView, task: ForkTask)
    ensures
        ({
            let id = task.parent.branch_id.0;
            let start = service.fork_start(task);
            &&& service.branches.contains_key(id) ==> start == ForkStepView::Call(
                ForkCallView::ForkContext { handle: ContextHandle(service.branches[id].handle) },
                ForkSessionView {
                    task,
                    phase: ForkPhaseView::Forking { parent: service.branches[id] },
                },
            )
            &&& !service.branches.contains_key(id) && !can_be_taken_in(task) ==> start
                == ForkStepView::Done(Err(ErrorView::ContextNotFound(task.parent.context_id)))
            &&& !service.branches.contains_key(id) && can_be_taken_in(task) ==> (start
                matches ForkStepView::Call(ForkCallView::CreateContext { tokens }, session)
                && tokens.len() == task.parent.token_count && (forall|i: int|
                0 <= i < tokens.len() ==> #[trigger] tokens[i] == 1) && session.task == task
                && session.phase is Adopting)
        }),
{
}

/// Whether a branch is a parent as its reference describes it, under the handle that the engine gave
/// it, with as many tokens 1 as the reference counts.
pub open spec fn is_as_described(
    branch: BranchView,
    parent: ParentRef,
    handle: ContextHandle,
) -> bool {
    &&& branch.handle == handle.0
    &&& branch.branch_id == parent.branch_id.0
    &&& branch.context_id == parent.context_id.0
    &&& branch.generation == parent.generation
    &&& branch.token_count == parent.token_count
    &&& branch.tokens.len() == parent.token_count
    &&& forall|i: int| 0 <= i < branch.tokens.len() ==> #[trigger] branch.tokens[i] == 1
    &&& branch.logical_state_digest == parent.logical_state_digest
    &&& branch.recipe_ref == parent.recovery
    &&& branch.isolation == parent.isolation
    &&& branch.lineage == parent.lineage
    &&& !branch.rebuilt
}

/// What becomes of the engine's word on a parent that it was to take in: where it failed, the error
/// is handed on and nothing changes; else the parent is active as its reference describes it, unless
/// it has become active by itself, and is forked by its handle. No other branch changes.
pub proof fn law_parent_is_taken_in(
    service: ServiceView,
    session: ForkSessionView,
    result: Result<ContextHandle, Seq<char>>,
)
    requires
        session.phase is Adopting,
    ensures
        ({
            let task = session.task;
            let id = task.parent.branch_id.0;
            let reply = ForkReplyView::Created(result);
            let after = service.fork_effect(session, reply);
            let step = service.fork_next(session, reply);
            &&& fork_accepts(session, reply) <==> result is Err || task.parent.token_count <= 4096
            &&& result matches Err(e) ==> after == service && step == ForkStepView::Done(
                Err(ErrorView::Internal("Fork context failed: "@ + e)),
            )
            &&& result matches Ok(handle) ==> {
                &&& service.branches.contains_key(id) ==> after == service
                &&& !service.branches.contains_key(id) ==> after == (ServiceView {
                    branches: service.branches.insert(id, after.branches[id]),
                    ..service
                }) && is_as_described(after.branches[id], task.parent, handle)
                &&& step == ForkStepView::Call(
                    ForkCallView::ForkContext {
                        handle: ContextHandle(after.branches[id].handle),
                    },
                    ForkSessionView {
                        task,
                        phase: ForkPhaseView::Forking { parent: after.branches[id] },
                    },
                )
            }
        }),
{
}

/// What becomes of the engine's word on a fork: nothing changes yet; where it failed, the error is
/// handed on, and else the engine is asked for the pages of the very context that it made.
pub proof fn law_parent_is_forked(
    service: ServiceView,
    session: ForkSessionView,
    parent: BranchView,
    result: Result<ContextHandle, Seq<char>>,
)
    requires
        session.phase == (ForkPhaseView::Forking { parent }),
    ensures
        ({
            let reply = ForkReplyView::Forked(result);
            let step = service.fork_next(session, reply);
            &&& fork_accepts(session, reply)
            &&& service.fork_effect(session, reply) == service
            &&& result matches Err(e) ==> step == ForkStepView::Done(
                Err(ErrorView::Internal("Fork context failed: "@ + e)),
            )
            &&& result matches Ok(child) ==> step == ForkStepView::Call(
                ForkCallView::GetUsageReceipt { handle: child },
                ForkSessionView {
                    task: session.task,
                    phase: ForkPhaseView::Measuring { parent, child },
                },
            )
        }),
{
}

/// Whether a branch is the child of a parent: under the very handle that the engine gave it, with
/// all that the parent holds, in the next generation, in the domain that the fork asked for, and
/// with the parent as its lineage.
pub open spec fn is_child(
    branch: BranchView,
    task: ForkTask,
    parent: BranchView,
    handle: ContextHandle,
) -> bool {
    &&& branch.handle == handle.0
    &&& branch.branch_id == task.child_branch.0
    &&& branch.context_id == parent.context_id
    &&& branch.generation.0 == parent.generation.0 + 1
    &&& branch.token_count == parent.token_count
    &&& branch.tokens == parent.tokens
    &&& branch.logical_state_digest == parent.logical_state_digest
    &&& branch.recipe_ref == parent.recipe_ref
    &&& branch.isolation == task.isolation
    &&& branch.lineage == (ContextLineage {
        parent_context: Some(task.parent.context_id),
        parent_branch: Some(task.parent.branch_id),
        parent_digest: Some(parent.logical_state_digest),
        fork_token_index: Some(parent.token_count),
    })
    &&& !branch.rebuilt
}

/// Whether a receipt is one of a fork: it names the operation, gives the pages as the engine counted
/// them, and refers to the child.
pub open spec fn is_receipt(
    receipt: ForkReceiptView,
    service: ServiceView,
    task: ForkTask,
    branch: BranchView,
    usage: PageUsage,
) -> bool {
    &&& receipt.operation_id == task.operation_id
    &&& usage.shared_pages <= u32::MAX ==> receipt.shared_pages == usage.shared_pages
    &&& usage.private_pages <= u32::MAX ==> receipt.copied_pages == usage.private_pages
    &&& receipt.lease_expires_at_monotonic == 9999999999
    &&& receipt.child_context == service.context_ref(branch)
}

/// What becomes of the engine's word on the pages of a child: where it failed, the error is handed
/// on and nothing changes; else the child is active under its identifier, every other branch stays
/// as it is, and the receipt refers to the child.
pub proof fn law_child_becomes_active(
    service: ServiceView,
    session: ForkSessionView,
    parent: BranchView,
    child: ContextHandle,
    result: Result<PageUsage, Seq<char>>,
)
    requires
        session.phase == (ForkPhaseView::Measuring { parent, child }),
    ensures
        ({
            let task = session.task;
            let id = task.child_branch.0;
            let reply = ForkReplyView::Measured(result);
            let after = service.fork_effect(session, reply);
            let step = service.fork_next(session, reply);
            &&& fork_accepts(session, reply) <==> result is Err || parent.generation.0 < u64::MAX
            &&& result matches Err(e) ==> after == service && step == ForkStepView::Done(
                Err(ErrorView::Internal("Usage receipt failed: "@ + e)),
            )
            &&& result is Ok && parent.generation.0 < u64::MAX ==> {
                &&& after == ServiceView {
                    branches: service.branches.insert(id, after.branches[id]),
                    ..service
                }
                &&& is_child(after.branches[id], task, parent, child)
                &&& step matches ForkStepView::Done(Ok(receipt)) && is_receipt(
                    receipt,
                    after,
                    task,
                    after.branches[id],
                    result->Ok_0,
                )
            }
        }),
{
}

/// A reply to another call than the one that a fork waits for is not taken.
pub proof fn law_other_fork_replies_are_not_taken(session: ForkSessionView, reply: ForkReplyView)
    requires
        fork_accepts(session, reply),
    ensures
        session.phase is Adopting <==> reply is Created,
        session.phase is Forking <==> reply is Forked,
        session.phase is Measuring <==> reply is Measured,
{
}

/// Whether no two branches stand under one handle.
pub open spec fn handles_are_distinct(branches: Map<Uuid, BranchView>) -> bool {
    forall|a: Uuid, b: Uuid| #[trigger]
        branches.contains_key(a) && #[trigger] branches.contains_key(b) && a != b
            ==> branches[a].handle != branches[b].handle
}

/// A fork in which nothing fails, from its request to its receipt, of any parent that is active or
/// can be taken in, itself a fork or not. The child stands under the handle that the engine replied
/// to the fork, and holds what the parent holds; and where the engine gives handles that no branch
/// has, no two branches share one afterwards.
pub proof fn law_fork_from_request_to_receipt(
    service: ServiceView,
    task: ForkTask,
    adopting: ContextHandle,
    child: ContextHandle,
    usage: PageUsage,
)
    requires
        service.branches.contains_key(task.parent.branch_id.0) || can_be_taken_in(task),
        service.branches.contains_key(task.parent.branch_id.0)
            ==> service.branches[task.parent.branch_id.0].generation.0 < u64::MAX,
    ensures
        ({
            let id = task.child_branch.0;
            let parent_id = task.parent.branch_id.0;
            let active = service.branches.contains_key(parent_id);
            let start = service.fork_start(task);
            let replies = fork_replies(service, task, adopting, child, usage);
            let (after, end) = fork_run(service, start, replies);
            let branch = after.branches[id];
            &&& fork_run_accepts(service, start, replies)
            &&& after.branches.contains_key(id)
            &&& branch.handle == child.0
            &&& active ==> is_child(branch, task, service.branches[parent_id], child)
            &&& !active ==> is_as_described(after.branches[parent_id], task.parent, adopting)
                && is_child(branch, task, after.branches[parent_id], child)
            &&& forall|other: Uuid|
                other != id && (other != parent_id || active) ==> (
                #[trigger] after.branches.contains_key(other) <==> service.branches.contains_key(
                    other,
                )) && (service.branches.contains_key(other) ==> after.branches[other]
                    == service.branches[other])
            &&& after == ServiceView { branches: after.branches, ..service }
            &&& end matches ForkStepView::Done(Ok(receipt)) && is_receipt(
                receipt,
                after,
                task,
                branch,
                usage,
            )
            &&& handles_are_distinct(service.branches) && child != adopting && (forall|other: Uuid|
                #[trigger]
                service.branches.contains_key(other) ==> service.branches[other].handle != child.0
                    && service.branches[other].handle != adopting.0) ==> handles_are_distinct(
                after.branches,
            )
        }),
{
    law_fork(service, task, adopting, child, usage);
}

} // verus!
