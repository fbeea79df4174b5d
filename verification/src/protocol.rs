//! The values that callers and the service exchange.
//!
//! A type that holds text or a vector has a view of the same shape, in which they are sequences.

use vstd::prelude::*;

use crate::ids::Uuid;

verus! {

/// A 256-bit digest.
#[derive(Clone, Copy, Debug, Eq)]
pub struct Digest32(pub [u8; 32]);

impl Digest32 {
    /// The digest that stands where none could be computed.
    pub open spec fn is_zero(self) -> bool {
        forall|i: int| 0 <= i < 32 ==> self.0@[i] == 0
    }

    /// The digest of 32 zero bytes.
    pub fn zero() -> (d: Digest32)
        ensures
            d.is_zero(),
            d == zero_digest(),
    {
        let d = Digest32([0u8; 32]);
        proof {
            lemma_zero_digest_unique(d, zero_digest());
        }
        d
    }
}

impl PartialEq for Digest32 {
    fn eq(&self, other: &Self) -> (r: bool) {
        let mut i: usize = 0;
        while i < 32
            invariant
                i <= 32,
                forall|j: int| 0 <= j < i ==> self.0@[j] == other.0@[j],
            decreases 32 - i,
        {
            if self.0[i] != other.0[i] {
                return false;
            }
            i = i + 1;
        }
        assert(self.0 =~= other.0);
        true
    }
}

impl vstd::std_specs::cmp::PartialEqSpecImpl for Digest32 {
    open spec fn obeys_eq_spec() -> bool {
        true
    }

    open spec fn eq_spec(&self, other: &Self) -> bool {
        *self == *other
    }
}

/// The digest of 32 zero bytes, as a value.
pub open spec fn zero_digest() -> Digest32 {
    choose|d: Digest32| d.is_zero()
}

/// There is one zero digest.
proof fn lemma_zero_digest_unique(a: Digest32, b: Digest32)
    requires
        a.is_zero(),
        b.is_zero(),
    ensures
        a == b,
{
    assert(a.0 =~= b.0);
}

/// Names a context: a root prompt with all that was forked from it.
#[derive(Clone, Copy, Debug, PartialEq, Eq, Structural)]
pub struct ContextId(pub Uuid);

/// Names a branch of a context.
#[derive(Clone, Copy, Debug, PartialEq, Eq, Structural)]
pub struct BranchId(pub Uuid);

/// The engine's handle of a context.
#[derive(Clone, Copy, Debug, PartialEq, Eq, Structural)]
pub struct ContextHandle(pub u64);

/// The engine's handle of a branch.
#[derive(Clone, Copy, Debug, PartialEq, Eq, Structural)]
pub struct BranchHandle(pub u64);

/// Counts the forks and turns that led to a state of a branch.
#[derive(Clone, Copy, Debug, PartialEq, Eq, Structural)]
pub struct Generation(pub u64);

impl Generation {
    pub open spec fn succ(self) -> Generation {
        Generation((self.0 + 1) as u64)
    }

    /// The generation that follows this one.
    pub fn next(self) -> (g: Generation)
        requires
            self.0 < u64::MAX,
        ensures
            g.0 == self.0 + 1,
            g == self.succ(),
    {
        Generation(self.0 + 1)
    }
}

/// Digests that identify the model behind a context.
#[derive(Clone, Copy, Debug, PartialEq, Eq)]
pub struct ModelFingerprint {
    pub weights_digest: Digest32,
    pub model_config_digest: Digest32,
}

/// Digest that identifies the tokenizer behind a context.
#[derive(Clone, Copy, Debug, PartialEq, Eq)]
pub struct TokenizerFingerprint {
    pub tokenizer_digest: Digest32,
}

/// How the key-value cache of a context is laid out.
#[derive(Debug, PartialEq, Eq)]
pub struct KvFormatFingerprint {
    pub format_version: u32,
    pub dtype: String,
}

pub struct KvFormatView {
    pub format_version: u32,
    pub dtype: Seq<char>,
}

impl View for KvFormatFingerprint {
    type V = KvFormatView;

    open spec fn view(&self) -> KvFormatView {
        KvFormatView { format_version: self.format_version, dtype: self.dtype@ }
    }
}

impl Clone for KvFormatFingerprint {
    fn clone(&self) -> (r: Self)
        ensures
            r@ == self@,
    {
        KvFormatFingerprint { format_version: self.format_version, dtype: self.dtype.clone() }
    }
}

/// Where a context was forked from; all `None` for one that was not forked.
#[derive(Clone, Copy, Debug, PartialEq, Eq)]
pub struct ContextLineage {
    pub parent_context: Option<ContextId>,
    pub parent_branch: Option<BranchId>,
    pub parent_digest: Option<Digest32>,
    pub fork_token_index: Option<u64>,
}

/// The tenant to whom the cache of a context belongs.
#[derive(Clone, Copy, Debug, PartialEq, Eq)]
pub struct CacheIsolationKey {
    pub domain_id: Uuid,
    pub domain_digest: Digest32,
}

/// The run of an engine that a context is bound to.
#[derive(Debug, PartialEq, Eq)]
pub struct OpaqueBindingRef {
    pub engine_id: String,
    pub runtime_epoch: u64,
    pub binding_id: Uuid,
    pub lease_generation: u64,
}

pub struct BindingView {
    pub engine_id: Seq<char>,
    pub runtime_epoch: u64,
    pub binding_id: Uuid,
    pub lease_generation: u64,
}

impl View for OpaqueBindingRef {
    type V = BindingView;

    open spec fn view(&self) -> BindingView {
        BindingView {
            engine_id: self.engine_id@,
            runtime_epoch: self.runtime_epoch,
            binding_id: self.binding_id,
            lease_generation: self.lease_generation,
        }
    }
}

impl Clone for OpaqueBindingRef {
    fn clone(&self) -> (r: Self)
        ensures
            r@ == self@,
    {
        OpaqueBindingRef {
            engine_id: self.engine_id.clone(),
            runtime_epoch: self.runtime_epoch,
            binding_id: self.binding_id,
            lease_generation: self.lease_generation,
        }
    }
}

/// The recipe from which a context can be rebuilt, by its identifier and digest.
#[derive(Clone, Copy, Debug, PartialEq, Eq)]
pub struct ContextRecipeRef {
    pub recipe_id: Uuid,
    pub recipe_digest: Digest32,
}

/// What a caller holds of a branch: enough to resume it, to tell whether it has moved on since,
/// and to rebuild it.
#[derive(Debug, PartialEq, Eq)]
pub struct InferenceContextRef {
    pub abi_version: u32,
    pub context_id: ContextId,
    pub branch_id: BranchId,
    pub generation: Generation,
    pub model: ModelFingerprint,
    pub tokenizer: TokenizerFingerprint,
    pub kv_format: KvFormatFingerprint,
    pub logical_state_digest: Digest32,
    pub token_count: u64,
    pub lineage: ContextLineage,
    pub isolation: CacheIsolationKey,
    pub binding: Option<OpaqueBindingRef>,
    pub recovery: ContextRecipeRef,
}

pub struct ContextRefView {
    pub abi_version: u32,
    pub context_id: ContextId,
    pub branch_id: BranchId,
    pub generation: Generation,
    pub model: ModelFingerprint,
    pub tokenizer: TokenizerFingerprint,
    pub kv_format: KvFormatView,
    pub logical_state_digest: Digest32,
    pub token_count: u64,
    pub lineage: ContextLineage,
    pub isolation: CacheIsolationKey,
    pub binding: Option<BindingView>,
    pub recovery: ContextRecipeRef,
}

pub open spec fn binding_view(binding: Option<OpaqueBindingRef>) -> Option<BindingView> {
    match binding {
        Some(b) => Some(b@),
        None => None,
    }
}

impl View for InferenceContextRef {
    type V = ContextRefView;

    open spec fn view(&self) -> ContextRefView {
        ContextRefView {
            abi_version: self.abi_version,
            context_id: self.context_id,
            branch_id: self.branch_id,
            generation: self.generation,
            model: self.model,
            tokenizer: self.tokenizer,
            kv_format: self.kv_format@,
            logical_state_digest: self.logical_state_digest,
            token_count: self.token_count,
            lineage: self.lineage,
            isolation: self.isolation,
            binding: binding_view(self.binding),
            recovery: self.recovery,
        }
    }
}

pub open spec fn context_view(context: Option<InferenceContextRef>) -> Option<ContextRefView> {
    match context {
        Some(c) => Some(c@),
        None => None,
    }
}

impl Clone for InferenceContextRef {
    fn clone(&self) -> (r: Self)
        ensures
            r@ == self@,
    {
        InferenceContextRef {
            abi_version: self.abi_version,
            context_id: self.context_id,
            branch_id: self.branch_id,
            generation: self.generation,
            model: self.model,
            tokenizer: self.tokenizer,
            kv_format: self.kv_format.clone(),
            logical_state_digest: self.logical_state_digest,
            token_count: self.token_count,
            lineage: self.lineage,
            isolation: self.isolation,
            binding: match &self.binding {
                Some(b) => Some(b.clone()),
                None => None,
            },
            recovery: self.recovery,
        }
    }
}

/// One message of a conversation.
#[derive(Debug, PartialEq, Eq)]
pub struct InferenceMessage {
    pub role: String,
    pub content: String,
}

/// Asks for tokens, on a branch where `context` names one. How the engine samples them is agreed
/// with the engine and is no part of the request.
#[derive(Debug, PartialEq, Eq)]
pub struct InferenceRequest {
    pub request_id: Uuid,
    pub model: String,
    pub messages: Vec<InferenceMessage>,
    pub context: Option<InferenceContextRef>,
    pub max_tokens: u32,
    pub stop_sequences: Vec<String>,
}

/// What an answer depends on: the request without the fields that it is not read for.
pub struct RequestView {
    pub request_id: Uuid,
    pub contents: Seq<Seq<char>>,
    pub context: Option<ContextRefView>,
    pub max_tokens: u32,
}

pub open spec fn message_contents(messages: Seq<InferenceMessage>) -> Seq<Seq<char>> {
    messages.map_values(|m: InferenceMessage| m.content@)
}

impl View for InferenceRequest {
    type V = RequestView;

    open spec fn view(&self) -> RequestView {
        RequestView {
            request_id: self.request_id,
            contents: message_contents(self.messages@),
            context: context_view(self.context),
            max_tokens: self.max_tokens,
        }
    }
}

/// Answers an `InferenceRequest`.
#[derive(Debug, PartialEq, Eq)]
pub struct InferenceResponse {
    pub request_id: Uuid,
    pub content: String,
    pub finish_reason: String,
    pub prompt_tokens: u32,
    pub completion_tokens: u32,
    pub context: Option<InferenceContextRef>,
}

pub struct ResponseView {
    pub request_id: Uuid,
    pub content: Seq<char>,
    pub finish_reason: Seq<char>,
    pub prompt_tokens: u32,
    pub completion_tokens: u32,
    pub context: Option<ContextRefView>,
}

impl View for InferenceResponse {
    type V = ResponseView;

    open spec fn view(&self) -> ResponseView {
        ResponseView {
            request_id: self.request_id,
            content: self.content@,
            finish_reason: self.finish_reason@,
            prompt_tokens: self.prompt_tokens,
            completion_tokens: self.completion_tokens,
            context: context_view(self.context),
        }
    }
}

/// Why a request was not served.
#[derive(Debug, PartialEq, Eq)]
pub enum InferenceError {
    /// No branch of this context is active under the identifier asked for.
    ContextNotFound(ContextId),
    /// The branch has moved on since the caller's reference to it was made.
    StaleGeneration { expected: Generation, actual: Generation },
    /// The reference is bound to another run of the engine.
    StaleRuntimeEpoch,
    Internal(String),
}

pub enum ErrorView {
    ContextNotFound(ContextId),
    StaleGeneration { expected: Generation, actual: Generation },
    StaleRuntimeEpoch,
    Internal(Seq<char>),
}

impl View for InferenceError {
    type V = ErrorView;

    open spec fn view(&self) -> ErrorView {
        match *self {
            InferenceError::ContextNotFound(id) => ErrorView::ContextNotFound(id),
            InferenceError::StaleGeneration { expected, actual } => ErrorView::StaleGeneration {
                expected,
                actual,
            },
            InferenceError::StaleRuntimeEpoch => ErrorView::StaleRuntimeEpoch,
            InferenceError::Internal(message) => ErrorView::Internal(message@),
        }
    }
}

/// Asks for a branch that starts where another stands.
#[derive(Debug, PartialEq, Eq)]
pub struct BranchContextRequest {
    pub operation_id: Uuid,
    pub parent_context: InferenceContextRef,
    pub child_branch_id: BranchId,
    pub isolation: CacheIsolationKey,
}

/// Answers a `BranchContextRequest`.
#[derive(Debug, PartialEq, Eq)]
pub struct BranchContextReceipt {
    pub operation_id: Uuid,
    pub child_context: InferenceContextRef,
    pub shared_pages: u32,
    pub copied_pages: u32,
    pub lease_expires_at_monotonic: u64,
}

pub struct ForkReceiptView {
    pub operation_id: Uuid,
    pub child_context: ContextRefView,
    pub shared_pages: u32,
    pub copied_pages: u32,
    pub lease_expires_at_monotonic: u64,
}

impl View for BranchContextReceipt {
    type V = ForkReceiptView;

    open spec fn view(&self) -> ForkReceiptView {
        ForkReceiptView {
            operation_id: self.operation_id,
            child_context: self.child_context@,
            shared_pages: self.shared_pages,
            copied_pages: self.copied_pages,
            lease_expires_at_monotonic: self.lease_expires_at_monotonic,
        }
    }
}

/// A version of the protocol.
#[derive(Clone, Copy, Debug, PartialEq, Eq, Structural)]
pub struct ProtocolVersion {
    pub major: u32,
    pub minor: u32,
}

/// What the service can do.
#[derive(Clone, Copy, Debug, PartialEq, Eq)]
pub struct InferenceCapabilities {
    pub protocol: ProtocolVersion,
    pub context_branching: bool,
    pub physical_cow: bool,
    pub streaming: bool,
    pub cancellation: bool,
    pub max_context_tokens: Option<u64>,
}

} // verus!
