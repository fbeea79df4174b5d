//! What identifiers, digests and the views of values are.

use vstd::prelude::*;

use crate::branch::BranchState;
use crate::ids::{is_random_uuid, uuid_bytes, uuid_text, Uuid};
use crate::protocol::{
    zero_digest, BranchContextReceipt, Digest32, ErrorView, Generation, InferenceContextRef,
    InferenceError, InferenceRequest, InferenceResponse,
};
use crate::recipe::{digest_or_zero, ContextRecipe};
use crate::service::fork::{
    ForkCall, ForkCallView, ForkReply, ForkReplyView, ForkStep, ForkStepView,
};
use crate::service::infer::{
    CallView, EngineCall, EngineReply, InferStep, ReplyView, StepView,
};
use crate::service::PendingContext;
use crate::store::{
    RecipeError, RecipeErrorView, RecipeFile, RecipeFileView, ResolveStep, ResolveStepView,
    StorageEntry, StoreCall, StoreCallView, StoreReply, StoreReplyView,
};

verus! {

/// The number that bytes write, the most significant first.
pub open spec fn big_endian(bytes: Seq<u8>) -> nat
    decreases bytes.len(),
{
    if bytes.len() == 0 {
        0
    } else {
        256 * big_endian(bytes.drop_last()) + bytes.last() as nat
    }
}

/// A number and the number without its last byte.
proof fn lemma_last_byte(id: Uuid, s: u128, t: u128)
    by (bit_vector)
    requires
        s <= 112,
        t == s + 8,
    ensures
        (id >> s) == 256 * (id >> t) + (((id >> s) & 0xff) as u8),
{
}

/// The first byte of a number is the number without the others.
proof fn lemma_first_byte(id: Uuid)
    by (bit_vector)
    ensures
        (id >> 120u128) == (((id >> 120u128) & 0xff) as u8),
        (id >> 0u128) == id,
{
}

/// The first bytes of an identifier write it without the others.
proof fn lemma_first_bytes(id: Uuid, n: int)
    requires
        1 <= n <= 16,
        uuid_bytes(id).len() == 16,
    ensures
        big_endian(uuid_bytes(id).take(n)) == id >> ((8 * (16 - n)) as u128),
    decreases n,
{
    let bytes = uuid_bytes(id).take(n);
    let s = (8 * (16 - n)) as u128;
    assert(bytes.last() == ((id >> s) & 0xff) as u8);
    assert(bytes.drop_last() =~= uuid_bytes(id).take(n - 1));
    if n == 1 {
        assert(bytes.drop_last() =~= Seq::empty());
        assert(big_endian(bytes.drop_last()) == 0);
        lemma_first_byte(id);
    } else {
        lemma_first_bytes(id, n - 1);
        lemma_last_byte(id, s, (8 * (17 - n)) as u128);
    }
}

/// The bytes of an identifier are sixteen, and write its number, the most significant first.
pub proof fn law_identifier_bytes(id: Uuid)
    ensures
        uuid_bytes(id).len() == 16,
        big_endian(uuid_bytes(id)) == id,
{
    lemma_first_bytes(id, 16);
    lemma_first_byte(id);
    assert(uuid_bytes(id).take(16) =~= uuid_bytes(id));
}

/// Whether a character is a lower-case hexadecimal digit.
pub open spec fn is_hex(c: char) -> bool {
    '0' <= c <= '9' || 'a' <= c <= 'f'
}

/// The number that a hexadecimal digit stands for.
pub open spec fn hex_value(c: char) -> int {
    if '0' <= c <= '9' {
        c as int - '0' as int
    } else {
        c as int - 'a' as int + 10
    }
}

/// The number that a text writes in hexadecimal digits, with hyphens passed over.
pub open spec fn hex_number(text: Seq<char>) -> int
    decreases text.len(),
{
    if text.len() == 0 {
        0
    } else if text.last() == '-' {
        hex_number(text.drop_last())
    } else {
        16 * hex_number(text.drop_last()) + hex_value(text.last())
    }
}

/// How many of the first `n` characters of the text of an identifier are digits.
pub open spec fn digits_before(n: int) -> int {
    if n <= 8 {
        n
    } else if n <= 13 {
        n - 1
    } else if n <= 18 {
        n - 2
    } else if n <= 23 {
        n - 3
    } else {
        n - 4
    }
}

/// A number and the number without its last digit.
proof fn lemma_last_digit(id: Uuid, s: u128, t: u128)
    by (bit_vector)
    requires
        s <= 120,
        t == s + 4,
    ensures
        (id >> s) == 16 * (id >> t) + ((id >> s) & 0xf),
        ((id >> s) & 0xf) < 16,
{
}

/// The first digit of a number is the number without the others.
proof fn lemma_first_digit(id: Uuid)
    by (bit_vector)
    ensures
        (id >> 124u128) == ((id >> 124u128) & 0xf),
        ((id >> 124u128) & 0xf) < 16,
{
}

/// The first characters of an identifier's text write the identifier without the other digits.
proof fn lemma_first_digits(id: Uuid, n: int)
    requires
        1 <= n <= 36,
        uuid_text(id).len() == 36,
    ensures
        hex_number(uuid_text(id).take(n)) == id >> ((4 * (32 - digits_before(n))) as u128),
        is_hex(uuid_text(id)[n - 1]) || uuid_text(id)[n - 1] == '-',
    decreases n,
{
    let text = uuid_text(id).take(n);
    let s = (4 * (32 - digits_before(n))) as u128;
    assert(text.drop_last() =~= uuid_text(id).take(n - 1));
    if n == 1 {
        assert(text.drop_last() =~= Seq::empty());
        assert(hex_number(text.drop_last()) == 0);
        lemma_first_digit(id);
    } else {
        lemma_first_digits(id, n - 1);
        if !(n == 9 || n == 14 || n == 19 || n == 24) {
            lemma_last_digit(id, s, (s + 4) as u128);
        }
    }
}

/// The text of an identifier has 36 characters: hyphens in the four places where they belong, and
/// lower-case hexadecimal digits, which write its number. So different identifiers have different
/// texts.
pub proof fn law_identifier_text(id: Uuid)
    ensures
        uuid_text(id).len() == 36,
        forall|i: int|
            0 <= i < 36 ==> if i == 8 || i == 13 || i == 18 || i == 23 {
                #[trigger] uuid_text(id)[i] == '-'
            } else {
                is_hex(uuid_text(id)[i])
            },
        hex_number(uuid_text(id)) == id,
{
    assert forall|i: int| 0 <= i < 36 implies if i == 8 || i == 13 || i == 18 || i == 23 {
        #[trigger] uuid_text(id)[i] == '-'
    } else {
        is_hex(uuid_text(id)[i])
    } by {
        lemma_first_digits(id, i + 1);
        if !(i == 8 || i == 13 || i == 18 || i == 23) && i != 0 {
            let s = (4 * (32 - digits_before(i + 1))) as u128;
            lemma_last_digit(id, s, (s + 4) as u128);
        }
        if i == 0 {
            lemma_first_digit(id);
        }
    }
    lemma_first_digits(id, 36);
    lemma_first_byte(id);
    assert(uuid_text(id).take(36) =~= uuid_text(id));
}

/// A random identifier has 4 as its version and the bits 10 as its variant.
pub proof fn law_random_identifier(id: Uuid)
    ensures
        is_random_uuid(id) <==> (id >> 76u128) & 0xf == 4 && (id >> 62u128) & 3 == 2,
{
    assert((id & 0xF000_C000_0000_0000_0000u128 == 0x4000_8000_0000_0000_0000u128) <==> ((id
        >> 76u128) & 0xf == 4 && (id >> 62u128) & 3 == 2)) by (bit_vector);
}

/// A digest of zero bytes is the one that stands where there is none, and no other does; and a
/// digest that is there stands for itself.
pub proof fn law_digest_or_zero(digest: Digest32, zero: Digest32)
    requires
        forall|i: int| 0 <= i < 32 ==> zero.0@[i] == 0,
    ensures
        digest_or_zero(Some(digest)) == digest,
        digest_or_zero(None) == zero,
        zero_digest() == zero,
{
    assert(zero.is_zero());
    let other = zero_digest();
    assert(other.0 =~= zero.0);
}

/// A generation is followed by the next number.
pub proof fn law_next_generation(generation: Generation)
    requires
        generation.0 < u64::MAX,
    ensures
        generation.succ().0 == generation.0 + 1,
{
}

/// The view of a reference shows each of its fields.
pub proof fn law_view_of_a_reference(context: InferenceContextRef)
    ensures
        context@.abi_version == context.abi_version,
        context@.context_id == context.context_id,
        context@.branch_id == context.branch_id,
        context@.generation == context.generation,
        context@.model == context.model,
        context@.tokenizer == context.tokenizer,
        context@.kv_format.format_version == context.kv_format.format_version,
        context@.kv_format.dtype == context.kv_format.dtype@,
        context@.logical_state_digest == context.logical_state_digest,
        context@.token_count == context.token_count,
        context@.lineage == context.lineage,
        context@.isolation == context.isolation,
        context@.recovery == context.recovery,
        context@.binding is Some <==> context.binding is Some,
        context.binding matches Some(binding) ==> {
            &&& context@.binding->0.engine_id == binding.engine_id@
            &&& context@.binding->0.runtime_epoch == binding.runtime_epoch
            &&& context@.binding->0.binding_id == binding.binding_id
            &&& context@.binding->0.lease_generation == binding.lease_generation
        },
{
}

/// The view of a request shows what it asks for: on which context, after which texts, how much.
pub proof fn law_view_of_a_request(request: InferenceRequest)
    ensures
        request@.request_id == request.request_id,
        request@.max_tokens == request.max_tokens,
        request@.contents.len() == request.messages@.len(),
        forall|i: int|
            0 <= i < request.messages@.len() ==> #[trigger] request@.contents[i]
                == request.messages@[i].content@,
        request@.context is Some <==> request.context is Some,
        request.context matches Some(context) ==> request@.context == Some(context@),
{
}

/// The view of an answer shows each of its fields.
pub proof fn law_view_of_an_answer(answer: InferenceResponse)
    ensures
        answer@.request_id == answer.request_id,
        answer@.content == answer.content@,
        answer@.finish_reason == answer.finish_reason@,
        answer@.prompt_tokens == answer.prompt_tokens,
        answer@.completion_tokens == answer.completion_tokens,
        answer@.context is Some <==> answer.context is Some,
        answer.context matches Some(context) ==> answer@.context == Some(context@),
{
}

/// The view of an error shows which it is and what it says.
pub proof fn law_view_of_an_error(error: InferenceError)
    ensures
        match error {
            InferenceError::ContextNotFound(id) => error@ == ErrorView::ContextNotFound(id),
            InferenceError::StaleGeneration { expected, actual } => error@
                == ErrorView::StaleGeneration { expected, actual },
            InferenceError::StaleRuntimeEpoch => error@ == ErrorView::StaleRuntimeEpoch,
            InferenceError::Internal(message) => error@ == ErrorView::Internal(message@),
        },
{
}

/// The view of a receipt shows each of its fields.
pub proof fn law_view_of_a_receipt(receipt: BranchContextReceipt)
    ensures
        receipt@.operation_id == receipt.operation_id,
        receipt@.child_context == receipt.child_context@,
        receipt@.shared_pages == receipt.shared_pages,
        receipt@.copied_pages == receipt.copied_pages,
        receipt@.lease_expires_at_monotonic == receipt.lease_expires_at_monotonic,
{
}

/// The view of a branch shows each of its fields.
pub proof fn law_view_of_a_branch(branch: BranchState)
    ensures
        branch@.handle == branch.handle,
        branch@.branch_id == branch.branch_id,
        branch@.context_id == branch.context_id,
        branch@.generation == branch.generation,
        branch@.token_count == branch.token_count,
        branch@.tokens == branch.tokens@,
        branch@.logical_state_digest == branch.logical_state_digest,
        branch@.recipe_ref == branch.recipe_ref,
        branch@.isolation == branch.isolation,
        branch@.lineage == branch.lineage,
        branch@.rebuilt == branch.rebuilt,
{
}

/// The view of a context that is to become active shows each of its fields.
pub proof fn law_view_of_a_pending_context(pending: PendingContext)
    ensures
        pending@.handle == pending.handle,
        pending@.branch_id == pending.branch_id,
        pending@.context_id == pending.context_id,
        pending@.domain_id == pending.domain_id,
        pending@.tokens == pending.tokens@,
        pending@.recipe_ref == pending.recipe_ref,
        pending@.domain == pending.domain,
{
}

/// The view of a recipe shows its identifier, its root prompt and the delta of each branch.
pub proof fn law_view_of_a_recipe(recipe: ContextRecipe, id: Uuid)
    ensures
        recipe@.recipe_id == recipe.recipe_id,
        recipe@.root_prompt_tokens == recipe.root_prompt_tokens@,
        recipe@.branch_deltas.contains_key(id) <==> recipe.branch_deltas@.contains_key(id),
        recipe@.branch_deltas.contains_key(id) ==> recipe@.branch_deltas[id]
            == recipe.branch_deltas@[id]@,
{
}

/// The view of what a request asks the engine for, of what came of it, and of how it goes on, shows
/// which it is and what it holds.
pub proof fn law_view_of_a_request_under_way(call: EngineCall, reply: EngineReply, step: InferStep)
    ensures
        match call {
            EngineCall::AppendBranchTokens { handle, tokens } => call@
                == (CallView::AppendBranchTokens { handle, tokens: tokens@ }),
            EngineCall::DecodeBranchStep { handle } => call@ == (CallView::DecodeBranchStep {
                handle,
            }),
            EngineCall::GenerateTokens { seq_id, prompt_tokens, max_tokens } => call@ == (
            CallView::GenerateTokens { seq_id, prompt_tokens: prompt_tokens@, max_tokens }),
            EngineCall::Sha256 { bytes } => call@ == (CallView::Sha256 { bytes: bytes@ }),
        },
        match reply {
            EngineReply::Appended(Ok(_)) => reply@ == ReplyView::Appended(Ok(())),
            EngineReply::Appended(Err(e)) => reply@ == ReplyView::Appended(Err(e@)),
            EngineReply::Decoded(Ok(token)) => reply@ == ReplyView::Decoded(Ok(token)),
            EngineReply::Decoded(Err(e)) => reply@ == ReplyView::Decoded(Err(e@)),
            EngineReply::Generated(Ok(tokens)) => reply@ == ReplyView::Generated(Ok(tokens@)),
            EngineReply::Generated(Err(e)) => reply@ == ReplyView::Generated(Err(e@)),
            EngineReply::Digested(digest) => reply@ == ReplyView::Digested(digest),
        },
        match step {
            InferStep::Call(asked, session) => step@ == StepView::Call(asked@, session@),
            InferStep::Done(Ok(answer)) => step@ == StepView::Done(Ok(answer@)),
            InferStep::Done(Err(error)) => step@ == StepView::Done(Err(error@)),
        },
{
}

/// The view of what a fork asks the engine for, of what came of it, and of how it goes on, shows
/// which it is and what it holds.
pub proof fn law_view_of_a_fork_under_way(call: ForkCall, reply: ForkReply, step: ForkStep)
    ensures
        match call {
            ForkCall::CreateContext { tokens } => call@ == (ForkCallView::CreateContext {
                tokens: tokens@,
            }),
            ForkCall::ForkContext { handle } => call@ == (ForkCallView::ForkContext { handle }),
            ForkCall::GetUsageReceipt { handle } => call@ == (ForkCallView::GetUsageReceipt {
                handle,
            }),
        },
        match reply {
            ForkReply::Created(Ok(handle)) => reply@ == ForkReplyView::Created(Ok(handle)),
            ForkReply::Created(Err(e)) => reply@ == ForkReplyView::Created(Err(e@)),
            ForkReply::Forked(Ok(handle)) => reply@ == ForkReplyView::Forked(Ok(handle)),
            ForkReply::Forked(Err(e)) => reply@ == ForkReplyView::Forked(Err(e@)),
            ForkReply::Measured(Ok(usage)) => reply@ == ForkReplyView::Measured(Ok(usage)),
            ForkReply::Measured(Err(e)) => reply@ == ForkReplyView::Measured(Err(e@)),
        },
        match step {
            ForkStep::Call(asked, session) => step@ == ForkStepView::Call(asked@, session@),
            ForkStep::Done(Ok(receipt)) => step@ == ForkStepView::Done(Ok(receipt@)),
            ForkStep::Done(Err(error)) => step@ == ForkStepView::Done(Err(error@)),
        },
{
}

/// The view of a file of a store's directory shows the extension of its name and what reading it
/// gave.
pub proof fn law_view_of_a_file(entry: StorageEntry)
    ensures
        entry@.extension is Some <==> entry.extension is Some,
        entry.extension matches Some(e) ==> entry@.extension == Some(e@),
        match entry.file {
            RecipeFile::Unreadable => entry@.file == RecipeFileView::Unreadable,
            RecipeFile::Malformed(reason) => entry@.file == RecipeFileView::Malformed(reason@),
            RecipeFile::Parsed(recipe) => entry@.file == RecipeFileView::Parsed(recipe@),
        },
{
}

/// The view of what is asked to resolve a reference, of what came of it, and of how it goes on,
/// shows which it is and what it holds.
pub proof fn law_view_of_a_reference_being_resolved(
    call: StoreCall,
    file: RecipeFile,
    reply: StoreReply,
    step: ResolveStep,
    error: RecipeError,
)
    ensures
        match call {
            StoreCall::ReadFile { file_name } => call@ == (StoreCallView::ReadFile {
                file_name: file_name@,
            }),
            StoreCall::DigestRecipe { recipe } => call@ == (StoreCallView::DigestRecipe {
                recipe: recipe@,
            }),
        },
        match file {
            RecipeFile::Unreadable => file@ == RecipeFileView::Unreadable,
            RecipeFile::Malformed(reason) => file@ == RecipeFileView::Malformed(reason@),
            RecipeFile::Parsed(recipe) => file@ == RecipeFileView::Parsed(recipe@),
        },
        match reply {
            StoreReply::Read(read) => reply@ == StoreReplyView::Read(read@),
            StoreReply::Digested(canonical) => reply@ == StoreReplyView::Digested(canonical),
        },
        match step {
            ResolveStep::Call(asked, session) => step@ == ResolveStepView::Call(asked@, session@),
            ResolveStep::Done(Ok(recipe)) => step@ == ResolveStepView::Done(Ok(recipe@)),
            ResolveStep::Done(Err(reason)) => step@ == ResolveStepView::Done(Err(reason@)),
        },
        match error {
            RecipeError::NotInStore(id) => error@ == RecipeErrorView::NotInStore(id),
            RecipeError::NotInStoreOrDisk(id) => error@ == RecipeErrorView::NotInStoreOrDisk(id),
            RecipeError::Unparsable(reason) => error@ == RecipeErrorView::Unparsable(reason@),
            RecipeError::DigestMismatch { expected, actual } => error@
                == (RecipeErrorView::DigestMismatch { expected, actual }),
        },
{
}

} // verus!
