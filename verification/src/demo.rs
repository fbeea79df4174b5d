//! The receipt of a run of the copy-on-write demonstration, and the numbers that go into it.

use vstd::prelude::*;

verus! {

/// What a run of the demonstration used, measured and verified.
#[derive(Debug, PartialEq, Eq)]
pub struct ExecutionReceipt {
    pub demo_version: String,
    pub dependency_shas: DependencyShas,
    pub hardware: HardwareDescriptor,
    pub runtime: RuntimeDescriptor,
    pub measurements: Measurements,
    pub invariants_verified: Vec<String>,
    pub receipt_digest: String,
}

/// The revisions of the parts.
#[derive(Debug, PartialEq, Eq)]
pub struct DependencyShas {
    pub aien_protocols: String,
    pub aegis_runtime: String,
    pub aien_sovereign_core: String,
    pub aien_local_stack: String,
}

/// The machine.
#[derive(Debug, PartialEq, Eq)]
pub struct HardwareDescriptor {
    pub architecture: String,
    pub kernel: String,
    pub memory_kind: String,
    pub peak_rss_kb: i64,
}

/// The engine.
#[derive(Debug, PartialEq, Eq)]
pub struct RuntimeDescriptor {
    pub engine_id: String,
    pub backend: String,
    pub is_hardware_accelerated: bool,
    pub kv_dtype: String,
    pub block_size: usize,
}

/// Latencies in microseconds, and what forking saved.
#[derive(Clone, Copy, Debug, PartialEq, Eq, Structural)]
pub struct Measurements {
    pub prefill_latency_us: u128,
    pub fork_latency_avg_us: u128,
    pub branch_0_step_us: u128,
    pub branch_1_step_us: u128,
    pub zero_copy_merge_us: u128,
    pub recipe_reconstruction_us: u128,
    pub total_cow_faults: usize,
    pub bytes_saved_vs_full_copy: usize,
}

/// The names of what a run verifies.
pub open spec fn verified_names() -> Seq<Seq<char>> {
    seq![
        "flat_zero_copy_branch_fork"@,
        "isolated_tail_page_cow_fault"@,
        "untouched_sibling_block_sharing"@,
        "branch_delta_state_divergence"@,
        "zero_copy_logical_merge_select_branch"@,
        "stale_runtime_epoch_rejection"@,
        "durable_recipe_hash_verification"@,
        "post_crash_logical_state_digest_parity"@,
    ]
}

impl ExecutionReceipt {
    /// The receipt of a run before it is digested.
    pub fn undigested(
        dependency_shas: DependencyShas,
        hardware: HardwareDescriptor,
        runtime: RuntimeDescriptor,
        measurements: Measurements,
    ) -> (receipt: ExecutionReceipt)
        ensures
            receipt.demo_version@ == "1.1.0"@,
            receipt.dependency_shas == dependency_shas,
            receipt.hardware == hardware,
            receipt.runtime == runtime,
            receipt.measurements == measurements,
            receipt.invariants_verified@.map_values(|name: String| name@) == verified_names(),
            receipt.receipt_digest@ == Seq::<char>::empty(),
    {
        let mut names: Vec<String> = Vec::new();
        names.push("flat_zero_copy_branch_fork".to_string());
        names.push("isolated_tail_page_cow_fault".to_string());
        names.push("untouched_sibling_block_sharing".to_string());
        names.push("branch_delta_state_divergence".to_string());
        names.push("zero_copy_logical_merge_select_branch".to_string());
        names.push("stale_runtime_epoch_rejection".to_string());
        names.push("durable_recipe_hash_verification".to_string());
        names.push("post_crash_logical_state_digest_parity".to_string());
        assert(names@.map_values(|name: String| name@) =~= verified_names());
        ExecutionReceipt {
            demo_version: "1.1.0".to_string(),
            dependency_shas,
            hardware,
            runtime,
            measurements,
            invariants_verified: names,
            receipt_digest: String::new(),
        }
    }

    /// The receipt under its digest.
    pub fn with_digest(self, digest_hex: String) -> (receipt: ExecutionReceipt)
        ensures
            receipt == (ExecutionReceipt { receipt_digest: digest_hex, ..self }),
    {
        let mut receipt = self;
        receipt.receipt_digest = digest_hex;
        receipt
    }
}

/// The prompt of the demonstration: forty tokens, the first seven times one, the next seven times
/// two and so on, in a vocabulary of 256.
pub fn demo_prompt_tokens() -> (tokens: Vec<u32>)
    ensures
        tokens@ == Seq::new(40, |i: int| (((i + 1) * 7) % 256) as u32),
{
    let mut tokens: Vec<u32> = Vec::new();
    let mut x: u32 = 1;
    while x <= 40
        invariant
            1 <= x <= 41,
            tokens@ == Seq::new((x - 1) as nat, |i: int| (((i + 1) * 7) % 256) as u32),
        decreases 41 - x,
    {
        tokens.push((x * 7) % 256);
        assert(tokens@ =~= Seq::new(x as nat, |i: int| (((i + 1) * 7) % 256) as u32));
        x = x + 1;
    }
    tokens
}

/// The average of the latencies of the three forks.
pub fn average_fork_latency(first: u128, second: u128, third: u128) -> (average: u128)
    requires
        first + second + third <= u128::MAX,
    ensures
        average == (first + second + third) / 3,
{
    (first + second + third) / 3
}

} // verus!
