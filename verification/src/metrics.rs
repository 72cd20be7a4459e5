//! Whole-number figures behind the metrics.

use vstd::prelude::*;

verus! {

/// The bytes that one action is taken to need.
pub const BYTES_PER_ACTION: u64 = 200;

/// The bytes that one block is taken to need.
pub const BYTES_PER_BLOCK: u64 = 500;

/// A rough figure for the memory that a ledger needs: 200 bytes for every
/// action and 500 for every block.
pub open spec fn estimated_bytes_of(total_actions: u64, total_blocks: u64) -> nat {
    (total_actions * BYTES_PER_ACTION + total_blocks * BYTES_PER_BLOCK) as nat
}

/// A rough figure for the memory that a ledger needs, unless it is too great
/// for 64 bits.
pub fn estimated_bytes(total_actions: u64, total_blocks: u64) -> (result: Option<u64>)
    ensures
        match result {
            Some(bytes) => bytes == estimated_bytes_of(total_actions, total_blocks),
            None => estimated_bytes_of(total_actions, total_blocks) > u64::MAX,
        },
{
    match (total_actions.checked_mul(BYTES_PER_ACTION), total_blocks.checked_mul(BYTES_PER_BLOCK)) {
        (Some(actions), Some(blocks)) => actions.checked_add(blocks),
        _ => None,
    }
}

} // verus!
