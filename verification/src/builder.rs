//! Building a block from a pool of actions.

use crate::error::ProtocolError;
use crate::merkle::{merkle_root, merkle_root_of, zero_hash};
use crate::types::{
    action_views, block_hash, block_option_view, clone_actions_of, ImpactAction, ImpactActionView,
    PolisBlock, PolisBlockView,
};
use vstd::prelude::*;
use vstd::string::StringExecFns;

verus! {

/// Whether a block can be built behind `prev`: the height that follows
/// `prev`'s still fits its field.
pub open spec fn can_build_on(prev: Option<PolisBlockView>) -> bool {
    prev is Some ==> prev->0.index < u64::MAX
}

/// The height of a block behind `prev`: one above `prev`'s, and zero for a
/// first block.
pub open spec fn next_index(prev: Option<PolisBlockView>) -> nat {
    match prev {
        Some(p) => (p.index + 1) as nat,
        None => 0,
    }
}

/// The block that holds a pool of actions behind `prev`, built by
/// `validator` at time `now`. It names `prev`'s hash, or 64 zeros as a first
/// block, counts its actions as its strength, and carries the Merkle root of
/// the pool and the hash of its own fields.
pub open spec fn built_from(
    pool: Seq<ImpactActionView>,
    prev: Option<PolisBlockView>,
    validator: Seq<char>,
    now: i64,
) -> PolisBlockView {
    let unsigned = PolisBlockView {
        index: next_index(prev) as u64,
        timestamp: now,
        actions: pool,
        previous_hash: match prev {
            Some(p) => p.hash,
            None => zero_hash(),
        },
        union_strength: pool.len() as u64,
        merkle_root: merkle_root_of(pool),
        hash: Seq::empty(),
        validator,
    };
    PolisBlockView { hash: block_hash(unsigned), ..unsigned }
}

/// Builds the block that holds the whole pool behind `previous_block` at
/// time `now`. An empty pool gives no block. The pool itself is left as it
/// is, and so are all campaigns.
pub fn build_block(
    pool: &[ImpactAction],
    previous_block: Option<&PolisBlock>,
    validator: String,
    now: i64,
) -> (result: Result<PolisBlock, ProtocolError>)
    requires
        pool@.len() > 0 ==> can_build_on(block_option_view(previous_block)),
    ensures
        match result {
            Ok(block) => pool@.len() > 0 && block@ == built_from(
                action_views(pool@),
                block_option_view(previous_block),
                validator@,
                now,
            ),
            Err(e) => e == ProtocolError::EmptyPool && pool@.len() == 0,
        },
{
    if pool.len() == 0 {
        return Err(ProtocolError::EmptyPool);
    }
    let (index, previous_hash) = match previous_block {
        Some(prev) => (prev.index + 1, prev.hash.clone()),
        None => (
            0,
            String::from_str("0000000000000000000000000000000000000000000000000000000000000000"),
        ),
    };
    let mut block = PolisBlock {
        index,
        timestamp: now,
        actions: clone_actions_of(pool),
        previous_hash,
        union_strength: 0,
        merkle_root: merkle_root(pool),
        hash: String::new(),
        validator,
    };
    block.union_strength = block.calculate_strength();
    block.hash = block.calculate_hash();
    Ok(block)
}

} // verus!
