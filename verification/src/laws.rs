//! Laws that hold of the ledger as a whole. Each one is stated over the
//! same mathematical functions that the contracts of the library use.

use crate::blockchain::{
    campaign_after_action, campaign_ids, campaigns_after_action, empty_shard, has_campaign,
    lemma_heartbeat_keeps_members_apart, new_campaign, node_ids, ready_to_seal, record_outcome,
    sealing_block, seals, shard_after_record, shard_with_member, shard_with_new_campaign,
    shard_with_pending, shard_with_upsert, IdeologyRange, StanceShardView,
    DEFAULT_CAMPAIGN_DURATION, DEFAULT_CAMPAIGN_GOAL,
};
use crate::builder::{built_from, can_build_on, next_index};
use crate::coordinator::{
    lemma_labels_kept, lemma_user_token_valid, matching_labels, point_of, polis_did_of, registered, route_keys,
    shard_labels, shards_after_record, shards_record_outcome, shards_with_member, user_keys,
    PolisProtocolView,
};
use crate::hashing::{i64_le_bytes, str_bytes, u64_le_bytes};
use crate::merkle::{
    leaf_hashes, merkle_fold, merkle_level, merkle_pair, merkle_root_of, zero_hash,
};
use crate::text::{
    distinct, index_of, lemma_index_of_found, lemma_index_of_range, lemma_str_bytes_injective,
};
use crate::types::{
    action_hash, all_proofs_valid, block_hash, block_preimage, block_verifies, chain_linked,
    chain_tail, diverted_sum, empty_state, lemma_append_keeps_links, proof_token_valid,
    state_accepts, state_with_block, verified_prefix, ActionType, CampaignStateView,
    CampaignStatus, DecentralizedPoliticianStateView, ImpactActionView, PolisBlockView,
};
use vstd::bytes::lemma_auto_spec_u64_to_from_le_bytes;
use vstd::prelude::*;
use vstd::utf8::{is_ascii_chars, is_ascii_chars_encode_utf8};

verus! {

/// Range containment: a label is among the labels that a point is routed to
/// exactly if some shard carries the label and its region holds the point.
pub proof fn law_range_containment(shards: Seq<StanceShardView>, point: Seq<i32>, label: Seq<char>)
    ensures
        matching_labels(shards, point).contains(label) <==> exists|i: int|
            0 <= i < shards.len() && (#[trigger] shards[i]).shard_id == label
                && shards[i].ideology_range.holds_point(point),
    decreases shards.len(),
{
    if shards.len() > 0 {
        let before = shards.drop_last();
        let last = shards.last();
        law_range_containment(before, point, label);
        let found = matching_labels(shards, point);
        let found_before = matching_labels(before, point);
        if found.contains(label) {
            let k = choose|k: int| 0 <= k < found.len() && found[k] == label;
            if k < found_before.len() {
                assert(found_before[k] == label);
                assert(found_before.contains(label));
                let i = choose|i: int|
                    0 <= i < before.len() && (#[trigger] before[i]).shard_id == label
                        && before[i].ideology_range.holds_point(point);
                assert(shards[i] == before[i]);
            } else {
                assert(shards[shards.len() - 1] == last);
            }
        }
        if exists|i: int|
            0 <= i < shards.len() && (#[trigger] shards[i]).shard_id == label
                && shards[i].ideology_range.holds_point(point) {
            let i = choose|i: int|
                0 <= i < shards.len() && (#[trigger] shards[i]).shard_id == label
                    && shards[i].ideology_range.holds_point(point);
            if i < before.len() {
                assert(before[i] == shards[i]);
                assert(found_before.contains(label));
                let k = choose|k: int| 0 <= k < found_before.len() && found_before[k] == label;
                assert(found[k] == label);
            } else {
                assert(found[found.len() - 1] == label);
            }
        }
    }
}

/// The bounds of a region belong to it: a point each of whose coordinates
/// is the least or the greatest of its axis lies inside, as long as no axis
/// of the region is empty.
pub proof fn law_bounds_inclusive(r: IdeologyRange, economic: int, social: int, diplomatic: int)
    requires
        r.economic_min <= r.economic_max,
        r.social_min <= r.social_max,
        r.diplomatic_min <= r.diplomatic_max,
        economic == r.economic_min || economic == r.economic_max,
        social == r.social_min || social == r.social_max,
        diplomatic == r.diplomatic_min || diplomatic == r.diplomatic_max,
    ensures
        r.holds(economic, social, diplomatic),
{
}

/// The content hash of an action depends on identity, kind, target, value
/// and time alone: two actions that agree on these hash alike, whatever
/// their proof tokens and identifiers are.
pub proof fn law_hash_ignores_proof_and_id(a: ImpactActionView, b: ImpactActionView)
    requires
        a.user_did == b.user_did,
        a.action_type == b.action_type,
        a.target_entity == b.target_entity,
        a.value_diverted == b.value_diverted,
        a.timestamp == b.timestamp,
    ensures
        action_hash(a) == action_hash(b),
{
}

/// The Merkle root of no actions is 64 zeros.
pub proof fn law_merkle_empty()
    ensures
        merkle_root_of(Seq::empty()) == zero_hash(),
        zero_hash().len() == 64,
        forall|i: int| 0 <= i < 64 ==> zero_hash()[i] == '0',
{
    reveal_strlit("0000000000000000000000000000000000000000000000000000000000000000");
}

/// The Merkle root of one action is that action's content hash.
pub proof fn law_merkle_single(a: ImpactActionView)
    ensures
        merkle_root_of(seq![a]) == action_hash(a),
{
}

/// The Merkle root of two actions is the parent of their content hashes.
pub proof fn law_merkle_two(a: ImpactActionView, b: ImpactActionView)
    ensures
        merkle_root_of(seq![a, b]) == merkle_pair(action_hash(a), action_hash(b)),
{
    let leaves = leaf_hashes(seq![a, b]);
    assert(merkle_level(leaves) =~= seq![merkle_pair(action_hash(a), action_hash(b))]);
    reveal_with_fuel(merkle_fold, 2);
}

/// The node without a neighbour is carried up as it is: the Merkle root of
/// three actions is the parent of the first two's parent and the third's
/// content hash itself.
pub proof fn law_merkle_odd_carry(a: ImpactActionView, b: ImpactActionView, c: ImpactActionView)
    ensures
        merkle_root_of(seq![a, b, c]) == merkle_pair(
            merkle_pair(action_hash(a), action_hash(b)),
            action_hash(c),
        ),
{
    let leaves = leaf_hashes(seq![a, b, c]);
    let above = seq![merkle_pair(action_hash(a), action_hash(b)), action_hash(c)];
    assert(merkle_level(leaves) =~= above);
    assert(merkle_level(above) =~= seq![merkle_pair(above[0], above[1])]);
    reveal_with_fuel(merkle_fold, 3);
}

/// A state after a list of blocks was handed to it one after the other; a
/// block that the state does not accept is left out.
pub open spec fn state_after_blocks(
    s: DecentralizedPoliticianStateView,
    blocks: Seq<PolisBlockView>,
) -> DecentralizedPoliticianStateView
    decreases blocks.len(),
{
    if blocks.len() == 0 {
        s
    } else {
        let before = state_after_blocks(s, blocks.drop_last());
        if state_accepts(before, blocks.last()) {
            state_with_block(before, blocks.last())
        } else {
            before
        }
    }
}

/// Hash-chain integrity: whatever blocks are handed to an empty state, the
/// chain that results is hash-linked.
pub proof fn law_chain_stays_linked(blocks: Seq<PolisBlockView>)
    ensures
        chain_linked(state_after_blocks(empty_state(), blocks).blockchain),
    decreases blocks.len(),
{
    if blocks.len() > 0 {
        law_chain_stays_linked(blocks.drop_last());
        let before = state_after_blocks(empty_state(), blocks.drop_last());
        if state_accepts(before, blocks.last()) {
            lemma_append_keeps_links(before, blocks.last());
        }
    }
}

/// A block that does not name the hash of the block before it is rejected.
pub proof fn law_broken_link_rejected(b: PolisBlockView, prev: PolisBlockView)
    requires
        b.previous_hash != prev.hash,
    ensures
        !block_verifies(b, Some(prev)),
{
}

/// A block whose stored hash is not the hash of its fields is rejected,
/// whatever stands before it.
pub proof fn law_stale_hash_rejected(b: PolisBlockView, prev: Option<PolisBlockView>)
    requires
        b.hash != block_hash(b),
    ensures
        !block_verifies(b, prev),
{
}

/// Two byte strings that become equal when the same bytes are written
/// before and behind them are equal.
proof fn lemma_concat_cancel(before: Seq<u8>, x: Seq<u8>, y: Seq<u8>, behind: Seq<u8>)
    requires
        before + x + behind == before + y + behind,
    ensures
        x == y,
{
    let left = before + x + behind;
    let right = before + y + behind;
    assert(left.len() == before.len() + x.len() + behind.len());
    assert(right.len() == before.len() + y.len() + behind.len());
    assert(x.len() == y.len());
    assert forall|i: int| 0 <= i < x.len() implies x[i] == y[i] by {
        assert(left[before.len() + i] == x[i]);
        assert(right[before.len() + i] == y[i]);
    }
    assert(x =~= y);
}

/// Different numbers have different bytes.
proof fn lemma_u64_bytes_differ(x: u64, y: u64)
    requires
        x != y,
    ensures
        u64_le_bytes(x) != u64_le_bytes(y),
{
    lemma_auto_spec_u64_to_from_le_bytes();
}

/// Different signed numbers have different bit patterns.
proof fn lemma_i64_bits_differ(x: i64, y: i64)
    requires
        x != y,
    ensures
        x as u64 != y as u64,
{
    assert(x as u64 != y as u64) by (bit_vector)
        requires
            x != y,
    ;
}

/// The bytes under a block's hash change with every single field that they
/// are made of: of two blocks that differ in exactly one of height, time,
/// previous hash, Merkle root and strength, the bytes differ.
pub proof fn law_preimage_binds_fields(a: PolisBlockView, b: PolisBlockView)
    requires
        (if a.index != b.index {
            1int
        } else {
            0int
        }) + (if a.timestamp != b.timestamp {
            1int
        } else {
            0int
        }) + (if a.previous_hash != b.previous_hash {
            1int
        } else {
            0int
        }) + (if a.merkle_root != b.merkle_root {
            1int
        } else {
            0int
        }) + (if a.union_strength != b.union_strength {
            1int
        } else {
            0int
        }) == 1,
    ensures
        block_preimage(a) != block_preimage(b),
{
    let i = u64_le_bytes(a.index);
    let t = i64_le_bytes(a.timestamp);
    let p = str_bytes(a.previous_hash);
    let m = str_bytes(a.merkle_root);
    let s = u64_le_bytes(a.union_strength);
    let none = Seq::<u8>::empty();
    if block_preimage(a) == block_preimage(b) {
        if a.index != b.index {
            lemma_u64_bytes_differ(a.index, b.index);
            assert(none + i + (t + p + m + s) =~= block_preimage(a));
            assert(none + u64_le_bytes(b.index) + (t + p + m + s) =~= block_preimage(b));
            lemma_concat_cancel(none, i, u64_le_bytes(b.index), t + p + m + s);
        } else if a.timestamp != b.timestamp {
            lemma_i64_bits_differ(a.timestamp, b.timestamp);
            lemma_u64_bytes_differ(a.timestamp as u64, b.timestamp as u64);
            assert(i + t + (p + m + s) =~= block_preimage(a));
            assert(i + i64_le_bytes(b.timestamp) + (p + m + s) =~= block_preimage(b));
            lemma_concat_cancel(i, t, i64_le_bytes(b.timestamp), p + m + s);
        } else if a.previous_hash != b.previous_hash {
            assert((i + t) + p + (m + s) =~= block_preimage(a));
            assert((i + t) + str_bytes(b.previous_hash) + (m + s) =~= block_preimage(b));
            lemma_concat_cancel(i + t, p, str_bytes(b.previous_hash), m + s);
            lemma_str_bytes_injective(a.previous_hash, b.previous_hash);
        } else if a.merkle_root != b.merkle_root {
            assert((i + t + p) + m + s =~= block_preimage(a));
            assert((i + t + p) + str_bytes(b.merkle_root) + s =~= block_preimage(b));
            lemma_concat_cancel(i + t + p, m, str_bytes(b.merkle_root), s);
            lemma_str_bytes_injective(a.merkle_root, b.merkle_root);
        } else {
            lemma_u64_bytes_differ(a.union_strength, b.union_strength);
            assert((i + t + p + m) + s + none =~= block_preimage(a));
            assert((i + t + p + m) + u64_le_bytes(b.union_strength) + none =~= block_preimage(b));
            lemma_concat_cancel(i + t + p + m, s, u64_le_bytes(b.union_strength), none);
        }
    }
}

/// Campaign threshold: an active campaign that is one participant short of
/// its goal is achieved after one more action, and an active campaign that
/// is further away stays active.
pub proof fn law_campaign_threshold(c: CampaignStateView, value: u64, now: i64)
    requires
        c.status == CampaignStatus::Active,
    ensures
        c.verified_participants_count + 1 >= c.goal_participants ==> campaign_after_action(
            c,
            value,
            now,
        ).status == CampaignStatus::Achieved,
        c.verified_participants_count + 1 < c.goal_participants ==> campaign_after_action(
            c,
            value,
            now,
        ).status == CampaignStatus::Active,
{
}

/// An action never moves a campaign out of a status other than active: what
/// is achieved stays achieved, and an action neither expires nor pauses a
/// campaign nor brings one back.
pub proof fn law_campaign_one_way(c: CampaignStateView, value: u64, now: i64)
    requires
        c.status != CampaignStatus::Active,
    ensures
        campaign_after_action(c, value, now).status == c.status,
{
}

/// For a proof token of ASCII characters, bytes and characters are the same
/// thing: the token is accepted exactly if it is not empty and starts with
/// the vouched-for prefix or has at least 32 characters.
pub proof fn law_ascii_proof_token(token: Seq<char>)
    requires
        is_ascii_chars(token),
    ensures
        proof_token_valid(token) <==> token.len() > 0 && (verified_prefix().is_prefix_of(token)
            || token.len() >= 32),
{
    reveal_strlit("firebase_verified_");
    let prefix = verified_prefix();
    is_ascii_chars_encode_utf8(token);
    is_ascii_chars_encode_utf8(prefix);
    let token_bytes = str_bytes(token);
    let prefix_bytes = str_bytes(prefix);
    if prefix.len() <= token.len() {
        if prefix_bytes.is_prefix_of(token_bytes) {
            assert forall|i: int| 0 <= i < prefix.len() implies prefix[i] == token[i] by {
                assert(prefix_bytes[i] == token_bytes.subrange(0, prefix_bytes.len() as int)[i]);
                assert(prefix[i] as u8 == token[i] as u8);
                lemma_ascii_char_of_byte(prefix[i], token[i]);
            }
            assert(prefix =~= token.subrange(0, prefix.len() as int));
        }
        if prefix.is_prefix_of(token) {
            assert forall|i: int| 0 <= i < prefix_bytes.len() implies prefix_bytes[i]
                == token_bytes[i] by {
                assert(prefix[i] == token.subrange(0, prefix.len() as int)[i]);
            }
            assert(prefix_bytes =~= token_bytes.subrange(0, prefix_bytes.len() as int));
        }
    }
}

/// Two ASCII characters with the same byte are the same character.
proof fn lemma_ascii_char_of_byte(a: char, b: char)
    requires
        a <= '\u{7f}',
        b <= '\u{7f}',
        a as u8 == b as u8,
    ensures
        a == b,
{
    let x = a as u32;
    let y = b as u32;
    assert(x == y) by (bit_vector)
        requires
            x <= 0x7f,
            y <= 0x7f,
            x as u8 == y as u8,
    ;
    vstd::utf8::char_u32_cast(a, x);
    vstd::utf8::char_u32_cast(b, y);
}

/// The proof token that the coordinator writes for a user is accepted.
pub proof fn law_user_token_valid(firebase_uid: Seq<char>)
    ensures
        proof_token_valid(verified_prefix() + firebase_uid),
{
    lemma_user_token_valid(firebase_uid);
}

/// A sealing block that fails the integrity check is absorbed: the action is
/// taken all the same, its campaign is counted, the pool keeps everything
/// that was pending and the action behind it, and chain and totals stay as
/// they were.
pub proof fn law_failed_seal_is_absorbed(
    s: StanceShardView,
    a: ImpactActionView,
    producer: Seq<char>,
    now: i64,
)
    requires
        proof_token_valid(a.zk_proof),
        !seals(s, a, producer, now),
    ensures
        record_outcome(s, a, producer, now) is Ok,
        shard_after_record(s, a, producer, now) == shard_with_pending(
            shard_with_upsert(s, a.target_entity, a.value_diverted, now),
            a,
        ),
        shard_after_record(s, a, producer, now).pending_actions == s.pending_actions.push(a),
        shard_after_record(s, a, producer, now).state.blockchain == s.state.blockchain,
        shard_after_record(s, a, producer, now).state.total_union_strength
            == s.state.total_union_strength,
        shard_after_record(s, a, producer, now).state.total_capital_diverted
            == s.state.total_capital_diverted,
{
}

/// A pool that holds an action with a refused proof token never seals: the
/// block built from it fails the integrity check.
pub proof fn law_bad_pool_never_seals(
    s: StanceShardView,
    a: ImpactActionView,
    producer: Seq<char>,
    now: i64,
    k: int,
)
    requires
        0 <= k < s.pending_actions.len(),
        !proof_token_valid(s.pending_actions[k].zk_proof),
    ensures
        !seals(s, a, producer, now),
{
    let block = sealing_block(s, a, producer, now);
    assert(block.actions[k] == s.pending_actions[k]);
}

/// A shard that is ready to seal takes every action with an accepted proof
/// token: the action and what was pending are sealed into one block, one
/// above the chain's last block or at height zero, the block joins the
/// chain, and the pool is empty afterwards.
pub proof fn law_ready_shard_records(
    s: StanceShardView,
    a: ImpactActionView,
    producer: Seq<char>,
    now: i64,
)
    requires
        ready_to_seal(s),
        proof_token_valid(a.zk_proof),
    ensures
        record_outcome(s, a, producer, now) is Ok,
        shard_after_record(s, a, producer, now).state.blockchain == s.state.blockchain.push(
            sealing_block(s, a, producer, now),
        ),
        sealing_block(s, a, producer, now).actions == s.pending_actions.push(a),
        sealing_block(s, a, producer, now).index == next_index(chain_tail(s.state.blockchain)),
        shard_after_record(s, a, producer, now).pending_actions.len() == 0,
        all_proofs_valid(shard_after_record(s, a, producer, now).pending_actions),
{
    let block = sealing_block(s, a, producer, now);
    let pool = s.pending_actions.push(a);
    assert(block.actions == pool);
    assert forall|i: int| 0 <= i < pool.len() implies proof_token_valid(
        #[trigger] pool[i].zk_proof,
    ) by {
        if i < s.pending_actions.len() {
            assert(pool[i] == s.pending_actions[i]);
        }
    }
    let unsigned = PolisBlockView { hash: Seq::empty(), ..block };
    assert(block_preimage(block) == block_preimage(unsigned));
    assert(block_verifies(block, chain_tail(s.state.blockchain)));
}

/// Blocks that a shard builds and appends itself stand at the heights that
/// their places in the chain give them: if every block of a chain stands at
/// its place, so does the block that is sealed next.
pub proof fn law_sealed_heights_are_gapless(
    s: StanceShardView,
    a: ImpactActionView,
    producer: Seq<char>,
    now: i64,
)
    requires
        forall|i: int|
            0 <= i < s.state.blockchain.len() ==> (#[trigger] s.state.blockchain[i]).index == i,
        s.state.blockchain.len() < u64::MAX,
    ensures
        sealing_block(s, a, producer, now).index == s.state.blockchain.len(),
{
    if s.state.blockchain.len() > 0 {
        assert(s.state.blockchain.last() == s.state.blockchain[s.state.blockchain.len() - 1]);
    }
}

/// Whether a chain is in order from its first block on: it is hash-linked,
/// every block stands at the height of its place, and the first block names
/// 64 zeros as the hash before it.
pub open spec fn chain_in_order(chain: Seq<PolisBlockView>) -> bool {
    &&& chain_linked(chain)
    &&& forall|i: int| 0 <= i < chain.len() ==> (#[trigger] chain[i]).index == i
    &&& chain.len() > 0 ==> chain[0].previous_hash == zero_hash()
}

/// A round of recording keeps a chain in order: in a shard whose chain is in
/// order and whose pending actions all carry accepted proof tokens, an
/// action with an accepted token is taken, the chain is one block longer,
/// and it is in order again. The chain of a fresh shard is in order, so this
/// holds of every chain that rounds of recording have built.
pub proof fn law_round_keeps_chain_in_order(
    s: StanceShardView,
    a: ImpactActionView,
    producer: Seq<char>,
    now: i64,
)
    requires
        chain_in_order(s.state.blockchain),
        all_proofs_valid(s.pending_actions),
        s.state.blockchain.len() < u64::MAX,
        proof_token_valid(a.zk_proof),
    ensures
        chain_in_order(empty_state().blockchain),
        record_outcome(s, a, producer, now) is Ok,
        shard_after_record(s, a, producer, now).state.blockchain.len()
            == s.state.blockchain.len() + 1,
        s.state.blockchain.is_prefix_of(shard_after_record(s, a, producer, now).state.blockchain),
        chain_in_order(shard_after_record(s, a, producer, now).state.blockchain),
        all_proofs_valid(shard_after_record(s, a, producer, now).pending_actions),
{
    let chain = s.state.blockchain;
    if chain.len() > 0 {
        assert(chain.last() == chain[chain.len() - 1]);
    }
    law_ready_shard_records(s, a, producer, now);
    law_sealed_heights_are_gapless(s, a, producer, now);
    let block = sealing_block(s, a, producer, now);
    let after = shard_after_record(s, a, producer, now).state.blockchain;
    assert(after == chain.push(block));
    lemma_append_keeps_links(s.state, block);
    assert(after.subrange(0, chain.len() as int) =~= chain);
    assert forall|i: int| 0 <= i < after.len() implies (#[trigger] after[i]).index == i by {
        if i < chain.len() {
            assert(after[i] == chain[i]);
        }
    }
    if chain.len() > 0 {
        assert(after[0] == chain[0]);
    }
}

/// What one recorded action adds to a shard that is ready to seal and has
/// nothing pending: one block, one unit of strength, the action's value, and
/// in the campaign of its target one participant and the action's value.
pub proof fn law_record_counts(s: StanceShardView, a: ImpactActionView, producer: Seq<char>, now: i64)
    requires
        ready_to_seal(s),
        s.pending_actions.len() == 0,
        proof_token_valid(a.zk_proof),
    ensures
        ({
            let after = shard_after_record(s, a, producer, now);
            let before_i = index_of(campaign_ids(s.state.active_campaigns), a.target_entity);
            let i = index_of(campaign_ids(after.state.active_campaigns), a.target_entity);
            let counted = after.state.active_campaigns[i];
            &&& after.state.blockchain.len() == s.state.blockchain.len() + 1
            &&& after.state.total_union_strength == s.state.total_union_strength + 1
            &&& after.state.total_capital_diverted == s.state.total_capital_diverted
                + a.value_diverted
            &&& after.pending_actions.len() == 0
            &&& i < after.state.active_campaigns.len()
            &&& i == before_i
            &&& if has_campaign(s, a.target_entity) {
                let old_campaign = s.state.active_campaigns[i];
                &&& after.state.active_campaigns.len() == s.state.active_campaigns.len()
                &&& counted.verified_participants_count
                    == old_campaign.verified_participants_count + 1
                &&& counted.total_capital_diverted == old_campaign.total_capital_diverted
                    + a.value_diverted
            } else {
                &&& after.state.active_campaigns.len() == s.state.active_campaigns.len() + 1
                &&& counted.verified_participants_count == 1
                &&& counted.total_capital_diverted == a.value_diverted
            }
        }),
{
    law_ready_shard_records(s, a, producer, now);
    let pool = s.pending_actions.push(a);
    assert(pool =~= seq![a]);
    assert(pool.drop_last() =~= Seq::<ImpactActionView>::empty());
    assert(diverted_sum(pool) == a.value_diverted) by {
        reveal_with_fuel(diverted_sum, 2);
    }
    let ids = campaign_ids(s.state.active_campaigns);
    lemma_index_of_range(ids, a.target_entity);
    let created = if has_campaign(s, a.target_entity) {
        s
    } else {
        shard_with_new_campaign(
            s,
            a.target_entity,
            DEFAULT_CAMPAIGN_GOAL,
            DEFAULT_CAMPAIGN_DURATION,
            now,
        )
    };
    let created_ids = campaign_ids(created.state.active_campaigns);
    if !has_campaign(s, a.target_entity) {
        assert(created_ids =~= ids.push(a.target_entity));
        lemma_index_of_found(created_ids, a.target_entity, ids.len() as int);
    }
    lemma_index_of_range(created_ids, a.target_entity);
    let after = shard_after_record(s, a, producer, now);
    assert(campaign_ids(after.state.active_campaigns) =~= created_ids);
}

/// Multi-homing: an action recorded for an identity with two shards is
/// recorded in each of the two as it would be in that shard alone, and no
/// other shard changes.
pub proof fn law_multi_homing(
    shards: Seq<StanceShardView>,
    first: Seq<char>,
    second: Seq<char>,
    a: ImpactActionView,
    producer: Seq<char>,
    now: i64,
)
    requires
        first != second,
        index_of(shard_labels(shards), first) < shards.len(),
        index_of(shard_labels(shards), second) < shards.len(),
        proof_token_valid(a.zk_proof),
    ensures
        ({
            let i = index_of(shard_labels(shards), first);
            let j = index_of(shard_labels(shards), second);
            let after = shards_after_record(shards, seq![first, second], a, producer, now);
            &&& i != j
            &&& after.len() == shards.len()
            &&& after[i] == shard_after_record(shards[i], a, producer, now)
            &&& after[j] == shard_after_record(shards[j], a, producer, now)
            &&& forall|k: int| 0 <= k < shards.len() && k != i && k != j ==> after[k] == shards[k]
            &&& shards_record_outcome(shards, seq![first, second], a, producer, now) is Ok
        }),
{
    let labels = seq![first, second];
    let i = index_of(shard_labels(shards), first);
    let j = index_of(shard_labels(shards), second);
    lemma_index_of_range(shard_labels(shards), first);
    lemma_index_of_range(shard_labels(shards), second);
    let next = shards.update(i, shard_after_record(shards[i], a, producer, now));
    lemma_labels_kept(shards, i, shard_after_record(shards[i], a, producer, now));
    assert(labels.drop_first() =~= seq![second]);
    assert(seq![second].drop_first() =~= Seq::<Seq<char>>::empty());
    reveal_with_fuel(shards_after_record, 3);
    reveal_with_fuel(shards_record_outcome, 3);
}

/// Empty routing, first half: a user whose point lies in no region is
/// registered with an empty list of shards, and no shard changes.
pub proof fn law_register_outside_every_region(
    p: PolisProtocolView,
    firebase_uid: Seq<char>,
    display_name: Seq<char>,
    coordinates: (i32, i32, i32),
    now: i64,
)
    requires
        forall|i: int|
            0 <= i < p.shards.len() ==> !(#[trigger] p.shards[i]).ideology_range.holds_point(
                point_of(coordinates),
            ),
    ensures
        registered(p, firebase_uid, display_name, coordinates, now).shards == p.shards,
        registered(p, firebase_uid, display_name, coordinates, now).knows(firebase_uid),
        registered(p, firebase_uid, display_name, coordinates, now).route_of(
            polis_did_of(firebase_uid),
        ) == Seq::<Seq<char>>::empty(),
{
    let point = point_of(coordinates);
    let labels = matching_labels(p.shards, point);
    if labels.len() > 0 {
        law_range_containment(p.shards, point, labels[0]);
        assert(labels.contains(labels[0]));
    }
    assert(labels =~= Seq::empty());
    let after = registered(p, firebase_uid, display_name, coordinates, now);
    let did = polis_did_of(firebase_uid);
    let users_before = user_keys(p.firebase_users);
    let users_after = user_keys(after.firebase_users);
    lemma_index_of_range(users_before, firebase_uid);
    if index_of(users_before, firebase_uid) < users_before.len() {
        assert(users_after =~= users_before);
    } else {
        assert(users_after =~= users_before.push(firebase_uid));
    }
    lemma_upsert_found(users_before, users_after, firebase_uid);
    let routes_before = route_keys(p.user_routes);
    let routes_after = route_keys(after.user_routes);
    lemma_index_of_range(routes_before, did);
    if index_of(routes_before, did) < routes_before.len() {
        assert(routes_after =~= routes_before);
    } else {
        assert(routes_after =~= routes_before.push(did));
    }
    lemma_upsert_found(routes_before, routes_after, did);
}

/// After a key was stored in a keyed list, the key is found where it was
/// before or, if it was new, at the end.
proof fn lemma_upsert_found(before: Seq<Seq<char>>, after: Seq<Seq<char>>, key: Seq<char>)
    requires
        ({
            let i = index_of(before, key);
            if i < before.len() {
                after == before
            } else {
                after == before.push(key)
            }
        }),
    ensures
        index_of(after, key) == index_of(before, key),
        index_of(after, key) < after.len(),
{
    let i = index_of(before, key);
    lemma_index_of_range(before, key);
    if i >= before.len() {
        lemma_index_of_found(after, key, before.len() as int);
    }
}

/// Empty routing, second half: recording an action for a registered user
/// without shards succeeds and changes no shard; only the user's count of
/// actions goes up.
pub proof fn law_record_without_shards(
    p: PolisProtocolView,
    firebase_uid: Seq<char>,
    action_type: ActionType,
    target: Seq<char>,
    value: u64,
    now: i64,
    action_id: Seq<char>,
)
    requires
        p.knows(firebase_uid),
        p.route_of(p.firebase_users[p.user_index(firebase_uid)].polis_did).len() == 0,
    ensures
        p.record_outcome(firebase_uid) is Ok,
        p.after_record(firebase_uid, action_type, target, value, now, action_id).shards
            == p.shards,
        p.after_record(firebase_uid, action_type, target, value, now, action_id).user_routes
            == p.user_routes,
{
}

/// Counting an action for a campaign, and creating the campaign first where
/// it is missing, keeps the campaigns' identifiers distinct.
pub proof fn law_upsert_keeps_campaigns_apart(
    s: StanceShardView,
    target: Seq<char>,
    value: u64,
    now: i64,
)
    requires
        s.wf(),
    ensures
        shard_with_upsert(s, target, value, now).wf(),
        has_campaign(shard_with_upsert(s, target, value, now), target),
{
    let ids = campaign_ids(s.state.active_campaigns);
    lemma_index_of_range(ids, target);
    let created = if has_campaign(s, target) {
        s
    } else {
        shard_with_new_campaign(s, target, DEFAULT_CAMPAIGN_GOAL, DEFAULT_CAMPAIGN_DURATION, now)
    };
    let created_ids = campaign_ids(created.state.active_campaigns);
    if !has_campaign(s, target) {
        assert(created_ids =~= ids.push(target));
        lemma_index_of_found(created_ids, target, ids.len() as int);
    }
    lemma_index_of_range(created_ids, target);
    let after = campaigns_after_action(created.state.active_campaigns, target, value, now);
    assert(campaign_ids(after) =~= created_ids);
}

/// Recording an action keeps a shard's lists free of doubles.
pub proof fn law_record_keeps_shard_well_formed(
    s: StanceShardView,
    a: ImpactActionView,
    producer: Seq<char>,
    now: i64,
)
    requires
        s.wf(),
    ensures
        shard_after_record(s, a, producer, now).wf(),
        shard_after_record(s, a, producer, now).shard_id == s.shard_id,
        shard_after_record(s, a, producer, now).nodes == s.nodes,
{
    law_upsert_keeps_campaigns_apart(s, a.target_entity, a.value_diverted, now);
}

/// A member of a shard stays a member through the heartbeats of others and
/// its own.
proof fn lemma_member_stays(
    shards: Seq<StanceShardView>,
    labels: Seq<Seq<char>>,
    node_id: Seq<char>,
    is_online: bool,
    now: i64,
    i: int,
)
    requires
        0 <= i < shards.len(),
        index_of(node_ids(shards[i].nodes), node_id) < shards[i].nodes.len(),
    ensures
        shards_with_member(shards, labels, node_id, is_online, now).len() == shards.len(),
        ({
            let after = shards_with_member(shards, labels, node_id, is_online, now)[i];
            index_of(node_ids(after.nodes), node_id) < after.nodes.len()
        }),
    decreases labels.len(),
{
    if labels.len() > 0 {
        let j = index_of(shard_labels(shards), labels[0]);
        let next = if j < shards.len() {
            shards.update(j, shard_with_member(shards[j], node_id, is_online, now))
        } else {
            shards
        };
        lemma_index_of_range(shard_labels(shards), labels[0]);
        if j == i {
            lemma_heartbeat_keeps_members_apart(shards[j], node_id, is_online, now);
        }
        lemma_member_stays(next, labels.drop_first(), node_id, is_online, now, i);
    }
}

/// After heartbeats of one member in the named shards, every named shard
/// that exists lists the member.
pub proof fn law_heartbeats_reach_every_named_shard(
    shards: Seq<StanceShardView>,
    labels: Seq<Seq<char>>,
    node_id: Seq<char>,
    is_online: bool,
    now: i64,
    k: int,
)
    requires
        0 <= k < labels.len(),
        index_of(shard_labels(shards), labels[k]) < shards.len(),
    ensures
        shards_with_member(shards, labels, node_id, is_online, now).len() == shards.len(),
        shard_labels(shards_with_member(shards, labels, node_id, is_online, now))
            == shard_labels(shards),
        ({
            let i = index_of(shard_labels(shards), labels[k]);
            let after = shards_with_member(shards, labels, node_id, is_online, now)[i];
            index_of(node_ids(after.nodes), node_id) < after.nodes.len()
        }),
    decreases labels.len(),
{
    crate::coordinator::lemma_members_keep_labels(shards, labels, node_id, is_online, now);
    let names = shard_labels(shards);
    let j = index_of(names, labels[0]);
    lemma_index_of_range(names, labels[0]);
    let next = if j < shards.len() {
        shards.update(j, shard_with_member(shards[j], node_id, is_online, now))
    } else {
        shards
    };
    if j < shards.len() {
        lemma_labels_kept(shards, j, shard_with_member(shards[j], node_id, is_online, now));
    }
    let whole = shards_with_member(shards, labels, node_id, is_online, now);
    assert(whole.len() == shards.len()) by {
        assert(shard_labels(whole).len() == whole.len());
        assert(names.len() == shards.len());
    }
    if k == 0 {
        lemma_heartbeat_keeps_members_apart(shards[j], node_id, is_online, now);
        lemma_member_stays(next, labels.drop_first(), node_id, is_online, now, j);
    } else {
        assert(labels.drop_first()[k - 1] == labels[k]);
        law_heartbeats_reach_every_named_shard(
            next,
            labels.drop_first(),
            node_id,
            is_online,
            now,
            k - 1,
        );
    }
}

/// The routing table and the shards agree after a registration: every shard
/// that the user's routing entry names lists the user as a member.
pub proof fn law_registration_is_consistent(
    p: PolisProtocolView,
    firebase_uid: Seq<char>,
    display_name: Seq<char>,
    coordinates: (i32, i32, i32),
    now: i64,
    k: int,
)
    requires
        0 <= k < matching_labels(p.shards, point_of(coordinates)).len(),
    ensures
        ({
            let after = registered(p, firebase_uid, display_name, coordinates, now);
            let did = polis_did_of(firebase_uid);
            let label = after.route_of(did)[k];
            &&& after.route_of(did) == matching_labels(p.shards, point_of(coordinates))
            &&& after.has_shard(label)
            &&& index_of(node_ids(after.shards[after.shard_index(label)].nodes), did)
                < after.shards[after.shard_index(label)].nodes.len()
        }),
{
    let after = registered(p, firebase_uid, display_name, coordinates, now);
    let did = polis_did_of(firebase_uid);
    let labels = matching_labels(p.shards, point_of(coordinates));
    let routes_before = route_keys(p.user_routes);
    let routes_after = route_keys(after.user_routes);
    lemma_index_of_range(routes_before, did);
    if index_of(routes_before, did) < routes_before.len() {
        assert(routes_after =~= routes_before);
    } else {
        assert(routes_after =~= routes_before.push(did));
    }
    lemma_upsert_found(routes_before, routes_after, did);
    assert(after.route_of(did) == labels);
    law_range_containment(p.shards, point_of(coordinates), labels[k]);
    assert(labels.contains(labels[k]));
    let i = choose|i: int|
        0 <= i < p.shards.len() && (#[trigger] p.shards[i]).shard_id == labels[k]
            && p.shards[i].ideology_range.holds_point(point_of(coordinates));
    assert(shard_labels(p.shards)[i] == labels[k]);
    lemma_index_of_range(shard_labels(p.shards), labels[k]);
    law_heartbeats_reach_every_named_shard(p.shards, labels, did, true, now, k);
}

/// The bytes under a block's hash determine the fields that they are made
/// of: two blocks with the same bytes, whose previous hashes are equally
/// long, agree on height, time, previous hash, Merkle root and strength.
pub proof fn law_preimage_determines_fields(a: PolisBlockView, b: PolisBlockView)
    requires
        block_preimage(a) == block_preimage(b),
        str_bytes(a.previous_hash).len() == str_bytes(b.previous_hash).len(),
    ensures
        a.index == b.index,
        a.timestamp == b.timestamp,
        a.previous_hash == b.previous_hash,
        a.merkle_root == b.merkle_root,
        a.union_strength == b.union_strength,
{
    lemma_auto_spec_u64_to_from_le_bytes();
    let whole = block_preimage(a);
    let other = block_preimage(b);
    let (ia, ib) = (u64_le_bytes(a.index), u64_le_bytes(b.index));
    let (ta, tb) = (i64_le_bytes(a.timestamp), i64_le_bytes(b.timestamp));
    let (pa, pb) = (str_bytes(a.previous_hash), str_bytes(b.previous_hash));
    let (ma, mb) = (str_bytes(a.merkle_root), str_bytes(b.merkle_root));
    let (sa, sb) = (u64_le_bytes(a.union_strength), u64_le_bytes(b.union_strength));
    assert(whole.len() == 8 + 8 + pa.len() + ma.len() + 8);
    assert(other.len() == 8 + 8 + pb.len() + mb.len() + 8);
    assert(ia =~= whole.subrange(0, 8));
    assert(ib =~= other.subrange(0, 8));
    assert(ta =~= whole.subrange(8, 16));
    assert(tb =~= other.subrange(8, 16));
    let p_end: int = 16 + pa.len() as int;
    let m_end: int = p_end + ma.len() as int;
    assert(pb.len() == pa.len() && mb.len() == ma.len());
    assert(pa =~= whole.subrange(16, p_end));
    assert(pb =~= other.subrange(16, p_end));
    assert(ma =~= whole.subrange(p_end, m_end));
    assert(mb =~= other.subrange(p_end, m_end));
    assert(sa =~= whole.subrange(m_end, m_end + 8));
    assert(sb =~= other.subrange(m_end, m_end + 8));
    if a.index != b.index {
        lemma_u64_bytes_differ(a.index, b.index);
    }
    if a.timestamp != b.timestamp {
        lemma_i64_bits_differ(a.timestamp, b.timestamp);
        lemma_u64_bytes_differ(a.timestamp as u64, b.timestamp as u64);
    }
    if a.union_strength != b.union_strength {
        lemma_u64_bytes_differ(a.union_strength, b.union_strength);
    }
    lemma_str_bytes_injective(a.previous_hash, b.previous_hash);
    lemma_str_bytes_injective(a.merkle_root, b.merkle_root);
}

/// What the builder builds, the verifier accepts: a block built from a pool
/// of actions with accepted proof tokens passes the integrity check against
/// the block that it was built behind.
pub proof fn law_built_block_verifies(
    pool: Seq<ImpactActionView>,
    prev: Option<PolisBlockView>,
    validator: Seq<char>,
    now: i64,
)
    requires
        all_proofs_valid(pool),
        can_build_on(prev),
        pool.len() <= u64::MAX,
    ensures
        block_verifies(built_from(pool, prev, validator, now), prev),
        built_from(pool, prev, validator, now).index == next_index(prev),
        built_from(pool, prev, validator, now).union_strength == pool.len(),
        built_from(pool, prev, validator, now).actions == pool,
{
    let block = built_from(pool, prev, validator, now);
    let unsigned = PolisBlockView { hash: Seq::empty(), ..block };
    assert(block_preimage(block) == block_preimage(unsigned));
}

/// The first action in a fresh shard: its campaign is created with the
/// default goal and duration and counts one participant and the action's
/// value; the action is sealed alone into the block at height zero; and the
/// shard's totals are one block's strength and the action's value.
pub proof fn law_first_action_in_fresh_shard(
    shard_id: Seq<char>,
    range: IdeologyRange,
    a: ImpactActionView,
    producer: Seq<char>,
    now: i64,
)
    requires
        proof_token_valid(a.zk_proof),
    ensures
        ({
            let fresh = empty_shard(shard_id, range);
            let after = shard_after_record(fresh, a, producer, now);
            let block = built_from(seq![a], None, producer, now);
            &&& record_outcome(fresh, a, producer, now) is Ok
            &&& after.state.active_campaigns == seq![
                campaign_after_action(
                    new_campaign(
                        a.target_entity,
                        DEFAULT_CAMPAIGN_GOAL,
                        DEFAULT_CAMPAIGN_DURATION as nat,
                        now,
                    ),
                    a.value_diverted,
                    now,
                ),
            ]
            &&& after.state.active_campaigns[0].verified_participants_count == 1
            &&& after.state.active_campaigns[0].total_capital_diverted == a.value_diverted
            &&& after.state.active_campaigns[0].status == CampaignStatus::Active
            &&& after.state.blockchain == seq![block]
            &&& block.index == 0
            &&& block.actions == seq![a]
            &&& after.pending_actions.len() == 0
            &&& after.state.total_union_strength == 1
            &&& after.state.total_capital_diverted == a.value_diverted
        }),
{
    let fresh = empty_shard(shard_id, range);
    let after = shard_after_record(fresh, a, producer, now);
    let pool = fresh.pending_actions.push(a);
    assert(pool =~= seq![a]);
    assert(all_proofs_valid(pool));
    law_built_block_verifies(pool, None, producer, now);
    let ids = campaign_ids(fresh.state.active_campaigns);
    assert(ids =~= Seq::empty());
    let created = shard_with_new_campaign(
        fresh,
        a.target_entity,
        DEFAULT_CAMPAIGN_GOAL,
        DEFAULT_CAMPAIGN_DURATION,
        now,
    );
    let created_ids = campaign_ids(created.state.active_campaigns);
    assert(created_ids =~= seq![a.target_entity]);
    lemma_index_of_found(created_ids, a.target_entity, 0);
    assert(after.state.active_campaigns =~= seq![
        campaign_after_action(
            new_campaign(
                a.target_entity,
                DEFAULT_CAMPAIGN_GOAL,
                DEFAULT_CAMPAIGN_DURATION as nat,
                now,
            ),
            a.value_diverted,
            now,
        ),
    ]);
    assert(after.state.blockchain =~= seq![built_from(seq![a], None, producer, now)]);
    assert(seq![a].drop_last() =~= Seq::<ImpactActionView>::empty());
    assert(diverted_sum(seq![a]) == a.value_diverted) by {
        reveal_with_fuel(diverted_sum, 2);
    }
}

} // verus!
