use polis_protocol::blockchain::{
    IdeologyRange, StanceShard, DEFAULT_CAMPAIGN_DURATION, DEFAULT_CAMPAIGN_GOAL,
};
use polis_protocol::builder::build_block;
use polis_protocol::error::ProtocolError;
use polis_protocol::merkle::merkle_root;
use polis_protocol::types::{ActionType, CampaignStatus, ImpactAction};

const VALID: &str = "zkproof_simulated_abc123def456789xyz0123456789abcdef";

fn range() -> IdeologyRange {
    IdeologyRange {
        economic_min: -50,
        economic_max: 50,
        social_min: 0,
        social_max: 100,
        diplomatic_min: -100,
        diplomatic_max: 100,
    }
}

fn shard() -> StanceShard {
    StanceShard::new("shard-a".to_string(), range())
}

fn action(user: &str, target: &str, value: u64, proof: &str) -> ImpactAction {
    ImpactAction {
        user_did: user.to_string(),
        action_type: ActionType::Boycott,
        target_entity: target.to_string(),
        value_diverted: value,
        zk_proof: proof.to_string(),
        timestamp: 1700000000,
        action_id: "id".to_string(),
    }
}

#[test]
fn test_ideology_range() {
    let range = IdeologyRange {
        economic_min: -50,
        economic_max: 50,
        social_min: 0,
        social_max: 100,
        diplomatic_min: -100,
        diplomatic_max: 100,
    };

    assert!(range.contains(&[0, 50, 0]));
    assert!(!range.contains(&[-60, 50, 0]));
}

#[test]
fn test_shard_creation() {
    let range = IdeologyRange {
        economic_min: -100,
        economic_max: -50,
        social_min: 50,
        social_max: 100,
        diplomatic_min: 0,
        diplomatic_max: 100,
    };

    let shard = StanceShard::new("green-energy-2025".to_string(), range);
    assert_eq!(shard.shard_id, "green-energy-2025");
    assert_eq!(shard.state.height(), 0);
}

#[test]
fn range_includes_its_bounds_on_every_axis() {
    let r = range();
    assert!(r.contains(&[-50, 0, -100]));
    assert!(r.contains(&[50, 100, 100]));
    assert!(r.contains(&[-50, 100, 0]));
    assert!(!r.contains(&[-51, 0, 0]));
    assert!(!r.contains(&[51, 0, 0]));
    assert!(!r.contains(&[0, -1, 0]));
    assert!(!r.contains(&[0, 101, 0]));
    assert!(!r.contains(&[0, 0, -101]));
    assert!(!r.contains(&[0, 0, 101]));
}

#[test]
fn range_with_crossed_bounds_holds_nothing() {
    let mut r = range();
    r.economic_min = 10;
    r.economic_max = 5;
    assert!(!r.contains(&[7, 50, 0]));
    assert!(!r.contains(&[10, 50, 0]));
    assert!(!r.contains(&[5, 50, 0]));
}

#[test]
fn new_shard_has_nothing_in_it() {
    let s = shard();
    assert!(s.pending_actions.is_empty());
    assert!(s.nodes.is_empty());
    assert!(s.state.blockchain.is_empty());
    assert!(s.state.active_campaigns.is_empty());
    assert_eq!(s.ideology_range, range());
    let stats = s.get_stats();
    assert_eq!(stats.shard_id, "shard-a");
    assert_eq!(stats.block_height, 0);
    assert_eq!(stats.online_nodes, 0);
    assert_eq!(stats.total_union_strength, 0);
    assert_eq!(stats.total_capital_diverted, 0);
    assert_eq!(stats.active_campaigns_count, 0);
    assert_eq!(stats.pending_actions_count, 0);
}

#[test]
fn pool_takes_valid_actions_and_refuses_invalid_ones() {
    let mut s = shard();
    assert_eq!(s.add_pending_action(action("u", "ACME", 1, VALID)), Ok(()));
    assert_eq!(
        s.add_pending_action(action("u", "ACME", 1, "short")),
        Err(ProtocolError::InvalidProof)
    );
    assert_eq!(s.add_pending_action(action("u", "ACME", 1, "")), Err(ProtocolError::InvalidProof));
    assert_eq!(s.pending_actions.len(), 1);
}

#[test]
fn pool_does_not_remove_duplicates() {
    let mut s = shard();
    assert_eq!(s.add_pending_action(action("u", "ACME", 1, VALID)), Ok(()));
    assert_eq!(s.add_pending_action(action("u", "ACME", 1, VALID)), Ok(()));
    assert_eq!(s.pending_actions.len(), 2);
}

#[test]
fn producing_from_an_empty_pool_fails() {
    let mut s = shard();
    assert_eq!(s.produce_block("v".to_string()).err(), Some(ProtocolError::EmptyPool));
    assert_eq!(s.produce_block_at("v".to_string(), 5).err(), Some(ProtocolError::EmptyPool));
    assert_eq!(s.state.height(), 0);
}

#[test]
fn produced_block_holds_the_pool_and_links_to_nothing() {
    let mut s = shard();
    s.add_pending_action(action("u1", "ACME", 10, VALID)).unwrap();
    s.add_pending_action(action("u2", "ACME", 20, VALID)).unwrap();
    let expected_root = s.calculate_merkle_root(&s.pending_actions);
    let block = s.produce_block_at("validator".to_string(), 1700000500).unwrap();
    assert_eq!(block.index, 0);
    assert_eq!(block.timestamp, 1700000500);
    assert_eq!(block.previous_hash, "0".repeat(64));
    assert_eq!(block.union_strength, 2);
    assert_eq!(block.actions.len(), 2);
    assert_eq!(block.actions[0].user_did, "u1");
    assert_eq!(block.actions[1].user_did, "u2");
    assert_eq!(block.merkle_root, expected_root);
    assert_eq!(block.hash, block.calculate_hash());
    assert_eq!(block.validator, "validator");
    // the pool is emptied, the chain is not touched
    assert!(s.pending_actions.is_empty());
    assert_eq!(s.state.height(), 0);
    assert!(block.verify(None));
}

#[test]
fn produced_block_carries_the_time_of_production() {
    let mut s = shard();
    s.add_pending_action(action("u1", "ACME", 10, VALID)).unwrap();
    let before = chrono::Utc::now().timestamp();
    let block = s.produce_block("validator".to_string()).unwrap();
    let after = chrono::Utc::now().timestamp();
    assert!(before <= block.timestamp && block.timestamp <= after);
}

#[test]
fn chain_of_produced_blocks_is_hash_linked() {
    let mut s = shard();
    for n in 0..5u64 {
        s.add_pending_action(action("u", "ACME", n, VALID)).unwrap();
        let block = s.produce_block_at("v".to_string(), 1700000000 + n as i64).unwrap();
        assert_eq!(block.index, n);
        assert_eq!(s.add_block(block), Ok(()));
    }
    assert_eq!(s.state.height(), 5);
    assert_eq!(s.state.total_union_strength, 5);
    assert_eq!(s.state.total_capital_diverted, 0 + 1 + 2 + 3 + 4);
    let chain = &s.state.blockchain;
    assert_eq!(chain[0].previous_hash, "0".repeat(64));
    for i in 1..chain.len() {
        assert_eq!(chain[i].previous_hash, chain[i - 1].hash);
        assert_eq!(chain[i].index, chain[i - 1].index + 1);
        assert!(chain[i].verify(Some(&chain[i - 1])));
    }
}

#[test]
fn shard_rejects_a_tampered_block_and_keeps_its_totals() {
    let mut s = shard();
    s.add_pending_action(action("u", "ACME", 7, VALID)).unwrap();
    let block = s.produce_block_at("v".to_string(), 1).unwrap();
    s.add_block(block).unwrap();
    s.add_pending_action(action("u", "ACME", 9, VALID)).unwrap();
    let mut block = s.produce_block_at("v".to_string(), 2).unwrap();
    block.union_strength = 50;
    assert_eq!(s.add_block(block), Err(ProtocolError::VerificationFailed));
    assert_eq!(s.state.height(), 1);
    assert_eq!(s.state.total_union_strength, 1);
    assert_eq!(s.state.total_capital_diverted, 7);
}

#[test]
fn heartbeat_adds_a_member_and_counts_who_is_online() {
    let mut s = shard();
    s.update_node_status_at("n1".to_string(), true, 100);
    s.update_node_status_at("n2".to_string(), true, 101);
    s.update_node_status_at("n3".to_string(), false, 102);
    assert_eq!(s.nodes.len(), 3);
    assert_eq!(s.state.online_nodes_count, 2);
    assert_eq!(s.nodes[0].node_id, "n1");
    assert!(s.nodes[0].is_online);
    assert_eq!(s.nodes[0].last_heartbeat_block, 0);
    assert_eq!(s.nodes[0].active_shards, vec!["shard-a".to_string()]);
    assert_eq!(s.nodes[0].reputation_score, 0);
    assert_eq!(s.nodes[0].last_updated, 100);
    // a second heartbeat changes the entry in place
    s.update_node_status_at("n1".to_string(), false, 200);
    assert_eq!(s.nodes.len(), 3);
    assert!(!s.nodes[0].is_online);
    assert_eq!(s.nodes[0].last_updated, 200);
    assert_eq!(s.state.online_nodes_count, 1);
    assert_eq!(s.find_node("n2"), 1);
    assert_eq!(s.find_node("nobody"), 3);
}

#[test]
fn heartbeat_notes_the_chain_height() {
    let mut s = shard();
    s.add_pending_action(action("u", "ACME", 7, VALID)).unwrap();
    let block = s.produce_block_at("v".to_string(), 1).unwrap();
    s.add_block(block).unwrap();
    s.update_node_status("n1".to_string(), true);
    assert_eq!(s.nodes[0].last_heartbeat_block, 1);
    assert_eq!(s.state.online_nodes_count, 1);
}

#[test]
fn campaign_is_created_once() {
    let mut s = shard();
    assert_eq!(s.create_campaign_at("ACME".to_string(), 10, 500, 1700000000), Ok(()));
    assert_eq!(
        s.create_campaign_at("ACME".to_string(), 20, 600, 1700000001),
        Err(ProtocolError::CampaignAlreadyExists)
    );
    assert_eq!(s.create_campaign("ACME".to_string(), 20, 600), Err(ProtocolError::CampaignAlreadyExists));
    assert_eq!(s.state.active_campaigns.len(), 1);
    let c = s.get_campaign_state("ACME").unwrap();
    assert_eq!(c.campaign_id, "ACME");
    assert_eq!(c.verified_participants_count, 0);
    assert_eq!(c.goal_participants, 10);
    assert_eq!(c.total_capital_diverted, 0);
    assert_eq!(c.end_block, 500);
    assert_eq!(c.action_proofs_root, "");
    assert_eq!(c.status, CampaignStatus::Active);
    assert_eq!(c.created_at, 1700000000);
    assert_eq!(c.last_updated, 1700000000);
    assert!(s.get_campaign_state("other").is_none());
    assert_eq!(s.find_campaign("ACME"), 0);
    assert_eq!(s.find_campaign("other"), 1);
}

#[test]
fn campaign_ends_above_the_present_height() {
    let mut s = shard();
    s.add_pending_action(action("u", "ACME", 7, VALID)).unwrap();
    let block = s.produce_block_at("v".to_string(), 1).unwrap();
    s.add_block(block).unwrap();
    s.create_campaign("c".to_string(), 10, 500).unwrap();
    assert_eq!(s.get_campaign_state("c").unwrap().end_block, 501);
}

#[test]
fn campaign_counts_actions_and_their_values() {
    let mut s = shard();
    s.create_campaign_at("ACME".to_string(), 10, 500, 1).unwrap();
    s.update_campaign_state_at("ACME".to_string(), &action("u", "ACME", 300, VALID), 2);
    s.update_campaign_state_at("ACME".to_string(), &action("u", "ACME", 200, VALID), 3);
    let c = s.get_campaign_state("ACME").unwrap();
    assert_eq!(c.verified_participants_count, 2);
    assert_eq!(c.total_capital_diverted, 500);
    assert_eq!(c.last_updated, 3);
    assert_eq!(c.created_at, 1);
    assert_eq!(c.status, CampaignStatus::Active);
}

#[test]
fn updating_a_missing_campaign_creates_it_with_the_defaults() {
    let mut s = shard();
    s.create_campaign_at("ACME".to_string(), 10, 500, 1).unwrap();
    s.update_campaign_state("other".to_string(), &action("u", "other", 300, VALID));
    assert_eq!(s.state.active_campaigns.len(), 2);
    assert_eq!(s.get_campaign_state("ACME").unwrap().verified_participants_count, 0);
    let c = s.get_campaign_state("other").unwrap();
    assert_eq!(c.campaign_id, "other");
    assert_eq!(c.goal_participants, 1000);
    assert_eq!(c.end_block, 10000);
    assert_eq!(c.status, CampaignStatus::Active);
    assert_eq!(c.verified_participants_count, 1);
    assert_eq!(c.total_capital_diverted, 300);
    assert!(c.created_at >= 0);
    assert_eq!(c.created_at, c.last_updated);
}

#[test]
fn campaign_is_achieved_by_the_action_that_reaches_the_goal() {
    let mut s = shard();
    s.create_campaign_at("ACME".to_string(), 3, 500, 1).unwrap();
    s.update_campaign_state_at("ACME".to_string(), &action("u", "ACME", 1, VALID), 2);
    s.update_campaign_state_at("ACME".to_string(), &action("u", "ACME", 1, VALID), 3);
    // one short of the goal
    assert_eq!(s.get_campaign_state("ACME").unwrap().verified_participants_count, 2);
    assert_eq!(s.get_campaign_state("ACME").unwrap().status, CampaignStatus::Active);
    s.update_campaign_state_at("ACME".to_string(), &action("u", "ACME", 1, VALID), 4);
    assert_eq!(s.get_campaign_state("ACME").unwrap().status, CampaignStatus::Achieved);
    // and stays achieved
    s.update_campaign_state_at("ACME".to_string(), &action("u", "ACME", 1, VALID), 5);
    assert_eq!(s.get_campaign_state("ACME").unwrap().status, CampaignStatus::Achieved);
    assert_eq!(s.get_campaign_state("ACME").unwrap().verified_participants_count, 4);
}

#[test]
fn paused_and_expired_campaigns_keep_their_status() {
    let mut s = shard();
    s.create_campaign_at("p".to_string(), 1, 500, 1).unwrap();
    s.create_campaign_at("e".to_string(), 1, 500, 1).unwrap();
    s.state.active_campaigns[0].status = CampaignStatus::Paused;
    s.state.active_campaigns[1].status = CampaignStatus::Expired;
    s.update_campaign_state_at("p".to_string(), &action("u", "p", 1, VALID), 2);
    s.update_campaign_state_at("e".to_string(), &action("u", "e", 1, VALID), 2);
    assert_eq!(s.get_campaign_state("p").unwrap().status, CampaignStatus::Paused);
    assert_eq!(s.get_campaign_state("e").unwrap().status, CampaignStatus::Expired);
    assert_eq!(s.get_campaign_state("p").unwrap().verified_participants_count, 1);
}

#[test]
fn first_action_for_a_target_creates_the_campaign_with_the_defaults() {
    let mut s = shard();
    s.update_campaign_state_at("ACME".to_string(), &action("u", "ACME", 5000, VALID), 77);
    let c = s.get_campaign_state("ACME").unwrap();
    assert_eq!(DEFAULT_CAMPAIGN_GOAL, 1000);
    assert_eq!(DEFAULT_CAMPAIGN_DURATION, 10000);
    assert_eq!(c.goal_participants, 1000);
    assert_eq!(c.end_block, 10000);
    assert_eq!(c.verified_participants_count, 1);
    assert_eq!(c.total_capital_diverted, 5000);
    assert_eq!(c.created_at, 77);
    s.update_campaign_state_at("ACME".to_string(), &action("u", "ACME", 1, VALID), 78);
    assert_eq!(s.state.active_campaigns.len(), 1);
    assert_eq!(s.get_campaign_state("ACME").unwrap().verified_participants_count, 2);
    assert_eq!(s.get_campaign_state("ACME").unwrap().last_updated, 78);
}

#[test]
fn recording_seals_every_action_into_its_own_block() {
    let mut s = shard();
    for n in 0..3u64 {
        assert!(s.can_record("ACME", 10 + n));
        let done = s.record_action_at(
            action("u", "ACME", 10 + n, "firebase_verified_u"),
            "u".to_string(),
            1700000000 + n as i64,
        );
        assert_eq!(done, Ok(()));
        assert!(s.pending_actions.is_empty());
    }
    assert_eq!(s.state.height(), 3);
    for (i, block) in s.state.blockchain.iter().enumerate() {
        assert_eq!(block.index, i as u64);
        assert_eq!(block.actions.len(), 1);
        assert_eq!(block.union_strength, 1);
        assert_eq!(block.validator, "u");
    }
    assert_eq!(s.state.total_union_strength, 3);
    assert_eq!(s.state.total_capital_diverted, 33);
    assert_eq!(s.get_campaign_state("ACME").unwrap().verified_participants_count, 3);
}

#[test]
fn recording_an_action_with_a_bad_proof_counts_it_but_does_not_seal_it() {
    let mut s = shard();
    let done = s.record_action_at(action("u", "ACME", 10, "short"), "u".to_string(), 1);
    assert_eq!(done, Err(ProtocolError::InvalidProof));
    assert_eq!(s.get_campaign_state("ACME").unwrap().verified_participants_count, 1);
    assert!(s.pending_actions.is_empty());
    assert_eq!(s.state.height(), 0);
}

#[test]
fn recording_builds_one_above_the_last_block_whatever_its_height() {
    let mut s = shard();
    // a first block that claims height 7 passes on its own
    s.add_pending_action(action("u", "ACME", 1, VALID)).unwrap();
    let mut block = s.produce_block_at("v".to_string(), 1).unwrap();
    block.index = 7;
    block.hash = block.calculate_hash();
    assert_eq!(s.add_block(block), Ok(()));
    let done = s.record_action_at(action("u", "ACME", 10, VALID), "u".to_string(), 2);
    assert_eq!(done, Ok(()));
    assert_eq!(s.state.height(), 2);
    assert_eq!(s.state.blockchain[1].index, 8);
    assert_eq!(s.state.blockchain[1].previous_hash, s.state.blockchain[0].hash);
}

#[test]
fn a_block_that_fails_its_check_is_absorbed_and_the_pool_keeps_the_action() {
    let mut s = shard();
    // an action that did not come through the door
    s.pending_actions.push(action("x", "ACME", 1, "short"));
    let done = s.record_action_at(action("u", "ACME", 10, VALID), "u".to_string(), 2);
    assert_eq!(done, Ok(()));
    // chain and totals stay as they were
    assert_eq!(s.state.height(), 0);
    assert_eq!(s.state.total_union_strength, 0);
    assert_eq!(s.state.total_capital_diverted, 0);
    // the pool keeps what was pending and the new action behind it
    assert_eq!(s.pending_actions.len(), 2);
    assert_eq!(s.pending_actions[0].user_did, "x");
    assert_eq!(s.pending_actions[1].user_did, "u");
    assert_eq!(s.pending_actions[1].value_diverted, 10);
    // the campaign counted the action all the same
    assert_eq!(s.get_campaign_state("ACME").unwrap().verified_participants_count, 1);
    assert_eq!(s.get_campaign_state("ACME").unwrap().total_capital_diverted, 10);
    // a later attempt, once the bad action is gone, seals everything that waited
    s.pending_actions.remove(0);
    let done = s.record_action_at(action("v", "ACME", 5, VALID), "v".to_string(), 3);
    assert_eq!(done, Ok(()));
    assert!(s.pending_actions.is_empty());
    assert_eq!(s.state.height(), 1);
    assert_eq!(s.state.blockchain[0].actions.len(), 2);
    assert_eq!(s.state.blockchain[0].actions[0].user_did, "u");
    assert_eq!(s.state.blockchain[0].actions[1].user_did, "v");
    assert_eq!(s.state.total_union_strength, 2);
    assert_eq!(s.state.total_capital_diverted, 15);
    assert_eq!(s.get_campaign_state("ACME").unwrap().verified_participants_count, 2);
}

#[test]
fn try_add_block_answers_for_every_block() {
    let mut s = shard();
    s.add_pending_action(action("u", "ACME", 7, VALID)).unwrap();
    let block = s.produce_block_at("v".to_string(), 1).unwrap();
    assert_eq!(s.try_add_block(block), Some(Ok(())));
    assert_eq!(s.state.height(), 1);
    // a block that does not link is refused
    s.add_pending_action(action("u", "ACME", 9, VALID)).unwrap();
    let mut block = s.produce_block_at("v".to_string(), 2).unwrap();
    let good = block.clone();
    block.previous_hash = "f".repeat(64);
    block.hash = block.calculate_hash();
    assert_eq!(s.try_add_block(block), Some(Err(ProtocolError::VerificationFailed)));
    assert_eq!(s.state.height(), 1);
    // a block that links but would carry a total too far is left out
    s.state.total_capital_diverted = u64::MAX - 8;
    assert_eq!(s.try_add_block(good.clone()), None);
    assert_eq!(s.state.height(), 1);
    assert_eq!(s.state.total_capital_diverted, u64::MAX - 8);
    s.state.total_capital_diverted = u64::MAX - 9;
    assert_eq!(s.state.try_add_block(good), Some(Ok(())));
    assert_eq!(s.state.height(), 2);
    assert_eq!(s.state.total_capital_diverted, u64::MAX);
    assert_eq!(s.state.blockchain[1].previous_hash, s.state.blockchain[0].hash);
}

#[test]
fn built_block_stands_one_above_the_previous_block() {
    let pool = vec![action("u1", "ACME", 10, VALID), action("u2", "ACME", 20, VALID)];
    let first = build_block(&pool, None, "v".to_string(), 100).unwrap();
    assert_eq!(first.index, 0);
    assert_eq!(first.previous_hash, "0".repeat(64));
    assert_eq!(first.timestamp, 100);
    assert_eq!(first.union_strength, 2);
    assert_eq!(first.merkle_root, merkle_root(&pool));
    assert_eq!(first.hash, first.calculate_hash());
    assert_eq!(first.validator, "v");
    assert_eq!(first.actions.len(), 2);
    let second = build_block(&pool[..1], Some(&first), "w".to_string(), 101).unwrap();
    assert_eq!(second.index, 1);
    assert_eq!(second.previous_hash, first.hash);
    assert_eq!(second.union_strength, 1);
    assert!(second.verify(Some(&first)));
    // the pool is left as it is
    assert_eq!(pool.len(), 2);
    assert_eq!(
        build_block(&[], Some(&first), "w".to_string(), 101).err(),
        Some(ProtocolError::EmptyPool)
    );
}

#[test]
fn shard_sees_when_counters_would_not_fit() {
    let mut s = shard();
    assert!(s.can_record("ACME", u64::MAX));
    s.create_campaign_at("ACME".to_string(), 3, 500, 1).unwrap();
    s.state.active_campaigns[0].total_capital_diverted = 1;
    assert!(!s.can_update_campaign("ACME", u64::MAX));
    assert!(s.can_update_campaign("ACME", u64::MAX - 1));
    assert!(s.can_update_campaign("other", u64::MAX));
    assert!(!s.can_record("ACME", u64::MAX));
    s.state.active_campaigns[0].total_capital_diverted = 0;
    s.state.active_campaigns[0].verified_participants_count = u64::MAX;
    assert!(!s.can_update_campaign("ACME", 0));
    s.state.active_campaigns[0].verified_participants_count = 0;
    s.state.total_capital_diverted = 10;
    assert!(!s.can_record("ACME", u64::MAX - 9));
    assert!(s.can_record("ACME", u64::MAX - 10));
    s.state.total_capital_diverted = 0;
    s.state.total_union_strength = u64::MAX;
    assert!(!s.can_record("ACME", 1));
    s.state.total_union_strength = 0;
    assert!(s.can_record("ACME", 1));
    // behind a block at the greatest height there is no room
    s.add_pending_action(action("u", "ACME", 1, VALID)).unwrap();
    let mut block = s.produce_block_at("v".to_string(), 1).unwrap();
    block.index = u64::MAX;
    block.hash = block.calculate_hash();
    assert!(s.can_add_block(&block));
    assert!(s.can_produce_block());
    s.add_block(block).unwrap();
    assert!(!s.can_produce_block());
    assert!(!s.can_record("ACME", 1));
    assert!(s.can_create_campaign(u64::MAX - 1));
    assert!(!s.can_create_campaign(u64::MAX));
}

#[test]
fn stats_report_the_shard() {
    let mut s = shard();
    s.update_node_status_at("n1".to_string(), true, 1);
    s.record_action_at(action("u", "ACME", 10, VALID), "u".to_string(), 2).unwrap();
    s.record_action_at(action("u", "Other", 5, VALID), "u".to_string(), 3).unwrap();
    s.add_pending_action(action("u", "ACME", 1, VALID)).unwrap();
    let stats = s.get_stats();
    assert_eq!(stats.shard_id, "shard-a");
    assert_eq!(stats.block_height, 2);
    assert_eq!(stats.online_nodes, 1);
    assert_eq!(stats.total_union_strength, 2);
    assert_eq!(stats.total_capital_diverted, 15);
    assert_eq!(stats.active_campaigns_count, 2);
    assert_eq!(stats.pending_actions_count, 1);
}

#[test]
fn try_update_counts_where_the_numbers_fit_and_never_turns_a_status_back() {
    let mut s = shard();
    assert!(s.try_update_campaign_state_at("ACME".to_string(), &action("u", "ACME", 5, VALID), 1));
    assert_eq!(s.get_campaign_state("ACME").unwrap().verified_participants_count, 1);
    s.state.active_campaigns[0].goal_participants = 2;
    assert!(s.try_update_campaign_state_at("ACME".to_string(), &action("u", "ACME", 5, VALID), 2));
    assert_eq!(s.get_campaign_state("ACME").unwrap().status, CampaignStatus::Achieved);
    assert!(s.try_update_campaign_state_at("ACME".to_string(), &action("u", "ACME", 5, VALID), 3));
    assert_eq!(s.get_campaign_state("ACME").unwrap().status, CampaignStatus::Achieved);
    // a sum that does not fit is not counted, and nothing changes
    let counted = s.try_update_campaign_state_at(
        "ACME".to_string(),
        &action("u", "ACME", u64::MAX - 14, VALID),
        4,
    );
    assert!(!counted);
    let c = s.get_campaign_state("ACME").unwrap();
    assert_eq!(c.verified_participants_count, 3);
    assert_eq!(c.total_capital_diverted, 15);
    assert_eq!(c.last_updated, 3);
    assert_eq!(c.status, CampaignStatus::Achieved);
}

#[test]
fn try_record_does_nothing_where_a_number_would_not_fit() {
    let mut s = shard();
    s.state.total_capital_diverted = u64::MAX - 4;
    let done = s.try_record_action_at(action("u", "ACME", 5, VALID), "u".to_string(), 1);
    assert_eq!(done, None);
    assert!(s.state.active_campaigns.is_empty());
    assert!(s.pending_actions.is_empty());
    assert_eq!(s.state.height(), 0);
    let done = s.try_record_action_at(action("u", "ACME", 4, VALID), "u".to_string(), 1);
    assert_eq!(done, Some(Ok(())));
    assert_eq!(s.state.height(), 1);
    assert_eq!(s.state.total_capital_diverted, u64::MAX);
    let done = s.try_record_action_at(action("u", "ACME", 0, "short"), "u".to_string(), 2);
    assert_eq!(done, Some(Err(ProtocolError::InvalidProof)));
}
