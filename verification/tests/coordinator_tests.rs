use polis_protocol::aggregate::{BlockchainStats, GlobalStats, UserStats};
use polis_protocol::blockchain::{IdeologyRange, StanceShard};
use polis_protocol::coordinator::{clone_texts, PolisProtocol};
use polis_protocol::error::ProtocolError;
use polis_protocol::text::texts_distinct;
use polis_protocol::types::{ActionType, CampaignStatus, ImpactAction};

const VALID: &str = "zkproof_simulated_abc123def456789xyz0123456789abcdef";

fn action(user: &str, target: &str, value: u64, time: i64) -> ImpactAction {
    ImpactAction {
        user_did: user.to_string(),
        action_type: ActionType::Boycott,
        target_entity: target.to_string(),
        value_diverted: value,
        zk_proof: VALID.to_string(),
        timestamp: time,
        action_id: "id".to_string(),
    }
}

fn labels(list: &[&str]) -> Vec<String> {
    list.iter().map(|s| s.to_string()).collect()
}

fn shard<'a>(p: &'a PolisProtocol, label: &str) -> &'a StanceShard {
    &p.shards[p.find_shard(label)]
}

#[test]
fn new_coordinator_has_the_five_default_shards() {
    let p = PolisProtocol::new();
    let names: Vec<&str> = p.shards.iter().map(|s| s.shard_id.as_str()).collect();
    assert_eq!(
        names,
        vec![
            "progressive-left",
            "conservative-right",
            "centrist-moderate",
            "traditional-left",
            "libertarian-right"
        ]
    );
    assert_eq!(
        p.shards[0].ideology_range,
        IdeologyRange {
            economic_min: -100,
            economic_max: -20,
            social_min: 20,
            social_max: 100,
            diplomatic_min: -100,
            diplomatic_max: 100,
        }
    );
    assert_eq!(
        p.shards[3].ideology_range,
        IdeologyRange {
            economic_min: -100,
            economic_max: -20,
            social_min: -100,
            social_max: 20,
            diplomatic_min: -100,
            diplomatic_max: 100,
        }
    );
    assert!(p.user_routes.is_empty());
    assert!(p.firebase_users.is_empty());
    assert!(p.shards.iter().all(|s| s.state.height() == 0 && s.pending_actions.is_empty()));
}

#[test]
fn registering_a_shard_under_a_taken_label_replaces_it() {
    let mut p = PolisProtocol::new();
    let range = IdeologyRange {
        economic_min: 0,
        economic_max: 1,
        social_min: 0,
        social_max: 1,
        diplomatic_min: 0,
        diplomatic_max: 1,
    };
    p.register_shard(StanceShard::new("centrist-moderate".to_string(), range));
    assert_eq!(p.shards.len(), 5);
    assert_eq!(p.shards[2].shard_id, "centrist-moderate");
    assert_eq!(p.shards[2].ideology_range, range);
    p.register_shard(StanceShard::new("new-one".to_string(), range));
    assert_eq!(p.shards.len(), 6);
    assert_eq!(p.shards[5].shard_id, "new-one");
    assert_eq!(p.find_shard("new-one"), 5);
    assert_eq!(p.find_shard("missing"), 6);
}

#[test]
fn routing_returns_every_region_that_holds_the_point() {
    let p = PolisProtocol::new();
    assert_eq!(p.route_user(&[-80, 80, 0]), labels(&["progressive-left"]));
    assert_eq!(p.route_user(&[-30, 30, 0]), labels(&["progressive-left", "centrist-moderate"]));
    assert_eq!(p.route_user(&[0, 0, 0]), labels(&["centrist-moderate"]));
    assert_eq!(p.route_user(&[0, 80, 0]), Vec::<String>::new());
    assert_eq!(p.route_user(&[-80, 80, 101]), Vec::<String>::new());
    // on the shared edge of three regions
    assert_eq!(
        p.route_user(&[-20, 20, 100]),
        labels(&["progressive-left", "centrist-moderate", "traditional-left"])
    );
}

#[test]
fn submitting_goes_to_the_named_shard() {
    let mut p = PolisProtocol::new();
    assert_eq!(p.submit_action("centrist-moderate", action("u", "ACME", 1, 1)), Ok(()));
    assert_eq!(shard(&p, "centrist-moderate").pending_actions.len(), 1);
    assert_eq!(shard(&p, "progressive-left").pending_actions.len(), 0);
    assert_eq!(
        p.submit_action("nowhere", action("u", "ACME", 1, 1)),
        Err(ProtocolError::ShardNotFound)
    );
    let mut bad = action("u", "ACME", 1, 1);
    bad.zk_proof = "short".to_string();
    assert_eq!(p.submit_action("centrist-moderate", bad), Err(ProtocolError::InvalidProof));
    assert_eq!(shard(&p, "centrist-moderate").pending_actions.len(), 1);
    // a submitted action waits in the pool and moves no campaign
    assert!(shard(&p, "centrist-moderate").state.active_campaigns.is_empty());
    assert_eq!(shard(&p, "centrist-moderate").state.height(), 0);
}

#[test]
fn registration_records_the_user_the_route_and_the_memberships() {
    let mut p = PolisProtocol::new();
    let did = p
        .register_firebase_user_at("uid1".to_string(), "Ann".to_string(), (-30, 30, 0), 1700000000)
        .unwrap();
    assert_eq!(did, "did:polis:firebase:uid1");
    assert_eq!(p.firebase_users.len(), 1);
    let user = &p.firebase_users[0];
    assert_eq!(user.firebase_uid, "uid1");
    assert_eq!(user.polis_did, did);
    assert_eq!(user.display_name, "Ann");
    assert_eq!(user.coordinates, (-30, 30, 0));
    assert!(user.is_online);
    assert_eq!(user.last_activity, 1700000000);
    assert_eq!(user.total_actions, 0);
    assert_eq!(p.user_routes.len(), 1);
    assert_eq!(p.user_routes[0].user_did, did);
    assert_eq!(p.user_routes[0].shard_ids, labels(&["progressive-left", "centrist-moderate"]));
    for label in ["progressive-left", "centrist-moderate"] {
        let s = shard(&p, label);
        assert_eq!(s.nodes.len(), 1);
        assert_eq!(s.nodes[0].node_id, did);
        assert!(s.nodes[0].is_online);
        assert_eq!(s.state.online_nodes_count, 1);
    }
    assert!(shard(&p, "traditional-left").nodes.is_empty());
    assert_eq!(p.find_user("uid1"), 0);
    assert_eq!(p.find_user("uid2"), 1);
    assert_eq!(p.find_route(&did), 0);
    assert_eq!(p.find_route("did:polis:firebase:other"), 1);
}

#[test]
fn registering_again_replaces_the_entries() {
    let mut p = PolisProtocol::new();
    p.register_firebase_user_at("uid1".to_string(), "Ann".to_string(), (-30, 30, 0), 1).unwrap();
    p.register_firebase_user_at("uid2".to_string(), "Bob".to_string(), (0, 0, 0), 2).unwrap();
    p.register_firebase_user("uid1".to_string(), "Ann B".to_string(), (0, 0, 0)).unwrap();
    assert_eq!(p.firebase_users.len(), 2);
    assert_eq!(p.firebase_users[0].display_name, "Ann B");
    assert_eq!(p.user_routes.len(), 2);
    assert_eq!(p.user_routes[0].shard_ids, labels(&["centrist-moderate"]));
    // the membership in the shard that no longer matches stays as it was
    assert_eq!(shard(&p, "progressive-left").nodes.len(), 1);
    assert_eq!(shard(&p, "centrist-moderate").nodes.len(), 2);
}

#[test]
fn identity_outside_every_region_registers_with_no_shards() {
    let mut p = PolisProtocol::new();
    let did =
        p.register_firebase_user_at("lonely".to_string(), "L".to_string(), (0, 80, 0), 5).unwrap();
    assert_eq!(p.user_routes.len(), 1);
    assert_eq!(p.user_routes[0].user_did, did);
    assert!(p.user_routes[0].shard_ids.is_empty());
    assert!(p.shards.iter().all(|s| s.nodes.is_empty()));
    // recording for such an identity touches no shard and is no error
    assert!(p.can_record_user_action("lonely", "ACME", 5000));
    let done = p.record_user_action_with(
        "lonely",
        ActionType::Boycott,
        "ACME".to_string(),
        5000,
        6,
        "id".to_string(),
    );
    assert_eq!(done, Ok(()));
    assert!(p.shards.iter().all(|s| {
        s.state.height() == 0 && s.state.active_campaigns.is_empty() && s.pending_actions.is_empty()
    }));
    assert_eq!(p.firebase_users[0].total_actions, 1);
    assert_eq!(p.get_global_stats().total_capital_diverted, 0);
}

#[test]
fn recording_for_an_unknown_identity_fails_and_changes_nothing() {
    let mut p = PolisProtocol::new();
    assert!(p.can_record_user_action("ghost", "ACME", 1));
    let done = p.record_user_action("ghost", ActionType::Vote, "ACME".to_string(), 1);
    assert_eq!(done, Err(ProtocolError::IdentityNotFound));
    assert!(p.shards.iter().all(|s| s.state.height() == 0 && s.state.active_campaigns.is_empty()));
    assert_eq!(
        p.update_user_activity("ghost", true),
        Err(ProtocolError::IdentityNotFound)
    );
}

#[test]
fn recording_for_a_user_without_a_routing_entry_fails() {
    let mut p = PolisProtocol::new();
    p.register_firebase_user_at("A".to_string(), "A".to_string(), (-80, 80, 0), 1).unwrap();
    p.user_routes.clear();
    assert!(p.can_record_user_action("A", "ACME", 1));
    let done = p.record_user_action("A", ActionType::Vote, "ACME".to_string(), 1);
    assert_eq!(done, Err(ProtocolError::IdentityNotFound));
    assert_eq!(p.firebase_users[0].total_actions, 0);
    assert!(p.shards.iter().all(|s| s.state.height() == 0 && s.state.active_campaigns.is_empty()));
}

#[test]
fn end_to_end_one_action_in_one_shard() {
    let mut p = PolisProtocol::new();
    let did = p.register_firebase_user("A".to_string(), "A".to_string(), (-80, 80, 0)).unwrap();
    assert_eq!(p.user_routes[0].shard_ids, labels(&["progressive-left"]));
    assert!(p.can_record_user_action("A", "ACME", 5000));
    assert_eq!(p.record_user_action("A", ActionType::Boycott, "ACME".to_string(), 5000), Ok(()));
    let s = shard(&p, "progressive-left");
    assert_eq!(s.state.active_campaigns.len(), 1);
    let c = s.get_campaign_state("ACME").unwrap();
    assert_eq!(c.verified_participants_count, 1);
    assert_eq!(c.total_capital_diverted, 5000);
    assert_eq!(c.goal_participants, 1000);
    assert_eq!(c.status, CampaignStatus::Active);
    assert_eq!(s.state.height(), 1);
    let block = &s.state.blockchain[0];
    assert_eq!(block.index, 0);
    assert_eq!(block.previous_hash, "0".repeat(64));
    assert_eq!(block.actions.len(), 1);
    let a = &block.actions[0];
    assert_eq!(a.user_did, did);
    assert_eq!(a.action_type, ActionType::Boycott);
    assert_eq!(a.target_entity, "ACME");
    assert_eq!(a.value_diverted, 5000);
    assert_eq!(a.zk_proof, "firebase_verified_A");
    assert!(!a.action_id.is_empty());
    // every recorded action gets an identifier of its own
    let mut q = PolisProtocol::new();
    q.register_firebase_user("A".to_string(), "A".to_string(), (-80, 80, 0)).unwrap();
    q.record_user_action("A", ActionType::Boycott, "ACME".to_string(), 5000).unwrap();
    assert_ne!(q.shards[0].state.blockchain[0].actions[0].action_id, a.action_id);
    assert_eq!(block.merkle_root, a.hash());
    assert_eq!(block.validator, did);
    assert!(block.verify(None));
    assert!(s.pending_actions.is_empty());
    assert_eq!(p.get_global_stats().total_capital_diverted, 5000);
    assert_eq!(p.get_global_stats().total_union_strength, 1);
    assert_eq!(p.get_global_stats().total_active_campaigns, 1);
    assert_eq!(p.firebase_users[0].total_actions, 1);
    // no other shard was touched
    for other in p.shards.iter().filter(|s| s.shard_id != "progressive-left") {
        assert_eq!(other.state.height(), 0);
        assert!(other.state.active_campaigns.is_empty());
    }
}

#[test]
fn action_of_a_multi_homed_identity_shows_in_both_shards() {
    let mut p = PolisProtocol::new();
    let did = p.register_firebase_user_at("M".to_string(), "M".to_string(), (-30, 30, 0), 1).unwrap();
    let done = p.record_user_action_with(
        "M",
        ActionType::Donate,
        "ACME".to_string(),
        700,
        1700000000,
        "fixed-id".to_string(),
    );
    assert_eq!(done, Ok(()));
    for label in ["progressive-left", "centrist-moderate"] {
        let s = shard(&p, label);
        assert_eq!(s.state.height(), 1);
        assert_eq!(s.state.total_union_strength, 1);
        assert_eq!(s.state.total_capital_diverted, 700);
        let c = s.get_campaign_state("ACME").unwrap();
        assert_eq!(c.verified_participants_count, 1);
        assert_eq!(c.total_capital_diverted, 700);
        assert_eq!(s.state.blockchain[0].actions[0].action_id, "fixed-id");
        assert_eq!(s.state.blockchain[0].timestamp, 1700000000);
        assert_eq!(s.state.blockchain[0].validator, did);
    }
    // the two campaigns are independent of each other
    let mut extra = action("someone", "ACME", 1, 2);
    extra.zk_proof = "firebase_verified_someone".to_string();
    p.shards[0].record_action_at(extra, "someone".to_string(), 3).unwrap();
    assert_eq!(shard(&p, "progressive-left").get_campaign_state("ACME").unwrap().verified_participants_count, 2);
    assert_eq!(shard(&p, "centrist-moderate").get_campaign_state("ACME").unwrap().verified_participants_count, 1);
    let stats = p.get_global_stats();
    assert_eq!(stats.total_union_strength, 3);
    assert_eq!(stats.total_capital_diverted, 1401);
    assert_eq!(stats.total_active_campaigns, 2);
    assert_eq!(p.firebase_users[0].total_actions, 1);
}

#[test]
fn campaign_created_on_the_fly_is_achieved_at_the_default_goal() {
    let mut p = PolisProtocol::new();
    p.register_firebase_user_at("A".to_string(), "A".to_string(), (-80, 80, 0), 1).unwrap();
    p.record_user_action_with("A", ActionType::Vote, "T".to_string(), 1, 2, "i".to_string()).unwrap();
    p.shards[0].state.active_campaigns[0].verified_participants_count = 998;
    p.record_user_action_with("A", ActionType::Vote, "T".to_string(), 1, 3, "i".to_string()).unwrap();
    assert_eq!(p.shards[0].state.active_campaigns[0].status, CampaignStatus::Active);
    p.record_user_action_with("A", ActionType::Vote, "T".to_string(), 1, 4, "i".to_string()).unwrap();
    assert_eq!(p.shards[0].state.active_campaigns[0].verified_participants_count, 1000);
    assert_eq!(p.shards[0].state.active_campaigns[0].status, CampaignStatus::Achieved);
    p.record_user_action_with("A", ActionType::Vote, "T".to_string(), 1, 5, "i".to_string()).unwrap();
    assert_eq!(p.shards[0].state.active_campaigns[0].status, CampaignStatus::Achieved);
}

#[test]
fn a_shard_whose_block_fails_keeps_the_action_and_the_next_shard_is_served() {
    let mut p = PolisProtocol::new();
    p.register_firebase_user_at("M".to_string(), "M".to_string(), (-30, 30, 0), 1).unwrap();
    // an action with a bad proof that did not come through the door
    let mut bad = action("x", "X", 1, 1);
    bad.zk_proof = "short".to_string();
    p.shards[0].pending_actions.push(bad);
    let done =
        p.record_user_action_with("M", ActionType::Vote, "T".to_string(), 1, 2, "i".to_string());
    assert_eq!(done, Ok(()));
    let first = shard(&p, "progressive-left");
    assert_eq!(first.state.height(), 0);
    assert_eq!(first.state.total_union_strength, 0);
    assert_eq!(first.state.total_capital_diverted, 0);
    assert_eq!(first.pending_actions.len(), 2);
    assert_eq!(first.pending_actions[1].action_id, "i");
    assert_eq!(first.get_campaign_state("T").unwrap().verified_participants_count, 1);
    let second = shard(&p, "centrist-moderate");
    assert_eq!(second.state.height(), 1);
    assert!(second.pending_actions.is_empty());
    assert_eq!(second.get_campaign_state("T").unwrap().verified_participants_count, 1);
    assert_eq!(p.firebase_users[0].total_actions, 1);
}

#[test]
fn heartbeat_updates_the_user_and_the_memberships() {
    let mut p = PolisProtocol::new();
    let did = p.register_firebase_user_at("M".to_string(), "M".to_string(), (-30, 30, 0), 1).unwrap();
    assert_eq!(p.update_user_activity_at("M", false, 50), Ok(()));
    assert!(!p.firebase_users[0].is_online);
    assert_eq!(p.firebase_users[0].last_activity, 50);
    for label in ["progressive-left", "centrist-moderate"] {
        let s = shard(&p, label);
        assert_eq!(s.nodes[0].node_id, did);
        assert!(!s.nodes[0].is_online);
        assert_eq!(s.nodes[0].last_updated, 50);
        assert_eq!(s.state.online_nodes_count, 0);
    }
    assert_eq!(p.update_user_activity("M", true), Ok(()));
    assert_eq!(shard(&p, "centrist-moderate").state.online_nodes_count, 1);
    assert_eq!(p.get_global_stats().total_online_nodes, 2);
}

#[test]
fn global_stats_add_up_all_shards() {
    let mut p = PolisProtocol::new();
    assert_eq!(
        p.get_global_stats(),
        GlobalStats {
            total_shards: 5,
            total_online_nodes: 0,
            total_union_strength: 0,
            total_capital_diverted: 0,
            total_active_campaigns: 0,
        }
    );
    p.shards[0].state.total_capital_diverted = 10;
    p.shards[1].state.total_capital_diverted = 20;
    p.shards[1].state.total_union_strength = 3;
    p.shards[4].state.online_nodes_count = 4;
    p.shards[2].create_campaign_at("c".to_string(), 1, 1, 1).unwrap();
    assert_eq!(
        p.try_get_global_stats(),
        Some(GlobalStats {
            total_shards: 5,
            total_online_nodes: 4,
            total_union_strength: 3,
            total_capital_diverted: 30,
            total_active_campaigns: 1,
        })
    );
    p.shards[3].state.total_capital_diverted = u64::MAX - 29;
    assert_eq!(p.try_get_global_stats(), None);
    p.shards[3].state.total_capital_diverted = u64::MAX - 30;
    assert_eq!(p.try_get_global_stats().unwrap().total_capital_diverted, u64::MAX);
    let none = PolisProtocol { shards: vec![], user_routes: vec![], firebase_users: vec![] };
    assert_eq!(none.get_global_stats().total_shards, 0);
}

fn seal(p: &mut PolisProtocol, shard: usize, actions: Vec<ImpactAction>, time: i64) {
    for a in actions {
        p.shards[shard].add_pending_action(a).unwrap();
    }
    let block = p.shards[shard].produce_block_at("v".to_string(), time).unwrap();
    p.shards[shard].add_block(block).unwrap();
}

#[test]
fn user_stats_scan_the_named_chains() {
    let mut p = PolisProtocol::new();
    let day = 86400;
    seal(&mut p, 0, vec![action("u", "A", 100, 10 * day), action("other", "A", 1, 0)], 1);
    seal(&mut p, 0, vec![action("u", "A", 50, 13 * day + 5)], 2);
    seal(&mut p, 2, vec![action("u", "B", 7, 9 * day - 1)], 3);
    let all = labels(&["progressive-left", "centrist-moderate", "missing"]);
    assert_eq!(
        p.get_user_stats("u", &all),
        UserStats { campaigns_joined: 3, streak_days: 4, total_diverted: 157, total_actions: 3 }
    );
    assert_eq!(
        p.get_user_stats("u", &labels(&["progressive-left"])),
        UserStats { campaigns_joined: 2, streak_days: 3, total_diverted: 150, total_actions: 2 }
    );
    assert_eq!(
        p.get_user_stats("other", &all),
        UserStats { campaigns_joined: 1, streak_days: 0, total_diverted: 1, total_actions: 1 }
    );
    assert_eq!(
        p.get_user_stats("nobody", &all),
        UserStats { campaigns_joined: 0, streak_days: 0, total_diverted: 0, total_actions: 0 }
    );
    assert_eq!(
        p.get_user_stats("u", &[]),
        UserStats { campaigns_joined: 0, streak_days: 0, total_diverted: 0, total_actions: 0 }
    );
    // a shard that is named twice is read twice
    assert_eq!(
        p.get_user_stats("u", &labels(&["centrist-moderate", "centrist-moderate"])),
        UserStats { campaigns_joined: 2, streak_days: 0, total_diverted: 14, total_actions: 2 }
    );
}

#[test]
fn user_stats_count_whole_days_only() {
    let mut p = PolisProtocol::new();
    seal(&mut p, 0, vec![action("u", "A", 1, 1000), action("u", "A", 1, 1000 + 86399)], 1);
    assert_eq!(p.get_user_stats("u", &labels(&["progressive-left"])).streak_days, 0);
    seal(&mut p, 0, vec![action("u", "A", 1, 1000 + 86400)], 2);
    assert_eq!(p.get_user_stats("u", &labels(&["progressive-left"])).streak_days, 1);
}

#[test]
fn user_stats_span_the_widest_times_without_overflow() {
    let mut p = PolisProtocol::new();
    seal(&mut p, 0, vec![action("u", "A", 1, i64::MIN), action("u", "A", 1, i64::MAX)], 1);
    let stats = p.get_user_stats("u", &labels(&["progressive-left"]));
    assert_eq!(stats.streak_days, u64::MAX / 86400);
}

#[test]
fn user_stats_are_refused_when_the_sum_does_not_fit() {
    let mut p = PolisProtocol::new();
    p.shards[0].state.total_capital_diverted = 0;
    seal(&mut p, 0, vec![action("u", "A", u64::MAX - 5, 1)], 1);
    p.shards[2].add_pending_action(action("u", "A", 6, 1)).unwrap();
    let block = p.shards[2].produce_block_at("v".to_string(), 1).unwrap();
    p.shards[2].add_block(block).unwrap();
    let both = labels(&["progressive-left", "centrist-moderate"]);
    assert_eq!(p.try_get_user_stats("u", &both), None);
    assert_eq!(
        p.try_get_user_stats("u", &labels(&["progressive-left"])).unwrap().total_diverted,
        u64::MAX - 5
    );
}

#[test]
fn chain_stats_add_up_blocks_and_give_recent_throughput() {
    let mut p = PolisProtocol::new();
    assert_eq!(
        p.get_blockchain_stats_at(1000),
        BlockchainStats {
            total_blocks: 0,
            total_shards: 5,
            total_pending_actions: 0,
            latest_block_timestamp: 0,
            transactions_per_second: 0,
        }
    );
    seal(&mut p, 0, (0..7).map(|n| action("u", "A", n, 1)).collect(), 1000);
    seal(&mut p, 0, (0..5).map(|n| action("u", "A", n, 1)).collect(), 1004);
    seal(&mut p, 2, (0..9).map(|n| action("u", "A", n, 1)).collect(), 1002);
    p.shards[1].add_pending_action(action("u", "A", 1, 1)).unwrap();
    p.shards[1].add_pending_action(action("u", "A", 1, 1)).unwrap();
    let at = |now: i64| p.get_blockchain_stats_at(now);
    assert_eq!(
        at(1007),
        BlockchainStats {
            total_blocks: 3,
            total_shards: 5,
            total_pending_actions: 2,
            latest_block_timestamp: 1004,
            transactions_per_second: 7,
        }
    );
    // 21 actions: within a second of the latest block the divisor is one
    assert_eq!(at(1004).transactions_per_second, 21);
    assert_eq!(at(1005).transactions_per_second, 21);
    assert_eq!(at(1000).transactions_per_second, 21);
    assert_eq!(at(1006).transactions_per_second, 10);
    assert_eq!(at(1014).transactions_per_second, 2);
    // more than ten seconds after the latest block there is none
    assert_eq!(at(1015).transactions_per_second, 0);
    assert_eq!(at(i64::MAX).transactions_per_second, 0);
    let live = p.get_blockchain_stats();
    assert_eq!(live.total_blocks, 3);
    assert_eq!(live.transactions_per_second, 0);
    assert_eq!(p.try_get_blockchain_stats_at(1007), Some(at(1007)));
}

#[test]
fn shard_info_lists_every_shard() {
    let mut p = PolisProtocol::new();
    seal(&mut p, 2, vec![action("u", "A", 1, 1)], 1);
    p.shards[2].add_pending_action(action("u", "A", 1, 1)).unwrap();
    p.shards[2].update_node_status_at("n".to_string(), true, 1);
    let info = p.get_shard_info();
    assert_eq!(info.len(), 5);
    assert_eq!(info[0].shard_id, "progressive-left");
    assert_eq!(info[0].block_height, 0);
    assert_eq!(info[2].shard_id, "centrist-moderate");
    assert_eq!(info[2].block_height, 1);
    assert_eq!(info[2].pending_actions, 1);
    assert_eq!(info[2].active_nodes, 1);
}

#[test]
fn online_users_come_with_their_standing_in_each_shard() {
    let mut p = PolisProtocol::new();
    let ann = p.register_firebase_user_at("a".to_string(), "Ann".to_string(), (-30, 30, 0), 10).unwrap();
    p.register_firebase_user_at("b".to_string(), "Bob".to_string(), (0, 0, 0), 11).unwrap();
    p.register_firebase_user_at("c".to_string(), "Cy".to_string(), (0, 80, 0), 12).unwrap();
    p.update_user_activity_at("b", false, 20).unwrap();
    // Ann's membership in one shard goes offline, in another it is lost
    p.shards[0].update_node_status_at(ann.clone(), false, 30);
    p.shards[2].nodes.clear();
    let online = p.get_online_users();
    assert_eq!(online.len(), 2);
    assert_eq!(online[0].firebase_uid, "a");
    assert_eq!(online[0].polis_did, ann);
    assert_eq!(online[0].display_name, "Ann");
    assert_eq!(online[0].last_activity, 10);
    assert_eq!(online[0].shards.len(), 2);
    assert_eq!(online[0].shards[0].shard_id, "progressive-left");
    assert_eq!(online[0].shards[0].joined_at, 10);
    assert_eq!(online[0].shards[0].left_at, Some(10));
    assert!(!online[0].shards[0].is_active);
    assert_eq!(online[0].shards[1].shard_id, "centrist-moderate");
    assert_eq!(online[0].shards[1].left_at, Some(10));
    assert!(!online[0].shards[1].is_active);
    assert_eq!(online[1].firebase_uid, "c");
    assert!(online[1].shards.is_empty());
    p.update_user_activity_at("b", true, 40).unwrap();
    let online = p.get_online_users();
    assert_eq!(online.len(), 3);
    assert_eq!(online[1].firebase_uid, "b");
    assert_eq!(online[1].shards.len(), 1);
    assert!(online[1].shards[0].is_active);
    assert_eq!(online[1].shards[0].left_at, None);
    assert_eq!(online[1].shards[0].joined_at, 40);
}

#[test]
fn record_check_sees_full_counters_and_doubled_routes() {
    let mut p = PolisProtocol::new();
    p.register_firebase_user_at("A".to_string(), "A".to_string(), (-80, 80, 0), 1).unwrap();
    assert!(p.can_record_user_action("A", "ACME", 5));
    p.shards[0].state.total_capital_diverted = u64::MAX - 4;
    assert!(!p.can_record_user_action("A", "ACME", 5));
    assert!(p.can_record_user_action("A", "ACME", 4));
    p.shards[0].state.total_capital_diverted = 0;
    p.firebase_users[0].total_actions = u64::MAX;
    assert!(!p.can_record_user_action("A", "ACME", 5));
    p.firebase_users[0].total_actions = 0;
    p.user_routes[0].shard_ids.push("progressive-left".to_string());
    assert!(!p.can_record_user_action("A", "ACME", 5));
    // a route that names a missing shard passes: the name is passed over
    p.user_routes[0].shard_ids[1] = "missing".to_string();
    assert!(p.can_record_user_action("A", "ACME", 5));
    assert_eq!(
        p.record_user_action_with("A", ActionType::Vote, "ACME".to_string(), 5, 2, "i".to_string()),
        Ok(())
    );
    assert_eq!(p.shards[0].state.height(), 1);
}

#[test]
fn texts_are_copied_and_compared() {
    let list = labels(&["a", "b"]);
    assert_eq!(clone_texts(&list), list);
    assert!(texts_distinct(&list));
    assert!(!texts_distinct(&labels(&["a", "b", "a"])));
    assert!(texts_distinct(&labels(&[])));
}

#[test]
fn try_record_answers_for_every_coordinator() {
    let mut p = PolisProtocol::new();
    p.register_firebase_user_at("A".to_string(), "A".to_string(), (-80, 80, 0), 1).unwrap();
    let done = p.try_record_user_action("A", ActionType::Vote, "ACME".to_string(), 5);
    assert_eq!(done, Some(Ok(())));
    assert_eq!(p.shards[0].state.height(), 1);
    let done = p.try_record_user_action("ghost", ActionType::Vote, "ACME".to_string(), 5);
    assert_eq!(done, Some(Err(ProtocolError::IdentityNotFound)));
    // a count of actions at its greatest leaves no room
    p.firebase_users[0].total_actions = u64::MAX;
    let done = p.try_record_user_action_with(
        "A",
        ActionType::Vote,
        "ACME".to_string(),
        5,
        9,
        "id".to_string(),
    );
    assert_eq!(done, None);
    assert_eq!(p.shards[0].state.height(), 1);
    assert_eq!(p.shards[0].get_campaign_state("ACME").unwrap().verified_participants_count, 1);
    assert_eq!(p.firebase_users[0].total_actions, u64::MAX);
}
