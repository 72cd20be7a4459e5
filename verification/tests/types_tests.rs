use polis_protocol::error::ProtocolError;
use polis_protocol::types::{
    ActionType, CampaignState, CampaignStatus, DecentralizedPoliticianState, ImpactAction,
    PolisBlock,
};
use sha2::{Digest, Sha256};

fn action(proof: &str, id: &str) -> ImpactAction {
    ImpactAction {
        user_did: "did:polis:user1".to_string(),
        action_type: ActionType::Boycott,
        target_entity: "MegaCorp".to_string(),
        value_diverted: 5000,
        zk_proof: proof.to_string(),
        timestamp: 1700000000,
        action_id: id.to_string(),
    }
}

fn sha256_hex(data: &[u8]) -> String {
    format!("{:x}", Sha256::digest(data))
}

fn block_at(index: u64, previous_hash: &str, actions: Vec<ImpactAction>) -> PolisBlock {
    let mut block = PolisBlock {
        index,
        timestamp: 1700000100,
        union_strength: actions.len() as u64,
        actions,
        previous_hash: previous_hash.to_string(),
        merkle_root: "root".to_string(),
        hash: String::new(),
        validator: "did:polis:validator".to_string(),
    };
    block.hash = block.calculate_hash();
    block
}

#[test]
fn test_impact_action_hash() {
    let action = ImpactAction {
        user_did: "did:polis:abc123".to_string(),
        action_type: ActionType::Boycott,
        target_entity: "MegaCorp".to_string(),
        value_diverted: 5000,
        zk_proof: "proof_data_here_with_sufficient_length".to_string(),
        timestamp: 1700000000,
        action_id: "action_001".to_string(),
    };

    let hash1 = action.hash();
    let hash2 = action.hash();
    assert_eq!(hash1, hash2, "Same action should produce same hash");
    assert_eq!(hash1.len(), 64, "SHA256 hash should be 64 chars");
}

#[test]
fn test_campaign_progress() {
    let campaign = CampaignState {
        campaign_id: "test_campaign".to_string(),
        verified_participants_count: 7500,
        goal_participants: 15000,
        total_capital_diverted: 124000,
        end_block: 1000,
        action_proofs_root: "merkle_root".to_string(),
        status: CampaignStatus::Active,
        created_at: 1700000000,
        last_updated: 1700001000,
    };

    assert!(!campaign.is_goal_reached());
}

#[test]
fn test_zk_proof_validation() {
    let valid_action = action("zkproof_simulated_abc123def456789xyz0123456789abcdef", "action_001");

    println!("Testing proof: '{}'", valid_action.zk_proof);
    println!("Proof length: {}", valid_action.zk_proof.len());
    println!("Proof is_empty: {}", valid_action.zk_proof.is_empty());
    println!("Proof >= 32: {}", valid_action.zk_proof.len() >= 32);

    assert!(valid_action.verify_zk_proof(), "Valid proof should pass");

    let invalid_action = action("short", "action_002");
    assert!(!invalid_action.verify_zk_proof(), "Too short proof should fail");

    let empty_action = action("", "action_003");
    assert!(!empty_action.verify_zk_proof(), "Empty proof should fail");
}

#[test]
fn proof_token_with_prefix_is_valid_even_when_short() {
    assert!(action("firebase_verified_u", "a").verify_zk_proof());
    assert!(action("firebase_verified_", "a").verify_zk_proof());
    assert!(!action("firebase_verified", "a").verify_zk_proof());
}

#[test]
fn proof_token_length_counts_bytes_and_starts_at_32() {
    assert!(!action("0123456789012345678901234567890", "a").verify_zk_proof());
    assert!(action("01234567890123456789012345678901", "a").verify_zk_proof());
    // sixteen two-byte characters are 32 bytes
    assert!(action("éééééééééééééééé", "a").verify_zk_proof());
    assert!(!action("ééééééééééééééé", "a").verify_zk_proof());
}

#[test]
fn action_type_names_are_upper_case() {
    assert_eq!(ActionType::Boycott.to_string(), "BOYCOTT");
    assert_eq!(ActionType::Buycott.to_string(), "BUYCOTT");
    assert_eq!(ActionType::Vote.to_string(), "VOTE");
    assert_eq!(ActionType::Donate.to_string(), "DONATE");
    assert_eq!(ActionType::Rally.to_string(), "RALLY");
}

#[test]
fn action_hash_is_sha256_of_identity_kind_target_value_time() {
    let a = action("zkproof_simulated_abc123def456789xyz0123456789abcdef", "action_001");
    let mut data: Vec<u8> = Vec::new();
    data.extend_from_slice(b"did:polis:user1");
    data.extend_from_slice(b"BOYCOTT");
    data.extend_from_slice(b"MegaCorp");
    data.extend_from_slice(&5000u64.to_le_bytes());
    data.extend_from_slice(&1700000000i64.to_le_bytes());
    assert_eq!(a.hash(), sha256_hex(&data));
}

#[test]
fn action_hash_takes_negative_time_in_twos_complement() {
    let mut a = action("p", "a");
    a.timestamp = -5;
    let mut data: Vec<u8> = Vec::new();
    data.extend_from_slice(b"did:polis:user1");
    data.extend_from_slice(b"BOYCOTT");
    data.extend_from_slice(b"MegaCorp");
    data.extend_from_slice(&5000u64.to_le_bytes());
    data.extend_from_slice(&(-5i64).to_le_bytes());
    assert_eq!(a.hash(), sha256_hex(&data));
}

#[test]
fn action_hash_ignores_proof_token_and_identifier() {
    let a = action("zkproof_simulated_abc123def456789xyz0123456789abcdef", "action_001");
    let b = action("firebase_verified_someone", "action_999");
    assert_eq!(a.hash(), b.hash());
}

#[test]
fn action_hash_changes_with_each_hashed_field() {
    let base = action("p", "a");
    let mut other = action("p", "a");
    other.value_diverted = 5001;
    assert_ne!(base.hash(), other.hash());
    let mut other = action("p", "a");
    other.timestamp = 1700000001;
    assert_ne!(base.hash(), other.hash());
    let mut other = action("p", "a");
    other.action_type = ActionType::Vote;
    assert_ne!(base.hash(), other.hash());
    let mut other = action("p", "a");
    other.target_entity = "MegaCorq".to_string();
    assert_ne!(base.hash(), other.hash());
    let mut other = action("p", "a");
    other.user_did = "did:polis:user2".to_string();
    assert_ne!(base.hash(), other.hash());
}

#[test]
fn block_strength_is_the_number_of_actions() {
    let valid = "zkproof_simulated_abc123def456789xyz0123456789abcdef";
    let block = block_at(0, &"0".repeat(64), vec![action(valid, "a"), action(valid, "b")]);
    assert_eq!(block.calculate_strength(), 2);
    assert_eq!(block_at(0, &"0".repeat(64), vec![]).calculate_strength(), 0);
}

#[test]
fn block_hash_is_sha256_of_height_time_links_and_strength() {
    let block = block_at(7, "prev", vec![]);
    let mut data: Vec<u8> = Vec::new();
    data.extend_from_slice(&7u64.to_le_bytes());
    data.extend_from_slice(&1700000100i64.to_le_bytes());
    data.extend_from_slice(b"prev");
    data.extend_from_slice(b"root");
    data.extend_from_slice(&0u64.to_le_bytes());
    assert_eq!(block.calculate_hash(), sha256_hex(&data));
    assert_eq!(block.hash, sha256_hex(&data));
}

#[test]
fn block_verifies_alone_and_behind_its_predecessor() {
    let valid = "zkproof_simulated_abc123def456789xyz0123456789abcdef";
    let first = block_at(0, &"0".repeat(64), vec![action(valid, "a")]);
    let second = block_at(1, &first.hash, vec![action(valid, "b")]);
    assert!(first.verify(None));
    assert!(second.verify(None));
    assert!(second.verify(Some(&first)));
}

#[test]
fn block_with_tampered_previous_hash_is_rejected() {
    let valid = "zkproof_simulated_abc123def456789xyz0123456789abcdef";
    let first = block_at(0, &"0".repeat(64), vec![action(valid, "a")]);
    let mut second = block_at(1, &first.hash, vec![action(valid, "b")]);
    second.previous_hash = "f".repeat(64);
    // the stored hash no longer matches the fields
    assert!(!second.verify(Some(&first)));
    assert!(!second.verify(None));
    // and a block that was honestly built on another hash does not link either
    let stray = block_at(1, &"f".repeat(64), vec![action(valid, "b")]);
    assert!(stray.verify(None));
    assert!(!stray.verify(Some(&first)));
}

#[test]
fn block_with_tampered_strength_is_rejected() {
    let valid = "zkproof_simulated_abc123def456789xyz0123456789abcdef";
    let mut block = block_at(0, &"0".repeat(64), vec![action(valid, "a")]);
    assert!(block.verify(None));
    block.union_strength = 1000;
    assert_ne!(block.calculate_hash(), block.hash);
    assert!(!block.verify(None));
}

#[test]
fn block_with_tampered_height_time_or_root_is_rejected() {
    let valid = "zkproof_simulated_abc123def456789xyz0123456789abcdef";
    let mut block = block_at(0, &"0".repeat(64), vec![action(valid, "a")]);
    block.index = 1;
    assert!(!block.verify(None));
    let mut block = block_at(0, &"0".repeat(64), vec![action(valid, "a")]);
    block.timestamp += 1;
    assert!(!block.verify(None));
    let mut block = block_at(0, &"0".repeat(64), vec![action(valid, "a")]);
    block.merkle_root = "other".to_string();
    assert!(!block.verify(None));
}

#[test]
fn block_at_the_wrong_height_is_rejected() {
    let valid = "zkproof_simulated_abc123def456789xyz0123456789abcdef";
    let first = block_at(0, &"0".repeat(64), vec![action(valid, "a")]);
    let skipping = block_at(2, &first.hash, vec![action(valid, "b")]);
    assert!(!skipping.verify(Some(&first)));
    let top = block_at(u64::MAX, &"0".repeat(64), vec![]);
    let over = block_at(0, &top.hash, vec![]);
    assert!(!over.verify(Some(&top)));
}

#[test]
fn block_with_an_invalid_proof_is_rejected() {
    let valid = "zkproof_simulated_abc123def456789xyz0123456789abcdef";
    let block = block_at(0, &"0".repeat(64), vec![action(valid, "a"), action("short", "b")]);
    assert!(!block.verify(None));
}

#[test]
fn goal_is_reached_at_and_above_the_goal() {
    let mut campaign = CampaignState {
        campaign_id: "c".to_string(),
        verified_participants_count: 999,
        goal_participants: 1000,
        total_capital_diverted: 0,
        end_block: 10,
        action_proofs_root: String::new(),
        status: CampaignStatus::Active,
        created_at: 0,
        last_updated: 0,
    };
    assert!(!campaign.is_goal_reached());
    campaign.verified_participants_count = 1000;
    assert!(campaign.is_goal_reached());
    campaign.verified_participants_count = 1001;
    assert!(campaign.is_goal_reached());
    campaign.goal_participants = 0;
    campaign.verified_participants_count = 0;
    assert!(campaign.is_goal_reached());
}

#[test]
fn new_state_is_empty() {
    let state = DecentralizedPoliticianState::new();
    assert_eq!(state.height(), 0);
    assert!(state.latest_block().is_none());
    assert_eq!(state.treasury, 0);
    assert_eq!(state.online_nodes_count, 0);
    assert_eq!(state.total_union_strength, 0);
    assert_eq!(state.total_capital_diverted, 0);
    assert!(state.active_campaigns.is_empty());
}

#[test]
fn state_appends_linked_blocks_and_adds_up_totals() {
    let valid = "zkproof_simulated_abc123def456789xyz0123456789abcdef";
    let mut state = DecentralizedPoliticianState::new();
    let first = block_at(0, &"0".repeat(64), vec![action(valid, "a"), action(valid, "b")]);
    let first_hash = first.hash.clone();
    assert!(state.can_add_block(&first));
    assert_eq!(state.add_block(first), Ok(()));
    assert_eq!(state.height(), 1);
    assert_eq!(state.total_union_strength, 2);
    assert_eq!(state.total_capital_diverted, 10000);
    assert_eq!(state.latest_block().unwrap().hash, first_hash);
    let second = block_at(1, &first_hash, vec![action(valid, "c")]);
    assert_eq!(state.add_block(second), Ok(()));
    assert_eq!(state.height(), 2);
    assert_eq!(state.total_union_strength, 3);
    assert_eq!(state.total_capital_diverted, 15000);
    for i in 1..state.blockchain.len() {
        assert_eq!(state.blockchain[i].previous_hash, state.blockchain[i - 1].hash);
        assert_eq!(state.blockchain[i].index, state.blockchain[i - 1].index + 1);
    }
}

#[test]
fn state_rejects_a_bad_block_and_stays_as_it_was() {
    let valid = "zkproof_simulated_abc123def456789xyz0123456789abcdef";
    let mut state = DecentralizedPoliticianState::new();
    let first = block_at(0, &"0".repeat(64), vec![action(valid, "a")]);
    assert_eq!(state.add_block(first), Ok(()));
    let unlinked = block_at(1, &"f".repeat(64), vec![action(valid, "b")]);
    assert!(state.can_add_block(&unlinked));
    assert_eq!(state.add_block(unlinked), Err(ProtocolError::VerificationFailed));
    assert_eq!(state.height(), 1);
    assert_eq!(state.total_union_strength, 1);
    assert_eq!(state.total_capital_diverted, 5000);
}

#[test]
fn state_sees_when_totals_would_not_fit() {
    let valid = "zkproof_simulated_abc123def456789xyz0123456789abcdef";
    let mut state = DecentralizedPoliticianState::new();
    state.total_capital_diverted = u64::MAX - 4999;
    let block = block_at(0, &"0".repeat(64), vec![action(valid, "a")]);
    assert!(!state.can_add_block(&block));
    state.total_capital_diverted = u64::MAX - 5000;
    assert!(state.can_add_block(&block));
    state.total_union_strength = u64::MAX;
    assert!(!state.can_add_block(&block));
    let mut big = action(valid, "big");
    big.value_diverted = u64::MAX;
    let heavy = block_at(0, &"0".repeat(64), vec![big, action(valid, "a")]);
    assert!(!DecentralizedPoliticianState::new().can_add_block(&heavy));
}

#[test]
fn error_messages_name_the_refusal() {
    assert_eq!(ProtocolError::InvalidProof.message(), "Invalid ZK proof");
    assert_eq!(ProtocolError::EmptyPool.message(), "No pending actions to include in block");
    assert_eq!(ProtocolError::VerificationFailed.message(), "Block verification failed");
    assert_eq!(ProtocolError::ShardNotFound.message(), "Shard not found");
    assert_eq!(ProtocolError::IdentityNotFound.message(), "User not found");
    assert_eq!(ProtocolError::CampaignAlreadyExists.message(), "Campaign already exists");
}

#[test]
fn action_hash_input_is_identity_kind_target_value_time() {
    let a = action("p", "a");
    let mut data: Vec<u8> = Vec::new();
    data.extend_from_slice(b"did:polis:user1BOYCOTTMegaCorp");
    data.extend_from_slice(&[0x88, 0x13, 0, 0, 0, 0, 0, 0]);
    data.extend_from_slice(&1700000000i64.to_le_bytes());
    assert_eq!(a.hash_input(), data);
    assert_eq!(a.hash(), sha256_hex(&a.hash_input()));
    assert_eq!(a.hash().len(), 64);
}

#[test]
fn block_hash_input_is_height_time_links_and_strength() {
    let block = block_at(258, "ab", vec![]);
    let mut data: Vec<u8> = vec![2, 1, 0, 0, 0, 0, 0, 0];
    data.extend_from_slice(&1700000100i64.to_le_bytes());
    data.extend_from_slice(b"abroot");
    data.extend_from_slice(&[0; 8]);
    assert_eq!(block.hash_input(), data);
    assert_eq!(block.calculate_hash(), sha256_hex(&block.hash_input()));
    assert_eq!(block.calculate_hash().len(), 64);
}

#[test]
fn block_is_checked_against_the_hash_that_is_handed_in() {
    let valid = "zkproof_simulated_abc123def456789xyz0123456789abcdef";
    let first = block_at(0, &"0".repeat(64), vec![action(valid, "a")]);
    let mut second = block_at(1, &first.hash, vec![action(valid, "b")]);
    second.hash = "stored".to_string();
    assert!(second.verify_with("stored", Some(&first)));
    assert!(second.verify_with("stored", None));
    assert!(!second.verify_with("other", Some(&first)));
    assert!(!second.verify(Some(&first)));
    second.previous_hash = "elsewhere".to_string();
    assert!(!second.verify_with("stored", Some(&first)));
    assert!(second.verify_with("stored", None));
    second.previous_hash = first.hash.clone();
    second.index = 2;
    assert!(!second.verify_with("stored", Some(&first)));
    second.index = 1;
    second.actions.push(action("short", "c"));
    assert!(!second.verify_with("stored", Some(&first)));
}
