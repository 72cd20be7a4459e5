//! The ledger's data: actions, blocks, campaigns and a shard's chain state.

use crate::error::ProtocolError;
use crate::hashing::{
    digest_hex, i64_le_bytes, i64_to_le_bytes, sha256_hex, str_bytes, u64_le_bytes,
};
use crate::text::{bytes_start_with, text_eq, text_views};
use vstd::bytes::u64_to_le_bytes;
use vstd::prelude::*;
use vstd::string::StringExecFns;

verus! {

/// What kind of act an action records.
#[derive(Debug, Clone, Copy, PartialEq, Eq, Structural)]
pub enum ActionType {
    /// Refusing to buy from the target.
    Boycott,
    /// Buying from the target on purpose.
    Buycott,
    /// A vote or a signature.
    Vote,
    /// A donation.
    Donate,
    /// Taking part in a rally.
    Rally,
}

impl ActionType {
    /// The upper-case name of the kind, as it enters an action's hash.
    pub open spec fn label(self) -> Seq<char> {
        match self {
            ActionType::Boycott => "BOYCOTT"@,
            ActionType::Buycott => "BUYCOTT"@,
            ActionType::Vote => "VOTE"@,
            ActionType::Donate => "DONATE"@,
            ActionType::Rally => "RALLY"@,
        }
    }

    /// The upper-case name of the kind.
    pub fn to_string(&self) -> (name: String)
        ensures
            name@ == self.label(),
    {
        match self {
            ActionType::Boycott => String::from_str("BOYCOTT"),
            ActionType::Buycott => String::from_str("BUYCOTT"),
            ActionType::Vote => String::from_str("VOTE"),
            ActionType::Donate => String::from_str("DONATE"),
            ActionType::Rally => String::from_str("RALLY"),
        }
    }
}

/// One submitted act: who did what to whom, what it was worth, and when.
#[derive(Debug)]
pub struct ImpactAction {
    /// The identity that acted.
    pub user_did: String,
    /// The kind of act.
    pub action_type: ActionType,
    /// The company, person or bill the act is aimed at.
    pub target_entity: String,
    /// Money moved by the act, in cents.
    pub value_diverted: u64,
    /// The proof token that comes with the act.
    pub zk_proof: String,
    /// Seconds since the Unix epoch.
    pub timestamp: i64,
    /// The act's own identifier.
    pub action_id: String,
}

/// An action as a mathematical value.
pub struct ImpactActionView {
    pub user_did: Seq<char>,
    pub action_type: ActionType,
    pub target_entity: Seq<char>,
    pub value_diverted: u64,
    pub zk_proof: Seq<char>,
    pub timestamp: i64,
    pub action_id: Seq<char>,
}

impl View for ImpactAction {
    type V = ImpactActionView;

    open spec fn view(&self) -> ImpactActionView {
        ImpactActionView {
            user_did: self.user_did@,
            action_type: self.action_type,
            target_entity: self.target_entity@,
            value_diverted: self.value_diverted,
            zk_proof: self.zk_proof@,
            timestamp: self.timestamp,
            action_id: self.action_id@,
        }
    }
}

impl Clone for ImpactAction {
    fn clone(&self) -> (copy: Self)
        ensures
            copy == *self,
    {
        ImpactAction {
            user_did: self.user_did.clone(),
            action_type: self.action_type,
            target_entity: self.target_entity.clone(),
            value_diverted: self.value_diverted,
            zk_proof: self.zk_proof.clone(),
            timestamp: self.timestamp,
            action_id: self.action_id.clone(),
        }
    }
}

/// The bytes that an action's content hash is taken over: identity, kind,
/// target, value and time. The proof token and the identifier stay out.
pub open spec fn action_preimage(a: ImpactActionView) -> Seq<u8> {
    str_bytes(a.user_did) + str_bytes(a.action_type.label()) + str_bytes(a.target_entity)
        + u64_le_bytes(a.value_diverted) + i64_le_bytes(a.timestamp)
}

/// An action's content hash.
pub open spec fn action_hash(a: ImpactActionView) -> Seq<char> {
    sha256_hex(action_preimage(a))
}

/// The prefix of a proof token that an outside authority has vouched for.
pub open spec fn verified_prefix() -> Seq<char> {
    "firebase_verified_"@
}

/// Whether a proof token is accepted: it is not empty, and it either starts
/// with the vouched-for prefix or is at least 32 bytes long.
pub open spec fn proof_token_valid(token: Seq<char>) -> bool {
    token.len() > 0 && (str_bytes(verified_prefix()).is_prefix_of(str_bytes(token))
        || str_bytes(token).len() >= 32)
}

impl ImpactAction {
    /// The bytes that the action's content hash is taken over: identity,
    /// kind and target as texts, then value and time as numbers of eight
    /// bytes each, least significant byte first.
    pub fn hash_input(&self) -> (data: Vec<u8>)
        ensures
            data@ == action_preimage(self@),
    {
        let mut data: Vec<u8> = Vec::new();
        data.extend_from_slice(self.user_did.as_str().as_bytes());
        let kind = self.action_type.to_string();
        data.extend_from_slice(kind.as_str().as_bytes());
        data.extend_from_slice(self.target_entity.as_str().as_bytes());
        let value = u64_to_le_bytes(self.value_diverted);
        data.extend_from_slice(value.as_slice());
        let time = i64_to_le_bytes(self.timestamp);
        data.extend_from_slice(time.as_slice());
        assert(data@ =~= action_preimage(self@));
        data
    }

    /// The action's content hash: the SHA-256 digest, in hexadecimal text, of
    /// identity, kind, target, value and time.
    pub fn hash(&self) -> (digest: String)
        ensures
            digest@ == action_hash(self@),
            digest@.len() == 64,
    {
        let data = self.hash_input();
        digest_hex(data.as_slice())
    }

    /// Whether the action's proof token is accepted.
    pub fn verify_zk_proof(&self) -> (valid: bool)
        ensures
            valid == proof_token_valid(self@.zk_proof),
    {
        let token = self.zk_proof.as_str();
        if token.is_empty() {
            return false;
        }
        let bytes = token.as_bytes();
        bytes.len() >= 32 || bytes_start_with(bytes, "firebase_verified_".as_bytes())
    }
}


/// The views of a sequence of actions, in order.
pub open spec fn action_views(actions: Seq<ImpactAction>) -> Seq<ImpactActionView> {
    actions.map_values(|a: ImpactAction| a@)
}

/// The sum of the values that a sequence of actions moved.
pub open spec fn diverted_sum(actions: Seq<ImpactActionView>) -> nat
    decreases actions.len(),
{
    if actions.len() == 0 {
        0
    } else {
        diverted_sum(actions.drop_last()) + actions.last().value_diverted as nat
    }
}

/// A copy of a list of actions.
pub fn clone_actions_of(actions: &[ImpactAction]) -> (copy: Vec<ImpactAction>)
    ensures
        copy@ == actions@,
{
    let mut copy: Vec<ImpactAction> = Vec::new();
    let mut i: usize = 0;
    while i < actions.len()
        invariant
            i <= actions.len(),
            copy@ == actions@.take(i as int),
        decreases actions.len() - i,
    {
        copy.push(actions[i].clone());
        assert(actions@.take(i + 1) =~= actions@.take(i as int).push(actions@[i as int]));
        i += 1;
    }
    assert(actions@.take(actions@.len() as int) =~= actions@);
    copy
}

/// A sealed batch of actions, linked to the block before it by that block's
/// hash.
#[derive(Debug)]
pub struct PolisBlock {
    /// The block's height in its chain, counted from zero.
    pub index: u64,
    /// Seconds since the Unix epoch at which the block was built.
    pub timestamp: i64,
    /// The actions that the block holds, in pool order.
    pub actions: Vec<ImpactAction>,
    /// The hash of the block before, or 64 zeros for the first block.
    pub previous_hash: String,
    /// The block's strength: the number of its actions.
    pub union_strength: u64,
    /// The Merkle root over the actions' content hashes.
    pub merkle_root: String,
    /// The block's own hash.
    pub hash: String,
    /// The identity that built the block.
    pub validator: String,
}

/// A block as a mathematical value.
pub struct PolisBlockView {
    pub index: u64,
    pub timestamp: i64,
    pub actions: Seq<ImpactActionView>,
    pub previous_hash: Seq<char>,
    pub union_strength: u64,
    pub merkle_root: Seq<char>,
    pub hash: Seq<char>,
    pub validator: Seq<char>,
}

impl View for PolisBlock {
    type V = PolisBlockView;

    open spec fn view(&self) -> PolisBlockView {
        PolisBlockView {
            index: self.index,
            timestamp: self.timestamp,
            actions: action_views(self.actions@),
            previous_hash: self.previous_hash@,
            union_strength: self.union_strength,
            merkle_root: self.merkle_root@,
            hash: self.hash@,
            validator: self.validator@,
        }
    }
}

impl Clone for PolisBlock {
    fn clone(&self) -> (copy: Self)
        ensures
            copy@ == self@,
    {
        PolisBlock {
            index: self.index,
            timestamp: self.timestamp,
            actions: clone_actions_of(self.actions.as_slice()),
            previous_hash: self.previous_hash.clone(),
            union_strength: self.union_strength,
            merkle_root: self.merkle_root.clone(),
            hash: self.hash.clone(),
            validator: self.validator.clone(),
        }
    }
}

/// The bytes that a block's hash is taken over: height, time, previous hash,
/// Merkle root and strength. The actions enter through the Merkle root only.
pub open spec fn block_preimage(b: PolisBlockView) -> Seq<u8> {
    u64_le_bytes(b.index) + i64_le_bytes(b.timestamp) + str_bytes(b.previous_hash) + str_bytes(
        b.merkle_root,
    ) + u64_le_bytes(b.union_strength)
}

/// The hash that a block's fields call for.
pub open spec fn block_hash(b: PolisBlockView) -> Seq<char> {
    sha256_hex(block_preimage(b))
}

/// Whether every action of a sequence carries an accepted proof token.
pub open spec fn all_proofs_valid(actions: Seq<ImpactActionView>) -> bool {
    forall|i: int| 0 <= i < actions.len() ==> proof_token_valid(#[trigger] actions[i].zk_proof)
}

/// Whether a block follows `prev`: it names `prev`'s hash and stands one
/// higher.
pub open spec fn block_follows(b: PolisBlockView, prev: PolisBlockView) -> bool {
    b.previous_hash == prev.hash && b.index == prev.index + 1
}

/// Whether a block passes the check against a hash computed for it: its
/// stored hash is that hash, it follows the block before it where there is
/// one, and all its actions carry accepted proof tokens.
pub open spec fn block_verifies_with(
    b: PolisBlockView,
    computed_hash: Seq<char>,
    prev: Option<PolisBlockView>,
) -> bool {
    &&& b.hash == computed_hash
    &&& prev is Some ==> block_follows(b, prev->0)
    &&& all_proofs_valid(b.actions)
}

/// Whether a block passes the integrity check: its stored hash is the hash of
/// its fields, it follows the block before it where there is one, and all its
/// actions carry accepted proof tokens.
pub open spec fn block_verifies(b: PolisBlockView, prev: Option<PolisBlockView>) -> bool {
    block_verifies_with(b, block_hash(b), prev)
}

/// The view of a block that may be absent.
pub open spec fn block_option_view(block: Option<&PolisBlock>) -> Option<PolisBlockView> {
    match block {
        Some(b) => Some(b@),
        None => None,
    }
}

impl PolisBlock {
    /// The block's strength: the number of actions in it.
    pub fn calculate_strength(&self) -> (strength: u64)
        ensures
            strength == self@.actions.len(),
    {
        self.actions.len() as u64
    }

    /// The bytes that the block's hash is taken over: height and time as
    /// numbers of eight bytes each, least significant byte first, then the
    /// previous hash and the Merkle root as texts, then the strength as a
    /// number.
    pub fn hash_input(&self) -> (data: Vec<u8>)
        ensures
            data@ == block_preimage(self@),
    {
        let mut data: Vec<u8> = u64_to_le_bytes(self.index);
        let time = i64_to_le_bytes(self.timestamp);
        data.extend_from_slice(time.as_slice());
        data.extend_from_slice(self.previous_hash.as_str().as_bytes());
        data.extend_from_slice(self.merkle_root.as_str().as_bytes());
        let strength = u64_to_le_bytes(self.union_strength);
        data.extend_from_slice(strength.as_slice());
        assert(data@ =~= block_preimage(self@));
        data
    }

    /// The hash that the block's fields call for: the SHA-256 digest, in
    /// hexadecimal text, of height, time, previous hash, Merkle root and
    /// strength.
    pub fn calculate_hash(&self) -> (digest: String)
        ensures
            digest@ == block_hash(self@),
            digest@.len() == 64,
    {
        let data = self.hash_input();
        digest_hex(data.as_slice())
    }

    /// Checks the block against a hash that was computed for it and against
    /// the block before it, if any: the stored hash must be the computed one,
    /// the block must follow the previous one, and every action must carry
    /// an accepted proof token.
    pub fn verify_with(&self, computed_hash: &str, previous_block: Option<&PolisBlock>) -> (ok:
        bool)
        ensures
            ok == block_verifies_with(
                self@,
                computed_hash@,
                block_option_view(previous_block),
            ),
    {
        if !text_eq(self.hash.as_str(), computed_hash) {
            return false;
        }
        if let Some(prev) = previous_block {
            if self.previous_hash != prev.hash {
                return false;
            }
            if prev.index == u64::MAX || self.index != prev.index + 1 {
                return false;
            }
        }
        let mut i: usize = 0;
        while i < self.actions.len()
            invariant
                i <= self.actions.len(),
                forall|k: int|
                    0 <= k < i ==> proof_token_valid(#[trigger] self@.actions[k].zk_proof),
            decreases self.actions.len() - i,
        {
            if !self.actions[i].verify_zk_proof() {
                assert(self@.actions[i as int] == self.actions@[i as int]@);
                return false;
            }
            i += 1;
        }
        true
    }

    /// Checks the block's integrity against the block before it, if any.
    /// Nothing is accepted in part: one failed check rejects the block.
    pub fn verify(&self, previous_block: Option<&PolisBlock>) -> (ok: bool)
        ensures
            ok == block_verifies(self@, block_option_view(previous_block)),
    {
        let expected = self.calculate_hash();
        self.verify_with(expected.as_str(), previous_block)
    }
}

/// Where a campaign stands.
#[derive(Debug, Clone, Copy, PartialEq, Eq, Structural)]
pub enum CampaignStatus {
    /// Still collecting participants.
    Active,
    /// The goal was reached.
    Achieved,
    /// The campaign ran out of time.
    Expired,
    /// The campaign is on hold.
    Paused,
}

/// The progress of one campaign inside one shard.
#[derive(Debug)]
pub struct CampaignState {
    /// The campaign's identifier: the target that its actions are aimed at.
    pub campaign_id: String,
    /// How many accepted actions the campaign has counted.
    pub verified_participants_count: u64,
    /// How many it needs.
    pub goal_participants: u64,
    /// The money that its actions moved, in cents.
    pub total_capital_diverted: u64,
    /// The chain height at which the campaign ends.
    pub end_block: u64,
    /// A Merkle root over the campaign's proofs; empty until one is set.
    pub action_proofs_root: String,
    /// Where the campaign stands.
    pub status: CampaignStatus,
    /// When the campaign was created, in seconds since the Unix epoch.
    pub created_at: i64,
    /// When it last changed.
    pub last_updated: i64,
}

/// A campaign as a mathematical value.
pub struct CampaignStateView {
    pub campaign_id: Seq<char>,
    pub verified_participants_count: nat,
    pub goal_participants: nat,
    pub total_capital_diverted: nat,
    pub end_block: nat,
    pub action_proofs_root: Seq<char>,
    pub status: CampaignStatus,
    pub created_at: i64,
    pub last_updated: i64,
}

impl View for CampaignState {
    type V = CampaignStateView;

    open spec fn view(&self) -> CampaignStateView {
        CampaignStateView {
            campaign_id: self.campaign_id@,
            verified_participants_count: self.verified_participants_count as nat,
            goal_participants: self.goal_participants as nat,
            total_capital_diverted: self.total_capital_diverted as nat,
            end_block: self.end_block as nat,
            action_proofs_root: self.action_proofs_root@,
            status: self.status,
            created_at: self.created_at,
            last_updated: self.last_updated,
        }
    }
}

impl Clone for CampaignState {
    fn clone(&self) -> (copy: Self)
        ensures
            copy == *self,
    {
        CampaignState {
            campaign_id: self.campaign_id.clone(),
            verified_participants_count: self.verified_participants_count,
            goal_participants: self.goal_participants,
            total_capital_diverted: self.total_capital_diverted,
            end_block: self.end_block,
            action_proofs_root: self.action_proofs_root.clone(),
            status: self.status,
            created_at: self.created_at,
            last_updated: self.last_updated,
        }
    }
}

/// Whether a campaign has as many participants as it set out to find.
pub open spec fn goal_reached(c: CampaignStateView) -> bool {
    c.verified_participants_count >= c.goal_participants
}

impl CampaignState {
    /// Whether the campaign has as many participants as it set out to find.
    pub fn is_goal_reached(&self) -> (reached: bool)
        ensures
            reached == goal_reached(self@),
    {
        self.verified_participants_count >= self.goal_participants
    }
}

/// What a shard knows of one of its members.
#[derive(Debug)]
pub struct NodeStatus {
    /// The member's identity.
    pub node_id: String,
    /// Whether the member is online.
    pub is_online: bool,
    /// The chain height at which the member was last heard of.
    pub last_heartbeat_block: u64,
    /// The shards that the member is active in.
    pub active_shards: Vec<String>,
    /// A score for what the member has contributed.
    pub reputation_score: u64,
    /// When the entry last changed, in seconds since the Unix epoch.
    pub last_updated: i64,
}

/// A membership entry as a mathematical value.
pub struct NodeStatusView {
    pub node_id: Seq<char>,
    pub is_online: bool,
    pub last_heartbeat_block: nat,
    pub active_shards: Seq<Seq<char>>,
    pub reputation_score: nat,
    pub last_updated: i64,
}

impl View for NodeStatus {
    type V = NodeStatusView;

    open spec fn view(&self) -> NodeStatusView {
        NodeStatusView {
            node_id: self.node_id@,
            is_online: self.is_online,
            last_heartbeat_block: self.last_heartbeat_block as nat,
            active_shards: text_views(self.active_shards@),
            reputation_score: self.reputation_score as nat,
            last_updated: self.last_updated,
        }
    }
}

/// A proof of an action in the form in which it is handed in.
#[derive(Debug, Clone)]
pub struct ZKActionProof {
    /// A throw-away identity that stands for the sender.
    pub ephemeral_id: String,
    /// The campaign that the proof is for.
    pub campaign_target: String,
    /// The proof itself, as text.
    pub zk_proof_bytes: String,
    /// Details of the action, encrypted, for audits.
    pub encrypted_metadata: Option<String>,
    /// When the proof was made, in seconds since the Unix epoch.
    pub generated_at: i64,
}

/// A handed-in proof as a mathematical value.
pub struct ZKActionProofView {
    pub ephemeral_id: Seq<char>,
    pub campaign_target: Seq<char>,
    pub zk_proof_bytes: Seq<char>,
    pub encrypted_metadata: Option<Seq<char>>,
    pub generated_at: i64,
}

impl View for ZKActionProof {
    type V = ZKActionProofView;

    open spec fn view(&self) -> ZKActionProofView {
        ZKActionProofView {
            ephemeral_id: self.ephemeral_id@,
            campaign_target: self.campaign_target@,
            zk_proof_bytes: self.zk_proof_bytes@,
            encrypted_metadata: match self.encrypted_metadata {
                Some(text) => Some(text@),
                None => None,
            },
            generated_at: self.generated_at,
        }
    }
}

/// The charter of a movement: the chain it runs on and where it stands.
#[derive(Debug, Clone, PartialEq, Eq)]
pub struct MovementManifest {
    /// The identifier of the movement's chain.
    pub chain_id: String,
    /// Where the movement stands on the economic, social and diplomatic axes.
    pub ideology_vector: [i32; 3],
    /// The hash of the chain's first block.
    pub genesis_block_hash: String,
    /// What the movement is about.
    pub description: String,
    /// How many participants it aims for.
    pub goal_participants: u64,
    /// When it was founded, in seconds since the Unix epoch.
    pub created_at: i64,
}

/// A charter as a mathematical value.
pub struct MovementManifestView {
    pub chain_id: Seq<char>,
    pub ideology_vector: Seq<i32>,
    pub genesis_block_hash: Seq<char>,
    pub description: Seq<char>,
    pub goal_participants: nat,
    pub created_at: i64,
}

impl View for MovementManifest {
    type V = MovementManifestView;

    open spec fn view(&self) -> MovementManifestView {
        MovementManifestView {
            chain_id: self.chain_id@,
            ideology_vector: self.ideology_vector@,
            genesis_block_hash: self.genesis_block_hash@,
            description: self.description@,
            goal_participants: self.goal_participants as nat,
            created_at: self.created_at,
        }
    }
}

/// The views of a sequence of blocks, in order.
pub open spec fn block_views(blocks: Seq<PolisBlock>) -> Seq<PolisBlockView> {
    blocks.map_values(|b: PolisBlock| b@)
}

/// The views of a sequence of campaigns, in order.
pub open spec fn campaign_views(campaigns: Seq<CampaignState>) -> Seq<CampaignStateView> {
    campaigns.map_values(|c: CampaignState| c@)
}

/// The chain of one shard with its running totals.
#[derive(Debug)]
pub struct DecentralizedPoliticianState {
    /// The blocks, oldest first.
    pub blockchain: Vec<PolisBlock>,
    /// Donated money held in common, in cents.
    pub treasury: u64,
    /// The shard's campaigns, oldest first.
    pub active_campaigns: Vec<CampaignState>,
    /// How many members are online.
    pub online_nodes_count: u64,
    /// The strength of all blocks together.
    pub total_union_strength: u64,
    /// The money that all actions in the chain moved, in cents.
    pub total_capital_diverted: u64,
}

/// A chain state as a mathematical value.
pub struct DecentralizedPoliticianStateView {
    pub blockchain: Seq<PolisBlockView>,
    pub treasury: nat,
    pub active_campaigns: Seq<CampaignStateView>,
    pub online_nodes_count: nat,
    pub total_union_strength: nat,
    pub total_capital_diverted: nat,
}

impl View for DecentralizedPoliticianState {
    type V = DecentralizedPoliticianStateView;

    open spec fn view(&self) -> DecentralizedPoliticianStateView {
        DecentralizedPoliticianStateView {
            blockchain: block_views(self.blockchain@),
            treasury: self.treasury as nat,
            active_campaigns: campaign_views(self.active_campaigns@),
            online_nodes_count: self.online_nodes_count as nat,
            total_union_strength: self.total_union_strength as nat,
            total_capital_diverted: self.total_capital_diverted as nat,
        }
    }
}

/// The state of a shard before anything happened in it.
pub open spec fn empty_state() -> DecentralizedPoliticianStateView {
    DecentralizedPoliticianStateView {
        blockchain: Seq::empty(),
        treasury: 0,
        active_campaigns: Seq::empty(),
        online_nodes_count: 0,
        total_union_strength: 0,
        total_capital_diverted: 0,
    }
}

/// The last block of a chain, if it has one.
pub open spec fn chain_tail(chain: Seq<PolisBlockView>) -> Option<PolisBlockView> {
    if chain.len() == 0 {
        None
    } else {
        Some(chain.last())
    }
}

/// Whether a state takes a block: the block passes the integrity check
/// against the chain's last block.
pub open spec fn state_accepts(s: DecentralizedPoliticianStateView, b: PolisBlockView) -> bool {
    block_verifies(b, chain_tail(s.blockchain))
}

/// A state after a block was appended: the chain is one longer, and the
/// block's strength and the values of its actions are added to the totals.
pub open spec fn state_with_block(
    s: DecentralizedPoliticianStateView,
    b: PolisBlockView,
) -> DecentralizedPoliticianStateView {
    DecentralizedPoliticianStateView {
        blockchain: s.blockchain.push(b),
        total_union_strength: s.total_union_strength + b.union_strength as nat,
        total_capital_diverted: s.total_capital_diverted + diverted_sum(b.actions),
        ..s
    }
}

/// Whether the totals of a state with a block added still fit their fields.
pub open spec fn block_fits(s: DecentralizedPoliticianStateView, b: PolisBlockView) -> bool {
    &&& s.total_union_strength + b.union_strength <= u64::MAX
    &&& s.total_capital_diverted + diverted_sum(b.actions) <= u64::MAX
}

/// Whether a chain is hash-linked: every block carries the hash of its own
/// fields, and every block but the first names the hash of the block before
/// it and stands one higher.
pub open spec fn chain_linked(chain: Seq<PolisBlockView>) -> bool {
    &&& forall|i: int| 0 <= i < chain.len() ==> (#[trigger] chain[i]).hash == block_hash(chain[i])
    &&& forall|i: int| 0 < i < chain.len() ==> block_follows(#[trigger] chain[i], chain[i - 1])
}

/// The sum of the values of the first `n` actions only grows with `n`.
pub proof fn lemma_diverted_sum_grows(actions: Seq<ImpactActionView>, n: int)
    requires
        0 <= n <= actions.len(),
    ensures
        diverted_sum(actions.take(n)) <= diverted_sum(actions),
    decreases actions.len() - n,
{
    if n < actions.len() {
        lemma_diverted_sum_grows(actions, n + 1);
        assert(actions.take(n + 1).drop_last() =~= actions.take(n));
    } else {
        assert(actions.take(n) =~= actions);
    }
}

/// The sum of the values that a list of actions moved, unless it is too
/// great for 64 bits.
pub fn checked_diverted_sum(actions: &Vec<ImpactAction>) -> (result: Option<u64>)
    ensures
        match result {
            Some(total) => total == diverted_sum(action_views(actions@)),
            None => diverted_sum(action_views(actions@)) > u64::MAX,
        },
{
    let ghost views = action_views(actions@);
    let mut total: u64 = 0;
    let mut i: usize = 0;
    while i < actions.len()
        invariant
            i <= actions.len(),
            views == action_views(actions@),
            total == diverted_sum(views.take(i as int)),
        decreases actions.len() - i,
    {
        proof {
            lemma_diverted_sum_grows(views, i + 1);
            assert(views.take(i + 1).drop_last() =~= views.take(i as int));
            assert(views[i as int] == actions@[i as int]@);
        }
        match total.checked_add(actions[i].value_diverted) {
            Some(sum) => {
                total = sum;
            },
            None => {
                return None;
            },
        }
        i += 1;
    }
    assert(views.take(views.len() as int) =~= views);
    Some(total)
}

impl DecentralizedPoliticianState {
    /// Whether the totals still fit their fields once the block is added.
    pub fn can_add_block(&self, block: &PolisBlock) -> (ok: bool)
        ensures
            ok == block_fits(self@, block@),
    {
        if self.total_union_strength > u64::MAX - block.union_strength {
            return false;
        }
        match checked_diverted_sum(&block.actions) {
            Some(moved) => self.total_capital_diverted <= u64::MAX - moved,
            None => false,
        }
    }

    /// A state with no blocks, no campaigns and all totals at zero.
    pub fn new() -> (state: Self)
        ensures
            state@ == empty_state(),
            chain_linked(state@.blockchain),
    {
        let state = DecentralizedPoliticianState {
            blockchain: Vec::new(),
            treasury: 0,
            active_campaigns: Vec::new(),
            online_nodes_count: 0,
            total_union_strength: 0,
            total_capital_diverted: 0,
        };
        assert(state@.blockchain =~= Seq::empty());
        assert(state@.active_campaigns =~= Seq::empty());
        state
    }

    /// Appends a block if it passes the integrity check against the chain's
    /// last block, and adds its strength and the values of its actions to the
    /// totals. A block that fails leaves the state as it was.
    pub fn add_block(&mut self, block: PolisBlock) -> (result: Result<(), ProtocolError>)
        requires
            state_accepts(old(self)@, block@) ==> block_fits(old(self)@, block@),
        ensures
            match result {
                Ok(_) => state_accepts(old(self)@, block@) && final(self)@ == state_with_block(
                    old(self)@,
                    block@,
                ),
                Err(e) => e == ProtocolError::VerificationFailed && !state_accepts(
                    old(self)@,
                    block@,
                ) && *final(self) == *old(self),
            },
            chain_linked(old(self)@.blockchain) ==> chain_linked(final(self)@.blockchain),
            old(self)@.blockchain.is_prefix_of(final(self)@.blockchain),
    {
        assert(old(self)@.blockchain.is_prefix_of(old(self)@.blockchain)) by {
            assert(old(self)@.blockchain.subrange(0, old(self)@.blockchain.len() as int)
                =~= old(self)@.blockchain);
        }
        let ok = block.verify(self.latest_block());
        if !ok {
            return Err(ProtocolError::VerificationFailed);
        }
        let ghost before = self@;
        let moved = checked_diverted_sum(&block.actions).unwrap();
        let total = self.total_capital_diverted + moved;
        self.total_union_strength = self.total_union_strength + block.union_strength;
        self.total_capital_diverted = total;
        self.blockchain.push(block);
        proof {
            assert(final(self)@.blockchain =~= before.blockchain.push(block@));
            assert(final(self)@.blockchain.subrange(0, before.blockchain.len() as int)
                =~= before.blockchain);
            lemma_append_keeps_links(before, block@);
        }
        Ok(())
    }

    /// Appends a block as `add_block` does, for every block and every state:
    /// a block that passes the integrity check but whose strength or values
    /// would carry a total beyond 64 bits is not appended, and the answer is
    /// then `None`. Whatever the answer, the blocks that were in the chain
    /// stay where they were, and a chain that was hash-linked stays so.
    pub fn try_add_block(&mut self, block: PolisBlock) -> (result: Option<
        Result<(), ProtocolError>,
    >)
        ensures
            match result {
                Some(Ok(_)) => state_accepts(old(self)@, block@) && block_fits(old(self)@, block@)
                    && final(self)@ == state_with_block(old(self)@, block@),
                Some(Err(e)) => e == ProtocolError::VerificationFailed && !state_accepts(
                    old(self)@,
                    block@,
                ) && *final(self) == *old(self),
                None => state_accepts(old(self)@, block@) && !block_fits(old(self)@, block@)
                    && *final(self) == *old(self),
            },
            chain_linked(old(self)@.blockchain) ==> chain_linked(final(self)@.blockchain),
            old(self)@.blockchain.is_prefix_of(final(self)@.blockchain),
    {
        if block.verify(self.latest_block()) && !self.can_add_block(&block) {
            assert(old(self)@.blockchain.subrange(0, old(self)@.blockchain.len() as int)
                =~= old(self)@.blockchain);
            return None;
        }
        Some(self.add_block(block))
    }

    /// The chain's last block, if it has one.
    pub fn latest_block(&self) -> (block: Option<&PolisBlock>)
        ensures
            match block {
                Some(b) => self.blockchain@.len() > 0 && *b == self.blockchain@.last(),
                None => self.blockchain@.len() == 0,
            },
            block_option_view(block) == chain_tail(self@.blockchain),
    {
        let n = self.blockchain.len();
        if n == 0 {
            None
        } else {
            Some(&self.blockchain[n - 1])
        }
    }

    /// The number of blocks in the chain.
    pub fn height(&self) -> (height: u64)
        ensures
            height == self@.blockchain.len(),
    {
        self.blockchain.len() as u64
    }
}

/// Appending a block that a state accepts keeps the chain hash-linked.
pub proof fn lemma_append_keeps_links(s: DecentralizedPoliticianStateView, b: PolisBlockView)
    requires
        state_accepts(s, b),
    ensures
        chain_linked(s.blockchain) ==> chain_linked(state_with_block(s, b).blockchain),
{
    let chain = state_with_block(s, b).blockchain;
    if chain_linked(s.blockchain) {
        assert forall|i: int| 0 <= i < chain.len() implies (#[trigger] chain[i]).hash == block_hash(
            chain[i],
        ) by {
            if i < s.blockchain.len() {
                assert(chain[i] == s.blockchain[i]);
            }
        }
        assert forall|i: int| 0 < i < chain.len() implies block_follows(
            #[trigger] chain[i],
            chain[i - 1],
        ) by {
            if i < s.blockchain.len() {
                assert(chain[i] == s.blockchain[i]);
                assert(chain[i - 1] == s.blockchain[i - 1]);
            } else {
                assert(chain[i - 1] == s.blockchain.last());
            }
        }
    }
}

} // verus!
