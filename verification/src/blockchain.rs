//! Shards: regions of the stance space, each with a chain, a pending pool,
//! campaigns and members of its own.

use crate::builder::{build_block, built_from, can_build_on};
use crate::clock::unix_now;
use crate::error::ProtocolError;
use crate::merkle::{merkle_root, merkle_root_of};
use crate::text::{
    distinct, index_of, lemma_index_of_found, lemma_index_of_range, text_eq, text_views,
};
use crate::types::{
    action_views, all_proofs_valid, block_fits, chain_linked, chain_tail, checked_diverted_sum,
    goal_reached, lemma_append_keeps_links,
    diverted_sum, empty_state, proof_token_valid, state_accepts, state_with_block, CampaignState,
    CampaignStateView, CampaignStatus, DecentralizedPoliticianState,
    DecentralizedPoliticianStateView, ImpactAction, ImpactActionView, NodeStatus, NodeStatusView,
    PolisBlock, PolisBlockView,
};
use vstd::prelude::*;
use vstd::string::StringExecFns;

verus! {

/// An axis-aligned box in the three-dimensional space of stances. All six
/// bounds belong to the box. Coordinates are whole numbers on a scale that
/// the caller picks; only their order matters.
#[derive(Debug, Clone, Copy, PartialEq, Eq, Structural)]
pub struct IdeologyRange {
    pub economic_min: i32,
    pub economic_max: i32,
    pub social_min: i32,
    pub social_max: i32,
    pub diplomatic_min: i32,
    pub diplomatic_max: i32,
}

impl IdeologyRange {
    /// Whether the point with the given economic, social and diplomatic
    /// coordinates lies in the box, bounds included.
    pub open spec fn holds(self, economic: int, social: int, diplomatic: int) -> bool {
        &&& self.economic_min <= economic <= self.economic_max
        &&& self.social_min <= social <= self.social_max
        &&& self.diplomatic_min <= diplomatic <= self.diplomatic_max
    }

    /// Whether a point given as a sequence of three coordinates lies in the box.
    pub open spec fn holds_point(self, point: Seq<i32>) -> bool {
        self.holds(point[0] as int, point[1] as int, point[2] as int)
    }

    /// Whether the point lies in the box, bounds included.
    pub fn contains(&self, vector: &[i32; 3]) -> (inside: bool)
        ensures
            inside == self.holds_point(vector@),
    {
        let economic = vector[0];
        let social = vector[1];
        let diplomatic = vector[2];
        economic >= self.economic_min && economic <= self.economic_max && social
            >= self.social_min && social <= self.social_max && diplomatic >= self.diplomatic_min
            && diplomatic <= self.diplomatic_max
    }
}

/// The box with the given least and greatest coordinate on each axis.
pub open spec fn region(economic: (int, int), social: (int, int), diplomatic: (int, int)) -> IdeologyRange {
    IdeologyRange {
        economic_min: economic.0 as i32,
        economic_max: economic.1 as i32,
        social_min: social.0 as i32,
        social_max: social.1 as i32,
        diplomatic_min: diplomatic.0 as i32,
        diplomatic_max: diplomatic.1 as i32,
    }
}

/// The views of a sequence of membership entries, in order.
pub open spec fn node_views(nodes: Seq<NodeStatus>) -> Seq<NodeStatusView> {
    nodes.map_values(|n: NodeStatus| n@)
}

/// One shard: a region of the stance space with its own chain, pending pool,
/// campaigns and members.
#[derive(Debug)]
pub struct StanceShard {
    /// The shard's label.
    pub shard_id: String,
    /// The region that the shard covers.
    pub ideology_range: IdeologyRange,
    /// The chain with its campaigns and running totals.
    pub state: DecentralizedPoliticianState,
    /// Accepted actions that wait for a block, oldest first.
    pub pending_actions: Vec<ImpactAction>,
    /// The members, in the order in which they joined. No identity occurs
    /// twice.
    pub nodes: Vec<NodeStatus>,
}

/// A shard as a mathematical value.
pub struct StanceShardView {
    pub shard_id: Seq<char>,
    pub ideology_range: IdeologyRange,
    pub state: DecentralizedPoliticianStateView,
    pub pending_actions: Seq<ImpactActionView>,
    pub nodes: Seq<NodeStatusView>,
}

impl View for StanceShard {
    type V = StanceShardView;

    open spec fn view(&self) -> StanceShardView {
        StanceShardView {
            shard_id: self.shard_id@,
            ideology_range: self.ideology_range,
            state: self.state@,
            pending_actions: action_views(self.pending_actions@),
            nodes: node_views(self.nodes@),
        }
    }
}

impl StanceShardView {
    /// Whether the shard's lists hold each key once: no member is listed
    /// twice, and no two campaigns share an identifier.
    pub open spec fn wf(self) -> bool {
        &&& distinct(node_ids(self.nodes))
        &&& distinct(campaign_ids(self.state.active_campaigns))
    }
}

/// A shard in which nothing has happened yet.
pub open spec fn empty_shard(shard_id: Seq<char>, range: IdeologyRange) -> StanceShardView {
    StanceShardView {
        shard_id,
        ideology_range: range,
        state: empty_state(),
        pending_actions: Seq::empty(),
        nodes: Seq::empty(),
    }
}

/// The identities of a sequence of membership entries, in order.
pub open spec fn node_ids(nodes: Seq<NodeStatusView>) -> Seq<Seq<char>> {
    nodes.map_values(|n: NodeStatusView| n.node_id)
}

/// The identifiers of a sequence of campaigns, in order.
pub open spec fn campaign_ids(campaigns: Seq<CampaignStateView>) -> Seq<Seq<char>> {
    campaigns.map_values(|c: CampaignStateView| c.campaign_id)
}

/// A shard with one more action in its pending pool.
pub open spec fn shard_with_pending(s: StanceShardView, a: ImpactActionView) -> StanceShardView {
    StanceShardView { pending_actions: s.pending_actions.push(a), ..s }
}

/// The block that a shard builds from its whole pending pool at time `now`,
/// behind the last block of its chain.
pub open spec fn built_block(s: StanceShardView, validator: Seq<char>, now: i64) -> PolisBlockView {
    built_from(s.pending_actions, chain_tail(s.state.blockchain), validator, now)
}

/// Whether a shard can build a block: the height behind its chain's last
/// block fits its field.
pub open spec fn can_build(s: StanceShardView) -> bool {
    can_build_on(chain_tail(s.state.blockchain))
}

/// A shard whose pending pool was emptied.
pub open spec fn shard_drained(s: StanceShardView) -> StanceShardView {
    StanceShardView { pending_actions: Seq::empty(), ..s }
}

/// How many entries of a membership list are online.
pub open spec fn online_count(nodes: Seq<NodeStatusView>) -> nat
    decreases nodes.len(),
{
    if nodes.len() == 0 {
        0
    } else {
        online_count(nodes.drop_last()) + if nodes.last().is_online {
            1nat
        } else {
            0nat
        }
    }
}

/// The entry of a member that a shard with the given label has not seen
/// before.
pub open spec fn new_member(
    shard_id: Seq<char>,
    height: nat,
    node_id: Seq<char>,
    is_online: bool,
    now: i64,
) -> NodeStatusView {
    NodeStatusView {
        node_id,
        is_online,
        last_heartbeat_block: height,
        active_shards: seq![shard_id],
        reputation_score: 0,
        last_updated: now,
    }
}

/// A membership list after a heartbeat: the member's entry carries the new
/// flag, the chain height and the time; a member not seen before is added at
/// the end.
pub open spec fn nodes_with_member(
    nodes: Seq<NodeStatusView>,
    shard_id: Seq<char>,
    height: nat,
    node_id: Seq<char>,
    is_online: bool,
    now: i64,
) -> Seq<NodeStatusView> {
    let i = index_of(node_ids(nodes), node_id);
    if i < nodes.len() {
        nodes.update(
            i,
            NodeStatusView {
                is_online,
                last_heartbeat_block: height,
                last_updated: now,
                ..nodes[i]
            },
        )
    } else {
        nodes.push(new_member(shard_id, height, node_id, is_online, now))
    }
}

/// A shard after a heartbeat of one member: the membership list is brought
/// up to date and the online count is taken anew from the whole list.
pub open spec fn shard_with_member(
    s: StanceShardView,
    node_id: Seq<char>,
    is_online: bool,
    now: i64,
) -> StanceShardView {
    let nodes = nodes_with_member(
        s.nodes,
        s.shard_id,
        s.state.blockchain.len(),
        node_id,
        is_online,
        now,
    );
    StanceShardView {
        nodes,
        state: DecentralizedPoliticianStateView {
            online_nodes_count: online_count(nodes),
            ..s.state
        },
        ..s
    }
}

/// The goal of a campaign that is created on the fly.
pub const DEFAULT_CAMPAIGN_GOAL: u64 = 1000;

/// The number of blocks that a campaign created on the fly runs for.
pub const DEFAULT_CAMPAIGN_DURATION: u64 = 10000;

/// A campaign after one more action for it: one more participant, the
/// action's value added, the time noted, and the step from active to
/// achieved taken once the goal is reached.
pub open spec fn campaign_after_action(c: CampaignStateView, value: u64, now: i64) -> CampaignStateView {
    let count = c.verified_participants_count + 1;
    CampaignStateView {
        verified_participants_count: count,
        total_capital_diverted: c.total_capital_diverted + value as nat,
        last_updated: now,
        status: if count >= c.goal_participants && c.status == CampaignStatus::Active {
            CampaignStatus::Achieved
        } else {
            c.status
        },
        ..c
    }
}

/// Whether a campaign's counters still fit their fields after one more
/// action of the given value.
pub open spec fn campaign_fits(c: CampaignStateView, value: u64) -> bool {
    &&& c.verified_participants_count + 1 <= u64::MAX
    &&& c.total_capital_diverted + value <= u64::MAX
}

/// A list of campaigns after an action for the campaign `id`: the first
/// campaign with that identifier is updated; without one nothing changes.
pub open spec fn campaigns_after_action(
    campaigns: Seq<CampaignStateView>,
    id: Seq<char>,
    value: u64,
    now: i64,
) -> Seq<CampaignStateView> {
    let i = index_of(campaign_ids(campaigns), id);
    if i < campaigns.len() {
        campaigns.update(i, campaign_after_action(campaigns[i], value, now))
    } else {
        campaigns
    }
}

/// Whether the counters of the campaign `id`, if there is one, still fit
/// after one more action of the given value.
pub open spec fn campaigns_fit(campaigns: Seq<CampaignStateView>, id: Seq<char>, value: u64) -> bool {
    let i = index_of(campaign_ids(campaigns), id);
    i < campaigns.len() ==> campaign_fits(campaigns[i], value)
}

/// A shard with another list of campaigns.
pub open spec fn shard_with_campaigns(
    s: StanceShardView,
    campaigns: Seq<CampaignStateView>,
) -> StanceShardView {
    StanceShardView {
        state: DecentralizedPoliticianStateView { active_campaigns: campaigns, ..s.state },
        ..s
    }
}

/// A campaign as it is created: active, with nothing counted yet.
pub open spec fn new_campaign(id: Seq<char>, goal: u64, end_block: nat, now: i64) -> CampaignStateView {
    CampaignStateView {
        campaign_id: id,
        verified_participants_count: 0,
        goal_participants: goal as nat,
        total_capital_diverted: 0,
        end_block,
        action_proofs_root: Seq::empty(),
        status: CampaignStatus::Active,
        created_at: now,
        last_updated: now,
    }
}

/// Whether a shard has a campaign with the given identifier.
pub open spec fn has_campaign(s: StanceShardView, id: Seq<char>) -> bool {
    index_of(campaign_ids(s.state.active_campaigns), id) < s.state.active_campaigns.len()
}

/// A shard with a new campaign at the end of its list.
pub open spec fn shard_with_new_campaign(
    s: StanceShardView,
    id: Seq<char>,
    goal: u64,
    duration: u64,
    now: i64,
) -> StanceShardView {
    shard_with_campaigns(
        s,
        s.state.active_campaigns.push(
            new_campaign(id, goal, s.state.blockchain.len() + duration as nat, now),
        ),
    )
}

/// A shard after an action for the campaign `target`: a campaign that is
/// missing is created first, with the default goal and duration, and then
/// the action is counted for it.
pub open spec fn shard_with_upsert(
    s: StanceShardView,
    target: Seq<char>,
    value: u64,
    now: i64,
) -> StanceShardView {
    let created = if has_campaign(s, target) {
        s
    } else {
        shard_with_new_campaign(s, target, DEFAULT_CAMPAIGN_GOAL, DEFAULT_CAMPAIGN_DURATION, now)
    };
    shard_with_campaigns(
        created,
        campaigns_after_action(created.state.active_campaigns, target, value, now),
    )
}

/// Whether the numbers of `shard_with_upsert` fit their fields.
pub open spec fn upsert_fits(s: StanceShardView, target: Seq<char>, value: u64) -> bool {
    if has_campaign(s, target) {
        campaigns_fit(s.state.active_campaigns, target, value)
    } else {
        s.state.blockchain.len() + DEFAULT_CAMPAIGN_DURATION <= u64::MAX
    }
}

/// A shard with a block appended to its chain.
pub open spec fn shard_with_block(s: StanceShardView, b: PolisBlockView) -> StanceShardView {
    StanceShardView { state: state_with_block(s.state, b), ..s }
}

/// The block that seals an action together with what was pending before it.
pub open spec fn sealing_block(
    s: StanceShardView,
    a: ImpactActionView,
    producer: Seq<char>,
    now: i64,
) -> PolisBlockView {
    built_block(shard_with_pending(s, a), producer, now)
}

/// How recording an action in a shard ends: an action whose proof token is
/// not accepted is refused, and every other action is taken. A sealing block
/// that fails the integrity check is no refusal: the action then waits in
/// the pool.
pub open spec fn record_outcome(
    s: StanceShardView,
    a: ImpactActionView,
    producer: Seq<char>,
    now: i64,
) -> Result<(), ProtocolError> {
    if !proof_token_valid(a.zk_proof) {
        Err(ProtocolError::InvalidProof)
    } else {
        Ok(())
    }
}

/// Whether the block that seals an action passes the integrity check against
/// the chain of the shard.
pub open spec fn seals(
    s: StanceShardView,
    a: ImpactActionView,
    producer: Seq<char>,
    now: i64,
) -> bool {
    state_accepts(s.state, sealing_block(s, a, producer, now))
}

/// A shard after an action was recorded in it. The campaign for the action's
/// target is brought up to date in every case. An action with an accepted
/// proof token then joins the pool, and the whole pool is built into one
/// block. If the block passes the integrity check it joins the chain and the
/// pool is emptied; if not, chain and totals stay as they were and the pool
/// keeps every action for a later attempt.
pub open spec fn shard_after_record(
    s: StanceShardView,
    a: ImpactActionView,
    producer: Seq<char>,
    now: i64,
) -> StanceShardView {
    let counted = shard_with_upsert(s, a.target_entity, a.value_diverted, now);
    if !proof_token_valid(a.zk_proof) {
        counted
    } else {
        let queued = shard_with_pending(counted, a);
        if seals(s, a, producer, now) {
            shard_with_block(shard_drained(queued), sealing_block(s, a, producer, now))
        } else {
            queued
        }
    }
}

/// Whether the numbers of `shard_after_record` fit their fields for an
/// action with the given target and value.
pub open spec fn record_fits(s: StanceShardView, target: Seq<char>, value: u64) -> bool {
    &&& upsert_fits(s, target, value)
    &&& can_build(s)
    &&& s.state.total_union_strength + s.pending_actions.len() + 1 <= u64::MAX
    &&& s.state.total_capital_diverted + diverted_sum(s.pending_actions) + value <= u64::MAX
}

/// Whether a shard is ready to seal: every pending action carries an
/// accepted proof token, and a block can be built behind the chain's last.
pub open spec fn ready_to_seal(s: StanceShardView) -> bool {
    &&& all_proofs_valid(s.pending_actions)
    &&& can_build(s)
}

/// A heartbeat keeps a membership list free of doubles and leaves the
/// member in it.
pub proof fn lemma_heartbeat_keeps_members_apart(
    s: StanceShardView,
    node_id: Seq<char>,
    is_online: bool,
    now: i64,
)
    ensures
        s.wf() ==> shard_with_member(s, node_id, is_online, now).wf(),
        index_of(node_ids(shard_with_member(s, node_id, is_online, now).nodes), node_id)
            < shard_with_member(s, node_id, is_online, now).nodes.len(),
        shard_with_member(s, node_id, is_online, now).nodes[index_of(
            node_ids(shard_with_member(s, node_id, is_online, now).nodes),
            node_id,
        )].is_online == is_online,
        shard_with_member(s, node_id, is_online, now).shard_id == s.shard_id,
        node_ids(s.nodes).is_prefix_of(
            node_ids(shard_with_member(s, node_id, is_online, now).nodes),
        ),
{
    let before = node_ids(s.nodes);
    let after_nodes = shard_with_member(s, node_id, is_online, now).nodes;
    let after = node_ids(after_nodes);
    let i = index_of(before, node_id);
    lemma_index_of_range(before, node_id);
    if i < s.nodes.len() {
        assert(after =~= before);
    } else {
        assert(after =~= before.push(node_id));
        lemma_index_of_found(after, node_id, before.len() as int);
    }
    assert(after.subrange(0, before.len() as int) =~= before);
}

/// Counting an action leaves every campaign where it stood in the list and
/// under its identifier, and changes no status but from active to achieved,
/// and that only where the goal is reached.
pub proof fn lemma_upsert_one_way(
    s: StanceShardView,
    target: Seq<char>,
    value: u64,
    now: i64,
    k: int,
)
    requires
        0 <= k < s.state.active_campaigns.len(),
    ensures
        ({
            let before = s.state.active_campaigns[k];
            let list = shard_with_upsert(s, target, value, now).state.active_campaigns;
            &&& k < list.len()
            &&& list[k].campaign_id == before.campaign_id
            &&& list[k].goal_participants == before.goal_participants
            &&& list[k].status == before.status || (before.status == CampaignStatus::Active
                && list[k].status == CampaignStatus::Achieved && goal_reached(list[k]))
        }),
{
    let old_list = s.state.active_campaigns;
    let created = if has_campaign(s, target) {
        s
    } else {
        shard_with_new_campaign(s, target, DEFAULT_CAMPAIGN_GOAL, DEFAULT_CAMPAIGN_DURATION, now)
    };
    assert(created.state.active_campaigns[k] == old_list[k]);
    lemma_index_of_range(campaign_ids(created.state.active_campaigns), target);
}

/// A shard's figures at one moment.
#[derive(Debug, Clone)]
pub struct ShardStats {
    pub shard_id: String,
    pub block_height: u64,
    pub online_nodes: u64,
    pub total_union_strength: u64,
    pub total_capital_diverted: u64,
    pub active_campaigns_count: u64,
    pub pending_actions_count: u64,
}

/// A shard's figures as a mathematical value.
pub struct ShardStatsView {
    pub shard_id: Seq<char>,
    pub block_height: nat,
    pub online_nodes: nat,
    pub total_union_strength: nat,
    pub total_capital_diverted: nat,
    pub active_campaigns_count: nat,
    pub pending_actions_count: nat,
}

impl View for ShardStats {
    type V = ShardStatsView;

    open spec fn view(&self) -> ShardStatsView {
        ShardStatsView {
            shard_id: self.shard_id@,
            block_height: self.block_height as nat,
            online_nodes: self.online_nodes as nat,
            total_union_strength: self.total_union_strength as nat,
            total_capital_diverted: self.total_capital_diverted as nat,
            active_campaigns_count: self.active_campaigns_count as nat,
            pending_actions_count: self.pending_actions_count as nat,
        }
    }
}

/// The figures of a shard: label, chain height, online count, the two
/// running totals, and the numbers of campaigns and of pending actions.
pub open spec fn shard_stats(s: StanceShardView) -> ShardStatsView {
    ShardStatsView {
        shard_id: s.shard_id,
        block_height: s.state.blockchain.len(),
        online_nodes: s.state.online_nodes_count,
        total_union_strength: s.state.total_union_strength,
        total_capital_diverted: s.state.total_capital_diverted,
        active_campaigns_count: s.state.active_campaigns.len(),
        pending_actions_count: s.pending_actions.len(),
    }
}

/// What has been counted so far of `online_count` is what the first part of
/// the list holds.
proof fn lemma_online_count_step(nodes: Seq<NodeStatusView>, i: int)
    requires
        0 <= i < nodes.len(),
    ensures
        online_count(nodes.take(i + 1)) == online_count(nodes.take(i)) + if nodes[i].is_online {
            1nat
        } else {
            0nat
        },
        online_count(nodes.take(i + 1)) <= i + 1,
    decreases i,
{
    assert(nodes.take(i + 1).drop_last() =~= nodes.take(i));
    if i > 0 {
        lemma_online_count_step(nodes, i - 1);
    }
}

impl StanceShard {
    /// A shard with the given label and region, an empty chain, an empty
    /// pool and no members.
    pub fn new(shard_id: String, ideology_range: IdeologyRange) -> (shard: Self)
        ensures
            shard@ == empty_shard(shard_id@, ideology_range),
            shard@.wf(),
    {
        let shard = StanceShard {
            shard_id,
            ideology_range,
            state: DecentralizedPoliticianState::new(),
            pending_actions: Vec::new(),
            nodes: Vec::new(),
        };
        assert(shard@.pending_actions =~= Seq::empty());
        assert(shard@.nodes =~= Seq::empty());
        shard
    }

    /// Puts an action into the pending pool if its proof token is accepted.
    /// Actions are not compared with those already there.
    pub fn add_pending_action(&mut self, action: ImpactAction) -> (result: Result<
        (),
        ProtocolError,
    >)
        ensures
            match result {
                Ok(_) => proof_token_valid(action@.zk_proof) && final(self)@ == shard_with_pending(
                    old(self)@,
                    action@,
                ),
                Err(e) => e == ProtocolError::InvalidProof && !proof_token_valid(action@.zk_proof)
                    && *final(self) == *old(self),
            },
            old(self)@.wf() ==> final(self)@.wf(),
    {
        if !action.verify_zk_proof() {
            return Err(ProtocolError::InvalidProof);
        }
        self.pending_actions.push(action);
        assert(final(self)@.pending_actions =~= old(self)@.pending_actions.push(action@));
        Ok(())
    }

    /// Builds a block from the whole pending pool at time `now` and empties
    /// the pool. The block is not appended to the chain. With an empty pool
    /// nothing is built and nothing changes.
    pub fn produce_block_at(&mut self, validator: String, now: i64) -> (result: Result<
        PolisBlock,
        ProtocolError,
    >)
        requires
            old(self)@.pending_actions.len() > 0 ==> can_build(old(self)@),
        ensures
            match result {
                Ok(block) => old(self)@.pending_actions.len() > 0 && block@ == built_block(
                    old(self)@,
                    validator@,
                    now,
                ) && final(self)@ == shard_drained(old(self)@),
                Err(e) => e == ProtocolError::EmptyPool && old(self)@.pending_actions.len() == 0
                    && *final(self) == *old(self),
            },
            old(self)@.wf() ==> final(self)@.wf(),
    {
        let built = build_block(
            self.pending_actions.as_slice(),
            self.state.latest_block(),
            validator,
            now,
        );
        if built.is_ok() {
            self.pending_actions.clear();
            assert(final(self)@.pending_actions =~= Seq::empty());
        }
        built
    }

    /// Builds a block from the whole pending pool, stamped with the current
    /// time, and empties the pool.
    pub fn produce_block(&mut self, validator: String) -> (result: Result<
        PolisBlock,
        ProtocolError,
    >)
        requires
            old(self)@.pending_actions.len() > 0 ==> can_build(old(self)@),
        ensures
            match result {
                Ok(block) => old(self)@.pending_actions.len() > 0 && 0 <= block@.timestamp
                    && block@ == built_block(old(self)@, validator@, block@.timestamp)
                    && final(self)@ == shard_drained(old(self)@),
                Err(e) => e == ProtocolError::EmptyPool && old(self)@.pending_actions.len() == 0
                    && *final(self) == *old(self),
            },
            old(self)@.wf() ==> final(self)@.wf(),
    {
        self.produce_block_at(validator, unix_now())
    }

    /// Appends a block to the shard's chain if it passes the integrity check.
    pub fn add_block(&mut self, block: PolisBlock) -> (result: Result<(), ProtocolError>)
        requires
            state_accepts(old(self)@.state, block@) ==> block_fits(old(self)@.state, block@),
        ensures
            match result {
                Ok(_) => state_accepts(old(self)@.state, block@) && final(self)@
                    == (StanceShardView {
                    state: state_with_block(old(self)@.state, block@),
                    ..old(self)@
                }),
                Err(e) => e == ProtocolError::VerificationFailed && !state_accepts(
                    old(self)@.state,
                    block@,
                ) && *final(self) == *old(self),
            },
            chain_linked(old(self)@.state.blockchain) ==> chain_linked(
                final(self)@.state.blockchain,
            ),
            old(self)@.state.blockchain.is_prefix_of(final(self)@.state.blockchain),
            old(self)@.wf() ==> final(self)@.wf(),
    {
        self.state.add_block(block)
    }

    /// Appends a block as `add_block` does, for every block and every shard:
    /// a block that passes the integrity check but would carry a total beyond
    /// 64 bits is not appended, and the answer is then `None`. Whatever the
    /// answer, the blocks that were in the chain stay where they were, and a
    /// chain that was hash-linked stays so.
    pub fn try_add_block(&mut self, block: PolisBlock) -> (result: Option<
        Result<(), ProtocolError>,
    >)
        ensures
            match result {
                Some(Ok(_)) => state_accepts(old(self)@.state, block@) && block_fits(
                    old(self)@.state,
                    block@,
                ) && final(self)@ == shard_with_block(old(self)@, block@),
                Some(Err(e)) => e == ProtocolError::VerificationFailed && !state_accepts(
                    old(self)@.state,
                    block@,
                ) && *final(self) == *old(self),
                None => state_accepts(old(self)@.state, block@) && !block_fits(
                    old(self)@.state,
                    block@,
                ) && *final(self) == *old(self),
            },
            chain_linked(old(self)@.state.blockchain) ==> chain_linked(
                final(self)@.state.blockchain,
            ),
            old(self)@.state.blockchain.is_prefix_of(final(self)@.state.blockchain),
            old(self)@.wf() ==> final(self)@.wf(),
    {
        self.state.try_add_block(block)
    }

    /// The Merkle root of a list of actions.
    pub fn calculate_merkle_root(&self, actions: &[ImpactAction]) -> (root: String)
        ensures
            root@ == merkle_root_of(action_views(actions@)),
            root@.len() == 64,
    {
        merkle_root(actions)
    }
    /// The position of the member `node_id` in the membership list, or the
    /// list's length where the shard does not know the member.
    pub fn find_node(&self, node_id: &str) -> (i: usize)
        ensures
            i == index_of(node_ids(self@.nodes), node_id@),
            i <= self.nodes@.len(),
    {
        let mut i: usize = 0;
        while i < self.nodes.len()
            invariant
                i <= self.nodes.len(),
                forall|k: int| 0 <= k < i ==> node_ids(self@.nodes)[k] != node_id@,
            decreases self.nodes.len() - i,
        {
            if text_eq(self.nodes[i].node_id.as_str(), node_id) {
                proof {
                    lemma_index_of_found(node_ids(self@.nodes), node_id@, i as int);
                }
                return i;
            }
            i += 1;
        }
        proof {
            lemma_index_of_found(node_ids(self@.nodes), node_id@, i as int);
        }
        i
    }

    /// Records a heartbeat of a member at time `now`: the member's entry gets
    /// the new flag, the chain height and the time, a member not seen before
    /// is added, and the online count is taken anew from the whole list.
    pub fn update_node_status_at(&mut self, node_id: String, is_online: bool, now: i64)
        ensures
            final(self)@ == shard_with_member(old(self)@, node_id@, is_online, now),
            old(self)@.wf() ==> final(self)@.wf(),
    {
        let height = self.state.height();
        let i = self.find_node(node_id.as_str());
        let ghost expected = nodes_with_member(
            self@.nodes,
            self@.shard_id,
            self@.state.blockchain.len(),
            node_id@,
            is_online,
            now,
        );
        if i < self.nodes.len() {
            self.nodes[i].is_online = is_online;
            self.nodes[i].last_heartbeat_block = height;
            self.nodes[i].last_updated = now;
        } else {
            let shard_id = self.shard_id.clone();
            let active_shards = vec![shard_id];
            assert(text_views(active_shards@) =~= seq![self.shard_id@]);
            self.nodes.push(
                NodeStatus {
                    node_id,
                    is_online,
                    last_heartbeat_block: height,
                    active_shards,
                    reputation_score: 0,
                    last_updated: now,
                },
            );
        }
        assert(self@.nodes =~= expected);
        let mut count: u64 = 0;
        let mut k: usize = 0;
        while k < self.nodes.len()
            invariant
                k <= self.nodes.len(),
                self@.nodes == expected,
                count == online_count(expected.take(k as int)),
                count <= k,
            decreases self.nodes.len() - k,
        {
            proof {
                lemma_online_count_step(expected, k as int);
            }
            if self.nodes[k].is_online {
                count += 1;
            }
            k += 1;
        }
        assert(expected.take(expected.len() as int) =~= expected);
        self.state.online_nodes_count = count;
        proof {
            lemma_heartbeat_keeps_members_apart(old(self)@, node_id@, is_online, now);
        }
    }

    /// Records a heartbeat of a member at the current time.
    pub fn update_node_status(&mut self, node_id: String, is_online: bool)
        ensures
            exists|now: i64|
                0 <= now && final(self)@ == #[trigger] shard_with_member(
                    old(self)@,
                    node_id@,
                    is_online,
                    now,
                ),
            old(self)@.wf() ==> final(self)@.wf(),
    {
        self.update_node_status_at(node_id, is_online, unix_now())
    }

    /// The position of the campaign `campaign_id` in the list of campaigns,
    /// or the list's length where there is none.
    pub fn find_campaign(&self, campaign_id: &str) -> (i: usize)
        ensures
            i == index_of(campaign_ids(self@.state.active_campaigns), campaign_id@),
            i <= self.state.active_campaigns@.len(),
    {
        let mut i: usize = 0;
        while i < self.state.active_campaigns.len()
            invariant
                i <= self.state.active_campaigns.len(),
                forall|k: int|
                    0 <= k < i ==> campaign_ids(self@.state.active_campaigns)[k] != campaign_id@,
            decreases self.state.active_campaigns.len() - i,
        {
            if text_eq(self.state.active_campaigns[i].campaign_id.as_str(), campaign_id) {
                proof {
                    lemma_index_of_found(
                        campaign_ids(self@.state.active_campaigns),
                        campaign_id@,
                        i as int,
                    );
                }
                return i;
            }
            i += 1;
        }
        proof {
            lemma_index_of_found(campaign_ids(self@.state.active_campaigns), campaign_id@, i as int);
        }
        i
    }

    /// The campaign with the given identifier, if the shard has one.
    pub fn get_campaign_state(&self, campaign_id: &str) -> (found: Option<&CampaignState>)
        ensures
            match found {
                Some(c) => has_campaign(self@, campaign_id@) && *c == self.state.active_campaigns@[index_of(
                    campaign_ids(self@.state.active_campaigns),
                    campaign_id@,
                )],
                None => !has_campaign(self@, campaign_id@),
            },
    {
        let i = self.find_campaign(campaign_id);
        if i < self.state.active_campaigns.len() {
            Some(&self.state.active_campaigns[i])
        } else {
            None
        }
    }

    /// Counts an action for the campaign `campaign_id`, if the shard has it.
    fn count_for_campaign_at(&mut self, campaign_id: &str, action: &ImpactAction, now: i64)
        requires
            campaigns_fit(old(self)@.state.active_campaigns, campaign_id@, action.value_diverted),
        ensures
            final(self)@ == shard_with_campaigns(
                old(self)@,
                campaigns_after_action(
                    old(self)@.state.active_campaigns,
                    campaign_id@,
                    action.value_diverted,
                    now,
                ),
            ),
            old(self)@.wf() ==> final(self)@.wf(),
    {
        let i = self.find_campaign(campaign_id);
        if i < self.state.active_campaigns.len() {
            let count = self.state.active_campaigns[i].verified_participants_count + 1;
            let total = self.state.active_campaigns[i].total_capital_diverted
                + action.value_diverted;
            self.state.active_campaigns[i].verified_participants_count = count;
            self.state.active_campaigns[i].total_capital_diverted = total;
            self.state.active_campaigns[i].last_updated = now;
            if self.state.active_campaigns[i].is_goal_reached() {
                match self.state.active_campaigns[i].status {
                    CampaignStatus::Active => {
                        self.state.active_campaigns[i].status = CampaignStatus::Achieved;
                    },
                    _ => {},
                }
            }
        }
        assert(final(self)@.state.active_campaigns =~= campaigns_after_action(
            old(self)@.state.active_campaigns,
            campaign_id@,
            action.value_diverted,
            now,
        ));
        proof {
            lemma_index_of_range(campaign_ids(old(self)@.state.active_campaigns), campaign_id@);
            assert(campaign_ids(final(self)@.state.active_campaigns) =~= campaign_ids(
                old(self)@.state.active_campaigns,
            ));
        }
    }


    /// Counts an action for the campaign `campaign_id` at time `now`: one
    /// more participant, the action's value added, the time noted, and the
    /// step from active to achieved taken once the goal is reached. A
    /// campaign that the shard does not have yet is created first, with the
    /// default goal and duration.
    pub fn update_campaign_state_at(&mut self, campaign_id: String, action: &ImpactAction, now: i64)
        requires
            upsert_fits(old(self)@, campaign_id@, action.value_diverted),
        ensures
            final(self)@ == shard_with_upsert(
                old(self)@,
                campaign_id@,
                action.value_diverted,
                now,
            ),
            has_campaign(final(self)@, campaign_id@),
            old(self)@.wf() ==> final(self)@.wf(),
    {
        let i = self.find_campaign(campaign_id.as_str());
        if i == self.state.active_campaigns.len() {
            let created = self.create_campaign_at(
                campaign_id.clone(),
                DEFAULT_CAMPAIGN_GOAL,
                DEFAULT_CAMPAIGN_DURATION,
                now,
            );
            assert(created is Ok);
            proof {
                let ids = campaign_ids(self@.state.active_campaigns);
                assert(ids[i as int] == campaign_id@);
                assert forall|k: int| 0 <= k < i implies ids[k] != campaign_id@ by {
                    lemma_index_of_range(
                        campaign_ids(old(self)@.state.active_campaigns),
                        campaign_id@,
                    );
                    assert(ids[k] == campaign_ids(old(self)@.state.active_campaigns)[k]);
                }
                lemma_index_of_found(ids, campaign_id@, i as int);
            }
        }
        proof {
            lemma_index_of_range(campaign_ids(self@.state.active_campaigns), campaign_id@);
        }
        let ghost created_ids = campaign_ids(self@.state.active_campaigns);
        self.count_for_campaign_at(campaign_id.as_str(), action, now);
        assert(campaign_ids(self@.state.active_campaigns) =~= created_ids);
    }

    /// Counts an action for the campaign `campaign_id` at the current time,
    /// and creates the campaign first if the shard does not have it.
    pub fn update_campaign_state(&mut self, campaign_id: String, action: &ImpactAction)
        requires
            upsert_fits(old(self)@, campaign_id@, action.value_diverted),
        ensures
            exists|now: i64|
                0 <= now && final(self)@ == #[trigger] shard_with_upsert(
                    old(self)@,
                    campaign_id@,
                    action.value_diverted,
                    now,
                ),
            has_campaign(final(self)@, campaign_id@),
            old(self)@.wf() ==> final(self)@.wf(),
    {
        self.update_campaign_state_at(campaign_id, action, unix_now())
    }

    /// Counts an action for a campaign as `update_campaign_state_at` does, for
    /// every shard and every action: where a counter or the end of a new
    /// campaign would go beyond 64 bits nothing is counted, and the answer is
    /// `false`. Whatever the answer, no campaign leaves a status other than
    /// active.
    pub fn try_update_campaign_state_at(
        &mut self,
        campaign_id: String,
        action: &ImpactAction,
        now: i64,
    ) -> (counted: bool)
        ensures
            counted == upsert_fits(old(self)@, campaign_id@, action.value_diverted),
            counted ==> final(self)@ == shard_with_upsert(
                old(self)@,
                campaign_id@,
                action.value_diverted,
                now,
            ),
            !counted ==> *final(self) == *old(self),
            forall|k: int|
                0 <= k < old(self)@.state.active_campaigns.len() ==> {
                    let before = #[trigger] old(self)@.state.active_campaigns[k];
                    let after = final(self)@.state.active_campaigns[k];
                    &&& k < final(self)@.state.active_campaigns.len()
                    &&& after.campaign_id == before.campaign_id
                    &&& after.status == before.status || (before.status == CampaignStatus::Active
                        && after.status == CampaignStatus::Achieved && goal_reached(after))
                },
            old(self)@.wf() ==> final(self)@.wf(),
    {
        if !self.can_update_campaign(campaign_id.as_str(), action.value_diverted) {
            return false;
        }
        proof {
            assert forall|k: int| 0 <= k < old(self)@.state.active_campaigns.len() implies {
                let before = #[trigger] old(self)@.state.active_campaigns[k];
                let after = shard_with_upsert(
                    old(self)@,
                    campaign_id@,
                    action.value_diverted,
                    now,
                ).state.active_campaigns[k];
                &&& k < shard_with_upsert(
                    old(self)@,
                    campaign_id@,
                    action.value_diverted,
                    now,
                ).state.active_campaigns.len()
                &&& after.campaign_id == before.campaign_id
                &&& after.status == before.status || (before.status == CampaignStatus::Active
                    && after.status == CampaignStatus::Achieved && goal_reached(after))
            } by {
                lemma_upsert_one_way(old(self)@, campaign_id@, action.value_diverted, now, k);
            }
        }
        self.update_campaign_state_at(campaign_id, action, now);
        true
    }

    /// Creates a campaign at time `now` that ends `duration_blocks` above the
    /// chain's present height. An identifier that is taken is refused.
    pub fn create_campaign_at(
        &mut self,
        campaign_id: String,
        goal_participants: u64,
        duration_blocks: u64,
        now: i64,
    ) -> (result: Result<(), ProtocolError>)
        requires
            !has_campaign(old(self)@, campaign_id@) ==> old(self)@.state.blockchain.len()
                + duration_blocks <= u64::MAX,
        ensures
            match result {
                Ok(_) => !has_campaign(old(self)@, campaign_id@) && final(self)@
                    == shard_with_new_campaign(
                    old(self)@,
                    campaign_id@,
                    goal_participants,
                    duration_blocks,
                    now,
                ),
                Err(e) => e == ProtocolError::CampaignAlreadyExists && has_campaign(
                    old(self)@,
                    campaign_id@,
                ) && *final(self) == *old(self),
            },
            old(self)@.wf() ==> final(self)@.wf(),
    {
        let i = self.find_campaign(campaign_id.as_str());
        if i < self.state.active_campaigns.len() {
            return Err(ProtocolError::CampaignAlreadyExists);
        }
        let campaign = CampaignState {
            campaign_id,
            verified_participants_count: 0,
            goal_participants,
            total_capital_diverted: 0,
            end_block: self.state.height() + duration_blocks,
            action_proofs_root: String::new(),
            status: CampaignStatus::Active,
            created_at: now,
            last_updated: now,
        };
        self.state.active_campaigns.push(campaign);
        assert(final(self)@.state.active_campaigns =~= old(self)@.state.active_campaigns.push(
            campaign@,
        ));
        proof {
            lemma_index_of_range(campaign_ids(old(self)@.state.active_campaigns), campaign_id@);
            assert(campaign_ids(final(self)@.state.active_campaigns) =~= campaign_ids(
                old(self)@.state.active_campaigns,
            ).push(campaign_id@));
        }
        Ok(())
    }

    /// Creates a campaign at the current time.
    pub fn create_campaign(
        &mut self,
        campaign_id: String,
        goal_participants: u64,
        duration_blocks: u64,
    ) -> (result: Result<(), ProtocolError>)
        requires
            !has_campaign(old(self)@, campaign_id@) ==> old(self)@.state.blockchain.len()
                + duration_blocks <= u64::MAX,
        ensures
            match result {
                Ok(_) => !has_campaign(old(self)@, campaign_id@) && exists|now: i64|
                    0 <= now && final(self)@ == #[trigger] shard_with_new_campaign(
                        old(self)@,
                        campaign_id@,
                        goal_participants,
                        duration_blocks,
                        now,
                    ),
                Err(e) => e == ProtocolError::CampaignAlreadyExists && has_campaign(
                    old(self)@,
                    campaign_id@,
                ) && *final(self) == *old(self),
            },
            old(self)@.wf() ==> final(self)@.wf(),
    {
        self.create_campaign_at(campaign_id, goal_participants, duration_blocks, unix_now())
    }

    /// Records an action at time `now`. The campaign of its target is brought
    /// up to date, and created if need be. An action whose proof token is not
    /// accepted is refused at that point. Every other action joins the pool,
    /// and the whole pool is built into one block by `producer`. If the block
    /// passes the integrity check it is appended and the pool is emptied. If
    /// it does not, that is no refusal: chain and totals stay as they were,
    /// and the pool keeps every action for a later attempt.
    pub fn record_action_at(&mut self, action: ImpactAction, producer: String, now: i64) -> (result:
        Result<(), ProtocolError>)
        requires
            record_fits(old(self)@, action@.target_entity, action.value_diverted),
        ensures
            result == record_outcome(old(self)@, action@, producer@, now),
            result is Ok <==> proof_token_valid(action@.zk_proof),
            final(self)@ == shard_after_record(old(self)@, action@, producer@, now),
            old(self)@.wf() ==> final(self)@.wf(),
    {
        self.update_campaign_state_at(action.target_entity.clone(), &action, now);
        let queued = self.add_pending_action(action);
        if let Err(e) = queued {
            return Err(e);
        }
        let built = build_block(
            self.pending_actions.as_slice(),
            self.state.latest_block(),
            producer,
            now,
        );
        if let Ok(block) = built {
            assert(block@ == sealing_block(old(self)@, action@, producer@, now));
            assert(block@.union_strength == old(self)@.pending_actions.len() + 1);
            assert(block@.actions.drop_last() =~= old(self)@.pending_actions);
            let appended = self.state.add_block(block);
            if appended.is_ok() {
                self.pending_actions.clear();
                assert(self@.pending_actions =~= Seq::empty());
            }
        }
        Ok(())
    }

    /// Records an action as `record_action_at` does, for every shard and every
    /// action: where a number would go beyond 64 bits nothing is done, and
    /// the answer is `None`.
    pub fn try_record_action_at(&mut self, action: ImpactAction, producer: String, now: i64) -> (result:
        Option<Result<(), ProtocolError>>)
        ensures
            result is Some <==> record_fits(
                old(self)@,
                action@.target_entity,
                action.value_diverted,
            ),
            result is Some ==> result->0 == record_outcome(old(self)@, action@, producer@, now)
                && final(self)@ == shard_after_record(old(self)@, action@, producer@, now),
            result is None ==> *final(self) == *old(self),
            chain_linked(old(self)@.state.blockchain) ==> chain_linked(
                final(self)@.state.blockchain,
            ),
            old(self)@.state.blockchain.is_prefix_of(final(self)@.state.blockchain),
            old(self)@.wf() ==> final(self)@.wf(),
    {
        assert(old(self)@.state.blockchain.subrange(
            0,
            old(self)@.state.blockchain.len() as int,
        ) =~= old(self)@.state.blockchain);
        if !self.can_record(action.target_entity.as_str(), action.value_diverted) {
            return None;
        }
        proof {
            let s = old(self)@;
            let block = sealing_block(s, action@, producer@, now);
            if proof_token_valid(action@.zk_proof) && seals(s, action@, producer@, now) {
                lemma_append_keeps_links(s.state, block);
                assert(s.state.blockchain.push(block).subrange(0, s.state.blockchain.len() as int)
                    =~= s.state.blockchain);
            }
        }
        Some(self.record_action_at(action, producer, now))
    }

    /// Whether a block can be built behind the chain's last block: the next
    /// height still fits its field.
    pub fn can_produce_block(&self) -> (ok: bool)
        ensures
            ok == can_build(self@),
    {
        match self.state.latest_block() {
            Some(last) => last.index < u64::MAX,
            None => true,
        }
    }

    /// Whether the totals still fit their fields once the block is added.
    pub fn can_add_block(&self, block: &PolisBlock) -> (ok: bool)
        ensures
            ok == block_fits(self@.state, block@),
    {
        self.state.can_add_block(block)
    }

    /// Whether a campaign that runs for `duration_blocks` ends at a height
    /// that fits its field.
    pub fn can_create_campaign(&self, duration_blocks: u64) -> (ok: bool)
        ensures
            ok == (self@.state.blockchain.len() + duration_blocks <= u64::MAX),
    {
        self.state.height() <= u64::MAX - duration_blocks
    }

    /// Whether the numbers still fit their fields once an action of the given
    /// value is counted for the campaign `campaign_id`, which is created if
    /// need be.
    pub fn can_update_campaign(&self, campaign_id: &str, value: u64) -> (ok: bool)
        ensures
            ok == upsert_fits(self@, campaign_id@, value),
    {
        let i = self.find_campaign(campaign_id);
        if i < self.state.active_campaigns.len() {
            let campaign = &self.state.active_campaigns[i];
            campaign.verified_participants_count < u64::MAX && campaign.total_capital_diverted
                <= u64::MAX - value
        } else {
            self.state.height() <= u64::MAX - DEFAULT_CAMPAIGN_DURATION
        }
    }

    /// Whether the numbers still fit their fields once an action with the
    /// given target and value is recorded.
    pub fn can_record(&self, target: &str, value: u64) -> (ok: bool)
        ensures
            ok == record_fits(self@, target@, value),
    {
        if !self.can_update_campaign(target, value) {
            return false;
        }
        if !self.can_produce_block() {
            return false;
        }
        if self.pending_actions.len() as u64 == u64::MAX {
            return false;
        }
        if self.state.total_union_strength > u64::MAX - (self.pending_actions.len() as u64 + 1) {
            return false;
        }
        match checked_diverted_sum(&self.pending_actions) {
            Some(pending) => pending <= u64::MAX - value && self.state.total_capital_diverted
                <= u64::MAX - value - pending,
            None => false,
        }
    }

    /// The shard's figures at this moment.
    pub fn get_stats(&self) -> (stats: ShardStats)
        ensures
            stats@ == shard_stats(self@),
    {
        ShardStats {
            shard_id: self.shard_id.clone(),
            block_height: self.state.height(),
            online_nodes: self.state.online_nodes_count,
            total_union_strength: self.state.total_union_strength,
            total_capital_diverted: self.state.total_capital_diverted,
            active_campaigns_count: self.state.active_campaigns.len() as u64,
            pending_actions_count: self.pending_actions.len() as u64,
        }
    }
}

} // verus!
