//! What the coordinator reports: totals over all shards, a user's history,
//! chain figures and the list of users who are online.

use crate::blockchain::{node_ids, shard_stats, StanceShardView};
use crate::clock::unix_now;
use crate::coordinator::{shard_labels, FirebaseUserInfoView, PolisProtocol, PolisProtocolView};
use crate::text::{index_of, lemma_index_of_range, text_eq, text_views};
use crate::types::{diverted_sum, ImpactActionView, PolisBlockView};
use vstd::prelude::*;

verus! {

/// Totals over all shards.
#[derive(Debug, Clone, Copy, PartialEq, Eq, Structural)]
pub struct GlobalStats {
    pub total_shards: u64,
    pub total_online_nodes: u64,
    pub total_union_strength: u64,
    pub total_capital_diverted: u64,
    pub total_active_campaigns: u64,
}

/// Totals over all shards as mathematical values.
pub struct GlobalStatsView {
    pub total_shards: nat,
    pub total_online_nodes: nat,
    pub total_union_strength: nat,
    pub total_capital_diverted: nat,
    pub total_active_campaigns: nat,
}

impl View for GlobalStats {
    type V = GlobalStatsView;

    open spec fn view(&self) -> GlobalStatsView {
        GlobalStatsView {
            total_shards: self.total_shards as nat,
            total_online_nodes: self.total_online_nodes as nat,
            total_union_strength: self.total_union_strength as nat,
            total_capital_diverted: self.total_capital_diverted as nat,
            total_active_campaigns: self.total_active_campaigns as nat,
        }
    }
}

impl GlobalStatsView {
    /// Whether every total fits a 64-bit field.
    pub open spec fn fits(self) -> bool {
        &&& self.total_shards <= u64::MAX
        &&& self.total_online_nodes <= u64::MAX
        &&& self.total_union_strength <= u64::MAX
        &&& self.total_capital_diverted <= u64::MAX
        &&& self.total_active_campaigns <= u64::MAX
    }

    /// Whether no total is greater than the same total of `other`.
    pub open spec fn within(self, other: GlobalStatsView) -> bool {
        &&& self.total_shards <= other.total_shards
        &&& self.total_online_nodes <= other.total_online_nodes
        &&& self.total_union_strength <= other.total_union_strength
        &&& self.total_capital_diverted <= other.total_capital_diverted
        &&& self.total_active_campaigns <= other.total_active_campaigns
    }
}

/// The totals over a list of shards: their number, and the sums of their
/// online counts, strengths, moved values and numbers of campaigns.
pub open spec fn global_stats(shards: Seq<StanceShardView>) -> GlobalStatsView
    decreases shards.len(),
{
    if shards.len() == 0 {
        GlobalStatsView {
            total_shards: 0,
            total_online_nodes: 0,
            total_union_strength: 0,
            total_capital_diverted: 0,
            total_active_campaigns: 0,
        }
    } else {
        let before = global_stats(shards.drop_last());
        let stats = shard_stats(shards.last());
        GlobalStatsView {
            total_shards: before.total_shards + 1,
            total_online_nodes: before.total_online_nodes + stats.online_nodes,
            total_union_strength: before.total_union_strength + stats.total_union_strength,
            total_capital_diverted: before.total_capital_diverted + stats.total_capital_diverted,
            total_active_campaigns: before.total_active_campaigns + stats.active_campaigns_count,
        }
    }
}

/// The totals over the first `n` shards are within the totals over all.
pub proof fn lemma_global_stats_grow(shards: Seq<StanceShardView>, n: int)
    requires
        0 <= n <= shards.len(),
    ensures
        global_stats(shards.take(n)).within(global_stats(shards)),
    decreases shards.len() - n,
{
    if n < shards.len() {
        lemma_global_stats_grow(shards, n + 1);
        assert(shards.take(n + 1).drop_last() =~= shards.take(n));
    } else {
        assert(shards.take(n) =~= shards);
    }
}

/// What a user has done, summed up.
#[derive(Debug, Clone, Copy, PartialEq, Eq, Structural)]
pub struct UserStats {
    pub campaigns_joined: u64,
    pub streak_days: u64,
    pub total_diverted: u64,
    pub total_actions: u64,
}

/// A user's sums as mathematical values.
pub struct UserStatsView {
    pub campaigns_joined: nat,
    pub streak_days: nat,
    pub total_diverted: nat,
    pub total_actions: nat,
}

impl View for UserStats {
    type V = UserStatsView;

    open spec fn view(&self) -> UserStatsView {
        UserStatsView {
            campaigns_joined: self.campaigns_joined as nat,
            streak_days: self.streak_days as nat,
            total_diverted: self.total_diverted as nat,
            total_actions: self.total_actions as nat,
        }
    }
}

/// The actions of one identity among a list of actions, in order.
pub open spec fn own_actions(actions: Seq<ImpactActionView>, user: Seq<char>) -> Seq<
    ImpactActionView,
>
    decreases actions.len(),
{
    if actions.len() == 0 {
        Seq::empty()
    } else {
        let before = own_actions(actions.drop_last(), user);
        if actions.last().user_did == user {
            before.push(actions.last())
        } else {
            before
        }
    }
}

/// The actions of one identity in a chain, block after block.
pub open spec fn chain_history(chain: Seq<PolisBlockView>, user: Seq<char>) -> Seq<
    ImpactActionView,
>
    decreases chain.len(),
{
    if chain.len() == 0 {
        Seq::empty()
    } else {
        chain_history(chain.drop_last(), user) + own_actions(chain.last().actions, user)
    }
}

/// The actions of one identity in the chains of the named shards, taken in
/// the order of the names. A name that no shard carries adds nothing, and a
/// name that occurs twice has its chain read twice.
pub open spec fn history(
    shards: Seq<StanceShardView>,
    labels: Seq<Seq<char>>,
    user: Seq<char>,
) -> Seq<ImpactActionView>
    decreases labels.len(),
{
    if labels.len() == 0 {
        Seq::empty()
    } else {
        let before = history(shards, labels.drop_last(), user);
        let i = index_of(shard_labels(shards), labels.last());
        if i < shards.len() {
            before + chain_history(shards[i].state.blockchain, user)
        } else {
            before
        }
    }
}

/// The earliest time among a list of actions that is not empty.
pub open spec fn earliest(actions: Seq<ImpactActionView>) -> i64
    decreases actions.len(),
{
    if actions.len() <= 1 {
        actions[0].timestamp
    } else {
        let before = earliest(actions.drop_last());
        if actions.last().timestamp < before {
            actions.last().timestamp
        } else {
            before
        }
    }
}

/// The latest time among a list of actions that is not empty.
pub open spec fn latest(actions: Seq<ImpactActionView>) -> i64
    decreases actions.len(),
{
    if actions.len() <= 1 {
        actions[0].timestamp
    } else {
        let before = latest(actions.drop_last());
        if actions.last().timestamp > before {
            actions.last().timestamp
        } else {
            before
        }
    }
}

/// Seconds in a day.
pub const SECONDS_PER_DAY: i64 = 86400;

/// The sums over a list of actions: every action counts once as an action
/// and once as a campaign joined, the values are added up, and the streak is
/// the whole number of days between the earliest and the latest action,
/// which is zero for an empty list.
pub open spec fn user_stats_of(actions: Seq<ImpactActionView>) -> UserStatsView {
    UserStatsView {
        campaigns_joined: actions.len(),
        streak_days: if actions.len() == 0 {
            0
        } else {
            ((latest(actions) - earliest(actions)) / SECONDS_PER_DAY as int) as nat
        },
        total_diverted: diverted_sum(actions),
        total_actions: actions.len(),
    }
}

/// The sum of the values of two lists written one after the other is the
/// sum of their sums.
pub proof fn lemma_diverted_sum_concat(a: Seq<ImpactActionView>, b: Seq<ImpactActionView>)
    ensures
        diverted_sum(a + b) == diverted_sum(a) + diverted_sum(b),
    decreases b.len(),
{
    if b.len() == 0 {
        assert(a + b =~= a);
    } else {
        lemma_diverted_sum_concat(a, b.drop_last());
        assert((a + b).drop_last() =~= a + b.drop_last());
    }
}

/// The earliest action is not later than the latest.
pub proof fn lemma_earliest_before_latest(actions: Seq<ImpactActionView>)
    requires
        actions.len() > 0,
    ensures
        earliest(actions) <= latest(actions),
    decreases actions.len(),
{
    if actions.len() > 1 {
        lemma_earliest_before_latest(actions.drop_last());
    }
}

/// Whether the number of a list of actions and the sum of their values fit
/// 64-bit fields.
pub open spec fn history_fits(actions: Seq<ImpactActionView>) -> bool {
    actions.len() <= u64::MAX && diverted_sum(actions) <= u64::MAX
}

/// Whether a list of actions is no longer than another and moves no more.
pub open spec fn no_heavier(a: Seq<ImpactActionView>, b: Seq<ImpactActionView>) -> bool {
    a.len() <= b.len() && diverted_sum(a) <= diverted_sum(b)
}

/// One identity's actions among the first `n` actions weigh no more than
/// those among all.
pub proof fn lemma_own_actions_grow(actions: Seq<ImpactActionView>, user: Seq<char>, n: int)
    requires
        0 <= n <= actions.len(),
    ensures
        no_heavier(own_actions(actions.take(n), user), own_actions(actions, user)),
    decreases actions.len() - n,
{
    if n < actions.len() {
        lemma_own_actions_grow(actions, user, n + 1);
        assert(actions.take(n + 1).drop_last() =~= actions.take(n));
        let next = own_actions(actions.take(n + 1), user);
        if next.len() > own_actions(actions.take(n), user).len() {
            assert(next.drop_last() =~= own_actions(actions.take(n), user));
        }
    } else {
        assert(actions.take(n) =~= actions);
    }
}

/// One identity's actions in the first `n` blocks weigh no more than those
/// in the whole chain.
pub proof fn lemma_chain_history_grow(chain: Seq<PolisBlockView>, user: Seq<char>, n: int)
    requires
        0 <= n <= chain.len(),
    ensures
        no_heavier(chain_history(chain.take(n), user), chain_history(chain, user)),
    decreases chain.len() - n,
{
    if n < chain.len() {
        lemma_chain_history_grow(chain, user, n + 1);
        assert(chain.take(n + 1).drop_last() =~= chain.take(n));
        lemma_diverted_sum_concat(
            chain_history(chain.take(n), user),
            own_actions(chain[n].actions, user),
        );
    } else {
        assert(chain.take(n) =~= chain);
    }
}

/// One identity's actions in the first `n` named shards weigh no more than
/// those in all named shards.
pub proof fn lemma_history_grow(
    shards: Seq<StanceShardView>,
    labels: Seq<Seq<char>>,
    user: Seq<char>,
    n: int,
)
    requires
        0 <= n <= labels.len(),
    ensures
        no_heavier(history(shards, labels.take(n), user), history(shards, labels, user)),
    decreases labels.len() - n,
{
    if n < labels.len() {
        lemma_history_grow(shards, labels, user, n + 1);
        assert(labels.take(n + 1).drop_last() =~= labels.take(n));
        let i = index_of(shard_labels(shards), labels[n]);
        if i < shards.len() {
            lemma_diverted_sum_concat(
                history(shards, labels.take(n), user),
                chain_history(shards[i].state.blockchain, user),
            );
        }
    } else {
        assert(labels.take(n) =~= labels);
    }
}

/// Figures over all chains.
#[derive(Debug, Clone, Copy, PartialEq, Eq, Structural)]
pub struct BlockchainStats {
    pub total_blocks: u64,
    pub total_shards: u64,
    pub total_pending_actions: u64,
    pub latest_block_timestamp: i64,
    pub transactions_per_second: u64,
}

/// Figures over all chains as mathematical values.
pub struct BlockchainStatsView {
    pub total_blocks: nat,
    pub total_shards: nat,
    pub total_pending_actions: nat,
    pub latest_block_timestamp: i64,
    pub transactions_per_second: nat,
}

impl View for BlockchainStats {
    type V = BlockchainStatsView;

    open spec fn view(&self) -> BlockchainStatsView {
        BlockchainStatsView {
            total_blocks: self.total_blocks as nat,
            total_shards: self.total_shards as nat,
            total_pending_actions: self.total_pending_actions as nat,
            latest_block_timestamp: self.latest_block_timestamp,
            transactions_per_second: self.transactions_per_second as nat,
        }
    }
}

/// The number of actions in all blocks of a chain.
pub open spec fn chain_transactions(chain: Seq<PolisBlockView>) -> nat
    decreases chain.len(),
{
    if chain.len() == 0 {
        0
    } else {
        chain_transactions(chain.drop_last()) + chain.last().actions.len()
    }
}

/// What is added up over the chains of a list of shards.
pub struct ChainTotals {
    /// The number of blocks.
    pub blocks: nat,
    /// The number of pending actions.
    pub pending: nat,
    /// The number of actions in all blocks.
    pub transactions: nat,
    /// The greatest time of a last block that is above zero; zero without one.
    pub latest: i64,
}

impl ChainTotals {
    /// Whether every sum fits a 64-bit field.
    pub open spec fn fits(self) -> bool {
        &&& self.blocks <= u64::MAX
        &&& self.pending <= u64::MAX
        &&& self.transactions <= u64::MAX
    }

    /// Whether no sum is greater than the same sum of `other`.
    pub open spec fn within(self, other: ChainTotals) -> bool {
        &&& self.blocks <= other.blocks
        &&& self.pending <= other.pending
        &&& self.transactions <= other.transactions
    }
}

/// The sums over the chains of a list of shards.
pub open spec fn chain_totals(shards: Seq<StanceShardView>) -> ChainTotals
    decreases shards.len(),
{
    if shards.len() == 0 {
        ChainTotals { blocks: 0, pending: 0, transactions: 0, latest: 0 }
    } else {
        let before = chain_totals(shards.drop_last());
        let shard = shards.last();
        let chain = shard.state.blockchain;
        ChainTotals {
            blocks: before.blocks + chain.len(),
            pending: before.pending + shard.pending_actions.len(),
            transactions: before.transactions + chain_transactions(chain),
            latest: if chain.len() > 0 && chain.last().timestamp > before.latest {
                chain.last().timestamp
            } else {
                before.latest
            },
        }
    }
}

/// The greatest number of seconds since the latest block for which a
/// throughput is given.
pub const THROUGHPUT_WINDOW: i64 = 10;

/// The recent throughput: the actions in all blocks divided by the seconds
/// since the latest block, which count as one at least. It is zero where
/// there is no latest block or where it is more than ten seconds old.
pub open spec fn throughput(transactions: nat, latest: i64, now: i64) -> nat {
    if latest > 0 {
        let elapsed = if now - latest < 1 {
            1
        } else {
            now - latest
        };
        if elapsed <= THROUGHPUT_WINDOW {
            transactions / elapsed as nat
        } else {
            0
        }
    } else {
        0
    }
}

/// The chain figures of a list of shards at time `now`.
pub open spec fn blockchain_stats(shards: Seq<StanceShardView>, now: i64) -> BlockchainStatsView {
    let totals = chain_totals(shards);
    BlockchainStatsView {
        total_blocks: totals.blocks,
        total_shards: shards.len(),
        total_pending_actions: totals.pending,
        latest_block_timestamp: totals.latest,
        transactions_per_second: throughput(totals.transactions, totals.latest, now),
    }
}

/// The actions in the first `n` blocks are no more than those in all.
pub proof fn lemma_chain_transactions_grow(chain: Seq<PolisBlockView>, n: int)
    requires
        0 <= n <= chain.len(),
    ensures
        chain_transactions(chain.take(n)) <= chain_transactions(chain),
    decreases chain.len() - n,
{
    if n < chain.len() {
        lemma_chain_transactions_grow(chain, n + 1);
        assert(chain.take(n + 1).drop_last() =~= chain.take(n));
    } else {
        assert(chain.take(n) =~= chain);
    }
}

/// The sums over the first `n` shards are within the sums over all.
pub proof fn lemma_chain_totals_grow(shards: Seq<StanceShardView>, n: int)
    requires
        0 <= n <= shards.len(),
    ensures
        chain_totals(shards.take(n)).within(chain_totals(shards)),
    decreases shards.len() - n,
{
    if n < shards.len() {
        lemma_chain_totals_grow(shards, n + 1);
        assert(shards.take(n + 1).drop_last() =~= shards.take(n));
    } else {
        assert(shards.take(n) =~= shards);
    }
}

/// One line of the list of shards.
#[derive(Debug, Clone)]
pub struct ShardInfo {
    pub shard_id: String,
    pub block_height: u64,
    pub pending_actions: u64,
    pub active_nodes: u64,
}

/// A line of the list of shards as a mathematical value.
pub struct ShardInfoView {
    pub shard_id: Seq<char>,
    pub block_height: nat,
    pub pending_actions: nat,
    pub active_nodes: nat,
}

impl View for ShardInfo {
    type V = ShardInfoView;

    open spec fn view(&self) -> ShardInfoView {
        ShardInfoView {
            shard_id: self.shard_id@,
            block_height: self.block_height as nat,
            pending_actions: self.pending_actions as nat,
            active_nodes: self.active_nodes as nat,
        }
    }
}

/// The line of one shard: label, chain height, pending actions, members
/// online.
pub open spec fn shard_info(s: StanceShardView) -> ShardInfoView {
    ShardInfoView {
        shard_id: s.shard_id,
        block_height: s.state.blockchain.len(),
        pending_actions: s.pending_actions.len(),
        active_nodes: s.state.online_nodes_count,
    }
}

/// The views of a list of lines, in order.
pub open spec fn shard_info_views(infos: Seq<ShardInfo>) -> Seq<ShardInfoView> {
    infos.map_values(|i: ShardInfo| i@)
}

/// A user's standing in one shard.
#[derive(Debug, Clone)]
pub struct ShardMembership {
    /// The shard's label.
    pub shard_id: String,
    /// When the user joined the shard.
    pub joined_at: i64,
    /// When the user left the shard; nothing while the user is in it.
    pub left_at: Option<i64>,
    /// Whether the user is active in the shard.
    pub is_active: bool,
}

/// A user's standing in one shard as a mathematical value.
pub struct ShardMembershipView {
    pub shard_id: Seq<char>,
    pub joined_at: i64,
    pub left_at: Option<i64>,
    pub is_active: bool,
}

impl View for ShardMembership {
    type V = ShardMembershipView;

    open spec fn view(&self) -> ShardMembershipView {
        ShardMembershipView {
            shard_id: self.shard_id@,
            joined_at: self.joined_at,
            left_at: self.left_at,
            is_active: self.is_active,
        }
    }
}

/// The views of a list of memberships, in order.
pub open spec fn membership_views(memberships: Seq<ShardMembership>) -> Seq<ShardMembershipView> {
    memberships.map_values(|m: ShardMembership| m@)
}

/// A user who is online, with the user's shards.
#[derive(Debug, Clone)]
pub struct OnlineUserInfo {
    pub firebase_uid: String,
    pub polis_did: String,
    pub display_name: String,
    pub last_activity: i64,
    pub shards: Vec<ShardMembership>,
}

/// An online user as a mathematical value.
pub struct OnlineUserInfoView {
    pub firebase_uid: Seq<char>,
    pub polis_did: Seq<char>,
    pub display_name: Seq<char>,
    pub last_activity: i64,
    pub shards: Seq<ShardMembershipView>,
}

impl View for OnlineUserInfo {
    type V = OnlineUserInfoView;

    open spec fn view(&self) -> OnlineUserInfoView {
        OnlineUserInfoView {
            firebase_uid: self.firebase_uid@,
            polis_did: self.polis_did@,
            display_name: self.display_name@,
            last_activity: self.last_activity,
            shards: membership_views(self.shards@),
        }
    }
}

/// The views of a list of online users, in order.
pub open spec fn online_user_views(users: Seq<OnlineUserInfo>) -> Seq<OnlineUserInfoView> {
    users.map_values(|u: OnlineUserInfo| u@)
}

/// A user's standing in a shard: active if the shard lists the user as
/// online; a user whom the shard lists as offline, or does not list at all,
/// has left at the time of the user's last activity, which also counts as
/// the time of joining.
pub open spec fn membership_in(s: StanceShardView, user: FirebaseUserInfoView) -> ShardMembershipView {
    let n = index_of(node_ids(s.nodes), user.polis_did);
    let active = n < s.nodes.len() && s.nodes[n].is_online;
    ShardMembershipView {
        shard_id: s.shard_id,
        joined_at: user.last_activity,
        left_at: if active {
            None
        } else {
            Some(user.last_activity)
        },
        is_active: active,
    }
}

/// A user's standing in each of the named shards, in the order of the
/// names. A name that no shard carries is passed over.
pub open spec fn memberships(
    shards: Seq<StanceShardView>,
    labels: Seq<Seq<char>>,
    user: FirebaseUserInfoView,
) -> Seq<ShardMembershipView>
    decreases labels.len(),
{
    if labels.len() == 0 {
        Seq::empty()
    } else {
        let before = memberships(shards, labels.drop_last(), user);
        let i = index_of(shard_labels(shards), labels.last());
        if i < shards.len() {
            before.push(membership_in(shards[i], user))
        } else {
            before
        }
    }
}

/// An online user's line: the user's names and last activity, and the
/// user's standing in the shards of the user's routing entry.
pub open spec fn online_user(p: PolisProtocolView, user: FirebaseUserInfoView) -> OnlineUserInfoView {
    OnlineUserInfoView {
        firebase_uid: user.firebase_uid,
        polis_did: user.polis_did,
        display_name: user.display_name,
        last_activity: user.last_activity,
        shards: memberships(p.shards, p.route_of(user.polis_did), user),
    }
}

/// The lines of those among the first `n` users who are online, in order.
pub open spec fn online_users(p: PolisProtocolView, n: int) -> Seq<OnlineUserInfoView>
    decreases n,
{
    if n <= 0 {
        Seq::empty()
    } else {
        let before = online_users(p, n - 1);
        if p.firebase_users[n - 1].is_online {
            before.push(online_user(p, p.firebase_users[n - 1]))
        } else {
            before
        }
    }
}

impl PolisProtocol {
    /// The totals over all shards, unless one of them is too great for its
    /// 64-bit field.
    pub fn try_get_global_stats(&self) -> (result: Option<GlobalStats>)
        ensures
            match result {
                Some(stats) => stats@ == global_stats(self@.shards),
                None => !global_stats(self@.shards).fits(),
            },
    {
        let mut stats = GlobalStats {
            total_shards: 0,
            total_online_nodes: 0,
            total_union_strength: 0,
            total_capital_diverted: 0,
            total_active_campaigns: 0,
        };
        let mut i: usize = 0;
        while i < self.shards.len()
            invariant
                i <= self.shards.len(),
                stats.total_shards == i,
                stats@ == global_stats(self@.shards.take(i as int)),
            decreases self.shards.len() - i,
        {
            proof {
                lemma_global_stats_grow(self@.shards, i + 1);
                assert(self@.shards.take(i + 1).drop_last() =~= self@.shards.take(i as int));
            }
            let shard = self.shards[i].get_stats();
            let online = stats.total_online_nodes.checked_add(shard.online_nodes);
            let strength = stats.total_union_strength.checked_add(shard.total_union_strength);
            let diverted = stats.total_capital_diverted.checked_add(
                shard.total_capital_diverted,
            );
            let campaigns = stats.total_active_campaigns.checked_add(
                shard.active_campaigns_count,
            );
            match (online, strength, diverted, campaigns) {
                (Some(o), Some(s), Some(d), Some(c)) => {
                    stats =
                    GlobalStats {
                        total_shards: (i + 1) as u64,
                        total_online_nodes: o,
                        total_union_strength: s,
                        total_capital_diverted: d,
                        total_active_campaigns: c,
                    };
                },
                _ => {
                    return None;
                },
            }
            i += 1;
        }
        assert(self@.shards.take(self@.shards.len() as int) =~= self@.shards);
        Some(stats)
    }

    /// The totals over all shards.
    pub fn get_global_stats(&self) -> (stats: GlobalStats)
        requires
            global_stats(self@.shards).fits(),
        ensures
            stats@ == global_stats(self@.shards),
    {
        self.try_get_global_stats().unwrap()
    }

    /// What one identity has done in the chains of the named shards: every
    /// action of the identity in every block is counted.
    pub fn get_user_stats(&self, user_did: &str, shard_ids: &[String]) -> (stats: UserStats)
        requires
            history_fits(history(self@.shards, text_views(shard_ids@), user_did@)),
        ensures
            stats@ == user_stats_of(history(self@.shards, text_views(shard_ids@), user_did@)),
    {
        self.try_get_user_stats(user_did, shard_ids).unwrap()
    }

    /// What one identity has done in the chains of the named shards, unless
    /// the number of the identity's actions or the sum of their values is
    /// too great for its 64-bit field.
    pub fn try_get_user_stats(&self, user_did: &str, shard_ids: &[String]) -> (result: Option<
        UserStats,
    >)
        ensures
            match result {
                Some(stats) => stats@ == user_stats_of(
                    history(self@.shards, text_views(shard_ids@), user_did@),
                ),
                None => !history_fits(history(self@.shards, text_views(shard_ids@), user_did@)),
            },
    {
        let ghost names = text_views(shard_ids@);
        let ghost all = history(self@.shards, names, user_did@);
        let mut count: u64 = 0;
        let mut total: u64 = 0;
        let mut first: i64 = 0;
        let mut last: i64 = 0;
        let ghost mut seen: Seq<ImpactActionView> = Seq::empty();
        let mut k: usize = 0;
        assert(names.take(0) =~= Seq::empty());
        while k < shard_ids.len()
            invariant
                k <= shard_ids.len(),
                names == text_views(shard_ids@),
                all == history(self@.shards, names, user_did@),
                seen == history(self@.shards, names.take(k as int), user_did@),
                count == seen.len(),
                total == diverted_sum(seen),
                seen.len() > 0 ==> first == earliest(seen) && last == latest(seen),
            decreases shard_ids.len() - k,
        {
            let ghost before_shard = seen;
            assert(names.take(k + 1).drop_last() =~= names.take(k as int));
            assert(names.take(k + 1).last() == shard_ids@[k as int]@);
            proof {
                lemma_history_grow(self@.shards, names, user_did@, k + 1);
            }
            let i = self.find_shard(shard_ids[k].as_str());
            if i < self.shards.len() {
                let chain = &self.shards[i].state.blockchain;
                let ghost blocks = self@.shards[i as int].state.blockchain;
                assert(history(self@.shards, names.take(k + 1), user_did@) == before_shard
                    + chain_history(blocks, user_did@));
                let mut j: usize = 0;
                assert(blocks.take(0) =~= Seq::empty());
                assert(before_shard + chain_history(blocks.take(0), user_did@) =~= before_shard);
                while j < chain.len()
                    invariant
                        j <= chain.len(),
                        blocks.len() == chain.len(),
                        forall|n: int| 0 <= n < chain.len() ==> blocks[n] == chain@[n]@,
                        all == history(self@.shards, text_views(shard_ids@), user_did@),
                        no_heavier(before_shard + chain_history(blocks, user_did@), all),
                        seen == before_shard + chain_history(blocks.take(j as int), user_did@),
                        count == seen.len(),
                        total == diverted_sum(seen),
                        seen.len() > 0 ==> first == earliest(seen) && last == latest(seen),
                    decreases chain.len() - j,
                {
                    let ghost before_block = seen;
                    let actions = &chain[j].actions;
                    let ghost acts = blocks[j as int].actions;
                    proof {
                        assert(blocks.take(j + 1).drop_last() =~= blocks.take(j as int));
                        lemma_chain_history_grow(blocks, user_did@, j + 1);
                        lemma_diverted_sum_concat(
                            before_shard,
                            chain_history(blocks.take(j + 1), user_did@),
                        );
                        lemma_diverted_sum_concat(
                            before_shard,
                            chain_history(blocks, user_did@),
                        );
                        lemma_diverted_sum_concat(before_block, own_actions(acts, user_did@));
                        assert(before_shard + chain_history(blocks.take(j + 1), user_did@)
                            =~= before_block + own_actions(acts, user_did@));
                        assert(acts.take(0) =~= Seq::empty());
                        assert(before_block + own_actions(acts.take(0), user_did@)
                            =~= before_block);
                    }
                    let mut m: usize = 0;
                    while m < actions.len()
                        invariant
                            m <= actions.len(),
                            acts.len() == actions.len(),
                            forall|n: int| 0 <= n < actions.len() ==> acts[n] == actions@[n]@,
                            all == history(self@.shards, text_views(shard_ids@), user_did@),
                            no_heavier(before_block + own_actions(acts, user_did@), all),
                            seen == before_block + own_actions(acts.take(m as int), user_did@),
                            count == seen.len(),
                            total == diverted_sum(seen),
                            seen.len() > 0 ==> first == earliest(seen) && last == latest(seen),
                        decreases actions.len() - m,
                    {
                        proof {
                            assert(acts.take(m + 1).drop_last() =~= acts.take(m as int));
                            lemma_own_actions_grow(acts, user_did@, m + 1);
                            lemma_diverted_sum_concat(
                                before_block,
                                own_actions(acts.take(m + 1), user_did@),
                            );
                            lemma_diverted_sum_concat(
                                before_block,
                                own_actions(acts, user_did@),
                            );
                        }
                        if text_eq(actions[m].user_did.as_str(), user_did) {
                            let ghost grown = seen.push(acts[m as int]);
                            proof {
                                assert(before_block + own_actions(acts.take(m + 1), user_did@)
                                    =~= grown);
                                assert(grown.drop_last() =~= seen);
                            }
                            let time = actions[m].timestamp;
                            if count == 0 {
                                first = time;
                                last = time;
                            } else {
                                if time < first {
                                    first = time;
                                }
                                if time > last {
                                    last = time;
                                }
                            }
                            let sum = total.checked_add(actions[m].value_diverted);
                            if count == u64::MAX || sum.is_none() {
                                return None;
                            }
                            count = count + 1;
                            total = sum.unwrap();
                            proof {
                                seen = grown;
                            }
                        }
                        m += 1;
                    }
                    assert(acts.take(acts.len() as int) =~= acts);
                    j += 1;
                }
                assert(blocks.take(blocks.len() as int) =~= blocks);
            }
            k += 1;
        }
        assert(names.take(names.len() as int) =~= names);
        let streak_days: u64 = if count > 0 {
            proof {
                lemma_earliest_before_latest(seen);
            }
            let span: i128 = (last as i128) - (first as i128);
            (span / (SECONDS_PER_DAY as i128)) as u64
        } else {
            0
        };
        Some(
            UserStats {
                campaigns_joined: count,
                streak_days,
                total_diverted: total,
                total_actions: count,
            },
        )
    }
    /// The chain figures at time `now`.
    pub fn get_blockchain_stats_at(&self, now: i64) -> (stats: BlockchainStats)
        requires
            chain_totals(self@.shards).fits(),
        ensures
            stats@ == blockchain_stats(self@.shards, now),
    {
        self.try_get_blockchain_stats_at(now).unwrap()
    }

    /// The chain figures at time `now`, unless one of the sums is too great
    /// for its 64-bit field.
    pub fn try_get_blockchain_stats_at(&self, now: i64) -> (result: Option<BlockchainStats>)
        ensures
            match result {
                Some(stats) => stats@ == blockchain_stats(self@.shards, now),
                None => !chain_totals(self@.shards).fits(),
            },
    {
        let mut total_blocks: u64 = 0;
        let mut total_pending_actions: u64 = 0;
        let mut latest_block_timestamp: i64 = 0;
        let mut total_transactions: u64 = 0;
        let mut i: usize = 0;
        while i < self.shards.len()
            invariant
                i <= self.shards.len(),
                chain_totals(self@.shards.take(i as int)) == (ChainTotals {
                    blocks: total_blocks as nat,
                    pending: total_pending_actions as nat,
                    transactions: total_transactions as nat,
                    latest: latest_block_timestamp,
                }),
            decreases self.shards.len() - i,
        {
            proof {
                lemma_chain_totals_grow(self@.shards, i + 1);
                assert(self@.shards.take(i + 1).drop_last() =~= self@.shards.take(i as int));
            }
            let shard = &self.shards[i];
            let ghost chain = self@.shards[i as int].state.blockchain;
            let ghost before = total_transactions;
            let shard_height = shard.state.height();
            let blocks = total_blocks.checked_add(shard_height);
            let pending = total_pending_actions.checked_add(shard.pending_actions.len() as u64);
            if blocks.is_none() || pending.is_none() {
                return None;
            }
            total_blocks = blocks.unwrap();
            total_pending_actions = pending.unwrap();
            if let Some(latest_block) = shard.state.latest_block() {
                if latest_block.timestamp > latest_block_timestamp {
                    latest_block_timestamp = latest_block.timestamp;
                }
            }
            let mut j: usize = 0;
            while j < shard.state.blockchain.len()
                invariant
                    j <= shard.state.blockchain.len(),
                    chain == shard.state@.blockchain,
                    chain_totals(self@.shards.take(i + 1)).transactions == before
                        + chain_transactions(chain),
                    chain_totals(self@.shards.take(i + 1)).within(chain_totals(self@.shards)),
                    total_transactions == before + chain_transactions(chain.take(j as int)),
                decreases shard.state.blockchain.len() - j,
            {
                proof {
                    lemma_chain_transactions_grow(chain, j + 1);
                    assert(chain.take(j + 1).drop_last() =~= chain.take(j as int));
                }
                let sum = total_transactions.checked_add(
                    shard.state.blockchain[j].actions.len() as u64,
                );
                if sum.is_none() {
                    return None;
                }
                total_transactions = sum.unwrap();
                j += 1;
            }
            assert(chain.take(chain.len() as int) =~= chain);
            i += 1;
        }
        assert(self@.shards.take(self@.shards.len() as int) =~= self@.shards);
        let transactions_per_second: u64 = if latest_block_timestamp > 0 {
            let since: i128 = (now as i128) - (latest_block_timestamp as i128);
            let elapsed: i128 = if since < 1 {
                1
            } else {
                since
            };
            if elapsed <= THROUGHPUT_WINDOW as i128 {
                total_transactions / (elapsed as u64)
            } else {
                0
            }
        } else {
            0
        };
        Some(
            BlockchainStats {
                total_blocks,
                total_shards: self.shards.len() as u64,
                total_pending_actions,
                latest_block_timestamp,
                transactions_per_second,
            },
        )
    }

    /// The chain figures at the current time.
    pub fn get_blockchain_stats(&self) -> (stats: BlockchainStats)
        requires
            chain_totals(self@.shards).fits(),
        ensures
            exists|now: i64| 0 <= now && stats@ == #[trigger] blockchain_stats(self@.shards, now),
    {
        self.get_blockchain_stats_at(unix_now())
    }

    /// One line for every shard, in shard order.
    pub fn get_shard_info(&self) -> (infos: Vec<ShardInfo>)
        ensures
            shard_info_views(infos@) == self@.shards.map_values(|s: StanceShardView| shard_info(s)),
    {
        let mut infos: Vec<ShardInfo> = Vec::new();
        let mut i: usize = 0;
        while i < self.shards.len()
            invariant
                i <= self.shards.len(),
                infos@.len() == i,
                forall|k: int| 0 <= k < i ==> (#[trigger] infos@[k])@ == shard_info(self@.shards[k]),
            decreases self.shards.len() - i,
        {
            let shard = &self.shards[i];
            infos.push(
                ShardInfo {
                    shard_id: shard.shard_id.clone(),
                    block_height: shard.state.height(),
                    pending_actions: shard.pending_actions.len() as u64,
                    active_nodes: shard.state.online_nodes_count,
                },
            );
            i += 1;
        }
        assert(shard_info_views(infos@) =~= self@.shards.map_values(
            |s: StanceShardView| shard_info(s),
        ));
        infos
    }

    /// A user's standing in each shard of the user's routing entry.
    fn memberships_of(&self, u: usize) -> (list: Vec<ShardMembership>)
        requires
            u < self.firebase_users@.len(),
        ensures
            membership_views(list@) == memberships(
                self@.shards,
                self@.route_of(self@.firebase_users[u as int].polis_did),
                self@.firebase_users[u as int],
            ),
    {
        let user = &self.firebase_users[u];
        let ghost who = self@.firebase_users[u as int];
        let mut list: Vec<ShardMembership> = Vec::new();
        let r = self.find_route(user.polis_did.as_str());
        if r == self.user_routes.len() {
            assert(membership_views(list@) =~= Seq::empty());
            return list;
        }
        let shard_ids = &self.user_routes[r].shard_ids;
        let ghost names = text_views(shard_ids@);
        assert(names == self@.route_of(who.polis_did));
        let mut k: usize = 0;
        assert(names.take(0) =~= Seq::empty());
        assert(membership_views(list@) =~= Seq::empty());
        while k < shard_ids.len()
            invariant
                k <= shard_ids.len(),
                names == text_views(shard_ids@),
                u < self.firebase_users@.len(),
                who == self@.firebase_users[u as int],
                *user == self.firebase_users@[u as int],
                membership_views(list@) == memberships(self@.shards, names.take(k as int), who),
            decreases shard_ids.len() - k,
        {
            assert(names.take(k + 1).drop_last() =~= names.take(k as int));
            assert(names.take(k + 1).last() == shard_ids@[k as int]@);
            let i = self.find_shard(shard_ids[k].as_str());
            if i < self.shards.len() {
                let shard = &self.shards[i];
                let n = shard.find_node(user.polis_did.as_str());
                let active = n < shard.nodes.len() && shard.nodes[n].is_online;
                let ghost before = membership_views(list@);
                proof {
                    lemma_index_of_range(shard_labels(self@.shards), shard_ids@[k as int]@);
                    assert(shard_labels(self@.shards)[i as int] == shard_ids@[k as int]@);
                    assert(self@.shards[i as int] == shard@);
                    assert(who == user@);
                }
                list.push(
                    ShardMembership {
                        shard_id: shard_ids[k].clone(),
                        joined_at: user.last_activity,
                        left_at: if active {
                            None
                        } else {
                            Some(user.last_activity)
                        },
                        is_active: active,
                    },
                );
                assert(membership_views(list@) =~= before.push(
                    membership_in(self@.shards[i as int], who),
                ));
            }
            k += 1;
        }
        assert(names.take(names.len() as int) =~= names);
        list
    }

    /// The users who are online, in the order in which they registered, each
    /// with the user's standing in the shards of the user's routing entry.
    pub fn get_online_users(&self) -> (users: Vec<OnlineUserInfo>)
        ensures
            online_user_views(users@) == online_users(self@, self@.firebase_users.len() as int),
    {
        let mut users: Vec<OnlineUserInfo> = Vec::new();
        let mut u: usize = 0;
        assert(online_user_views(users@) =~= Seq::empty());
        while u < self.firebase_users.len()
            invariant
                u <= self.firebase_users.len(),
                online_user_views(users@) == online_users(self@, u as int),
            decreases self.firebase_users.len() - u,
        {
            let user = &self.firebase_users[u];
            if user.is_online {
                let ghost before = online_user_views(users@);
                let shards = self.memberships_of(u);
                users.push(
                    OnlineUserInfo {
                        firebase_uid: user.firebase_uid.clone(),
                        polis_did: user.polis_did.clone(),
                        display_name: user.display_name.clone(),
                        last_activity: user.last_activity,
                        shards,
                    },
                );
                assert(online_user_views(users@) =~= before.push(
                    online_user(self@, self@.firebase_users[u as int]),
                ));
            }
            u += 1;
        }
        users
    }
}

} // verus!
