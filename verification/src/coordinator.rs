//! The coordinator: it owns every shard and the routing table, registers
//! identities, dispatches actions and aggregates what the shards report.

use crate::blockchain::{
    empty_shard, record_fits, record_outcome, region, shard_after_record, shard_with_member,
    shard_with_pending, IdeologyRange, StanceShard, StanceShardView,
};
use crate::clock::{fresh_action_id, unix_now};
use crate::error::ProtocolError;
use crate::hashing::str_bytes;
use crate::text::{
    distinct, index_of, lemma_index_of_found, lemma_index_of_range, lemma_str_bytes_concat,
    text_eq, text_join, text_views, texts_distinct,
};
use crate::types::{proof_token_valid, verified_prefix, ActionType, ImpactAction, ImpactActionView};
use vstd::prelude::*;
use vstd::string::StringExecFns;

verus! {

/// What the coordinator knows of a registered user.
#[derive(Debug)]
pub struct FirebaseUserInfo {
    /// The user's identifier at the identity provider.
    pub firebase_uid: String,
    /// The identity under which the user acts in the shards.
    pub polis_did: String,
    /// The name shown for the user.
    pub display_name: String,
    /// The user's economic, social and diplomatic coordinates.
    pub coordinates: (i32, i32, i32),
    /// Whether the user is online.
    pub is_online: bool,
    /// When the user was last active, in seconds since the Unix epoch.
    pub last_activity: i64,
    /// How many actions of the user were recorded.
    pub total_actions: u64,
}

/// A registered user as a mathematical value.
pub struct FirebaseUserInfoView {
    pub firebase_uid: Seq<char>,
    pub polis_did: Seq<char>,
    pub display_name: Seq<char>,
    pub coordinates: (i32, i32, i32),
    pub is_online: bool,
    pub last_activity: i64,
    pub total_actions: nat,
}

impl View for FirebaseUserInfo {
    type V = FirebaseUserInfoView;

    open spec fn view(&self) -> FirebaseUserInfoView {
        FirebaseUserInfoView {
            firebase_uid: self.firebase_uid@,
            polis_did: self.polis_did@,
            display_name: self.display_name@,
            coordinates: self.coordinates,
            is_online: self.is_online,
            last_activity: self.last_activity,
            total_actions: self.total_actions as nat,
        }
    }
}

/// One entry of the routing table: the shards that an identity belongs to.
#[derive(Debug)]
pub struct UserRoute {
    /// The identity.
    pub user_did: String,
    /// The labels of the identity's shards.
    pub shard_ids: Vec<String>,
}

/// A routing entry as a mathematical value.
pub struct UserRouteView {
    pub user_did: Seq<char>,
    pub shard_ids: Seq<Seq<char>>,
}

impl View for UserRoute {
    type V = UserRouteView;

    open spec fn view(&self) -> UserRouteView {
        UserRouteView { user_did: self.user_did@, shard_ids: text_views(self.shard_ids@) }
    }
}

/// The views of a sequence of shards, in order.
pub open spec fn shard_views(shards: Seq<StanceShard>) -> Seq<StanceShardView> {
    shards.map_values(|s: StanceShard| s@)
}

/// The views of a sequence of routing entries, in order.
pub open spec fn route_views(routes: Seq<UserRoute>) -> Seq<UserRouteView> {
    routes.map_values(|r: UserRoute| r@)
}

/// The views of a sequence of users, in order.
pub open spec fn user_views(users: Seq<FirebaseUserInfo>) -> Seq<FirebaseUserInfoView> {
    users.map_values(|u: FirebaseUserInfo| u@)
}

/// The labels of a sequence of shards, in order.
pub open spec fn shard_labels(shards: Seq<StanceShardView>) -> Seq<Seq<char>> {
    shards.map_values(|s: StanceShardView| s.shard_id)
}

/// The identities of a sequence of routing entries, in order.
pub open spec fn route_keys(routes: Seq<UserRouteView>) -> Seq<Seq<char>> {
    routes.map_values(|r: UserRouteView| r.user_did)
}

/// The provider identifiers of a sequence of users, in order.
pub open spec fn user_keys(users: Seq<FirebaseUserInfoView>) -> Seq<Seq<char>> {
    users.map_values(|u: FirebaseUserInfoView| u.firebase_uid)
}

/// The coordinator. Shards are kept in the order in which their labels were
/// first registered, routing entries and users in the order in which they
/// were first seen; each list is looked up by its key.
#[derive(Debug)]
pub struct PolisProtocol {
    /// The shards; no label occurs twice.
    pub shards: Vec<StanceShard>,
    /// The routing table; no identity occurs twice.
    pub user_routes: Vec<UserRoute>,
    /// The registered users; no provider identifier occurs twice.
    pub firebase_users: Vec<FirebaseUserInfo>,
}

/// The coordinator as a mathematical value.
pub struct PolisProtocolView {
    pub shards: Seq<StanceShardView>,
    pub user_routes: Seq<UserRouteView>,
    pub firebase_users: Seq<FirebaseUserInfoView>,
}

impl View for PolisProtocol {
    type V = PolisProtocolView;

    open spec fn view(&self) -> PolisProtocolView {
        PolisProtocolView {
            shards: shard_views(self.shards@),
            user_routes: route_views(self.user_routes@),
            firebase_users: user_views(self.firebase_users@),
        }
    }
}

impl PolisProtocolView {
    /// Whether every list of the coordinator holds each key once.
    pub open spec fn wf(self) -> bool {
        &&& distinct(shard_labels(self.shards))
        &&& distinct(route_keys(self.user_routes))
        &&& distinct(user_keys(self.firebase_users))
    }

    /// The position of the shard with the given label, or the number of
    /// shards where there is none.
    pub open spec fn shard_index(self, label: Seq<char>) -> int {
        index_of(shard_labels(self.shards), label)
    }

    /// Whether a shard carries the given label.
    pub open spec fn has_shard(self, label: Seq<char>) -> bool {
        self.shard_index(label) < self.shards.len()
    }

    /// The coordinator with the shard at position `i` replaced.
    pub open spec fn with_shard(self, i: int, shard: StanceShardView) -> PolisProtocolView {
        PolisProtocolView { shards: self.shards.update(i, shard), ..self }
    }
}

/// A list of shards after `shard` was registered: a shard that carried its
/// label before is replaced where it stood, and else the new shard is added
/// at the end.
pub open spec fn shards_with(shards: Seq<StanceShardView>, shard: StanceShardView) -> Seq<
    StanceShardView,
> {
    let i = index_of(shard_labels(shards), shard.shard_id);
    if i < shards.len() {
        shards.update(i, shard)
    } else {
        shards.push(shard)
    }
}

/// The labels of the shards whose region holds the point, in shard order.
pub open spec fn matching_labels(shards: Seq<StanceShardView>, point: Seq<i32>) -> Seq<Seq<char>>
    decreases shards.len(),
{
    if shards.len() == 0 {
        Seq::empty()
    } else {
        let before = matching_labels(shards.drop_last(), point);
        if shards.last().ideology_range.holds_point(point) {
            before.push(shards.last().shard_id)
        } else {
            before
        }
    }
}

/// The five shards that a coordinator starts with. Together their regions
/// cover the left and the right of the economic axis, each with either half
/// of the social axis, and the middle of both.
pub open spec fn default_shards() -> Seq<StanceShardView> {
    seq![
        empty_shard("progressive-left"@, region((-100, -20), (20, 100), (-100, 100))),
        empty_shard("conservative-right"@, region((20, 100), (-100, -20), (-100, 100))),
        empty_shard("centrist-moderate"@, region((-40, 40), (-40, 40), (-100, 100))),
        empty_shard("traditional-left"@, region((-100, -20), (-100, 20), (-100, 100))),
        empty_shard("libertarian-right"@, region((20, 100), (20, 100), (-100, 100))),
    ]
}

/// Registering a shard keeps the labels distinct.
pub proof fn lemma_shards_with_distinct(shards: Seq<StanceShardView>, shard: StanceShardView)
    requires
        distinct(shard_labels(shards)),
    ensures
        distinct(shard_labels(shards_with(shards, shard))),
{
    let labels = shard_labels(shards);
    let after = shard_labels(shards_with(shards, shard));
    let i = index_of(labels, shard.shard_id);
    lemma_index_of_range(labels, shard.shard_id);
    if i < shards.len() {
        assert(after =~= labels);
    } else {
        assert(after =~= labels.push(shard.shard_id));
    }
}

/// The identity under which a user with the given provider identifier acts.
pub open spec fn polis_did_of(firebase_uid: Seq<char>) -> Seq<char> {
    "did:polis:firebase:"@ + firebase_uid
}

/// A list of users after `user` was stored: an entry with the same provider
/// identifier is replaced where it stood, and else the user is added at the
/// end.
pub open spec fn users_with(users: Seq<FirebaseUserInfoView>, user: FirebaseUserInfoView) -> Seq<
    FirebaseUserInfoView,
> {
    let i = index_of(user_keys(users), user.firebase_uid);
    if i < users.len() {
        users.update(i, user)
    } else {
        users.push(user)
    }
}

/// A routing table after `route` was stored: an entry for the same identity
/// is replaced where it stood, and else the entry is added at the end.
pub open spec fn routes_with(routes: Seq<UserRouteView>, route: UserRouteView) -> Seq<
    UserRouteView,
> {
    let i = index_of(route_keys(routes), route.user_did);
    if i < routes.len() {
        routes.update(i, route)
    } else {
        routes.push(route)
    }
}

/// The shards after a heartbeat of one member in each of the named shards,
/// taken in the order of the names. A name that no shard carries is passed
/// over.
pub open spec fn shards_with_member(
    shards: Seq<StanceShardView>,
    labels: Seq<Seq<char>>,
    node_id: Seq<char>,
    is_online: bool,
    now: i64,
) -> Seq<StanceShardView>
    decreases labels.len(),
{
    if labels.len() == 0 {
        shards
    } else {
        let i = index_of(shard_labels(shards), labels[0]);
        let next = if i < shards.len() {
            shards.update(i, shard_with_member(shards[i], node_id, is_online, now))
        } else {
            shards
        };
        shards_with_member(next, labels.drop_first(), node_id, is_online, now)
    }
}

/// The entry of a user who has just registered.
pub open spec fn new_user(
    firebase_uid: Seq<char>,
    display_name: Seq<char>,
    coordinates: (i32, i32, i32),
    now: i64,
) -> FirebaseUserInfoView {
    FirebaseUserInfoView {
        firebase_uid,
        polis_did: polis_did_of(firebase_uid),
        display_name,
        coordinates,
        is_online: true,
        last_activity: now,
        total_actions: 0,
    }
}

/// The point with the given coordinates.
pub open spec fn point_of(coordinates: (i32, i32, i32)) -> Seq<i32> {
    seq![coordinates.0, coordinates.1, coordinates.2]
}

/// The coordinator after a user registered at time `now`: the user is online
/// in every shard whose region holds the user's point, the routing table
/// names exactly those shards for the user's identity, and the user's entry
/// is stored. A point outside every region gives an empty routing entry.
pub open spec fn registered(
    p: PolisProtocolView,
    firebase_uid: Seq<char>,
    display_name: Seq<char>,
    coordinates: (i32, i32, i32),
    now: i64,
) -> PolisProtocolView {
    let did = polis_did_of(firebase_uid);
    let labels = matching_labels(p.shards, point_of(coordinates));
    PolisProtocolView {
        shards: shards_with_member(p.shards, labels, did, true, now),
        user_routes: routes_with(p.user_routes, UserRouteView { user_did: did, shard_ids: labels }),
        firebase_users: users_with(
            p.firebase_users,
            new_user(firebase_uid, display_name, coordinates, now),
        ),
    }
}

impl PolisProtocolView {
    /// The position of the user with the given provider identifier, or the
    /// number of users where there is none.
    pub open spec fn user_index(self, firebase_uid: Seq<char>) -> int {
        index_of(user_keys(self.firebase_users), firebase_uid)
    }

    /// Whether a user with the given provider identifier is registered.
    pub open spec fn has_user(self, firebase_uid: Seq<char>) -> bool {
        self.user_index(firebase_uid) < self.firebase_users.len()
    }

    /// The position of the routing entry of the given identity, or the
    /// number of entries where there is none.
    pub open spec fn route_index(self, user_did: Seq<char>) -> int {
        index_of(route_keys(self.user_routes), user_did)
    }

    /// Whether the coordinator knows an identity: a user with the given
    /// provider identifier is registered, and the routing table has an entry
    /// for the identity under which the user acts.
    pub open spec fn knows(self, firebase_uid: Seq<char>) -> bool {
        &&& self.has_user(firebase_uid)
        &&& self.route_index(self.firebase_users[self.user_index(firebase_uid)].polis_did)
            < self.user_routes.len()
    }

    /// The labels that the routing table holds for an identity; none where
    /// the identity has no entry.
    pub open spec fn route_of(self, user_did: Seq<char>) -> Seq<Seq<char>> {
        let i = self.route_index(user_did);
        if i < self.user_routes.len() {
            self.user_routes[i].shard_ids
        } else {
            Seq::empty()
        }
    }
}

/// The coordinator after a user's heartbeat at time `now`: the user's entry
/// carries the flag and the time, and so does the user's membership in every
/// shard of the user's routing entry.
pub open spec fn activity_updated(
    p: PolisProtocolView,
    firebase_uid: Seq<char>,
    is_online: bool,
    now: i64,
) -> PolisProtocolView {
    let u = p.user_index(firebase_uid);
    let user = p.firebase_users[u];
    PolisProtocolView {
        shards: shards_with_member(
            p.shards,
            p.route_of(user.polis_did),
            user.polis_did,
            is_online,
            now,
        ),
        firebase_users: p.firebase_users.update(
            u,
            FirebaseUserInfoView { is_online, last_activity: now, ..user },
        ),
        ..p
    }
}

/// The labels of a list of shards stay as they are when one shard is
/// replaced by a shard with the same label.
pub proof fn lemma_labels_kept(shards: Seq<StanceShardView>, i: int, shard: StanceShardView)
    requires
        0 <= i < shards.len(),
        shard.shard_id == shards[i].shard_id,
    ensures
        shard_labels(shards.update(i, shard)) == shard_labels(shards),
{
    assert(shard_labels(shards.update(i, shard)) =~= shard_labels(shards));
}

/// Heartbeats leave the labels of the shards as they are.
pub proof fn lemma_members_keep_labels(
    shards: Seq<StanceShardView>,
    labels: Seq<Seq<char>>,
    node_id: Seq<char>,
    is_online: bool,
    now: i64,
)
    ensures
        shard_labels(shards_with_member(shards, labels, node_id, is_online, now)) == shard_labels(
            shards,
        ),
    decreases labels.len(),
{
    if labels.len() > 0 {
        let i = index_of(shard_labels(shards), labels[0]);
        lemma_index_of_range(shard_labels(shards), labels[0]);
        let next = if i < shards.len() {
            shards.update(i, shard_with_member(shards[i], node_id, is_online, now))
        } else {
            shards
        };
        if i < shards.len() {
            lemma_labels_kept(shards, i, shard_with_member(shards[i], node_id, is_online, now));
        }
        lemma_members_keep_labels(next, labels.drop_first(), node_id, is_online, now);
    }
}

/// Storing a user keeps the provider identifiers distinct.
pub proof fn lemma_users_with_distinct(users: Seq<FirebaseUserInfoView>, user: FirebaseUserInfoView)
    requires
        distinct(user_keys(users)),
    ensures
        distinct(user_keys(users_with(users, user))),
{
    let keys = user_keys(users);
    let after = user_keys(users_with(users, user));
    let i = index_of(keys, user.firebase_uid);
    lemma_index_of_range(keys, user.firebase_uid);
    if i < users.len() {
        assert(after =~= keys);
    } else {
        assert(after =~= keys.push(user.firebase_uid));
    }
}

/// Storing a routing entry keeps the identities distinct.
pub proof fn lemma_routes_with_distinct(routes: Seq<UserRouteView>, route: UserRouteView)
    requires
        distinct(route_keys(routes)),
    ensures
        distinct(route_keys(routes_with(routes, route))),
{
    let keys = route_keys(routes);
    let after = route_keys(routes_with(routes, route));
    let i = index_of(keys, route.user_did);
    lemma_index_of_range(keys, route.user_did);
    if i < routes.len() {
        assert(after =~= keys);
    } else {
        assert(after =~= keys.push(route.user_did));
    }
}

/// A copy of a list of texts.
pub fn clone_texts(texts: &Vec<String>) -> (copy: Vec<String>)
    ensures
        copy@ == texts@,
{
    let mut copy: Vec<String> = Vec::new();
    let mut i: usize = 0;
    while i < texts.len()
        invariant
            i <= texts.len(),
            copy@ == texts@.take(i as int),
        decreases texts.len() - i,
    {
        copy.push(texts[i].clone());
        assert(texts@.take(i + 1) =~= texts@.take(i as int).push(texts@[i as int]));
        i += 1;
    }
    assert(texts@.take(texts@.len() as int) =~= texts@);
    copy
}

/// The shards after an action was recorded in each of the named shards,
/// taken in the order of the names. A name that no shard carries is passed
/// over, and the first refusal ends the sequence.
pub open spec fn shards_after_record(
    shards: Seq<StanceShardView>,
    labels: Seq<Seq<char>>,
    a: ImpactActionView,
    producer: Seq<char>,
    now: i64,
) -> Seq<StanceShardView>
    decreases labels.len(),
{
    if labels.len() == 0 {
        shards
    } else {
        let i = index_of(shard_labels(shards), labels[0]);
        if i >= shards.len() {
            shards_after_record(shards, labels.drop_first(), a, producer, now)
        } else {
            let next = shards.update(i, shard_after_record(shards[i], a, producer, now));
            if record_outcome(shards[i], a, producer, now) is Ok {
                shards_after_record(next, labels.drop_first(), a, producer, now)
            } else {
                next
            }
        }
    }
}

/// How recording an action in the named shards ends: with the first refusal,
/// or well.
pub open spec fn shards_record_outcome(
    shards: Seq<StanceShardView>,
    labels: Seq<Seq<char>>,
    a: ImpactActionView,
    producer: Seq<char>,
    now: i64,
) -> Result<(), ProtocolError>
    decreases labels.len(),
{
    if labels.len() == 0 {
        Ok(())
    } else {
        let i = index_of(shard_labels(shards), labels[0]);
        if i >= shards.len() {
            shards_record_outcome(shards, labels.drop_first(), a, producer, now)
        } else {
            let next = shards.update(i, shard_after_record(shards[i], a, producer, now));
            if record_outcome(shards[i], a, producer, now) is Ok {
                shards_record_outcome(next, labels.drop_first(), a, producer, now)
            } else {
                record_outcome(shards[i], a, producer, now)
            }
        }
    }
}

/// Whether the numbers fit their fields in every shard that recording an
/// action in the named shards comes to.
pub open spec fn shards_record_fit(
    shards: Seq<StanceShardView>,
    labels: Seq<Seq<char>>,
    a: ImpactActionView,
    producer: Seq<char>,
    now: i64,
) -> bool
    decreases labels.len(),
{
    if labels.len() == 0 {
        true
    } else {
        let i = index_of(shard_labels(shards), labels[0]);
        if i >= shards.len() {
            shards_record_fit(shards, labels.drop_first(), a, producer, now)
        } else {
            let next = shards.update(i, shard_after_record(shards[i], a, producer, now));
            &&& record_fits(shards[i], a.target_entity, a.value_diverted)
            &&& record_outcome(shards[i], a, producer, now) is Ok ==> shards_record_fit(
                next,
                labels.drop_first(),
                a,
                producer,
                now,
            )
        }
    }
}

/// Recording an action leaves the labels of the shards as they are.
pub proof fn lemma_records_keep_labels(
    shards: Seq<StanceShardView>,
    labels: Seq<Seq<char>>,
    a: ImpactActionView,
    producer: Seq<char>,
    now: i64,
)
    ensures
        shard_labels(shards_after_record(shards, labels, a, producer, now)) == shard_labels(
            shards,
        ),
    decreases labels.len(),
{
    if labels.len() > 0 {
        let i = index_of(shard_labels(shards), labels[0]);
        lemma_index_of_range(shard_labels(shards), labels[0]);
        if i < shards.len() {
            let next = shards.update(i, shard_after_record(shards[i], a, producer, now));
            lemma_labels_kept(shards, i, shard_after_record(shards[i], a, producer, now));
            lemma_records_keep_labels(next, labels.drop_first(), a, producer, now);
        } else {
            lemma_records_keep_labels(shards, labels.drop_first(), a, producer, now);
        }
    }
}

/// The proof token that the coordinator writes for a user is accepted.
pub proof fn lemma_user_token_valid(firebase_uid: Seq<char>)
    ensures
        proof_token_valid(verified_prefix() + firebase_uid),
{
    reveal_strlit("firebase_verified_");
    lemma_str_bytes_concat(verified_prefix(), firebase_uid);
    let whole = str_bytes(verified_prefix() + firebase_uid);
    let head = str_bytes(verified_prefix());
    assert(whole.subrange(0, head.len() as int) =~= head);
    assert((verified_prefix() + firebase_uid).len() > 0);
}

/// No shard refuses an action whose proof token is accepted.
pub proof fn lemma_valid_token_is_taken(
    shards: Seq<StanceShardView>,
    labels: Seq<Seq<char>>,
    a: ImpactActionView,
    producer: Seq<char>,
    now: i64,
)
    requires
        proof_token_valid(a.zk_proof),
    ensures
        shards_record_outcome(shards, labels, a, producer, now) is Ok,
    decreases labels.len(),
{
    if labels.len() > 0 {
        let i = index_of(shard_labels(shards), labels[0]);
        if i >= shards.len() {
            lemma_valid_token_is_taken(shards, labels.drop_first(), a, producer, now);
        } else {
            let next = shards.update(i, shard_after_record(shards[i], a, producer, now));
            lemma_valid_token_is_taken(next, labels.drop_first(), a, producer, now);
        }
    }
}

/// The action that the coordinator writes for a user: it carries the user's
/// identity and a proof token made of the vouched-for prefix and the user's
/// provider identifier.
pub open spec fn user_action(
    user: FirebaseUserInfoView,
    action_type: ActionType,
    target: Seq<char>,
    value: u64,
    now: i64,
    action_id: Seq<char>,
) -> ImpactActionView {
    ImpactActionView {
        user_did: user.polis_did,
        action_type,
        target_entity: target,
        value_diverted: value,
        zk_proof: verified_prefix() + user.firebase_uid,
        timestamp: now,
        action_id,
    }
}

impl PolisProtocolView {
    /// How recording a user's action ends: an unknown identity is refused,
    /// and every other action is taken, since the proof token that the
    /// coordinator writes is always accepted and no shard refuses for a block
    /// that fails its check.
    pub open spec fn record_outcome(self, firebase_uid: Seq<char>) -> Result<(), ProtocolError> {
        if !self.knows(firebase_uid) {
            Err(ProtocolError::IdentityNotFound)
        } else {
            Ok(())
        }
    }

    /// The coordinator after a user's action was recorded at time `now`: the
    /// action went through the shards of the user's routing entry, each of
    /// which built its block in the user's name, and the user's count of
    /// actions went up by one. An unknown identity changes nothing.
    pub open spec fn after_record(
        self,
        firebase_uid: Seq<char>,
        action_type: ActionType,
        target: Seq<char>,
        value: u64,
        now: i64,
        action_id: Seq<char>,
    ) -> PolisProtocolView {
        if !self.knows(firebase_uid) {
            self
        } else {
            let u = self.user_index(firebase_uid);
            let user = self.firebase_users[u];
            let a = user_action(user, action_type, target, value, now, action_id);
            let labels = self.route_of(user.polis_did);
            PolisProtocolView {
                shards: shards_after_record(self.shards, labels, a, user.polis_did, now),
                firebase_users: self.firebase_users.update(
                    u,
                    FirebaseUserInfoView { total_actions: user.total_actions + 1, ..user },
                ),
                ..self
            }
        }
    }

    /// Whether the numbers fit their fields everywhere that recording a
    /// user's action comes to.
    pub open spec fn record_fits(
        self,
        firebase_uid: Seq<char>,
        action_type: ActionType,
        target: Seq<char>,
        value: u64,
        now: i64,
        action_id: Seq<char>,
    ) -> bool {
        self.knows(firebase_uid) ==> {
            let user = self.firebase_users[self.user_index(firebase_uid)];
            &&& user.total_actions + 1 <= u64::MAX
            &&& shards_record_fit(
                self.shards,
                self.route_of(user.polis_did),
                user_action(user, action_type, target, value, now, action_id),
                user.polis_did,
                now,
            )
        }
    }
}

impl PolisProtocolView {
    /// A test that is enough for `record_fits`, whatever the kind, the time
    /// and the identifier of the action are: the user's count of actions
    /// fits, no label occurs twice in the user's routing entry, and the
    /// numbers fit in every shard that the entry names.
    pub open spec fn can_record(self, firebase_uid: Seq<char>, target: Seq<char>, value: u64) -> bool {
        self.knows(firebase_uid) ==> {
            let user = self.firebase_users[self.user_index(firebase_uid)];
            let labels = self.route_of(user.polis_did);
            &&& user.total_actions + 1 <= u64::MAX
            &&& distinct(labels)
            &&& forall|k: int|
                0 <= k < labels.len() && self.has_shard(#[trigger] labels[k]) ==> record_fits(
                    self.shards[self.shard_index(labels[k])],
                    target,
                    value,
                )
        }
    }
}

/// Recording in shards that are named once each and in each of which the
/// numbers fit at the start finds the numbers fitting at every step.
pub proof fn lemma_distinct_route_fits(
    start: Seq<StanceShardView>,
    shards: Seq<StanceShardView>,
    labels: Seq<Seq<char>>,
    a: ImpactActionView,
    producer: Seq<char>,
    now: i64,
)
    requires
        shard_labels(shards) == shard_labels(start),
        distinct(labels),
        forall|k: int|
            0 <= k < labels.len() && index_of(shard_labels(start), #[trigger] labels[k])
                < start.len() ==> {
                let i = index_of(shard_labels(start), labels[k]);
                shards[i] == start[i] && record_fits(start[i], a.target_entity, a.value_diverted)
            },
    ensures
        shards_record_fit(shards, labels, a, producer, now),
    decreases labels.len(),
{
    if labels.len() > 0 {
        let names = shard_labels(start);
        let i = index_of(names, labels[0]);
        let rest = labels.drop_first();
        lemma_index_of_range(names, labels[0]);
        assert(shards.len() == start.len()) by {
            assert(shard_labels(shards).len() == shards.len());
            assert(names.len() == start.len());
        }
        let next = if i < shards.len() {
            shards.update(i, shard_after_record(shards[i], a, producer, now))
        } else {
            shards
        };
        if i < shards.len() {
            assert(names[i] == shards[i].shard_id) by {
                assert(shard_labels(shards)[i] == shards[i].shard_id);
            }
            lemma_labels_kept(shards, i, shard_after_record(shards[i], a, producer, now));
        }
        assert forall|k: int|
            0 <= k < rest.len() && index_of(names, #[trigger] rest[k]) < start.len() implies {
            let j = index_of(names, rest[k]);
            next[j] == start[j] && record_fits(start[j], a.target_entity, a.value_diverted)
        } by {
            let j = index_of(names, rest[k]);
            assert(rest[k] == labels[k + 1]);
            lemma_index_of_range(names, rest[k]);
            assert(names[j] == labels[k + 1]);
            assert(labels[0] != labels[k + 1]);
        }
        lemma_distinct_route_fits(start, next, rest, a, producer, now);
    }
}

/// The labels of the five default shards differ from one another.
proof fn lemma_default_labels_differ()
    ensures
        "progressive-left"@ != "conservative-right"@,
        "progressive-left"@ != "centrist-moderate"@,
        "progressive-left"@ != "traditional-left"@,
        "progressive-left"@ != "libertarian-right"@,
        "conservative-right"@ != "centrist-moderate"@,
        "conservative-right"@ != "traditional-left"@,
        "conservative-right"@ != "libertarian-right"@,
        "centrist-moderate"@ != "traditional-left"@,
        "centrist-moderate"@ != "libertarian-right"@,
        "traditional-left"@ != "libertarian-right"@,
{
    reveal_strlit("progressive-left");
    reveal_strlit("conservative-right");
    reveal_strlit("centrist-moderate");
    reveal_strlit("traditional-left");
    reveal_strlit("libertarian-right");
    assert("progressive-left"@.len() == 16);
    assert("conservative-right"@.len() == 18);
    assert("centrist-moderate"@.len() == 17);
    assert("traditional-left"@.len() == 16);
    assert("libertarian-right"@.len() == 17);
    assert("progressive-left"@[0] != "traditional-left"@[0]);
    assert("centrist-moderate"@[0] != "libertarian-right"@[0]);
}

/// Registering a shard whose label no shard carries adds it at the end.
pub proof fn lemma_register_fresh(shards: Seq<StanceShardView>, shard: StanceShardView)
    requires
        forall|k: int| 0 <= k < shards.len() ==> shards[k].shard_id != shard.shard_id,
    ensures
        shards_with(shards, shard) == shards.push(shard),
{
    lemma_index_of_found(shard_labels(shards), shard.shard_id, shards.len() as int);
}

impl PolisProtocol {
    /// A coordinator with the five default shards and no routes or users.
    pub fn new() -> (protocol: Self)
        ensures
            protocol@.shards == default_shards(),
            protocol@.user_routes.len() == 0,
            protocol@.firebase_users.len() == 0,
            protocol@.wf(),
    {
        let mut protocol = PolisProtocol {
            shards: Vec::new(),
            user_routes: Vec::new(),
            firebase_users: Vec::new(),
        };
        proof {
            lemma_default_labels_differ();
        }
        assert(protocol@.shards =~= Seq::empty());
        assert(protocol@.wf());
        let ghost before = protocol@.shards;
        let shard = StanceShard::new(
            String::from_str("progressive-left"),
            IdeologyRange {
                economic_min: -100,
                economic_max: -20,
                social_min: 20,
                social_max: 100,
                diplomatic_min: -100,
                diplomatic_max: 100,
            },
        );
        proof {
            lemma_register_fresh(before, shard@);
        }
        protocol.register_shard(shard);
        assert(protocol@.shards.len() == 1);
        let ghost before = protocol@.shards;
        let shard = StanceShard::new(
            String::from_str("conservative-right"),
            IdeologyRange {
                economic_min: 20,
                economic_max: 100,
                social_min: -100,
                social_max: -20,
                diplomatic_min: -100,
                diplomatic_max: 100,
            },
        );
        proof {
            lemma_register_fresh(before, shard@);
        }
        protocol.register_shard(shard);
        assert(protocol@.shards.len() == 2);
        let ghost before = protocol@.shards;
        let shard = StanceShard::new(
            String::from_str("centrist-moderate"),
            IdeologyRange {
                economic_min: -40,
                economic_max: 40,
                social_min: -40,
                social_max: 40,
                diplomatic_min: -100,
                diplomatic_max: 100,
            },
        );
        proof {
            lemma_register_fresh(before, shard@);
        }
        protocol.register_shard(shard);
        assert(protocol@.shards.len() == 3);
        let ghost before = protocol@.shards;
        let shard = StanceShard::new(
            String::from_str("traditional-left"),
            IdeologyRange {
                economic_min: -100,
                economic_max: -20,
                social_min: -100,
                social_max: 20,
                diplomatic_min: -100,
                diplomatic_max: 100,
            },
        );
        proof {
            lemma_register_fresh(before, shard@);
        }
        protocol.register_shard(shard);
        assert(protocol@.shards.len() == 4);
        let ghost before = protocol@.shards;
        let shard = StanceShard::new(
            String::from_str("libertarian-right"),
            IdeologyRange {
                economic_min: 20,
                economic_max: 100,
                social_min: 20,
                social_max: 100,
                diplomatic_min: -100,
                diplomatic_max: 100,
            },
        );
        proof {
            lemma_register_fresh(before, shard@);
        }
        protocol.register_shard(shard);
        assert(protocol@.shards.len() == 5);
        assert(protocol@.shards =~= default_shards());
        protocol
    }

    /// The position of the shard with the given label, or the number of
    /// shards where there is none.
    pub fn find_shard(&self, shard_id: &str) -> (i: usize)
        ensures
            i == self@.shard_index(shard_id@),
            i <= self.shards@.len(),
    {
        let mut i: usize = 0;
        while i < self.shards.len()
            invariant
                i <= self.shards.len(),
                forall|k: int| 0 <= k < i ==> shard_labels(self@.shards)[k] != shard_id@,
            decreases self.shards.len() - i,
        {
            if text_eq(self.shards[i].shard_id.as_str(), shard_id) {
                proof {
                    lemma_index_of_found(shard_labels(self@.shards), shard_id@, i as int);
                }
                return i;
            }
            i += 1;
        }
        proof {
            lemma_index_of_found(shard_labels(self@.shards), shard_id@, i as int);
        }
        i
    }

    /// Registers a shard under its label. A shard that carried the label
    /// before is replaced.
    pub fn register_shard(&mut self, shard: StanceShard)
        ensures
            final(self)@ == (PolisProtocolView {
                shards: shards_with(old(self)@.shards, shard@),
                ..old(self)@
            }),
            old(self)@.wf() ==> final(self)@.wf(),
    {
        let i = self.find_shard(shard.shard_id.as_str());
        if i < self.shards.len() {
            self.shards[i] = shard;
        } else {
            self.shards.push(shard);
        }
        proof {
            assert(final(self)@.shards =~= shards_with(old(self)@.shards, shard@));
            if old(self)@.wf() {
                lemma_shards_with_distinct(old(self)@.shards, shard@);
            }
        }
    }

    /// The labels of the shards whose region holds the point, in shard order.
    /// A point outside every region gives an empty list.
    pub fn route_user(&self, ideology_vector: &[i32; 3]) -> (labels: Vec<String>)
        ensures
            text_views(labels@) == matching_labels(self@.shards, ideology_vector@),
    {
        let mut labels: Vec<String> = Vec::new();
        let mut i: usize = 0;
        while i < self.shards.len()
            invariant
                i <= self.shards.len(),
                text_views(labels@) == matching_labels(
                    self@.shards.take(i as int),
                    ideology_vector@,
                ),
            decreases self.shards.len() - i,
        {
            assert(self@.shards.take(i + 1).drop_last() =~= self@.shards.take(i as int));
            if self.shards[i].ideology_range.contains(ideology_vector) {
                labels.push(self.shards[i].shard_id.clone());
                assert(text_views(labels@) =~= matching_labels(
                    self@.shards.take(i as int),
                    ideology_vector@,
                ).push(self@.shards[i as int].shard_id));
            }
            i += 1;
        }
        assert(self@.shards.take(self@.shards.len() as int) =~= self@.shards);
        labels
    }

    /// Hands an action to the shard with the given label, which puts it into
    /// its pending pool if the proof token is accepted.
    pub fn submit_action(&mut self, shard_id: &str, action: ImpactAction) -> (result: Result<
        (),
        ProtocolError,
    >)
        ensures
            match result {
                Ok(_) => old(self)@.has_shard(shard_id@) && proof_token_valid(action@.zk_proof)
                    && final(self)@ == old(self)@.with_shard(
                    old(self)@.shard_index(shard_id@),
                    shard_with_pending(
                        old(self)@.shards[old(self)@.shard_index(shard_id@)],
                        action@,
                    ),
                ),
                Err(e) => *final(self) == *old(self) && if old(self)@.has_shard(shard_id@) {
                    e == ProtocolError::InvalidProof && !proof_token_valid(action@.zk_proof)
                } else {
                    e == ProtocolError::ShardNotFound
                },
            },
            old(self)@.wf() ==> final(self)@.wf(),
    {
        let i = self.find_shard(shard_id);
        if i == self.shards.len() {
            return Err(ProtocolError::ShardNotFound);
        }
        if !action.verify_zk_proof() {
            return Err(ProtocolError::InvalidProof);
        }
        let result = self.shards[i].add_pending_action(action);
        assert(final(self)@.shards =~= old(self)@.shards.update(
            i as int,
            shard_with_pending(old(self)@.shards[i as int], action@),
        ));
        proof {
            lemma_labels_kept(
                old(self)@.shards,
                i as int,
                shard_with_pending(old(self)@.shards[i as int], action@),
            );
        }
        result
    }
    /// The position of the user with the given provider identifier, or the
    /// number of users where there is none.
    pub fn find_user(&self, firebase_uid: &str) -> (i: usize)
        ensures
            i == self@.user_index(firebase_uid@),
            i <= self.firebase_users@.len(),
    {
        let mut i: usize = 0;
        while i < self.firebase_users.len()
            invariant
                i <= self.firebase_users.len(),
                forall|k: int| 0 <= k < i ==> user_keys(self@.firebase_users)[k] != firebase_uid@,
            decreases self.firebase_users.len() - i,
        {
            if text_eq(self.firebase_users[i].firebase_uid.as_str(), firebase_uid) {
                proof {
                    lemma_index_of_found(user_keys(self@.firebase_users), firebase_uid@, i as int);
                }
                return i;
            }
            i += 1;
        }
        proof {
            lemma_index_of_found(user_keys(self@.firebase_users), firebase_uid@, i as int);
        }
        i
    }

    /// The position of the routing entry of the given identity, or the
    /// number of entries where there is none.
    pub fn find_route(&self, user_did: &str) -> (i: usize)
        ensures
            i == self@.route_index(user_did@),
            i <= self.user_routes@.len(),
    {
        let mut i: usize = 0;
        while i < self.user_routes.len()
            invariant
                i <= self.user_routes.len(),
                forall|k: int| 0 <= k < i ==> route_keys(self@.user_routes)[k] != user_did@,
            decreases self.user_routes.len() - i,
        {
            if text_eq(self.user_routes[i].user_did.as_str(), user_did) {
                proof {
                    lemma_index_of_found(route_keys(self@.user_routes), user_did@, i as int);
                }
                return i;
            }
            i += 1;
        }
        proof {
            lemma_index_of_found(route_keys(self@.user_routes), user_did@, i as int);
        }
        i
    }

    /// Records a heartbeat of one member, at time `now`, in each of the named
    /// shards in turn.
    pub fn mark_member_at(&mut self, labels: &Vec<String>, node_id: &str, is_online: bool, now: i64)
        ensures
            final(self)@ == (PolisProtocolView {
                shards: shards_with_member(
                    old(self)@.shards,
                    text_views(labels@),
                    node_id@,
                    is_online,
                    now,
                ),
                ..old(self)@
            }),
            old(self)@.wf() ==> final(self)@.wf(),
    {
        let ghost names = text_views(labels@);
        let ghost goal = shards_with_member(old(self)@.shards, names, node_id@, is_online, now);
        proof {
            lemma_members_keep_labels(old(self)@.shards, names, node_id@, is_online, now);
        }
        let mut k: usize = 0;
        assert(names.skip(0) =~= names);
        while k < labels.len()
            invariant
                k <= labels.len(),
                names == text_views(labels@),
                self@.user_routes == old(self)@.user_routes,
                self@.firebase_users == old(self)@.firebase_users,
                shards_with_member(self@.shards, names.skip(k as int), node_id@, is_online, now)
                    == goal,
            decreases labels.len() - k,
        {
            let ghost before = self@.shards;
            assert(names.skip(k as int).drop_first() =~= names.skip(k + 1));
            assert(names.skip(k as int)[0] == labels@[k as int]@);
            let i = self.find_shard(labels[k].as_str());
            if i < self.shards.len() {
                self.shards[i].update_node_status_at(String::from_str(node_id), is_online, now);
                assert(self@.shards =~= before.update(
                    i as int,
                    shard_with_member(before[i as int], node_id@, is_online, now),
                ));
            }
            k += 1;
        }
    }

    /// Registers a user at time `now`. The user is marked online in every
    /// shard whose region holds the user's point; the routing table then
    /// names exactly those shards, which may be none. Returns the identity
    /// under which the user acts.
    pub fn register_firebase_user_at(
        &mut self,
        firebase_uid: String,
        display_name: String,
        coordinates: (i32, i32, i32),
        now: i64,
    ) -> (result: Result<String, ProtocolError>)
        ensures
            result is Ok,
            result->Ok_0@ == polis_did_of(firebase_uid@),
            final(self)@ == registered(old(self)@, firebase_uid@, display_name@, coordinates, now),
            old(self)@.wf() ==> final(self)@.wf(),
    {
        let polis_did = text_join("did:polis:firebase:", firebase_uid.as_str());
        let ideology_vector = [coordinates.0, coordinates.1, coordinates.2];
        assert(ideology_vector@ =~= point_of(coordinates));
        let shard_ids = self.route_user(&ideology_vector);
        self.mark_member_at(&shard_ids, polis_did.as_str(), true, now);
        let user = FirebaseUserInfo {
            firebase_uid: firebase_uid.clone(),
            polis_did: polis_did.clone(),
            display_name,
            coordinates,
            is_online: true,
            last_activity: now,
            total_actions: 0,
        };
        let ghost user_view = user@;
        let u = self.find_user(firebase_uid.as_str());
        if u < self.firebase_users.len() {
            self.firebase_users[u] = user;
        } else {
            self.firebase_users.push(user);
        }
        assert(self@.firebase_users =~= users_with(old(self)@.firebase_users, user_view));
        let route = UserRoute { user_did: polis_did.clone(), shard_ids };
        let ghost route_view = route@;
        let r = self.find_route(polis_did.as_str());
        if r < self.user_routes.len() {
            self.user_routes[r] = route;
        } else {
            self.user_routes.push(route);
        }
        assert(self@.user_routes =~= routes_with(old(self)@.user_routes, route_view));
        proof {
            if old(self)@.wf() {
                lemma_members_keep_labels(
                    old(self)@.shards,
                    route_view.shard_ids,
                    polis_did@,
                    true,
                    now,
                );
                lemma_users_with_distinct(old(self)@.firebase_users, user_view);
                lemma_routes_with_distinct(old(self)@.user_routes, route_view);
            }
        }
        Ok(polis_did)
    }

    /// Registers a user at the current time.
    pub fn register_firebase_user(
        &mut self,
        firebase_uid: String,
        display_name: String,
        coordinates: (i32, i32, i32),
    ) -> (result: Result<String, ProtocolError>)
        ensures
            result is Ok,
            result->Ok_0@ == polis_did_of(firebase_uid@),
            exists|now: i64|
                0 <= now && final(self)@ == #[trigger] registered(
                    old(self)@,
                    firebase_uid@,
                    display_name@,
                    coordinates,
                    now,
                ),
            old(self)@.wf() ==> final(self)@.wf(),
    {
        self.register_firebase_user_at(firebase_uid, display_name, coordinates, unix_now())
    }

    /// Records a user's heartbeat at time `now` in the user's entry and in
    /// every shard of the user's routing entry. An unknown user is refused.
    pub fn update_user_activity_at(&mut self, firebase_uid: &str, is_online: bool, now: i64) -> (result:
        Result<(), ProtocolError>)
        ensures
            match result {
                Ok(_) => old(self)@.has_user(firebase_uid@) && final(self)@ == activity_updated(
                    old(self)@,
                    firebase_uid@,
                    is_online,
                    now,
                ),
                Err(e) => e == ProtocolError::IdentityNotFound && !old(self)@.has_user(
                    firebase_uid@,
                ) && *final(self) == *old(self),
            },
            old(self)@.wf() ==> final(self)@.wf(),
    {
        let u = self.find_user(firebase_uid);
        if u == self.firebase_users.len() {
            return Err(ProtocolError::IdentityNotFound);
        }
        self.firebase_users[u].is_online = is_online;
        self.firebase_users[u].last_activity = now;
        assert(self@.firebase_users =~= activity_updated(
            old(self)@,
            firebase_uid@,
            is_online,
            now,
        ).firebase_users);
        assert(user_keys(self@.firebase_users) =~= user_keys(old(self)@.firebase_users));
        let polis_did = self.firebase_users[u].polis_did.clone();
        let r = self.find_route(polis_did.as_str());
        let shard_ids = if r < self.user_routes.len() {
            clone_texts(&self.user_routes[r].shard_ids)
        } else {
            Vec::new()
        };
        assert(text_views(shard_ids@) =~= old(self)@.route_of(polis_did@));
        self.mark_member_at(&shard_ids, polis_did.as_str(), is_online, now);
        proof {
            lemma_members_keep_labels(
                old(self)@.shards,
                text_views(shard_ids@),
                polis_did@,
                is_online,
                now,
            );
        }
        Ok(())
    }

    /// Records a user's heartbeat at the current time.
    pub fn update_user_activity(&mut self, firebase_uid: &str, is_online: bool) -> (result: Result<
        (),
        ProtocolError,
    >)
        ensures
            match result {
                Ok(_) => old(self)@.has_user(firebase_uid@) && exists|now: i64|
                    0 <= now && final(self)@ == #[trigger] activity_updated(
                        old(self)@,
                        firebase_uid@,
                        is_online,
                        now,
                    ),
                Err(e) => e == ProtocolError::IdentityNotFound && !old(self)@.has_user(
                    firebase_uid@,
                ) && *final(self) == *old(self),
            },
            old(self)@.wf() ==> final(self)@.wf(),
    {
        self.update_user_activity_at(firebase_uid, is_online, unix_now())
    }
    /// Records an action at time `now` in each of the named shards in turn,
    /// with `producer` as the builder of the blocks. The first refusal ends
    /// the sequence.
    pub fn record_in_shards_at(
        &mut self,
        labels: &Vec<String>,
        action: &ImpactAction,
        producer: &str,
        now: i64,
    ) -> (result: Result<(), ProtocolError>)
        requires
            shards_record_fit(old(self)@.shards, text_views(labels@), action@, producer@, now),
        ensures
            result == shards_record_outcome(
                old(self)@.shards,
                text_views(labels@),
                action@,
                producer@,
                now,
            ),
            final(self)@ == (PolisProtocolView {
                shards: shards_after_record(
                    old(self)@.shards,
                    text_views(labels@),
                    action@,
                    producer@,
                    now,
                ),
                ..old(self)@
            }),
            old(self)@.wf() ==> final(self)@.wf(),
    {
        let ghost names = text_views(labels@);
        let ghost goal = shards_after_record(old(self)@.shards, names, action@, producer@, now);
        proof {
            lemma_records_keep_labels(old(self)@.shards, names, action@, producer@, now);
        }
        let ghost outcome = shards_record_outcome(
            old(self)@.shards,
            names,
            action@,
            producer@,
            now,
        );
        let mut k: usize = 0;
        assert(names.skip(0) =~= names);
        while k < labels.len()
            invariant
                k <= labels.len(),
                names == text_views(labels@),
                self@.user_routes == old(self)@.user_routes,
                self@.firebase_users == old(self)@.firebase_users,
                shards_record_fit(self@.shards, names.skip(k as int), action@, producer@, now),
                shards_after_record(self@.shards, names.skip(k as int), action@, producer@, now)
                    == goal,
                shards_record_outcome(self@.shards, names.skip(k as int), action@, producer@, now)
                    == outcome,
                goal == shards_after_record(old(self)@.shards, names, action@, producer@, now),
                shard_labels(goal) == shard_labels(old(self)@.shards),
                outcome == shards_record_outcome(
                    old(self)@.shards,
                    names,
                    action@,
                    producer@,
                    now,
                ),
            decreases labels.len() - k,
        {
            let ghost before = self@.shards;
            assert(names.skip(k as int).drop_first() =~= names.skip(k + 1));
            assert(names.skip(k as int)[0] == labels@[k as int]@);
            let i = self.find_shard(labels[k].as_str());
            if i < self.shards.len() {
                let done = self.shards[i].record_action_at(
                    action.clone(),
                    String::from_str(producer),
                    now,
                );
                assert(self@.shards =~= before.update(
                    i as int,
                    shard_after_record(before[i as int], action@, producer@, now),
                ));
                if let Err(e) = done {
                    return Err(e);
                }
            }
            k += 1;
        }
        Ok(())
    }

    /// Records a user's action at time `now` under the identifier
    /// `action_id`. The action goes to every shard of the user's routing
    /// entry in turn: the shard brings the campaign of the target up to date,
    /// creating it if need be, takes the action into its pool and seals the
    /// pool at once into a block of its own, which it appends to its chain.
    /// If a shard's block fails the integrity check, the action waits in that
    /// shard's pool and the next shard is served all the same. A user without
    /// shards is served without any shard being touched. Only a user who is
    /// not registered, or for whose identity the routing table has no entry,
    /// is refused.
    pub fn record_user_action_with(
        &mut self,
        firebase_uid: &str,
        action_type: ActionType,
        target: String,
        value_cents: u64,
        now: i64,
        action_id: String,
    ) -> (result: Result<(), ProtocolError>)
        requires
            old(self)@.record_fits(
                firebase_uid@,
                action_type,
                target@,
                value_cents,
                now,
                action_id@,
            ),
        ensures
            result == old(self)@.record_outcome(firebase_uid@),
            result is Ok <==> old(self)@.knows(firebase_uid@),
            final(self)@ == old(self)@.after_record(
                firebase_uid@,
                action_type,
                target@,
                value_cents,
                now,
                action_id@,
            ),
            !old(self)@.knows(firebase_uid@) ==> *final(self) == *old(self),
            old(self)@.wf() ==> final(self)@.wf(),
    {
        let u = self.find_user(firebase_uid);
        if u == self.firebase_users.len() {
            return Err(ProtocolError::IdentityNotFound);
        }
        let polis_did = self.firebase_users[u].polis_did.clone();
        let r = self.find_route(polis_did.as_str());
        if r == self.user_routes.len() {
            return Err(ProtocolError::IdentityNotFound);
        }
        let action = ImpactAction {
            user_did: polis_did.clone(),
            action_type,
            target_entity: target,
            value_diverted: value_cents,
            zk_proof: text_join("firebase_verified_", firebase_uid),
            timestamp: now,
            action_id,
        };
        proof {
            lemma_index_of_range(user_keys(self@.firebase_users), firebase_uid@);
            assert(user_keys(self@.firebase_users)[u as int] == firebase_uid@);
        }
        assert(action@ == user_action(
            old(self)@.firebase_users[u as int],
            action_type,
            target@,
            value_cents,
            now,
            action_id@,
        ));
        let shard_ids = clone_texts(&self.user_routes[r].shard_ids);
        assert(text_views(shard_ids@) =~= old(self)@.route_of(polis_did@));
        proof {
            lemma_user_token_valid(firebase_uid@);
            lemma_valid_token_is_taken(
                old(self)@.shards,
                text_views(shard_ids@),
                action@,
                polis_did@,
                now,
            );
        }
        let done = self.record_in_shards_at(&shard_ids, &action, polis_did.as_str(), now);
        let count = self.firebase_users[u].total_actions + 1;
        self.firebase_users[u].total_actions = count;
        assert(user_keys(self@.firebase_users) =~= user_keys(old(self)@.firebase_users));
        assert(self@.firebase_users =~= old(self)@.after_record(
            firebase_uid@,
            action_type,
            target@,
            value_cents,
            now,
            action_id@,
        ).firebase_users);
        assert(done is Ok);
        Ok(())
    }

    /// Records a user's action at the current time under a fresh identifier.
    pub fn record_user_action(
        &mut self,
        firebase_uid: &str,
        action_type: ActionType,
        target: String,
        value_cents: u64,
    ) -> (result: Result<(), ProtocolError>)
        requires
            forall|now: i64, action_id: Seq<char>| #[trigger]
                old(self)@.record_fits(
                    firebase_uid@,
                    action_type,
                    target@,
                    value_cents,
                    now,
                    action_id,
                ),
        ensures
            result == old(self)@.record_outcome(firebase_uid@),
            result is Ok <==> old(self)@.knows(firebase_uid@),
            exists|now: i64, action_id: Seq<char>|
                0 <= now && final(self)@ == #[trigger] old(self)@.after_record(
                    firebase_uid@,
                    action_type,
                    target@,
                    value_cents,
                    now,
                    action_id,
                ),
            !old(self)@.knows(firebase_uid@) ==> *final(self) == *old(self),
            old(self)@.wf() ==> final(self)@.wf(),
    {
        let now = unix_now();
        let action_id = fresh_action_id();
        self.record_user_action_with(firebase_uid, action_type, target, value_cents, now, action_id)
    }
    /// Records a user's action as `record_user_action_with` does, for every
    /// coordinator and every action: where the test `can_record_user_action`
    /// fails nothing is done, and the answer is `None`.
    pub fn try_record_user_action_with(
        &mut self,
        firebase_uid: &str,
        action_type: ActionType,
        target: String,
        value_cents: u64,
        now: i64,
        action_id: String,
    ) -> (result: Option<Result<(), ProtocolError>>)
        ensures
            result is Some <==> old(self)@.can_record(firebase_uid@, target@, value_cents),
            result is Some ==> result->0 == old(self)@.record_outcome(firebase_uid@),
            result is Some ==> final(self)@ == old(self)@.after_record(
                firebase_uid@,
                action_type,
                target@,
                value_cents,
                now,
                action_id@,
            ),
            result is None ==> *final(self) == *old(self),
            old(self)@.wf() ==> final(self)@.wf(),
    {
        if !self.can_record_user_action(firebase_uid, target.as_str(), value_cents) {
            return None;
        }
        Some(
            self.record_user_action_with(
                firebase_uid,
                action_type,
                target,
                value_cents,
                now,
                action_id,
            ),
        )
    }

    /// Records a user's action as `record_user_action` does, for every
    /// coordinator and every action: where the test `can_record_user_action`
    /// fails nothing is done, and the answer is `None`.
    pub fn try_record_user_action(
        &mut self,
        firebase_uid: &str,
        action_type: ActionType,
        target: String,
        value_cents: u64,
    ) -> (result: Option<Result<(), ProtocolError>>)
        ensures
            result is Some <==> old(self)@.can_record(firebase_uid@, target@, value_cents),
            result is Some ==> result->0 == old(self)@.record_outcome(firebase_uid@),
            result is Some ==> exists|now: i64, action_id: Seq<char>|
                0 <= now && final(self)@ == #[trigger] old(self)@.after_record(
                    firebase_uid@,
                    action_type,
                    target@,
                    value_cents,
                    now,
                    action_id,
                ),
            result is None ==> *final(self) == *old(self),
            old(self)@.wf() ==> final(self)@.wf(),
    {
        let now = unix_now();
        let action_id = fresh_action_id();
        self.try_record_user_action_with(
            firebase_uid,
            action_type,
            target,
            value_cents,
            now,
            action_id,
        )
    }

    /// A test before `record_user_action`: whether the numbers fit their
    /// fields wherever the recording comes to. An unknown identity always
    /// passes, since nothing is counted for one. A user whose routing entry
    /// names a shard twice does not pass.
    pub fn can_record_user_action(&self, firebase_uid: &str, target: &str, value_cents: u64) -> (ok:
        bool)
        ensures
            ok == self@.can_record(firebase_uid@, target@, value_cents),
            ok ==> forall|action_type: ActionType, now: i64, action_id: Seq<char>| #[trigger]
                self@.record_fits(firebase_uid@, action_type, target@, value_cents, now, action_id),
    {
        let u = self.find_user(firebase_uid);
        if u == self.firebase_users.len() {
            return true;
        }
        let user = &self.firebase_users[u];
        let ghost who = self@.firebase_users[u as int];
        assert(who == user@);
        let r = self.find_route(user.polis_did.as_str());
        if r == self.user_routes.len() {
            return true;
        }
        if user.total_actions == u64::MAX {
            return false;
        }
        let shard_ids = &self.user_routes[r].shard_ids;
        let ghost labels = text_views(shard_ids@);
        assert(labels == self@.route_of(who.polis_did));
        if !texts_distinct(shard_ids) {
            return false;
        }
        let mut k: usize = 0;
        while k < shard_ids.len()
            invariant
                k <= shard_ids.len(),
                labels == text_views(shard_ids@),
                self@.knows(firebase_uid@),
                who == self@.firebase_users[self@.user_index(firebase_uid@)],
                labels == self@.route_of(who.polis_did),
                forall|n: int|
                    0 <= n < k && self@.has_shard(#[trigger] labels[n]) ==> record_fits(
                        self@.shards[self@.shard_index(labels[n])],
                        target@,
                        value_cents,
                    ),
            decreases shard_ids.len() - k,
        {
            let i = self.find_shard(shard_ids[k].as_str());
            assert(labels[k as int] == shard_ids@[k as int]@);
            if i < self.shards.len() {
                assert(self@.shards[i as int] == self.shards@[i as int]@);
                if !self.shards[i].can_record(target, value_cents) {
                    assert(self@.has_shard(labels[k as int]));
                    return false;
                }
            }
            k += 1;
        }
        proof {
            assert forall|action_type: ActionType, now: i64, action_id: Seq<char>| #[trigger]
                self@.record_fits(
                    firebase_uid@,
                    action_type,
                    target@,
                    value_cents,
                    now,
                    action_id,
                ) by {
                let a = user_action(who, action_type, target@, value_cents, now, action_id);
                lemma_distinct_route_fits(
                    self@.shards,
                    self@.shards,
                    self@.route_of(who.polis_did),
                    a,
                    who.polis_did,
                    now,
                );
            }
        }
        true
    }
}

} // verus!
