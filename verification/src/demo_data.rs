//! A sample ledger and sample users for demonstrations.

use crate::blockchain::{
    built_block, empty_shard, region, shard_drained, shard_with_block, shard_with_member,
    shard_with_new_campaign, shard_with_pending, IdeologyRange, StanceShard, StanceShardView,
};
use crate::clock::{fresh_action_id, unix_now};
use crate::coordinator::{default_shards, lemma_register_fresh, PolisProtocol};
use crate::hashing::{hex_encode, hex_lower, str_bytes, u64_le_bytes};
use crate::text::{lemma_str_bytes_concat, text_join, text_views};
use crate::types::{
    all_proofs_valid, block_preimage, block_verifies, diverted_sum, proof_token_valid, ActionType,
    ImpactAction, ImpactActionView, PolisBlockView,
};
use vstd::utf8::is_ascii_chars_encode_utf8;
use vstd::bytes::u64_to_le_bytes;
use vstd::prelude::*;
use vstd::string::StringExecFns;

verus! {

/// One step of the hash over an address: thirty-one times the hash so far
/// plus the next byte, cut to 32 bits.
pub open spec fn email_hash_step(hash: u32, byte: u8) -> u32 {
    ((31 * hash + byte) % 0x1_0000_0000) as u32
}

/// The 32-bit hash of an address, taken byte by byte from a start of zero.
pub open spec fn email_hash(bytes: Seq<u8>) -> u32
    decreases bytes.len(),
{
    if bytes.len() == 0 {
        0
    } else {
        email_hash_step(email_hash(bytes.drop_last()), bytes.last())
    }
}

/// The eight bytes of a number, most significant first.
pub open spec fn u64_be_bytes(x: u64) -> Seq<u8> {
    u64_le_bytes(x).reverse()
}

/// The identity of the sample user with the given address: the prefix and
/// the address's hash in sixteen hexadecimal digits.
pub open spec fn demo_did(email: Seq<char>) -> Seq<char> {
    "did:polis:"@ + hex_lower(u64_be_bytes(email_hash(str_bytes(email)) as u64))
}

/// Shifting left by five, taking the number itself away and adding a byte,
/// each cut to 32 bits, is one step of the hash.
proof fn lemma_hash_step(hash: u32, byte: u8)
    ensures
        hash.wrapping_shl(5).wrapping_sub(hash).wrapping_add(byte as u32) == email_hash_step(
            hash,
            byte,
        ),
{
    let shifted = hash << 5u32;
    assert(shifted == (hash * 32) % 0x1_0000_0000) by (bit_vector)
        requires
            shifted == hash << 5u32,
    ;
    assert(5u32 % 32 == 5);
}

/// The bytes of a byte string in reverse order.
fn reversed(bytes: &Vec<u8>) -> (out: Vec<u8>)
    ensures
        out@ == bytes@.reverse(),
{
    let n = bytes.len();
    let mut out: Vec<u8> = Vec::new();
    let mut i: usize = 0;
    while i < n
        invariant
            n == bytes.len(),
            i <= n,
            out@.len() == i,
            forall|k: int| 0 <= k < i ==> out@[k] == bytes@[n - 1 - k],
        decreases n - i,
    {
        out.push(bytes[n - 1 - i]);
        i += 1;
    }
    assert(out@ =~= bytes@.reverse());
    out
}

/// A sample user for the given address: the user's identity, and the
/// numbers of campaigns (3), of days in a row (12) and of cents moved
/// (42000) that the sample shows.
pub fn create_demo_user(user_email: &str) -> (user: (String, u64, u64, u64))
    ensures
        user.0@ == demo_did(user_email@),
        user.1 == 3,
        user.2 == 12,
        user.3 == 42000,
{
    let bytes = user_email.as_bytes();
    let mut hash: u32 = 0;
    let mut i: usize = 0;
    while i < bytes.len()
        invariant
            i <= bytes.len(),
            hash == email_hash(bytes@.take(i as int)),
        decreases bytes.len() - i,
    {
        proof {
            lemma_hash_step(hash, bytes@[i as int]);
            assert(bytes@.take(i + 1).drop_last() =~= bytes@.take(i as int));
        }
        hash = hash.wrapping_shl(5).wrapping_sub(hash).wrapping_add(bytes[i] as u32);
        i += 1;
    }
    assert(bytes@.take(bytes@.len() as int) =~= bytes@);
    let digits = hex_encode(reversed(&u64_to_le_bytes(hash as u64)).as_slice());
    let user_did = text_join("did:polis:", digits.as_str());
    (user_did, 3, 12, 42000)
}

/// The decimal digit of a number below ten.
pub open spec fn digit_char(d: nat) -> char {
    seq!['0', '1', '2', '3', '4', '5', '6', '7', '8', '9'][d as int]
}

/// A number in decimal digits, without leading zeros.
pub open spec fn decimal_digits(n: nat) -> Seq<char>
    decreases n,
{
    if n < 10 {
        seq![digit_char(n)]
    } else {
        decimal_digits(n / 10).push(digit_char(n % 10))
    }
}

/// The text of one decimal digit.
fn digit_text(d: u64) -> (text: &'static str)
    requires
        d < 10,
    ensures
        text@ == seq![digit_char(d as nat)],
{
    proof {
        reveal_strlit("0");
        reveal_strlit("1");
        reveal_strlit("2");
        reveal_strlit("3");
        reveal_strlit("4");
        reveal_strlit("5");
        reveal_strlit("6");
        reveal_strlit("7");
        reveal_strlit("8");
        reveal_strlit("9");
    }
    let text = if d == 0 {
        "0"
    } else if d == 1 {
        "1"
    } else if d == 2 {
        "2"
    } else if d == 3 {
        "3"
    } else if d == 4 {
        "4"
    } else if d == 5 {
        "5"
    } else if d == 6 {
        "6"
    } else if d == 7 {
        "7"
    } else if d == 8 {
        "8"
    } else {
        "9"
    };
    assert(text@ =~= seq![digit_char(d as nat)]);
    text
}

/// A number in decimal digits.
pub fn decimal_text(n: u64) -> (text: String)
    ensures
        text@ == decimal_digits(n as nat),
    decreases n,
{
    if n < 10 {
        String::from_str(digit_text(n))
    } else {
        let mut text = decimal_text(n / 10);
        text.append(digit_text(n % 10));
        assert(text@ =~= decimal_digits((n / 10) as nat).push(digit_char((n % 10) as nat)));
        text
    }
}

/// How the sample members of one shard act.
pub struct DemoPlan {
    /// The number of the first member.
    pub first: u64,
    /// The kind of every action.
    pub kind: ActionType,
    /// The target of every action.
    pub target: Seq<char>,
    /// The value of an action is `base` plus the member's number times `step`.
    pub base: u64,
    pub step: u64,
    /// What every proof token ends with.
    pub tail: Seq<char>,
    /// The time of an action lies the member's number times `spacing`
    /// seconds back.
    pub spacing: i64,
}

/// The identity of the sample member with the given number.
pub open spec fn demo_member(i: nat) -> Seq<char> {
    "did:polis:demo_user_"@ + decimal_digits(i)
}

/// The proof token of the sample member with the given number.
pub open spec fn demo_token(i: nat, tail: Seq<char>) -> Seq<char> {
    "zkproof_demo_"@ + decimal_digits(i) + "_"@ + tail
}

/// The action of the sample member with the given number.
pub open spec fn demo_action(plan: DemoPlan, i: u64, now: i64, id: Seq<char>) -> ImpactActionView {
    ImpactActionView {
        user_did: demo_member(i as nat),
        action_type: plan.kind,
        target_entity: plan.target,
        value_diverted: (plan.base + i * plan.step) as u64,
        zk_proof: demo_token(i as nat, plan.tail),
        timestamp: (now - i * plan.spacing) as i64,
        action_id: id,
    }
}

/// A shard after the first `k` sample members of a plan have joined it and
/// handed in their actions, one member after the other.
pub open spec fn demo_joined(
    s: StanceShardView,
    plan: DemoPlan,
    k: nat,
    now: i64,
    ids: Seq<Seq<char>>,
) -> StanceShardView
    decreases k,
{
    if k == 0 {
        s
    } else {
        let before = demo_joined(s, plan, (k - 1) as nat, now, ids);
        let i = (plan.first + k - 1) as u64;
        shard_with_pending(
            shard_with_member(before, demo_member(i as nat), true, now),
            demo_action(plan, i, now, ids[k - 1]),
        )
    }
}

/// A shard after its whole pending pool was sealed at time `now` into a
/// block that joined the chain.
pub open spec fn demo_sealed(s: StanceShardView, validator: Seq<char>, now: i64) -> StanceShardView {
    shard_with_block(shard_drained(s), built_block(s, validator, now))
}

/// Whether a plan for `count` members can be carried out at time `now`: the
/// plan is of modest size, the time of the earliest action is not below the
/// least time there is, and the tail alone makes a proof token long enough.
spec fn demo_plan_fits(plan: DemoPlan, count: u64, now: i64) -> bool {
    &&& plan.first + count <= 1000
    &&& plan.step <= 1_000_000
    &&& plan.base <= 1_000_000
    &&& 0 <= plan.spacing <= 1_000_000
    &&& count > 0 ==> now - (plan.first + count - 1) * plan.spacing >= i64::MIN
    &&& str_bytes(plan.tail).len() >= 32
}

/// A sample member's proof token is accepted when the plan's tail alone has
/// 32 bytes.
pub proof fn lemma_demo_token_valid(i: nat, tail: Seq<char>)
    requires
        str_bytes(tail).len() >= 32,
    ensures
        proof_token_valid(demo_token(i, tail)),
{
    let head = "zkproof_demo_"@ + decimal_digits(i) + "_"@;
    lemma_str_bytes_concat(head, tail);
    assert(demo_token(i, tail) =~= head + tail);
    assert(str_bytes(demo_token(i, tail)).len() >= 32);
    assert(tail.len() > 0) by {
        if tail.len() == 0 {
            assert(str_bytes(tail) =~= Seq::<u8>::empty());
        }
    }
}

/// The sample members leave the chain as it was, and every action that they
/// add to the pool carries an accepted proof token.
pub proof fn lemma_demo_joined_pool(
    s: StanceShardView,
    plan: DemoPlan,
    k: nat,
    now: i64,
    ids: Seq<Seq<char>>,
)
    requires
        all_proofs_valid(s.pending_actions),
        str_bytes(plan.tail).len() >= 32,
    ensures
        all_proofs_valid(demo_joined(s, plan, k, now, ids).pending_actions),
        demo_joined(s, plan, k, now, ids).pending_actions.len() == s.pending_actions.len() + k,
        demo_joined(s, plan, k, now, ids).state.blockchain == s.state.blockchain,
        demo_joined(s, plan, k, now, ids).state.total_union_strength
            == s.state.total_union_strength,
        demo_joined(s, plan, k, now, ids).state.total_capital_diverted
            == s.state.total_capital_diverted,
        demo_joined(s, plan, k, now, ids).shard_id == s.shard_id,
        diverted_sum(demo_joined(s, plan, k, now, ids).pending_actions) <= diverted_sum(
            s.pending_actions,
        ) + k * u64::MAX,
    decreases k,
{
    if k > 0 {
        lemma_demo_joined_pool(s, plan, (k - 1) as nat, now, ids);
        assert(demo_joined(s, plan, k, now, ids).pending_actions.drop_last() =~= demo_joined(
            s,
            plan,
            (k - 1) as nat,
            now,
            ids,
        ).pending_actions);
        assert(k * u64::MAX == (k - 1) * u64::MAX + u64::MAX) by (nonlinear_arith);
        let before = demo_joined(s, plan, (k - 1) as nat, now, ids);
        let i = (plan.first + k - 1) as u64;
        let a = demo_action(plan, i, now, ids[k - 1]);
        lemma_demo_token_valid(i as nat, plan.tail);
        let pool = demo_joined(s, plan, k, now, ids).pending_actions;
        assert forall|n: int| 0 <= n < pool.len() implies proof_token_valid(
            #[trigger] pool[n].zk_proof,
        ) by {
            if n < before.pending_actions.len() {
                assert(pool[n] == before.pending_actions[n]);
            } else {
                assert(pool[n] == a);
            }
        }
    }
}

/// Lets `count` sample members, numbered from `first`, join a shard at time
/// `now` and hand in one action each. The member with number `i` moves
/// `base + i * step` cents, `i * spacing` seconds before `now`, and proves
/// it with a token that ends in `tail`.
fn join_demo_users(
    shard: &mut StanceShard,
    first: u64,
    count: u64,
    kind: ActionType,
    target: &str,
    base: u64,
    step: u64,
    tail: &str,
    spacing: i64,
    now: i64,
    ids: &Vec<String>,
)
    requires
        ids@.len() == count,
        demo_plan_fits(
            DemoPlan { first, kind, target: target@, base, step, tail: tail@, spacing },
            count,
            now,
        ),
    ensures
        final(shard)@ == demo_joined(
            old(shard)@,
            DemoPlan { first, kind, target: target@, base, step, tail: tail@, spacing },
            count as nat,
            now,
            text_views(ids@),
        ),
{
    let ghost plan = DemoPlan { first, kind, target: target@, base, step, tail: tail@, spacing };
    let ghost names = text_views(ids@);
    let mut k: u64 = 0;
    while k < count
        invariant
            k <= count,
            ids@.len() == count,
            names == text_views(ids@),
            plan == (DemoPlan { first, kind, target: target@, base, step, tail: tail@, spacing }),
            demo_plan_fits(plan, count, now),
            shard@ == demo_joined(old(shard)@, plan, k as nat, now, names),
        decreases count - k,
    {
        let i = first + k;
        let number = decimal_text(i);
        let user_did = text_join("did:polis:demo_user_", number.as_str());
        shard.update_node_status_at(user_did.clone(), true, now);
        let head = text_join("zkproof_demo_", number.as_str());
        let middle = text_join(head.as_str(), "_");
        assert(i * step <= 1_000_000_000) by (nonlinear_arith)
            requires
                i <= 1000,
                step <= 1_000_000,
        ;
        assert(0 <= i * spacing <= (first + count - 1) * spacing) by (nonlinear_arith)
            requires
                0 <= i <= first + count - 1,
                0 <= spacing,
        ;
        assert(i * spacing <= 1_000_000_000) by (nonlinear_arith)
            requires
                i <= 1000,
                0 <= spacing <= 1_000_000,
        ;
        let action = ImpactAction {
            user_did,
            action_type: kind,
            target_entity: String::from_str(target),
            value_diverted: base + i * step,
            zk_proof: text_join(middle.as_str(), tail),
            timestamp: now - (i as i64) * spacing,
            action_id: ids[k as usize].clone(),
        };
        proof {
            lemma_demo_token_valid(i as nat, tail@);
            assert(names[k as int] == ids@[k as int]@);
        }
        let queued = shard.add_pending_action(action);
        assert(queued is Ok);
        k += 1;
    }
}

/// Seals the whole pending pool of a shard at time `now` into a block built
/// by `validator` and appends the block to the chain.
fn seal_demo_block(shard: &mut StanceShard, validator: &str, now: i64)
    requires
        old(shard)@.pending_actions.len() > 0,
        all_proofs_valid(old(shard)@.pending_actions),
        old(shard)@.state.blockchain.len() == 0,
        old(shard)@.state.total_union_strength == 0,
        old(shard)@.state.total_capital_diverted == 0,
        diverted_sum(old(shard)@.pending_actions) <= u64::MAX,
    ensures
        final(shard)@ == demo_sealed(old(shard)@, validator@, now),
{
    let ghost block_view = built_block(shard@, validator@, now);
    proof {
        assert(shard@.state.blockchain =~= Seq::empty());
        let unsigned = PolisBlockView { hash: Seq::empty(), ..block_view };
        assert(block_preimage(block_view) == block_preimage(unsigned));
        assert(block_verifies(block_view, None));
    }
    match shard.produce_block_at(String::from_str(validator), now) {
        Ok(block) => {
            let appended = shard.add_block(block);
            assert(appended is Ok);
        },
        Err(_) => {},
    }
}

/// The plan of the members of the fair-wages shard.
pub open spec fn fair_wages_plan() -> DemoPlan {
    DemoPlan {
        first: 1,
        kind: ActionType::Boycott,
        target: "MEGA CORP"@,
        base: 5000,
        step: 1000,
        tail: "abc123def456789xyz0123456789abcdef"@,
        spacing: 86400,
    }
}

/// The plan of the members of the green-energy shard.
pub open spec fn green_energy_plan() -> DemoPlan {
    DemoPlan {
        first: 6,
        kind: ActionType::Buycott,
        target: "SUNRISE POWER"@,
        base: 3000,
        step: 500,
        tail: "xyz789abc012def345ghi678jkl901mno"@,
        spacing: 43200,
    }
}

/// The fair-wages shard of the sample: one campaign, five members online,
/// and their five actions sealed in one block.
pub open spec fn fair_wages_shard(now: i64, ids: Seq<Seq<char>>) -> StanceShardView {
    let fresh = shard_with_new_campaign(
        empty_shard("fair-wages-shard"@, region((-100, 0), (50, 100), (0, 100))),
        "fair-wages-initiative"@,
        15000,
        10000,
        now,
    );
    demo_sealed(demo_joined(fresh, fair_wages_plan(), 5, now, ids), "did:polis:validator1"@, now)
}

/// The green-energy shard of the sample: one campaign, five members online,
/// and their five actions sealed in one block.
pub open spec fn green_energy_shard(now: i64, ids: Seq<Seq<char>>) -> StanceShardView {
    let fresh = shard_with_new_campaign(
        empty_shard("green-energy-shard"@, region((-50, 50), (0, 100), (50, 100))),
        "green-energy-support"@,
        10000,
        5000,
        now,
    );
    demo_sealed(
        demo_joined(fresh, green_energy_plan(), 5, now, ids),
        "did:polis:validator2"@,
        now,
    )
}

/// A shard after the sample members with the numbers 1 to `k` have joined.
pub open spec fn demo_members(s: StanceShardView, k: nat, now: i64) -> StanceShardView
    decreases k,
{
    if k == 0 {
        s
    } else {
        shard_with_member(demo_members(s, (k - 1) as nat, now), demo_member(k), true, now)
    }
}

/// The living-wage shard of the sample: one campaign and three members
/// online, with an empty chain.
pub open spec fn living_wage_shard(now: i64) -> StanceShardView {
    let fresh = shard_with_new_campaign(
        empty_shard("living-wage-shard"@, region((-100, -20), (-50, 50), (-50, 50))),
        "living-wage-campaign"@,
        20000,
        15000,
        now,
    );
    demo_members(fresh, 3, now)
}

/// The three shards of the sample. The first five identifiers go to the
/// actions of the fair-wages shard, the other five to those of the
/// green-energy shard.
pub open spec fn demo_shards(now: i64, ids: Seq<Seq<char>>) -> Seq<StanceShardView> {
    seq![
        fair_wages_shard(now, ids.take(5)),
        green_energy_shard(now, ids.skip(5)),
        living_wage_shard(now),
    ]
}

/// The tails of the sample's proof tokens have more than 32 bytes.
proof fn lemma_demo_tails_long()
    ensures
        str_bytes(fair_wages_plan().tail).len() == 34,
        str_bytes(green_energy_plan().tail).len() == 33,
{
    reveal_strlit("abc123def456789xyz0123456789abcdef");
    reveal_strlit("xyz789abc012def345ghi678jkl901mno");
    is_ascii_chars_encode_utf8("abc123def456789xyz0123456789abcdef"@);
    is_ascii_chars_encode_utf8("xyz789abc012def345ghi678jkl901mno"@);
}

/// The labels of the sample's shards differ from one another and from the
/// labels of the default shards.
proof fn lemma_demo_labels_differ()
    ensures
        forall|k: int|
            0 <= k < 5 ==> (#[trigger] default_shards()[k]).shard_id != "fair-wages-shard"@
                && default_shards()[k].shard_id != "green-energy-shard"@
                && default_shards()[k].shard_id != "living-wage-shard"@,
        "fair-wages-shard"@ != "green-energy-shard"@,
        "fair-wages-shard"@ != "living-wage-shard"@,
        "green-energy-shard"@ != "living-wage-shard"@,
{
    reveal_strlit("progressive-left");
    reveal_strlit("conservative-right");
    reveal_strlit("centrist-moderate");
    reveal_strlit("traditional-left");
    reveal_strlit("libertarian-right");
    reveal_strlit("fair-wages-shard");
    reveal_strlit("green-energy-shard");
    reveal_strlit("living-wage-shard");
    let fair = "fair-wages-shard"@;
    let green = "green-energy-shard"@;
    let living = "living-wage-shard"@;
    assert(fair[0] == 'f' && green[0] == 'g' && living[2] == 'v');
    assert("progressive-left"@[0] == 'p');
    assert("conservative-right"@[0] == 'c');
    assert("centrist-moderate"@[0] == 'c');
    assert("traditional-left"@[0] == 't');
    assert("libertarian-right"@[2] == 'b');
    assert("libertarian-right"@[0] == 'l');
    assert(living[0] == 'l');
}

/// Builds the fair-wages shard of the sample.
fn build_fair_wages_shard(now: i64, ids: &Vec<String>) -> (shard: StanceShard)
    requires
        ids@.len() == 5,
        now - 432000 >= i64::MIN,
    ensures
        shard@ == fair_wages_shard(now, text_views(ids@)),
{
    let mut shard = StanceShard::new(
        String::from_str("fair-wages-shard"),
        IdeologyRange {
            economic_min: -100,
            economic_max: 0,
            social_min: 50,
            social_max: 100,
            diplomatic_min: 0,
            diplomatic_max: 100,
        },
    );
    let created = shard.create_campaign_at(
        String::from_str("fair-wages-initiative"),
        15000,
        10000,
        now,
    );
    assert(created is Ok);
    let ghost fresh = shard@;
    proof {
        lemma_demo_tails_long();
        lemma_demo_joined_pool(fresh, fair_wages_plan(), 5, now, text_views(ids@));
    }
    join_demo_users(
        &mut shard,
        1,
        5,
        ActionType::Boycott,
        "MEGA CORP",
        5000,
        1000,
        "abc123def456789xyz0123456789abcdef",
        86400,
        now,
        ids,
    );
    proof {
        lemma_demo_sum_small(fresh, fair_wages_plan(), 5, now, text_views(ids@));
    }
    seal_demo_block(&mut shard, "did:polis:validator1", now);
    shard
}

/// Builds the green-energy shard of the sample.
fn build_green_energy_shard(now: i64, ids: &Vec<String>) -> (shard: StanceShard)
    requires
        ids@.len() == 5,
        now - 432000 >= i64::MIN,
    ensures
        shard@ == green_energy_shard(now, text_views(ids@)),
{
    let mut shard = StanceShard::new(
        String::from_str("green-energy-shard"),
        IdeologyRange {
            economic_min: -50,
            economic_max: 50,
            social_min: 0,
            social_max: 100,
            diplomatic_min: 50,
            diplomatic_max: 100,
        },
    );
    let created = shard.create_campaign_at(
        String::from_str("green-energy-support"),
        10000,
        5000,
        now,
    );
    assert(created is Ok);
    let ghost fresh = shard@;
    proof {
        lemma_demo_tails_long();
        lemma_demo_joined_pool(fresh, green_energy_plan(), 5, now, text_views(ids@));
    }
    join_demo_users(
        &mut shard,
        6,
        5,
        ActionType::Buycott,
        "SUNRISE POWER",
        3000,
        500,
        "xyz789abc012def345ghi678jkl901mno",
        43200,
        now,
        ids,
    );
    proof {
        lemma_demo_sum_small(fresh, green_energy_plan(), 5, now, text_views(ids@));
    }
    seal_demo_block(&mut shard, "did:polis:validator2", now);
    shard
}

/// The values of the sample members' actions add up to little.
proof fn lemma_demo_sum_small(
    s: StanceShardView,
    plan: DemoPlan,
    k: nat,
    now: i64,
    ids: Seq<Seq<char>>,
)
    requires
        s.pending_actions.len() == 0,
        plan.first + k <= 1000,
        plan.step <= 1_000_000,
        plan.base <= 1_000_000,
    ensures
        diverted_sum(demo_joined(s, plan, k, now, ids).pending_actions) <= k * 2_000_000_000,
    decreases k,
{
    if k > 0 {
        lemma_demo_sum_small(s, plan, (k - 1) as nat, now, ids);
        let i = (plan.first + k - 1) as u64;
        assert(i * plan.step <= 1_000_000_000) by (nonlinear_arith)
            requires
                i <= 1000,
                plan.step <= 1_000_000,
        ;
        assert(demo_joined(s, plan, k, now, ids).pending_actions.drop_last() =~= demo_joined(
            s,
            plan,
            (k - 1) as nat,
            now,
            ids,
        ).pending_actions);
        assert(k * 2_000_000_000 == (k - 1) * 2_000_000_000 + 2_000_000_000) by (nonlinear_arith);
    }
}

/// Builds the living-wage shard of the sample.
fn build_living_wage_shard(now: i64) -> (shard: StanceShard)
    ensures
        shard@ == living_wage_shard(now),
{
    let mut shard = StanceShard::new(
        String::from_str("living-wage-shard"),
        IdeologyRange {
            economic_min: -100,
            economic_max: -20,
            social_min: -50,
            social_max: 50,
            diplomatic_min: -50,
            diplomatic_max: 50,
        },
    );
    let created = shard.create_campaign_at(
        String::from_str("living-wage-campaign"),
        20000,
        15000,
        now,
    );
    assert(created is Ok);
    let ghost fresh = shard@;
    let mut k: u64 = 0;
    while k < 3
        invariant
            k <= 3,
            shard@ == demo_members(fresh, k as nat, now),
        decreases 3 - k,
    {
        k += 1;
        let number = decimal_text(k);
        shard.update_node_status_at(text_join("did:polis:demo_user_", number.as_str()), true, now);
    }
    shard
}

/// Builds a coordinator with the five default shards and the three shards of
/// the sample, at time `now`. The ten identifiers are those of the sample's
/// actions.
pub fn initialize_demo_protocol_at(now: i64, ids: &Vec<String>) -> (protocol: PolisProtocol)
    requires
        ids@.len() == 10,
        now - 432000 >= i64::MIN,
    ensures
        protocol@.shards == default_shards() + demo_shards(now, text_views(ids@)),
        protocol@.user_routes.len() == 0,
        protocol@.firebase_users.len() == 0,
        protocol@.wf(),
{
    let mut protocol = PolisProtocol::new();
    let mut first: Vec<String> = Vec::new();
    let mut second: Vec<String> = Vec::new();
    let mut i: usize = 0;
    while i < 5
        invariant
            i <= 5,
            ids@.len() == 10,
            first@.len() == i,
            second@.len() == i,
            forall|k: int| 0 <= k < i ==> first@[k] == ids@[k] && second@[k] == ids@[k + 5],
        decreases 5 - i,
    {
        first.push(ids[i].clone());
        second.push(ids[i + 5].clone());
        i += 1;
    }
    assert(text_views(first@) =~= text_views(ids@).take(5));
    assert(text_views(second@) =~= text_views(ids@).skip(5));
    let fair = build_fair_wages_shard(now, &first);
    let green = build_green_energy_shard(now, &second);
    let living = build_living_wage_shard(now);
    proof {
        lemma_demo_labels_differ();
        lemma_demo_shard_labels(now, text_views(ids@));
        lemma_register_fresh(protocol@.shards, fair@);
    }
    protocol.register_shard(fair);
    proof {
        lemma_register_fresh(protocol@.shards, green@);
    }
    protocol.register_shard(green);
    proof {
        lemma_register_fresh(protocol@.shards, living@);
    }
    protocol.register_shard(living);
    assert(protocol@.shards =~= default_shards() + demo_shards(now, text_views(ids@)));
    protocol
}

/// The shards of the sample carry the labels that they were made with.
proof fn lemma_demo_shard_labels(now: i64, ids: Seq<Seq<char>>)
    ensures
        fair_wages_shard(now, ids.take(5)).shard_id == "fair-wages-shard"@,
        green_energy_shard(now, ids.skip(5)).shard_id == "green-energy-shard"@,
        living_wage_shard(now).shard_id == "living-wage-shard"@,
{
    lemma_demo_tails_long();
    let fair = shard_with_new_campaign(
        empty_shard("fair-wages-shard"@, region((-100, 0), (50, 100), (0, 100))),
        "fair-wages-initiative"@,
        15000,
        10000,
        now,
    );
    lemma_demo_joined_pool(fair, fair_wages_plan(), 5, now, ids.take(5));
    let green = shard_with_new_campaign(
        empty_shard("green-energy-shard"@, region((-50, 50), (0, 100), (50, 100))),
        "green-energy-support"@,
        10000,
        5000,
        now,
    );
    lemma_demo_joined_pool(green, green_energy_plan(), 5, now, ids.skip(5));
    reveal_with_fuel(demo_members, 4);
}

/// Builds a coordinator with the five default shards and the three shards of
/// the sample, at the current time and with fresh identifiers.
pub fn initialize_demo_protocol() -> (protocol: PolisProtocol)
    ensures
        exists|now: i64, ids: Seq<Seq<char>>|
            0 <= now && ids.len() == 10 && protocol@.shards == default_shards()
                + #[trigger] demo_shards(
                now,
                ids,
            ),
        protocol@.user_routes.len() == 0,
        protocol@.firebase_users.len() == 0,
        protocol@.wf(),
{
    let now = unix_now();
    let mut ids: Vec<String> = Vec::new();
    let mut i: usize = 0;
    while i < 10
        invariant
            i <= 10,
            ids@.len() == i,
        decreases 10 - i,
    {
        ids.push(fresh_action_id());
        i += 1;
    }
    let protocol = initialize_demo_protocol_at(now, &ids);
    assert(text_views(ids@).len() == 10);
    protocol
}

} // verus!
