//! The Merkle root over a list of actions.
//!
//! The leaves are the actions' content hashes in list order. Each level pairs
//! up neighbours and hashes the two texts written one after the other. A node
//! that is left without a neighbour moves up one level as it is: it is not
//! doubled and not hashed again.

use crate::hashing::{digest_hex, sha256_hex, str_bytes};
use crate::text::{text_join, text_views};
use crate::types::{action_hash, action_views, ImpactAction, ImpactActionView};
use vstd::prelude::*;
use vstd::string::StringExecFns;

verus! {

/// The root of an empty list: 64 zeros.
pub open spec fn zero_hash() -> Seq<char> {
    "0000000000000000000000000000000000000000000000000000000000000000"@
}

/// The parent of two neighbouring nodes.
pub open spec fn merkle_pair(left: Seq<char>, right: Seq<char>) -> Seq<char> {
    sha256_hex(str_bytes(left + right))
}

/// The level above `hashes`: neighbours are paired, and a last node without
/// a neighbour is carried over unchanged.
pub open spec fn merkle_level(hashes: Seq<Seq<char>>) -> Seq<Seq<char>> {
    Seq::new(
        ((hashes.len() + 1) / 2) as nat,
        |i: int|
            if 2 * i + 1 < hashes.len() {
                merkle_pair(hashes[2 * i], hashes[2 * i + 1])
            } else {
                hashes[2 * i]
            },
    )
}

/// The single node that is left when the levels are folded one after the
/// other; 64 zeros where there is no node at all.
pub open spec fn merkle_fold(hashes: Seq<Seq<char>>) -> Seq<char>
    decreases hashes.len(),
{
    if hashes.len() == 0 {
        zero_hash()
    } else if hashes.len() == 1 {
        hashes[0]
    } else {
        merkle_fold(merkle_level(hashes))
    }
}

/// The content hashes of a list of actions, in order.
pub open spec fn leaf_hashes(actions: Seq<ImpactActionView>) -> Seq<Seq<char>> {
    actions.map_values(|a: ImpactActionView| action_hash(a))
}

/// The Merkle root of a list of actions.
pub open spec fn merkle_root_of(actions: Seq<ImpactActionView>) -> Seq<char> {
    merkle_fold(leaf_hashes(actions))
}

/// The level above a level of nodes.
pub fn fold_level(hashes: &Vec<String>) -> (next: Vec<String>)
    ensures
        text_views(next@) == merkle_level(text_views(hashes@)),
        next@.len() == (hashes@.len() + 1) / 2,
        (forall|j: int| 0 <= j < hashes@.len() ==> (#[trigger] hashes@[j])@.len() == 64)
            ==> forall|j: int| 0 <= j < next@.len() ==> (#[trigger] next@[j])@.len() == 64,
{
    let n = hashes.len();
    let pairs = n / 2;
    let mut next: Vec<String> = Vec::new();
    let mut k: usize = 0;
    while k < pairs
        invariant
            n == hashes.len(),
            pairs == n / 2,
            k <= pairs,
            next@.len() == k,
            forall|j: int| 0 <= j < k ==> (#[trigger] next@[j])@.len() == 64,
            forall|j: int|
                0 <= j < k ==> (#[trigger] next@[j])@ == merkle_level(text_views(hashes@))[j],
        decreases pairs - k,
    {
        let both = text_join(hashes[2 * k].as_str(), hashes[2 * k + 1].as_str());
        next.push(digest_hex(both.as_str().as_bytes()));
        k += 1;
    }
    if n % 2 == 1 {
        next.push(hashes[n - 1].clone());
    }
    assert(text_views(next@) =~= merkle_level(text_views(hashes@)));
    next
}

/// The Merkle root of a list of actions: 64 zeros for an empty list, the
/// action's content hash for a list of one, and else the last node left when
/// the levels are folded.
pub fn merkle_root(actions: &[ImpactAction]) -> (root: String)
    ensures
        root@ == merkle_root_of(action_views(actions@)),
        root@.len() == 64,
{
    let mut hashes: Vec<String> = Vec::new();
    let mut i: usize = 0;
    while i < actions.len()
        invariant
            i <= actions.len(),
            hashes@.len() == i,
            forall|k: int| 0 <= k < i ==> (#[trigger] hashes@[k])@.len() == 64,
            forall|k: int|
                0 <= k < i ==> (#[trigger] hashes@[k])@ == action_hash(actions@[k]@),
        decreases actions.len() - i,
    {
        hashes.push(actions[i].hash());
        i += 1;
    }
    assert(text_views(hashes@) =~= leaf_hashes(action_views(actions@)));
    if hashes.len() == 0 {
        proof {
            reveal_strlit("0000000000000000000000000000000000000000000000000000000000000000");
        }
        return String::from_str("0000000000000000000000000000000000000000000000000000000000000000");
    }
    while hashes.len() > 1
        invariant
            hashes@.len() >= 1,
            forall|k: int| 0 <= k < hashes@.len() ==> (#[trigger] hashes@[k])@.len() == 64,
            merkle_fold(text_views(hashes@)) == merkle_root_of(action_views(actions@)),
        decreases hashes@.len(),
    {
        hashes = fold_level(&hashes);
    }
    hashes[0].clone()
}

} // verus!
