//! Helpers for texts and for lists that are looked up by a text key.

use crate::hashing::str_bytes;
use vstd::prelude::*;
use vstd::string::StringExecFns;
use vstd::utf8::{encode_scalar, encode_utf8_decode_utf8};

verus! {

/// Two texts with the same bytes are the same text.
pub proof fn lemma_str_bytes_injective(a: Seq<char>, b: Seq<char>)
    requires
        str_bytes(a) == str_bytes(b),
    ensures
        a == b,
{
    encode_utf8_decode_utf8(a);
    encode_utf8_decode_utf8(b);
}

/// The bytes of two texts written one after the other are the bytes of the
/// first followed by the bytes of the second.
pub proof fn lemma_str_bytes_concat(a: Seq<char>, b: Seq<char>)
    ensures
        str_bytes(a + b) == str_bytes(a) + str_bytes(b),
    decreases a.len(),
{
    if a.len() == 0 {
        assert(a + b =~= b);
        assert(str_bytes(a) + str_bytes(b) =~= str_bytes(b));
    } else {
        lemma_str_bytes_concat(a.drop_first(), b);
        assert((a + b).drop_first() =~= a.drop_first() + b);
        assert((a + b)[0] == a[0]);
        assert(str_bytes(a + b) =~= encode_scalar(a[0] as u32) + (str_bytes(a.drop_first())
            + str_bytes(b)));
        assert(str_bytes(a) + str_bytes(b) =~= encode_scalar(a[0] as u32) + (str_bytes(
            a.drop_first(),
        ) + str_bytes(b)));
    }
}

/// Whether two byte strings are equal.
pub fn bytes_equal(a: &[u8], b: &[u8]) -> (same: bool)
    ensures
        same == (a@ == b@),
{
    if a.len() != b.len() {
        return false;
    }
    let mut i: usize = 0;
    while i < a.len()
        invariant
            i <= a.len(),
            a.len() == b.len(),
            forall|k: int| 0 <= k < i ==> a@[k] == b@[k],
        decreases a.len() - i,
    {
        if a[i] != b[i] {
            return false;
        }
        i += 1;
    }
    assert(a@ =~= b@);
    true
}

/// Whether `data` begins with `prefix`.
pub fn bytes_start_with(data: &[u8], prefix: &[u8]) -> (found: bool)
    ensures
        found == prefix@.is_prefix_of(data@),
{
    if prefix.len() > data.len() {
        return false;
    }
    let mut i: usize = 0;
    while i < prefix.len()
        invariant
            i <= prefix.len() <= data.len(),
            forall|k: int| 0 <= k < i ==> prefix@[k] == data@[k],
        decreases prefix.len() - i,
    {
        if prefix[i] != data[i] {
            return false;
        }
        i += 1;
    }
    assert(prefix@ =~= data@.subrange(0, prefix@.len() as int));
    true
}

/// Whether two texts are equal.
pub fn text_eq(a: &str, b: &str) -> (same: bool)
    ensures
        same == (a@ == b@),
{
    let same = bytes_equal(a.as_bytes(), b.as_bytes());
    proof {
        if same {
            lemma_str_bytes_injective(a@, b@);
        }
    }
    same
}

/// Two texts written one after the other.
pub fn text_join(a: &str, b: &str) -> (joined: String)
    ensures
        joined@ == a@ + b@,
{
    let mut joined = String::from_str(a);
    joined.append(b);
    joined
}

/// The texts of a sequence of strings, in order.
pub open spec fn text_views(texts: Seq<String>) -> Seq<Seq<char>> {
    texts.map_values(|t: String| t@)
}

/// The position of the first entry of `keys` that equals `key`, or the
/// length of `keys` where there is none.
pub open spec fn index_of(keys: Seq<Seq<char>>, key: Seq<char>) -> int
    decreases keys.len(),
{
    if keys.len() == 0 {
        0
    } else if keys[0] == key {
        0
    } else {
        1 + index_of(keys.drop_first(), key)
    }
}

/// Whether no text occurs twice in a list.
pub open spec fn distinct(keys: Seq<Seq<char>>) -> bool {
    forall|i: int, j: int| 0 <= i < j < keys.len() ==> keys[i] != keys[j]
}

/// `index_of` lies within the list or just behind it.
pub proof fn lemma_index_of_range(keys: Seq<Seq<char>>, key: Seq<char>)
    ensures
        0 <= index_of(keys, key) <= keys.len(),
        index_of(keys, key) < keys.len() ==> keys[index_of(keys, key)] == key,
        forall|k: int| 0 <= k < index_of(keys, key) ==> keys[k] != key,
    decreases keys.len(),
{
    if keys.len() > 0 && keys[0] != key {
        let rest = keys.drop_first();
        lemma_index_of_range(rest, key);
        assert forall|k: int| 0 <= k < index_of(keys, key) implies keys[k] != key by {
            if k > 0 {
                assert(keys[k] == rest[k - 1]);
            }
        }
    }
}

/// A position before which `key` does not occur, and at which it occurs or
/// the list ends, is `index_of`.
pub proof fn lemma_index_of_found(keys: Seq<Seq<char>>, key: Seq<char>, i: int)
    requires
        0 <= i <= keys.len(),
        forall|k: int| 0 <= k < i ==> keys[k] != key,
        i < keys.len() ==> keys[i] == key,
    ensures
        index_of(keys, key) == i,
{
    lemma_index_of_range(keys, key);
    let j = index_of(keys, key);
    if j < i {
        assert(keys[j] == key);
    } else if i < j {
        assert(keys[i] != key);
    }
}

/// Whether no text occurs twice in a list.
pub fn texts_distinct(texts: &Vec<String>) -> (ok: bool)
    ensures
        ok == distinct(text_views(texts@)),
{
    let ghost views = text_views(texts@);
    let mut j: usize = 0;
    while j < texts.len()
        invariant
            j <= texts.len(),
            views == text_views(texts@),
            forall|a: int, b: int| 0 <= a < b < j ==> views[a] != views[b],
        decreases texts.len() - j,
    {
        let mut i: usize = 0;
        while i < j
            invariant
                i <= j < texts.len(),
                views == text_views(texts@),
                forall|a: int| 0 <= a < i ==> views[a] != views[j as int],
            decreases j - i,
        {
            if text_eq(texts[i].as_str(), texts[j].as_str()) {
                assert(views[i as int] == views[j as int]);
                return false;
            }
            i += 1;
        }
        j += 1;
    }
    true
}


} // verus!
