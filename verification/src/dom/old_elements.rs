//! The table in which a render pass of a keyed list looks up the items of
//! the pass before by their keys.
//!
//! The items themselves stay at their places. The table knows, for the hash
//! of a key, the places of the items whose keys have that hash, and it knows
//! a place before which no item waits any more. Neither changes what is
//! found, only how fast: a key is compared with the few items that share its
//! hash, and the first item that waits is not searched from the start each
//! time.

use crate::dom::keyed_list::KeyView;
use crate::dom::keyed_list::KeyedElement;
use crate::dom::keyed_list::ListItemKey;
use crate::dom::keyed_list::first_filled;
use crate::dom::keyed_list::first_holding;
use crate::dom::keyed_list::holds_key;
use crate::dom::keyed_list::lemma_first_filled;
use crate::dom::keyed_list::lemma_first_holding;
use crate::dom::keyed_list::lemma_none_holding;
use std::collections::HashMap;
use vstd::prelude::*;
use vstd::utf8::encode_utf8;

verus! {

/// The hash of the first `count` of `bytes`.
pub open spec fn bytes_hash(bytes: Seq<u8>, count: nat) -> u64
    decreases count,
{
    if count == 0 || count > bytes.len() {
        0xcbf2_9ce4_8422_2325
    } else {
        (bytes_hash(bytes, (count - 1) as nat) ^ (bytes[count - 1] as u64)).wrapping_mul(
            0x0000_0100_0000_01b3,
        )
    }
}

/// The hash of a number that may be negative.
pub open spec fn signed_hash(value: int) -> u64 {
    if value >= 0 {
        value as u64
    } else {
        (u64::MAX - (-(value + 1))) as u64
    }
}

/// The hash of a key. Keys that name the same item have the same hash.
pub open spec fn key_hash(key: KeyView) -> u64 {
    match key {
        KeyView::String(s) => bytes_hash(encode_utf8(s), encode_utf8(s).len()),
        KeyView::ISize(v) => signed_hash(v as int),
        KeyView::USize(v) => v as u64,
        KeyView::I64(v) => signed_hash(v as int),
        KeyView::U64(v) => v,
        KeyView::I32(v) => signed_hash(v as int),
        KeyView::U32(v) => v as u64,
        KeyView::Uuid(v) => ((v / 0x1_0000_0000_0000_0000) as u64) ^ ((v
            % 0x1_0000_0000_0000_0000) as u64),
    }
}

fn hash_bytes(bytes: &[u8]) -> (hash: u64)
    ensures
        hash == bytes_hash(bytes@, bytes@.len()),
{
    let mut hash: u64 = 0xcbf2_9ce4_8422_2325;
    let mut i: usize = 0;
    while i < bytes.len()
        invariant
            i <= bytes@.len(),
            hash == bytes_hash(bytes@, i as nat),
        decreases bytes.len() - i,
    {
        hash = (hash ^ (bytes[i] as u64)).wrapping_mul(0x0000_0100_0000_01b3);
        i += 1;
    }
    hash
}

fn hash_signed(value: i64) -> (hash: u64)
    ensures
        hash == signed_hash(value as int),
{
    if value >= 0 {
        value as u64
    } else {
        u64::MAX - ((-(value + 1)) as u64)
    }
}

impl ListItemKey {
    /// The hash of the key.
    pub fn hash_value(&self) -> (hash: u64)
        ensures
            hash == key_hash(self@),
    {
        match self {
            ListItemKey::String(s) => hash_bytes(s.as_str().as_bytes()),
            ListItemKey::ISize(v) => hash_signed(*v as i64),
            ListItemKey::USize(v) => *v as u64,
            ListItemKey::I64(v) => hash_signed(*v),
            ListItemKey::U64(v) => *v,
            ListItemKey::I32(v) => hash_signed(*v as i64),
            ListItemKey::U32(v) => *v as u64,
            ListItemKey::Uuid(v) => ((*v / 0x1_0000_0000_0000_0000) as u64) ^ ((*v
                % 0x1_0000_0000_0000_0000) as u64),
        }
    }
}

/// Finds the items of the pass before by their keys.
pub struct OldElementsMap {
    /// For the hash of a key, the places of the items whose keys have that
    /// hash, in ascending order.
    buckets: HashMap<u64, Vec<usize>>,
    /// A place before which no item waits any more.
    first: usize,
}

impl OldElementsMap {
    /// The places that the table knows for a hash.
    pub closed spec fn bucket(&self, hash: u64) -> Seq<usize> {
        if self.buckets@.contains_key(hash) {
            self.buckets@[hash]@
        } else {
            Seq::empty()
        }
    }

    /// The place before which, as the table knows, no item waits.
    pub closed spec fn first(&self) -> usize {
        self.first
    }

    /// Whether the table is the table of `items`: it knows the place of
    /// every item that waits, under the hash of its key; it knows the places
    /// for a hash in ascending order; and no item waits before the place
    /// that it takes for the first.
    pub open spec fn indexes<L, H>(&self, items: Seq<Option<KeyedElement<L, H>>>) -> bool {
        &&& forall|j: int|
            0 <= j < items.len() && (#[trigger] items[j]) is Some ==> self.bucket(
                key_hash(items[j]->Some_0.key@),
            ).contains(j as usize)
        &&& forall|hash: u64, a: int, b: int|
            0 <= a < b < self.bucket(hash).len() ==> #[trigger] self.bucket(hash)[a]
                < #[trigger] self.bucket(hash)[b]
        &&& forall|hash: u64, a: int|
            0 <= a < self.bucket(hash).len() ==> #[trigger] self.bucket(hash)[a] < items.len()
        &&& self.first() <= items.len()
        &&& forall|k: int| 0 <= k < self.first() ==> (#[trigger] items[k]) is None
    }

    /// A table that knows no place.
    pub fn new() -> (map: OldElementsMap)
        ensures
            map.first() == 0,
            forall|hash: u64| map.bucket(hash).len() == 0,
    {
        OldElementsMap { buckets: HashMap::new(), first: 0 }
    }

    /// The table of `items`.
    pub fn build<L, H>(items: &Vec<Option<KeyedElement<L, H>>>) -> (map: OldElementsMap)
        ensures
            map.indexes(items@),
    {
        broadcast use vstd::std_specs::hash::group_hash_axioms;

        let mut map = OldElementsMap::new();
        let mut at: usize = 0;
        while at < items.len()
            invariant
                at <= items@.len(),
                map.first == 0,
                forall|j: int|
                    0 <= j < at && (#[trigger] items@[j]) is Some ==> map.bucket(
                        key_hash(items@[j]->Some_0.key@),
                    ).contains(j as usize),
                forall|hash: u64, a: int, b: int|
                    0 <= a < b < map.bucket(hash).len() ==> #[trigger] map.bucket(hash)[a]
                        < #[trigger] map.bucket(hash)[b],
                forall|hash: u64, a: int|
                    0 <= a < map.bucket(hash).len() ==> #[trigger] map.bucket(hash)[a] < at,
            decreases items.len() - at,
        {
            match &items[at] {
                Some(item) => {
                    let hash = item.key.hash_value();
                    let ghost before = map;
                    let mut bucket: Vec<usize> = match map.buckets.remove(&hash) {
                        Some(bucket) => bucket,
                        None => Vec::new(),
                    };
                    assert(bucket@ == before.bucket(hash));
                    bucket.push(at);
                    map.buckets.insert(hash, bucket);
                    proof {
                        assert(map.bucket(hash) == before.bucket(hash).push(at));
                        assert forall|other: u64| other != hash implies map.bucket(other)
                            == before.bucket(other) by {}
                        assert(map.bucket(hash)[before.bucket(hash).len() as int] == at);
                        assert forall|j: int|
                            0 <= j < at + 1 && (#[trigger] items@[j]) is Some implies map.bucket(
                            key_hash(items@[j]->Some_0.key@),
                        ).contains(j as usize) by {
                            let h = key_hash(items@[j]->Some_0.key@);
                            if j < at {
                                let p = choose|p: int|
                                    0 <= p < before.bucket(h).len() && before.bucket(h)[p] == j;
                                assert(map.bucket(h)[p] == j);
                            }
                        }
                    }
                },
                None => {},
            }
            at += 1;
        }
        map
    }

    /// The first place of `items` that holds an item of the key.
    pub fn find<L, H>(&self, items: &Vec<Option<KeyedElement<L, H>>>, key: &ListItemKey) -> (found:
        Option<usize>)
        requires
            self.indexes(items@),
        ensures
            match found {
                Some(at) => first_holding(items@, key@, 0) == Some(at as int),
                None => first_holding(items@, key@, 0) is None,
            },
    {
        broadcast use vstd::std_specs::hash::group_hash_axioms;

        let hash = key.hash_value();
        match self.buckets.get(&hash) {
            Some(bucket) => {
                assert(bucket@ == self.bucket(hash));
                let mut p: usize = 0;
                while p < bucket.len()
                    invariant
                        p <= bucket@.len(),
                        bucket@ == self.bucket(hash),
                        hash == key_hash(key@),
                        self.indexes(items@),
                        forall|q: int| 0 <= q < p ==> !holds_key(items@, bucket@[q] as int, key@),
                    decreases bucket.len() - p,
                {
                    let at = bucket[p];
                    let found = match &items[at] {
                        Some(item) => item.key.same(key),
                        None => false,
                    };
                    if found {
                        proof {
                            assert forall|k: int| 0 <= k < at implies !holds_key(
                                items@,
                                k,
                                key@,
                            ) by {
                                if holds_key(items@, k, key@) {
                                    assert(items@[k] is Some);
                                    assert(self.bucket(hash).contains(k as usize));
                                    let q = choose|q: int|
                                        0 <= q < bucket@.len() && bucket@[q] == k as usize;
                                    if q < p {
                                        assert(!holds_key(items@, bucket@[q] as int, key@));
                                    }
                                    if q >= p {
                                        if q > p {
                                            assert(self.bucket(hash)[p as int] < self.bucket(
                                                hash,
                                            )[q]);
                                        }
                                    }
                                }
                            }
                            lemma_first_holding(items@, key@, 0, at as int);
                        }
                        return Some(at);
                    }
                    p += 1;
                }
                proof {
                    assert(p == bucket@.len());
                    assert(items@.len() == items.len());
                    assert forall|k: int| 0 <= k < items@.len() implies !holds_key(
                        items@,
                        k,
                        key@,
                    ) by {
                        if holds_key(items@, k, key@) {
                            assert(items@[k] is Some);
                            assert(key_hash(items@[k]->Some_0.key@) == hash);
                            assert(self.bucket(hash).contains(k as usize));
                            let q = choose|q: int|
                                0 <= q < bucket@.len() && bucket@[q] == k as usize;
                            assert(bucket@[q] as int == k);
                            assert(!holds_key(items@, bucket@[q] as int, key@));
                        }
                    }
                    lemma_none_holding(items@, key@, 0);
                }
                None
            },
            None => {
                proof {
                    assert(self.bucket(hash).len() == 0);
                    assert forall|k: int| 0 <= k < items@.len() implies !holds_key(
                        items@,
                        k,
                        key@,
                    ) by {
                        if holds_key(items@, k, key@) {
                            assert(items@[k] is Some);
                            assert(self.bucket(hash).contains(k as usize));
                        }
                    }
                    lemma_none_holding(items@, key@, 0);
                }
                None
            },
        }
    }

    /// The place of the first of `items` that waits; their number if none
    /// does. The table remembers it.
    pub fn first_waiting<L, H>(&mut self, items: &Vec<Option<KeyedElement<L, H>>>) -> (first:
        usize)
        requires
            old(self).indexes(items@),
        ensures
            final(self).indexes(items@),
            first == first_filled(items@, 0),
            first <= items@.len(),
            first < items@.len() ==> items@[first as int] is Some,
            forall|hash: u64| final(self).bucket(hash) == old(self).bucket(hash),
    {
        let mut at: usize = self.first;
        while at < items.len() && items[at].is_none()
            invariant
                at <= items@.len(),
                forall|k: int| 0 <= k < at ==> (#[trigger] items@[k]) is None,
            decreases items.len() - at,
        {
            at += 1;
        }
        proof {
            lemma_first_filled(items@, 0, at as int);
        }
        self.first = at;
        proof {
            assert forall|hash: u64| final(self).bucket(hash) == old(self).bucket(hash) by {}
            assert forall|j: int|
                0 <= j < items@.len() && (#[trigger] items@[j]) is Some implies final(self).bucket(
                key_hash(items@[j]->Some_0.key@),
            ).contains(j as usize) by {
                assert(old(self).bucket(key_hash(items@[j]->Some_0.key@)).contains(j as usize));
            }
            assert forall|hash: u64, a: int, b: int|
                0 <= a < b < final(self).bucket(hash).len() implies #[trigger] final(self).bucket(
                hash,
            )[a] < #[trigger] final(self).bucket(hash)[b] by {
                assert(old(self).bucket(hash)[a] < old(self).bucket(hash)[b]);
            }
            assert forall|hash: u64, a: int|
                0 <= a < final(self).bucket(hash).len() implies #[trigger] final(self).bucket(
                hash,
            )[a] < items@.len() by {
                assert(old(self).bucket(hash)[a] < items@.len());
            }
        }
        at
    }
}

/// A table stays the table of the items where one of them is taken out.
pub proof fn lemma_indexes_without<L, H>(
    map: OldElementsMap,
    items: Seq<Option<KeyedElement<L, H>>>,
    at: int,
)
    requires
        map.indexes(items),
        0 <= at < items.len(),
    ensures
        map.indexes(items.update(at, None)),
{
    let left = items.update(at, None);
    assert forall|j: int| 0 <= j < left.len() && (#[trigger] left[j]) is Some implies map.bucket(
        key_hash(left[j]->Some_0.key@),
    ).contains(j as usize) by {
        assert(left[j] == items[j]);
    }
    assert forall|k: int| 0 <= k < map.first() implies (#[trigger] left[k]) is None by {
        if k != at {
            assert(left[k] == items[k]);
        }
    }
}

} // verus!
