//! Hash maps of the engine: a frozen map stored as an array of pairs, and a
//! chained map whose buckets and overflow chain link pairs by pointer.

use vstd::prelude::*;

use crate::engine::native::layout::{
    align_up, align_up_usize, is_decoded, le_u32, le_u64, lemma_align_up, read_bytes, read_u32,
    read_u64, NativeLayout,
};
use crate::engine::native::pointer::{spec_pointer_valid, LuminousPointer};
use crate::memory::{same_source, MemoryError, MemoryReader};

verus! {

/// A key of an engine map: a value with a native layout, a default value
/// that marks empty slots, and an equality test.
pub trait MapKey: NativeLayout + Copy {
    /// The key of empty slots.
    spec fn spec_empty_key() -> Self;

    /// The key of empty slots.
    fn empty_key() -> (r: Self)
        ensures
            r == Self::spec_empty_key(),
    ;

    /// Whether two keys are equal.
    fn same_key(&self, other: &Self) -> (r: bool)
        ensures
            r == (*self == *other),
    ;
}

impl MapKey for u32 {
    open spec fn spec_empty_key() -> u32 {
        0
    }

    fn empty_key() -> (r: u32) {
        0
    }

    fn same_key(&self, other: &u32) -> (r: bool) {
        *self == *other
    }
}

impl MapKey for u64 {
    open spec fn spec_empty_key() -> u64 {
        0
    }

    fn empty_key() -> (r: u64) {
        0
    }

    fn same_key(&self, other: &u64) -> (r: bool) {
        *self == *other
    }
}

/// Whether no key occurs twice among `entries`.
pub open spec fn keys_distinct<K, V>(entries: Seq<(K, V)>) -> bool {
    forall|i: int, j: int|
        0 <= i < entries.len() && 0 <= j < entries.len() && i != j ==> entries[i].0
            != entries[j].0
}

/// Whether `key` occurs among `entries`.
pub open spec fn has_key<K, V>(entries: Seq<(K, V)>, key: K) -> bool {
    exists|i: int| 0 <= i < entries.len() && entries[i].0 == key
}

/// Whether `key` is already a key of `entries`.
pub fn contains_key<K: MapKey, V>(entries: &Vec<(K, V)>, key: &K) -> (r: bool)
    ensures
        r == has_key(entries@, *key),
{
    let mut i: usize = 0;
    while i < entries.len()
        invariant
            i <= entries@.len(),
            forall|j: int| 0 <= j < i ==> entries@[j].0 != *key,
        decreases entries@.len() - i,
    {
        if entries[i].0.same_key(key) {
            return true;
        }
        i += 1;
    }
    false
}

/// Adds `(key, value)` unless `key` is present: the first value of a key stays.
pub fn insert_if_absent<K: MapKey, V>(entries: &mut Vec<(K, V)>, key: K, value: V)
    requires
        keys_distinct(old(entries)@),
    ensures
        keys_distinct(final(entries)@),
        has_key(old(entries)@, key) ==> final(entries)@ == old(entries)@,
        !has_key(old(entries)@, key) ==> final(entries)@ == old(entries)@.push((key, value)),
{
    if !contains_key(entries, &key) {
        entries.push((key, value));
    }
}

/// A frozen map from the engine internals, searched by binary search.
#[derive(Debug)]
pub struct LuminousStaticMap<K, V> {
    pub data: LuminousPointer<LuminousStaticMapPair<K, V>>,
    pub size: u32,
    pub capacity: u32,
}

impl<K, V> Clone for LuminousStaticMap<K, V> {
    fn clone(&self) -> (r: Self)
        ensures
            r.data.inner == self.data.inner,
            r.size == self.size,
            r.capacity == self.capacity,
    {
        LuminousStaticMap {
            data: LuminousPointer::new(self.data.inner),
            size: self.size,
            capacity: self.capacity,
        }
    }
}

impl<K, V> Copy for LuminousStaticMap<K, V> {

}

/// A pair of a frozen map.
#[derive(Debug, Clone, Copy)]
pub struct LuminousStaticMapPair<K, V> {
    pub key: K,
    pub value: V,
}

/// Offset of the value in a pair of a frozen map.
pub open spec fn static_pair_value_offset<K: NativeLayout, V: NativeLayout>() -> nat {
    align_up(K::layout_size(), V::layout_align())
}

/// Size of a pair of a frozen map.
pub open spec fn static_pair_size<K: NativeLayout, V: NativeLayout>() -> nat {
    let a = if K::layout_align() >= V::layout_align() {
        K::layout_align()
    } else {
        V::layout_align()
    };
    align_up(static_pair_value_offset::<K, V>() + V::layout_size(), a)
}

/// The pair that `bytes` hold.
pub open spec fn static_pair_from_layout<K: NativeLayout, V: NativeLayout>(bytes: Seq<u8>) -> (K, V) {
    let off = static_pair_value_offset::<K, V>();
    (
        K::from_layout(bytes.subrange(0, K::layout_size() as int)),
        V::from_layout(bytes.subrange(off as int, (off + V::layout_size()) as int)),
    )
}

/// Whether `p` is the pair that some bytes of the pair layout hold.
pub open spec fn is_decoded_static_pair<K: NativeLayout, V: NativeLayout>(p: (K, V)) -> bool {
    exists|b: Seq<u8>|
        b.len() == static_pair_size::<K, V>() && p == static_pair_from_layout::<K, V>(b)
}

/// The address of pair `i` of a frozen map whose pairs start at `data`.
pub open spec fn static_pair_slot<K: NativeLayout, V: NativeLayout>(data: u64, i: int) -> u64 {
    (data + static_pair_size::<K, V>() * i) as u64
}

/// The pairs of `pairs` with the first value of each key: a pair whose key
/// an earlier pair has is left out.
pub open spec fn first_per_key<K, V>(pairs: Seq<(K, V)>) -> Seq<(K, V)>
    decreases pairs.len(),
{
    if pairs.len() == 0 {
        Seq::empty()
    } else {
        let prev = first_per_key(pairs.drop_last());
        if has_key(prev, pairs.last().0) {
            prev
        } else {
            prev.push(pairs.last())
        }
    }
}

/// The first `n` pairs of a frozen map whose pairs start at `data`, as the
/// bytes that `reader` knows there decode.
pub open spec fn known_static_pairs<K: NativeLayout, V: NativeLayout, R: MemoryReader>(
    reader: R,
    data: u64,
    n: nat,
) -> Seq<(K, V)> {
    Seq::new(
        n,
        |i: int|
            static_pair_from_layout::<K, V>(
                reader.spec_memory(static_pair_slot::<K, V>(data, i), static_pair_size::<K, V>())->0,
            ),
    )
}

impl<K: NativeLayout, V: NativeLayout> LuminousStaticMap<K, V> {
    /// Whether `reader` knows every pair of the map, which lies at a valid
    /// address.
    pub open spec fn known_by<R: MemoryReader>(&self, reader: R) -> bool {
        &&& spec_pointer_valid(self.data.inner)
        &&& forall|i: int|
            0 <= i < self.size ==> #[trigger] reader.spec_memory(
                static_pair_slot::<K, V>(self.data.inner, i),
                static_pair_size::<K, V>(),
            ) is Some
    }

    /// The entries of the map as the bytes that `reader` knows give them:
    /// its pairs in storage order, the first value of each key kept.
    pub open spec fn known_entries<R: MemoryReader>(&self, reader: R) -> Seq<(K, V)> {
        first_per_key(known_static_pairs::<K, V, R>(reader, self.data.inner, self.size as nat))
    }
}

/// What a reader knows of a frozen map depends only on its known bytes.
pub proof fn lemma_static_map_known_same<K: NativeLayout, V: NativeLayout, R: MemoryReader>(
    map: LuminousStaticMap<K, V>,
    a: R,
    b: R,
)
    requires
        forall|x: u64, n: nat| #[trigger] b.spec_memory(x, n) == a.spec_memory(x, n),
    ensures
        map.known_by(a) == map.known_by(b),
        map.known_entries(a) == map.known_entries(b),
{
    assert(known_static_pairs::<K, V, R>(a, map.data.inner, map.size as nat) =~= known_static_pairs::<
        K,
        V,
        R,
    >(b, map.data.inner, map.size as nat));
    if map.known_by(a) != map.known_by(b) {
        if map.known_by(a) {
            let i = choose|i: int|
                0 <= i < map.size && !(#[trigger] b.spec_memory(
                    static_pair_slot::<K, V>(map.data.inner, i),
                    static_pair_size::<K, V>(),
                ) is Some);
            assert(a.spec_memory(static_pair_slot::<K, V>(map.data.inner, i), static_pair_size::<K, V>()) is Some);
        } else {
            let i = choose|i: int|
                0 <= i < map.size && !(#[trigger] a.spec_memory(
                    static_pair_slot::<K, V>(map.data.inner, i),
                    static_pair_size::<K, V>(),
                ) is Some);
            assert(b.spec_memory(static_pair_slot::<K, V>(map.data.inner, i), static_pair_size::<K, V>()) is Some);
        }
    }
}

impl<K: MapKey, V: NativeLayout> LuminousStaticMap<K, V> {
    /// Reads the entries of the map in storage order, the first value of each
    /// key kept: fails for an invalid pointer or when a read fails; succeeds
    /// where the reader knows every pair.
    pub fn read<R: MemoryReader>(&self, reader: &mut R) -> (r: Result<Vec<(K, V)>, MemoryError>)
        ensures
            same_source(*old(reader), *final(reader)),
            !spec_pointer_valid(self.data.inner) ==> r == Err::<Vec<(K, V)>, MemoryError>(
                MemoryError::InvalidPointer,
            ),
            spec_pointer_valid(self.data.inner) && self.size == 0 ==> (r matches Ok(v)
                && v@.len() == 0),
            r matches Ok(v) ==> {
                &&& keys_distinct(v@)
                &&& v@.len() <= self.size
                &&& forall|k: int| 0 <= k < v@.len() ==> is_decoded_static_pair::<K, V>(#[trigger] v@[k])
            },
            self.known_by(*old(reader)) ==> (r matches Ok(v) && v@ == self.known_entries(*old(reader))),
    {
        if !self.data.is_valid() {
            return Err(MemoryError::InvalidPointer);
        }
        let mut entries: Vec<(K, V)> = Vec::new();
        if self.size == 0 {
            return Ok(entries);
        }
        let ksize = K::size();
        let vsize = V::size();
        let valign = V::align();
        let kalign = K::align();
        let off = align_up_usize(ksize, valign);
        let a = if kalign >= valign {
            kalign
        } else {
            valign
        };
        let pair_size = align_up_usize(off + vsize, a);
        assert(pair_size == static_pair_size::<K, V>());
        let mut address: u64 = self.data.inner;
        let ghost pairs = known_static_pairs::<K, V, R>(*old(reader), self.data.inner, self.size as nat);
        let mut i: u32 = 0;
        while i < self.size
            invariant
                same_source(*old(reader), *reader),
                pairs == known_static_pairs::<K, V, R>(*old(reader), self.data.inner, self.size as nat),
                (forall|j: int|
                    0 <= j < self.size ==> #[trigger] old(reader).spec_memory(
                        static_pair_slot::<K, V>(self.data.inner, j),
                        static_pair_size::<K, V>(),
                    ) is Some) ==> entries@ == first_per_key(pairs.take(i as int)),
                i <= self.size,
                spec_pointer_valid(self.data.inner),
                entries@.len() <= i,
                keys_distinct(entries@),
                forall|k: int|
                    0 <= k < entries@.len() ==> is_decoded_static_pair::<K, V>(#[trigger] entries@[k]),
                ksize == K::layout_size(),
                vsize == V::layout_size(),
                off == static_pair_value_offset::<K, V>(),
                ksize <= off,
                off + vsize <= pair_size,
                pair_size == static_pair_size::<K, V>(),
                pair_size <= 0x3000,
                address == self.data.inner + pair_size * i,
            decreases self.size - i,
        {
            let mut buf: Vec<u8> = vec![0u8; pair_size];
            let ghost before = *reader;
            match reader.read(LuminousPointer::new(address), buf.as_mut_slice()) {
                Ok(()) => {},
                Err(_) => {
                    proof {
                        assert(static_pair_slot::<K, V>(self.data.inner, i as int) == address);
                        assert(!(forall|j: int|
                            0 <= j < self.size ==> #[trigger] old(reader).spec_memory(
                                static_pair_slot::<K, V>(self.data.inner, j),
                                static_pair_size::<K, V>(),
                            ) is Some)) by {
                            assert(0 <= i < self.size);
                        }
                    }
                    return Err(MemoryError::ReadFailed);
                },
            }
            let kb = read_bytes(buf.as_slice(), 0, ksize);
            let vb = read_bytes(buf.as_slice(), off, vsize);
            let key = K::decode(kb.as_slice());
            let value = V::decode(vb.as_slice());
            assert((key, value) == static_pair_from_layout::<K, V>(buf@));
            let ghost prev = entries@;
            insert_if_absent(&mut entries, key, value);
            proof {
                if forall|j: int|
                    0 <= j < self.size ==> #[trigger] old(reader).spec_memory(
                        static_pair_slot::<K, V>(self.data.inner, j),
                        static_pair_size::<K, V>(),
                    ) is Some {
                    let slot = static_pair_slot::<K, V>(self.data.inner, i as int);
                    assert(slot == address);
                    assert(old(reader).spec_memory(slot, static_pair_size::<K, V>()) is Some);
                    assert(before.spec_memory(address, pair_size as nat) == old(reader).spec_memory(
                        slot,
                        static_pair_size::<K, V>(),
                    ));
                    assert(pairs[i as int] == (key, value));
                    assert(pairs.take(i + 1).drop_last() =~= pairs.take(i as int));
                    assert(pairs.take(i + 1).last() == pairs[i as int]);
                }
            }
            assert forall|k: int|
                0 <= k < entries@.len() implies is_decoded_static_pair::<K, V>(
                #[trigger] entries@[k],
            ) by {
                if k < prev.len() {
                    assert(entries@[k] == prev[k]);
                } else {
                    assert(entries@[k] == (key, value));
                }
            }
            assert(pair_size * (i + 1) == pair_size * i + pair_size) by (nonlinear_arith);
            assert(pair_size * (i + 1) <= 0x3000 * 0x1_0000_0000) by (nonlinear_arith)
                requires
                    pair_size <= 0x3000,
                    i + 1 <= 0x1_0000_0000,
            ;
            address = address + pair_size as u64;
            i += 1;
        }
        assert(pairs.take(self.size as int) =~= pairs);
        Ok(entries)
    }
}

impl<K, V> NativeLayout for LuminousStaticMap<K, V> {
    open spec fn layout_size() -> nat {
        16
    }

    open spec fn layout_align() -> nat {
        8
    }

    open spec fn from_layout(bytes: Seq<u8>) -> LuminousStaticMap<K, V> {
        LuminousStaticMap {
            data: LuminousPointer::<LuminousStaticMapPair<K, V>>::from_layout(bytes),
            size: le_u32(bytes, 8),
            capacity: le_u32(bytes, 12),
        }
    }

    fn size() -> (r: usize) {
        16
    }

    fn align() -> (r: usize) {
        8
    }

    fn decode(bytes: &[u8]) -> (r: LuminousStaticMap<K, V>) {
        LuminousStaticMap {
            data: LuminousPointer::new(read_u64(bytes, 0)),
            size: read_u32(bytes, 8),
            capacity: read_u32(bytes, 12),
        }
    }
}

/// A chained hash map from the engine internals, like `std::unordered_map`.
/// The two floating-point tuning fields are kept as their raw bits.
#[derive(Debug)]
pub struct LuminousDynamicMap<K, V> {
    pub buckets: LuminousPointer<LuminousDynamicMapPair<K, V>>,
    pub chain: LuminousPointer<LuminousDynamicMapPair<K, V>>,
    pub free_chain: LuminousPointer<LuminousDynamicMapPair<K, V>>,
    pub bucket_count: u32,
    pub chain_count: u32,
    pub occupancy: u32,
    pub chain_used: u32,
    pub expand_rate_bits: u32,
    pub chain_to_bucket_ratio_bits: u32,
    pub hasher: u64,
}

impl<K, V> Clone for LuminousDynamicMap<K, V> {
    fn clone(&self) -> (r: Self)
        ensures
            r == *self,
    {
        LuminousDynamicMap {
            buckets: self.buckets,
            chain: self.chain,
            free_chain: self.free_chain,
            bucket_count: self.bucket_count,
            chain_count: self.chain_count,
            occupancy: self.occupancy,
            chain_used: self.chain_used,
            expand_rate_bits: self.expand_rate_bits,
            chain_to_bucket_ratio_bits: self.chain_to_bucket_ratio_bits,
            hasher: self.hasher,
        }
    }
}

impl<K, V> Copy for LuminousDynamicMap<K, V> {

}

/// A node of a chained map: the address of the next node, a pointer to the
/// value, the key.
#[derive(Debug)]
pub struct LuminousDynamicMapPair<K, V> {
    pub next: LuminousPointer<()>,
    pub value: LuminousPointer<V>,
    pub key: K,
}

/// Size of a node of a chained map.
pub open spec fn dynamic_pair_size<K: NativeLayout>() -> nat {
    align_up(16 + K::layout_size(), 8)
}

/// Longest chain that is followed before the map is deemed malformed.
pub const MAX_CHAIN_STEPS: u32 = 0xffff_ffffu32;

/// The node that the bytes `b` of a node hold: the next node's address at 0,
/// the value pointer at 8, the key from 16.
pub open spec fn spec_dynamic_pair<K: NativeLayout, V>(b: Seq<u8>) -> LuminousDynamicMapPair<K, V> {
    LuminousDynamicMapPair {
        next: LuminousPointer { inner: le_u64(b, 0), _marker: core::marker::PhantomData },
        value: LuminousPointer { inner: le_u64(b, 8), _marker: core::marker::PhantomData },
        key: K::from_layout(b.subrange(16, 16 + K::layout_size() as int)),
    }
}

/// Reads the node at `address`: fails, as a failed read, when the reader
/// fails; otherwise the node that the `pair_size` bytes read there hold,
/// the known ones where the reader knows them.
fn read_dynamic_pair<K: MapKey, V, R: MemoryReader>(
    reader: &mut R,
    address: u64,
    pair_size: usize,
) -> (r: Result<LuminousDynamicMapPair<K, V>, MemoryError>)
    requires
        pair_size == dynamic_pair_size::<K>(),
        16 + K::layout_size() <= pair_size,
    ensures
        same_source(*old(reader), *final(reader)),
        r is Err ==> r == Err::<LuminousDynamicMapPair<K, V>, MemoryError>(MemoryError::ReadFailed),
        r matches Ok(p) ==> exists|b: Seq<u8>| b.len() == pair_size && p == spec_dynamic_pair::<K, V>(b),
        old(reader).spec_memory(address, pair_size as nat) matches Some(b) ==> r
            == Ok::<LuminousDynamicMapPair<K, V>, MemoryError>(spec_dynamic_pair::<K, V>(b)),
{
    let mut buf: Vec<u8> = vec![0u8; pair_size];
    match reader.read(LuminousPointer::new(address), buf.as_mut_slice()) {
        Ok(()) => {},
        Err(_) => {
            return Err(MemoryError::ReadFailed);
        },
    }
    let next = read_u64(buf.as_slice(), 0);
    let value = read_u64(buf.as_slice(), 8);
    let kb = read_bytes(buf.as_slice(), 16, K::size());
    let key = K::decode(kb.as_slice());
    let pair = LuminousDynamicMapPair { next: LuminousPointer::new(next), value: LuminousPointer::new(value), key };
    assert(pair == spec_dynamic_pair::<K, V>(buf@));
    Ok(pair)
}

/// Whether `entries` extends `prev`, every added entry having a key other
/// than the empty key and a decoded value.
pub open spec fn extends_entries<K: MapKey, V: NativeLayout>(prev: Seq<(K, V)>, entries: Seq<(K, V)>) -> bool {
    &&& prev.len() <= entries.len()
    &&& entries.subrange(0, prev.len() as int) == prev
    &&& forall|k: int|
        prev.len() <= k < entries.len() ==> #[trigger] entries[k].0 != K::spec_empty_key()
            && is_decoded::<V>(entries[k].1)
}

/// Extending entries is transitive.
pub proof fn lemma_extends_trans<K: MapKey, V: NativeLayout>(
    a: Seq<(K, V)>,
    b: Seq<(K, V)>,
    c: Seq<(K, V)>,
)
    requires
        extends_entries(a, b),
        extends_entries(b, c),
    ensures
        extends_entries(a, c),
{
    assert(c.subrange(0, a.len() as int) =~= b.subrange(0, a.len() as int)) by {
        assert forall|k: int| 0 <= k < a.len() implies c[k] == b[k] by {
            assert(c[k] == c.subrange(0, b.len() as int)[k]);
        }
    }
    assert forall|k: int| a.len() <= k < c.len() implies #[trigger] c[k].0 != K::spec_empty_key()
        && is_decoded::<V>(c[k].1) by {
        if k < b.len() {
            assert(c[k] == c.subrange(0, b.len() as int)[k]);
            assert(b[k].0 != K::spec_empty_key());
        }
    }
}

/// The address of node `i` of the `n` consecutive nodes from `base`.
pub open spec fn dynamic_slot<K: NativeLayout>(base: u64, i: int) -> u64 {
    (base + dynamic_pair_size::<K>() * i) as u64
}

/// The walk of the chain from node `pair`, which adds to `entries` the key
/// and value of each node not yet present: it stops at a node whose value
/// pointer is invalid or whose key is the empty key, and after a node whose
/// next pointer is invalid. `None` where the reader does not know a value or
/// node that the walk reads, or where the chain runs past `MAX_CHAIN_STEPS`
/// nodes.
pub open spec fn chain_walk<K: MapKey, V: NativeLayout, R: MemoryReader>(
    reader: R,
    pair: LuminousDynamicMapPair<K, V>,
    entries: Seq<(K, V)>,
    steps: nat,
) -> Option<Seq<(K, V)>>
    decreases MAX_CHAIN_STEPS - steps,
{
    if !spec_pointer_valid(pair.value.inner) || pair.key == K::spec_empty_key() {
        Some(entries)
    } else {
        let added: Option<Seq<(K, V)>> = if has_key(entries, pair.key) {
            Some(entries)
        } else {
            match reader.spec_memory(pair.value.inner, V::layout_size()) {
                Some(b) => Some(entries.push((pair.key, V::from_layout(b)))),
                None => None,
            }
        };
        match added {
            None => None,
            Some(e) => if !spec_pointer_valid(pair.next.inner) {
                Some(e)
            } else if steps >= MAX_CHAIN_STEPS {
                None
            } else {
                match reader.spec_memory(pair.next.inner, dynamic_pair_size::<K>()) {
                    Some(b) => chain_walk(reader, spec_dynamic_pair::<K, V>(b), e, steps + 1),
                    None => None,
                }
            },
        }
    }
}

/// The walk of the chains that start in the first `n` consecutive nodes
/// from `base`, in order, adding to `entries` (`chain_walk`).
pub open spec fn nodes_walk<K: MapKey, V: NativeLayout, R: MemoryReader>(
    reader: R,
    base: u64,
    n: nat,
    entries: Seq<(K, V)>,
) -> Option<Seq<(K, V)>>
    decreases n,
{
    if n == 0 {
        Some(entries)
    } else {
        match nodes_walk(reader, base, (n - 1) as nat, entries) {
            Some(e) => match reader.spec_memory(dynamic_slot::<K>(base, n - 1), dynamic_pair_size::<K>()) {
                Some(b) => chain_walk(reader, spec_dynamic_pair::<K, V>(b), e, 0),
                None => None,
            },
            None => None,
        }
    }
}

/// The entries of a chained map as the bytes that `reader` knows give them:
/// the chains from the buckets, then those from the overflow chain.
pub open spec fn dynamic_map_walk<K: MapKey, V: NativeLayout, R: MemoryReader>(
    reader: R,
    map: LuminousDynamicMap<K, V>,
) -> Option<Seq<(K, V)>> {
    match nodes_walk(reader, map.buckets.inner, map.bucket_count as nat, Seq::empty()) {
        Some(e) => nodes_walk(reader, map.chain.inner, map.chain_used as nat, e),
        None => None,
    }
}

/// A walk that succeeds over `n` nodes succeeds over fewer.
proof fn lemma_nodes_walk_prefix<K: MapKey, V: NativeLayout, R: MemoryReader>(
    reader: R,
    base: u64,
    i: nat,
    n: nat,
    entries: Seq<(K, V)>,
)
    requires
        i <= n,
        nodes_walk(reader, base, n, entries) is Some,
    ensures
        nodes_walk(reader, base, i, entries) is Some,
    decreases n,
{
    if i < n {
        lemma_nodes_walk_prefix(reader, base, i, (n - 1) as nat, entries);
    }
}

/// Walks depend only on the known bytes.
proof fn lemma_chain_walk_same<K: MapKey, V: NativeLayout, R: MemoryReader>(
    a: R,
    b: R,
    pair: LuminousDynamicMapPair<K, V>,
    entries: Seq<(K, V)>,
    steps: nat,
)
    requires
        forall|x: u64, n: nat| #[trigger] b.spec_memory(x, n) == a.spec_memory(x, n),
    ensures
        chain_walk(a, pair, entries, steps) == chain_walk(b, pair, entries, steps),
    decreases MAX_CHAIN_STEPS - steps,
{
    assert(a.spec_memory(pair.value.inner, V::layout_size()) == b.spec_memory(pair.value.inner, V::layout_size()));
    assert(a.spec_memory(pair.next.inner, dynamic_pair_size::<K>()) == b.spec_memory(
        pair.next.inner,
        dynamic_pair_size::<K>(),
    ));
    if steps < MAX_CHAIN_STEPS {
        let added: Option<Seq<(K, V)>> = if has_key(entries, pair.key) {
            Some(entries)
        } else {
            match a.spec_memory(pair.value.inner, V::layout_size()) {
                Some(bv) => Some(entries.push((pair.key, V::from_layout(bv)))),
                None => None,
            }
        };
        if let Some(e) = added {
            if let Some(bn) = a.spec_memory(pair.next.inner, dynamic_pair_size::<K>()) {
                lemma_chain_walk_same(a, b, spec_dynamic_pair::<K, V>(bn), e, steps + 1);
            }
        }
    }
}

/// Walks depend only on the known bytes.
proof fn lemma_nodes_walk_same<K: MapKey, V: NativeLayout, R: MemoryReader>(
    a: R,
    b: R,
    base: u64,
    n: nat,
    entries: Seq<(K, V)>,
)
    requires
        forall|x: u64, m: nat| #[trigger] b.spec_memory(x, m) == a.spec_memory(x, m),
    ensures
        nodes_walk(a, base, n, entries) == nodes_walk(b, base, n, entries),
    decreases n,
{
    if n > 0 {
        lemma_nodes_walk_same(a, b, base, (n - 1) as nat, entries);
        let slot = dynamic_slot::<K>(base, n - 1);
        assert(a.spec_memory(slot, dynamic_pair_size::<K>()) == b.spec_memory(slot, dynamic_pair_size::<K>()));
        if let Some(e) = nodes_walk(a, base, (n - 1) as nat, entries) {
            if let Some(bn) = a.spec_memory(slot, dynamic_pair_size::<K>()) {
                lemma_chain_walk_same(a, b, spec_dynamic_pair::<K, V>(bn), e, 0);
            }
        }
    }
}

/// What a reader knows of a chained map depends only on its known bytes.
pub proof fn lemma_dynamic_map_walk_same<K: MapKey, V: NativeLayout, R: MemoryReader>(
    a: R,
    b: R,
    map: LuminousDynamicMap<K, V>,
)
    requires
        forall|x: u64, n: nat| #[trigger] b.spec_memory(x, n) == a.spec_memory(x, n),
    ensures
        dynamic_map_walk(a, map) == dynamic_map_walk(b, map),
{
    lemma_nodes_walk_same(a, b, map.buckets.inner, map.bucket_count as nat, Seq::<(K, V)>::empty());
    if let Some(e) = nodes_walk(a, map.buckets.inner, map.bucket_count as nat, Seq::<(K, V)>::empty()) {
        lemma_nodes_walk_same(a, b, map.chain.inner, map.chain_used as nat, e);
    }
}

impl<K: MapKey, V: NativeLayout> LuminousDynamicMap<K, V> {
    /// Reads the entries of the map: first the chains that start in the
    /// buckets, then those that start in the overflow chain; the first value
    /// of each key is kept. Fails when the bucket or chain pointer is invalid,
    /// when a read fails, or when a chain does not end.
    pub fn read<R: MemoryReader>(&self, reader: &mut R) -> (r: Result<Vec<(K, V)>, MemoryError>)
        ensures
            same_source(*old(reader), *final(reader)),
            !spec_pointer_valid(self.buckets.inner) || !spec_pointer_valid(self.chain.inner) ==> r
                == Err::<Vec<(K, V)>, MemoryError>(MemoryError::InvalidPointer),
            r matches Ok(v) ==> keys_distinct(v@) && extends_entries(Seq::empty(), v@),
            spec_pointer_valid(self.buckets.inner) && spec_pointer_valid(self.chain.inner) ==> (
            dynamic_map_walk(*old(reader), *self) matches Some(e) ==> (r matches Ok(v) && v@ == e)),
    {
        if !self.buckets.is_valid() || !self.chain.is_valid() {
            return Err(MemoryError::InvalidPointer);
        }
        let mut entries: Vec<(K, V)> = Vec::new();
        match Self::process_chains(reader, &mut entries, self.buckets.inner, self.bucket_count) {
            Ok(()) => {},
            Err(e) => {
                return Err(e);
            },
        }
        let ghost mid = entries@;
        proof {
            lemma_nodes_walk_same(*old(reader), *reader, self.chain.inner, self.chain_used as nat, mid);
        }
        match Self::process_chains(reader, &mut entries, self.chain.inner, self.chain_used) {
            Ok(()) => {},
            Err(e) => {
                return Err(e);
            },
        }
        proof {
            lemma_extends_trans(Seq::empty(), mid, entries@);
        }
        Ok(entries)
    }

    /// Walks `size` consecutive nodes from `address` and the chains hanging
    /// from them, adding each entry whose key is not yet present.
    fn process_chains<R: MemoryReader>(
        reader: &mut R,
        entries: &mut Vec<(K, V)>,
        first_node: u64,
        size: u32,
    ) -> (r: Result<(), MemoryError>)
        requires
            spec_pointer_valid(first_node),
            keys_distinct(old(entries)@),
        ensures
            same_source(*old(reader), *final(reader)),
            keys_distinct(final(entries)@),
            extends_entries(old(entries)@, final(entries)@),
            nodes_walk(*old(reader), first_node, size as nat, old(entries)@) matches Some(walked) ==> r is Ok
                && final(entries)@ == walked,
    {
        let ghost start = entries@;
        let ghost r0 = *old(reader);
        let ghost outer_ok = nodes_walk(r0, first_node, size as nat, start) is Some;
        let empty = K::empty_key();
        let ksize = K::size();
        proof {
            lemma_align_up((16 + K::layout_size()) as nat, 8);
        }
        let pair_size = align_up_usize(16 + ksize, 8);
        let mut address: u64 = first_node;
        let ghost base = address;
        assert(entries@.subrange(0, start.len() as int) =~= start);
        let mut i: u32 = 0;
        while i < size
            invariant
                same_source(*old(reader), *reader),
                i <= size,
                spec_pointer_valid(base),
                address == base + pair_size * i,
                pair_size == dynamic_pair_size::<K>(),
                16 + K::layout_size() <= pair_size <= 0x1010,
                empty == K::spec_empty_key(),
                keys_distinct(entries@),
                extends_entries(start, entries@),
                start == old(entries)@,
                r0 == *old(reader),
                base == first_node,
                outer_ok == (nodes_walk(r0, base, size as nat, start) is Some),
                outer_ok ==> nodes_walk(r0, base, i as nat, start) == Some(entries@),
            decreases size - i,
        {
            proof {
                if outer_ok {
                    lemma_nodes_walk_prefix(r0, base, (i + 1) as nat, size as nat, start);
                    assert(dynamic_slot::<K>(base, i as int) == address);
                    assert(reader.spec_memory(address, pair_size as nat) == r0.spec_memory(
                        address,
                        pair_size as nat,
                    ));
                }
            }
            let ghost target = nodes_walk(r0, base, (i + 1) as nat, start);
            let mut pair: LuminousDynamicMapPair<K, V> = match read_dynamic_pair(
                reader,
                address,
                pair_size,
            ) {
                Ok(p) => p,
                Err(e) => {
                    proof {
                        if outer_ok {
                            assert(r0.spec_memory(dynamic_slot::<K>(base, i as int), dynamic_pair_size::<K>()) is Some);
                            assert(false);
                        }
                    }
                    return Err(e);
                },
            };
            proof {
                if outer_ok {
                    assert(target == chain_walk(r0, pair, entries@, 0));
                }
            }
            assert(pair_size * (i + 1) == pair_size * i + pair_size) by (nonlinear_arith);
            assert(pair_size * (i + 1) <= 0x1010 * 0x1_0000_0000) by (nonlinear_arith)
                requires
                    pair_size <= 0x1010,
                    i + 1 <= 0x1_0000_0000,
            ;
            address = address + pair_size as u64;
            let mut steps: u32 = 0;
            while pair.value.is_valid() && !pair.key.same_key(&empty)
                invariant_except_break
                    outer_ok ==> target is Some && chain_walk(r0, pair, entries@, steps as nat) == target,
                invariant
                    same_source(*old(reader), *reader),
                    pair_size == dynamic_pair_size::<K>(),
                    16 + K::layout_size() <= pair_size,
                    empty == K::spec_empty_key(),
                    keys_distinct(entries@),
                    extends_entries(start, entries@),
                    start == old(entries)@,
                    r0 == *old(reader),
                    outer_ok == (nodes_walk(r0, first_node, size as nat, start) is Some),
                ensures
                    same_source(*old(reader), *reader),
                    keys_distinct(entries@),
                    extends_entries(start, entries@),
                    outer_ok ==> target == Some(entries@),
                decreases MAX_CHAIN_STEPS - steps,
            {
                proof {
                    if outer_ok {
                        assert(reader.spec_memory(pair.value.inner, V::layout_size()) == r0.spec_memory(
                            pair.value.inner,
                            V::layout_size(),
                        ));
                        assert(reader.spec_memory(pair.next.inner, pair_size as nat) == r0.spec_memory(
                            pair.next.inner,
                            pair_size as nat,
                        ));
                    }
                }
                let ghost entries_before = entries@;
                let ghost value_reader = *reader;
                if !contains_key(entries, &pair.key) {
                    let value = match pair.value.read(reader) {
                        Ok(v) => v,
                        Err(e) => {
                            proof {
                                if outer_ok {
                                    assert(r0.spec_memory(pair.value.inner, V::layout_size()) is Some);
                                    assert(false);
                                }
                            }
                            return Err(e);
                        },
                    };
                    proof {
                        if outer_ok {
                            assert(value == V::from_layout(r0.spec_memory(pair.value.inner, V::layout_size())->0));
                        }
                    }
                    let ghost prev = entries@;
                    insert_if_absent(entries, pair.key, value);
                    assert(entries@.subrange(0, start.len() as int) =~= prev.subrange(
                        0,
                        start.len() as int,
                    ));
                    assert forall|k: int| start.len() <= k < entries@.len() implies #[trigger] entries@[k].0
                        != K::spec_empty_key() && is_decoded::<V>(entries@[k].1) by {
                        if k < prev.len() {
                            assert(entries@[k] == prev[k]);
                        }
                    }
                }
                proof {
                    if outer_ok {
                        if has_key(entries_before, pair.key) {
                            assert(entries@ == entries_before);
                        }
                    }
                }
                if !pair.next.is_valid() {
                    break;
                }
                if steps == MAX_CHAIN_STEPS {
                    proof {
                        if outer_ok {
                            assert(chain_walk(r0, pair, entries_before, steps as nat) is None);
                            assert(false);
                        }
                    }
                    return Err(MemoryError::Malformed);
                }
                let ghost before_next = *reader;
                proof {
                    assert(before_next.spec_memory(pair.next.inner, pair_size as nat) == r0.spec_memory(
                        pair.next.inner,
                        pair_size as nat,
                    ));
                }
                pair = match read_dynamic_pair(reader, pair.next.inner, pair_size) {
                    Ok(p) => p,
                    Err(e) => {
                        proof {
                            if outer_ok {
                                assert(r0.spec_memory(pair.next.inner, dynamic_pair_size::<K>()) is Some);
                                assert(false);
                            }
                        }
                        return Err(e);
                    },
                };
                steps += 1;
            }
            i += 1;
        }
        Ok(())
    }
}

impl<K, V> NativeLayout for LuminousDynamicMap<K, V> {
    open spec fn layout_size() -> nat {
        56
    }

    open spec fn layout_align() -> nat {
        8
    }

    open spec fn from_layout(bytes: Seq<u8>) -> LuminousDynamicMap<K, V> {
        LuminousDynamicMap {
            buckets: LuminousPointer::<LuminousDynamicMapPair<K, V>>::from_layout(bytes),
            chain: LuminousPointer::<LuminousDynamicMapPair<K, V>>::from_layout(bytes.subrange(8, 16)),
            free_chain: LuminousPointer::<LuminousDynamicMapPair<K, V>>::from_layout(bytes.subrange(16, 24)),
            bucket_count: le_u32(bytes, 24),
            chain_count: le_u32(bytes, 28),
            occupancy: le_u32(bytes, 32),
            chain_used: le_u32(bytes, 36),
            expand_rate_bits: le_u32(bytes, 40),
            chain_to_bucket_ratio_bits: le_u32(bytes, 44),
            hasher: le_u64(bytes, 48),
        }
    }

    fn size() -> (r: usize) {
        56
    }

    fn align() -> (r: usize) {
        8
    }

    fn decode(bytes: &[u8]) -> (r: LuminousDynamicMap<K, V>) {
        let chain = read_bytes(bytes, 8, 8);
        let free_chain = read_bytes(bytes, 16, 8);
        LuminousDynamicMap {
            buckets: LuminousPointer::new(read_u64(bytes, 0)),
            chain: LuminousPointer::decode(chain.as_slice()),
            free_chain: LuminousPointer::decode(free_chain.as_slice()),
            bucket_count: read_u32(bytes, 24),
            chain_count: read_u32(bytes, 28),
            occupancy: read_u32(bytes, 32),
            chain_used: read_u32(bytes, 36),
            expand_rate_bits: read_u32(bytes, 40),
            chain_to_bucket_ratio_bits: read_u32(bytes, 44),
            hasher: read_u64(bytes, 48),
        }
    }
}

} // verus!
