//! The response cache: a map from cache keys to response bytes that holds
//! at most a given number of entries and a given number of bytes, and
//! gives up its oldest entries first.

use vstd::prelude::*;
use crate::primitives::H256;
use crate::text::str_eq;

verus! {

/// What a cached response is filed under: the hash of the block the
/// request is answered at, the method, and the compact JSON text of the
/// parameters, where the request has any.
#[derive(Debug, PartialEq, Eq)]
pub struct CacheKey {
    pub block_hash: H256,
    pub method: String,
    pub params: Option<String>,
}

/// The mathematical value of a [`CacheKey`].
pub struct CacheKeyModel {
    pub block_hash: Seq<u8>,
    pub method: Seq<char>,
    pub params: Option<Seq<char>>,
}

impl View for CacheKey {
    type V = CacheKeyModel;

    open spec fn view(&self) -> CacheKeyModel {
        CacheKeyModel {
            block_hash: self.block_hash@,
            method: self.method@,
            params: match self.params {
                Some(p) => Some(p@),
                None => None,
            },
        }
    }
}

impl CacheKey {
    /// Whether two keys are the same key.
    pub fn same(&self, other: &CacheKey) -> (b: bool)
        ensures
            b == (self@ == other@),
    {
        if !self.block_hash.same(&other.block_hash) {
            return false;
        }
        if !str_eq(self.method.as_str(), other.method.as_str()) {
            return false;
        }
        match (&self.params, &other.params) {
            (Some(a), Some(b)) => str_eq(a.as_str(), b.as_str()),
            (None, None) => true,
            _ => false,
        }
    }

    /// A copy of this key.
    pub fn duplicate(&self) -> (copy: CacheKey)
        ensures
            copy@ == self@,
    {
        let params = match &self.params {
            Some(p) => Some(p.clone()),
            None => None,
        };
        CacheKey { block_hash: self.block_hash, method: self.method.clone(), params }
    }
}

/// One cached response, as the contracts speak of it.
pub struct CacheEntryModel {
    pub key: CacheKeyModel,
    pub value: Seq<u8>,
}

/// The bytes that all the entries hold together.
pub open spec fn total_size(entries: Seq<CacheEntryModel>) -> nat
    decreases entries.len(),
{
    if entries.len() == 0 {
        0
    } else {
        total_size(entries.drop_last()) + entries.last().value.len()
    }
}

/// Whether no key occurs twice.
pub open spec fn distinct_keys(entries: Seq<CacheEntryModel>) -> bool {
    forall|i: int, j: int| 0 <= i < j < entries.len() ==> entries[i].key != entries[j].key
}

/// Whether the entries keep both limits and file nothing twice.
pub open spec fn within_limits(
    entries: Seq<CacheEntryModel>,
    max_entries: nat,
    max_bytes: nat,
) -> bool {
    &&& entries.len() <= max_entries
    &&& total_size(entries) <= max_bytes
    &&& distinct_keys(entries)
}

/// What is cached under `key`, if anything.
pub open spec fn lookup(entries: Seq<CacheEntryModel>, key: CacheKeyModel) -> Option<Seq<u8>>
    decreases entries.len(),
{
    if entries.len() == 0 {
        None
    } else if entries.last().key == key {
        Some(entries.last().value)
    } else {
        lookup(entries.drop_last(), key)
    }
}

/// The entries without those filed under `key`, in their order.
pub open spec fn without_key(entries: Seq<CacheEntryModel>, key: CacheKeyModel) -> Seq<
    CacheEntryModel,
>
    decreases entries.len(),
{
    if entries.len() == 0 {
        entries
    } else if entries.last().key == key {
        without_key(entries.drop_last(), key)
    } else {
        without_key(entries.drop_last(), key).push(entries.last())
    }
}

/// Whether there is room for one more entry of `incoming` bytes.
pub open spec fn has_room(
    entries: Seq<CacheEntryModel>,
    incoming: nat,
    max_entries: nat,
    max_bytes: nat,
) -> bool {
    entries.len() + 1 <= max_entries && total_size(entries) + incoming <= max_bytes
}

/// The entries after the oldest have left, one by one, until there is room
/// for one more entry of `incoming` bytes or nothing is left.
pub open spec fn evicted(
    entries: Seq<CacheEntryModel>,
    incoming: nat,
    max_entries: nat,
    max_bytes: nat,
) -> Seq<CacheEntryModel>
    decreases entries.len(),
{
    if entries.len() == 0 || has_room(entries, incoming, max_entries, max_bytes) {
        entries
    } else {
        evicted(entries.drop_first(), incoming, max_entries, max_bytes)
    }
}

/// Whether a value of `size` bytes can be cached at all under the limits.
pub open spec fn cacheable(size: nat, max_entries: nat, max_bytes: nat) -> bool {
    size <= max_bytes && max_entries >= 1
}

/// The entries after `value` was filed under `key`: an older entry under
/// the same key is gone, the oldest entries have made room, and the new
/// entry is the youngest. A value that cannot be cached changes nothing.
pub open spec fn inserted(
    entries: Seq<CacheEntryModel>,
    key: CacheKeyModel,
    value: Seq<u8>,
    max_entries: nat,
    max_bytes: nat,
) -> Seq<CacheEntryModel> {
    if cacheable(value.len(), max_entries, max_bytes) {
        evicted(without_key(entries, key), value.len(), max_entries, max_bytes).push(
            CacheEntryModel { key, value },
        )
    } else {
        entries
    }
}

/// One insertion, as the laws of the cache speak of it.
pub struct Insertion {
    pub key: CacheKeyModel,
    pub value: Seq<u8>,
}

/// The entries after a sequence of insertions, first to last.
pub open spec fn inserted_all(
    entries: Seq<CacheEntryModel>,
    insertions: Seq<Insertion>,
    max_entries: nat,
    max_bytes: nat,
) -> Seq<CacheEntryModel>
    decreases insertions.len(),
{
    if insertions.len() == 0 {
        entries
    } else {
        inserted(
            inserted_all(entries, insertions.drop_last(), max_entries, max_bytes),
            insertions.last().key,
            insertions.last().value,
            max_entries,
            max_bytes,
        )
    }
}

proof fn lemma_total_size_push(entries: Seq<CacheEntryModel>, entry: CacheEntryModel)
    ensures
        total_size(entries.push(entry)) == total_size(entries) + entry.value.len(),
{
    assert(entries.push(entry).drop_last() =~= entries);
}

proof fn lemma_total_size_drop_first(entries: Seq<CacheEntryModel>)
    requires
        entries.len() > 0,
    ensures
        total_size(entries) == total_size(entries.drop_first()) + entries.first().value.len(),
    decreases entries.len(),
{
    if entries.len() == 1 {
        assert(entries.drop_last() =~= Seq::empty());
        assert(entries.drop_first() =~= Seq::empty());
    } else {
        lemma_total_size_drop_first(entries.drop_last());
        assert(entries.drop_last().drop_first() =~= entries.drop_first().drop_last());
    }
}

/// Taking a key out leaves a part of the entries, in their order, that
/// does not hold the key and holds every entry under another key.
proof fn lemma_without_key(entries: Seq<CacheEntryModel>, key: CacheKeyModel)
    ensures
        without_key(entries, key).len() <= entries.len(),
        total_size(without_key(entries, key)) <= total_size(entries),
        lookup(without_key(entries, key), key) is None,
        forall|other: CacheKeyModel|
            other != key ==> lookup(without_key(entries, key), other) == lookup(entries, other),
        forall|i: int|
            0 <= i < without_key(entries, key).len() ==> (#[trigger] without_key(entries, key)[i]).key
                != key,
        distinct_keys(entries) ==> distinct_keys(without_key(entries, key)),
        lookup(entries, key) is None ==> without_key(entries, key) == entries,
    decreases entries.len(),
{
    if entries.len() > 0 {
        let rest = entries.drop_last();
        lemma_without_key(rest, key);
        lemma_keys_come_from(rest, key);
        if entries.last().key != key {
            lemma_total_size_push(without_key(rest, key), entries.last());
            assert(without_key(entries, key).drop_last() =~= without_key(rest, key));
            assert forall|other: CacheKeyModel| other != key implies lookup(
                without_key(entries, key),
                other,
            ) == lookup(entries, other) by {
                let out = without_key(entries, key);
                assert(out.last() == entries.last());
                assert(out.drop_last() == without_key(rest, key));
                assert(lookup(without_key(rest, key), other) == lookup(rest, other));
            }
            if distinct_keys(entries) {
                assert(distinct_keys(rest));
                let out = without_key(entries, key);
                assert forall|i: int, j: int| 0 <= i < j < out.len() implies out[i].key
                    != out[j].key by {
                    if j == out.len() - 1 {
                        let k = choose|k: int|
                            0 <= k < rest.len() && rest[k] == without_key(rest, key)[i];
                        assert(entries[k].key != entries[entries.len() - 1].key);
                    }
                }
            }
            if lookup(entries, key) is None {
                assert(without_key(entries, key) =~= entries);
            }
        } else {
            if distinct_keys(entries) {
                assert(distinct_keys(rest));
            }
            assert forall|other: CacheKeyModel| other != key implies lookup(
                without_key(entries, key),
                other,
            ) == lookup(entries, other) by {
                assert(lookup(without_key(rest, key), other) == lookup(rest, other));
            }
        }
    }
}

/// Every entry that is left after a key was taken out was there before.
proof fn lemma_keys_come_from(entries: Seq<CacheEntryModel>, key: CacheKeyModel)
    ensures
        forall|i: int|
            0 <= i < without_key(entries, key).len() ==> exists|k: int|
                0 <= k < entries.len() && entries[k] == #[trigger] without_key(entries, key)[i],
    decreases entries.len(),
{
    if entries.len() > 0 {
        let rest = entries.drop_last();
        lemma_keys_come_from(rest, key);
        let out = without_key(entries, key);
        assert forall|i: int| 0 <= i < out.len() implies exists|k: int|
            0 <= k < entries.len() && entries[k] == #[trigger] out[i] by {
            if entries.last().key != key && i == out.len() - 1 {
                assert(entries[entries.len() - 1] == out[i]);
            } else {
                let k = choose|k: int| 0 <= k < rest.len() && rest[k] == without_key(rest, key)[i];
                assert(entries[k] == out[i]);
            }
        }
    }
}

/// Looking a key up finds the one entry that is filed under it.
proof fn lemma_lookup_finds(entries: Seq<CacheEntryModel>, key: CacheKeyModel)
    ensures
        lookup(entries, key) is None <==> forall|i: int|
            0 <= i < entries.len() ==> (#[trigger] entries[i]).key != key,
        forall|i: int|
            #![trigger entries[i]]
            0 <= i < entries.len() && entries[i].key == key && distinct_keys(entries) ==> lookup(
                entries,
                key,
            ) == Some(entries[i].value),
    decreases entries.len(),
{
    if entries.len() > 0 {
        let rest = entries.drop_last();
        lemma_lookup_finds(rest, key);
        if entries.last().key == key {
            assert(entries[entries.len() - 1].key == key);
        } else {
            assert forall|i: int| 0 <= i < entries.len() && (#[trigger] entries[i]).key == key
                && distinct_keys(entries) implies lookup(entries, key) == Some(entries[i].value) by {
                assert(rest[i] == entries[i]);
                assert(distinct_keys(rest));
            }
            if lookup(rest, key) is None {
                assert forall|i: int| 0 <= i < entries.len() implies (#[trigger] entries[i]).key
                    != key by {
                    if i < rest.len() {
                        assert(rest[i] == entries[i]);
                    }
                }
            } else {
                let i = choose|i: int| 0 <= i < rest.len() && (#[trigger] rest[i]).key == key;
                assert(entries[i].key == key);
            }
        }
    }
}

/// Eviction leaves the youngest entries, in their order, and ends with
/// room for the incoming value, if that value can be cached at all.
proof fn lemma_evicted(
    entries: Seq<CacheEntryModel>,
    incoming: nat,
    max_entries: nat,
    max_bytes: nat,
)
    ensures
        exists|n: int|
            0 <= n <= entries.len() && #[trigger] entries.skip(n) == evicted(
                entries,
                incoming,
                max_entries,
                max_bytes,
            ),
        cacheable(incoming, max_entries, max_bytes) ==> has_room(
            evicted(entries, incoming, max_entries, max_bytes),
            incoming,
            max_entries,
            max_bytes,
        ),
        has_room(entries, incoming, max_entries, max_bytes) ==> evicted(
            entries,
            incoming,
            max_entries,
            max_bytes,
        ) == entries,
    decreases entries.len(),
{
    if entries.len() == 0 || has_room(entries, incoming, max_entries, max_bytes) {
        assert(entries.skip(0) =~= entries);
    } else {
        let rest = entries.drop_first();
        lemma_evicted(rest, incoming, max_entries, max_bytes);
        let n = choose|n: int|
            0 <= n <= rest.len() && #[trigger] rest.skip(n) == evicted(
                rest,
                incoming,
                max_entries,
                max_bytes,
            );
        assert(entries.skip(n + 1) =~= rest.skip(n));
    }
}

/// A part of the entries taken from some place on keeps what the whole
/// kept: distinct keys, and no more entries or bytes than before.
proof fn lemma_skip_keeps(entries: Seq<CacheEntryModel>, n: int)
    requires
        0 <= n <= entries.len(),
    ensures
        total_size(entries.skip(n)) <= total_size(entries),
        distinct_keys(entries) ==> distinct_keys(entries.skip(n)),
        forall|key: CacheKeyModel|
            distinct_keys(entries) && lookup(entries.skip(n), key) is Some ==> lookup(
                entries.skip(n),
                key,
            ) == lookup(entries, key),
        forall|key: CacheKeyModel|
            lookup(entries, key) is None ==> lookup(entries.skip(n), key) is None,
    decreases n,
{
    if n == 0 {
        assert(entries.skip(0) =~= entries);
    } else {
        lemma_skip_keeps(entries, n - 1);
        let before = entries.skip(n - 1);
        assert(before.drop_first() =~= entries.skip(n));
        lemma_total_size_drop_first(before);
        assert forall|key: CacheKeyModel|
            distinct_keys(entries) && lookup(entries.skip(n), key) is Some implies lookup(
            entries.skip(n),
            key,
        ) == lookup(entries, key) by {
            let part = entries.skip(n);
            lemma_lookup_finds(part, key);
            lemma_lookup_finds(before, key);
            let i = choose|i: int| 0 <= i < part.len() && (#[trigger] part[i]).key == key;
            assert(before[i + 1] == part[i]);
            assert(distinct_keys(before));
        }
        assert forall|key: CacheKeyModel| lookup(entries, key) is None implies lookup(
            entries.skip(n),
            key,
        ) is None by {
            let part = entries.skip(n);
            lemma_lookup_finds(part, key);
            lemma_lookup_finds(before, key);
            if lookup(part, key) is Some {
                let i = choose|i: int| 0 <= i < part.len() && (#[trigger] part[i]).key == key;
                assert(before[i + 1] == part[i]);
            }
        }
    }
}

/// After an insertion the entries keep both limits and file nothing twice.
pub proof fn lemma_inserted_within_limits(
    entries: Seq<CacheEntryModel>,
    key: CacheKeyModel,
    value: Seq<u8>,
    max_entries: nat,
    max_bytes: nat,
)
    requires
        within_limits(entries, max_entries, max_bytes),
    ensures
        within_limits(inserted(entries, key, value, max_entries, max_bytes), max_entries, max_bytes),
{
    if cacheable(value.len(), max_entries, max_bytes) {
        let cleared = without_key(entries, key);
        lemma_without_key(entries, key);
        lemma_evicted(cleared, value.len(), max_entries, max_bytes);
        let kept = evicted(cleared, value.len(), max_entries, max_bytes);
        let n = choose|n: int| 0 <= n <= cleared.len() && #[trigger] cleared.skip(n) == kept;
        lemma_skip_keeps(cleared, n);
        let entry = CacheEntryModel { key, value };
        lemma_total_size_push(kept, entry);
        let out = kept.push(entry);
        assert forall|i: int, j: int| 0 <= i < j < out.len() implies out[i].key != out[j].key by {
            if j == out.len() - 1 {
                assert(kept[i] == cleared[i + n]);
            }
        }
    }
}

/// Cache bound compliance: whatever is inserted, and in whatever order, the
/// cache never holds more entries than `max_entries` nor more bytes than
/// `max_bytes`, and a value that alone is larger than `max_bytes` is never
/// in it.
pub proof fn lemma_cache_bounds(
    entries: Seq<CacheEntryModel>,
    insertions: Seq<Insertion>,
    max_entries: nat,
    max_bytes: nat,
)
    requires
        within_limits(entries, max_entries, max_bytes),
    ensures
        within_limits(
            inserted_all(entries, insertions, max_entries, max_bytes),
            max_entries,
            max_bytes,
        ),
        forall|i: int|
            #![trigger inserted_all(entries, insertions, max_entries, max_bytes)[i]]
            0 <= i < inserted_all(entries, insertions, max_entries, max_bytes).len()
                ==> inserted_all(entries, insertions, max_entries, max_bytes)[i].value.len()
                <= max_bytes,
    decreases insertions.len(),
{
    if insertions.len() > 0 {
        let before = inserted_all(entries, insertions.drop_last(), max_entries, max_bytes);
        lemma_cache_bounds(entries, insertions.drop_last(), max_entries, max_bytes);
        lemma_inserted_within_limits(
            before,
            insertions.last().key,
            insertions.last().value,
            max_entries,
            max_bytes,
        );
    }
    let out = inserted_all(entries, insertions, max_entries, max_bytes);
    assert forall|i: int| 0 <= i < out.len() implies (#[trigger] out[i]).value.len()
        <= max_bytes by {
        lemma_entry_size_bounded(out, i);
    }
}

/// No single entry holds more bytes than all of them together.
proof fn lemma_entry_size_bounded(entries: Seq<CacheEntryModel>, i: int)
    requires
        0 <= i < entries.len(),
    ensures
        entries[i].value.len() <= total_size(entries),
    decreases entries.len(),
{
    if i < entries.len() - 1 {
        lemma_entry_size_bounded(entries.drop_last(), i);
    }
}

/// What was inserted is what is found: after `value` was filed under
/// `key`, looking `key` up gives `value`, provided the value can be cached.
pub proof fn lemma_get_after_insert(
    entries: Seq<CacheEntryModel>,
    key: CacheKeyModel,
    value: Seq<u8>,
    max_entries: nat,
    max_bytes: nat,
)
    requires
        cacheable(value.len(), max_entries, max_bytes),
    ensures
        lookup(inserted(entries, key, value, max_entries, max_bytes), key) == Some(value),
{
    let kept = evicted(without_key(entries, key), value.len(), max_entries, max_bytes);
    assert(kept.push(CacheEntryModel { key, value }).last().key == key);
}

/// The later of two insertions under one key is the one that is found.
pub proof fn lemma_get_after_second_insert(
    entries: Seq<CacheEntryModel>,
    key: CacheKeyModel,
    first: Seq<u8>,
    second: Seq<u8>,
    max_entries: nat,
    max_bytes: nat,
)
    requires
        cacheable(second.len(), max_entries, max_bytes),
    ensures
        lookup(
            inserted(
                inserted(entries, key, first, max_entries, max_bytes),
                key,
                second,
                max_entries,
                max_bytes,
            ),
            key,
        ) == Some(second),
{
    lemma_get_after_insert(
        inserted(entries, key, first, max_entries, max_bytes),
        key,
        second,
        max_entries,
        max_bytes,
    );
}

/// An entry stays until it is evicted: an insertion under another key
/// either leaves what is found under `key` as it was or, where room had to
/// be made, takes it away; and it leaves it as it was whenever there was
/// room.
pub proof fn lemma_get_until_eviction(
    entries: Seq<CacheEntryModel>,
    key: CacheKeyModel,
    other: CacheKeyModel,
    value: Seq<u8>,
    max_entries: nat,
    max_bytes: nat,
)
    requires
        distinct_keys(entries),
        other != key,
    ensures
        lookup(inserted(entries, other, value, max_entries, max_bytes), key) == lookup(entries, key)
            || lookup(inserted(entries, other, value, max_entries, max_bytes), key) is None,
        has_room(without_key(entries, other), value.len(), max_entries, max_bytes) ==> lookup(
            inserted(entries, other, value, max_entries, max_bytes),
            key,
        ) == lookup(entries, key),
{
    if cacheable(value.len(), max_entries, max_bytes) {
        let cleared = without_key(entries, other);
        lemma_without_key(entries, other);
        lemma_evicted(cleared, value.len(), max_entries, max_bytes);
        let kept = evicted(cleared, value.len(), max_entries, max_bytes);
        let n = choose|n: int| 0 <= n <= cleared.len() && #[trigger] cleared.skip(n) == kept;
        lemma_skip_keeps(cleared, n);
        let out = kept.push(CacheEntryModel { key: other, value });
        assert(out.drop_last() =~= kept);
        assert(lookup(out, key) == lookup(kept, key));
    }
}

/// Taking a key out of entries that file nothing twice removes the one
/// entry that is filed under it.
proof fn lemma_without_key_removes(entries: Seq<CacheEntryModel>, key: CacheKeyModel, at: int)
    requires
        distinct_keys(entries),
        0 <= at < entries.len(),
        entries[at].key == key,
    ensures
        without_key(entries, key) == entries.remove(at),
        total_size(entries.remove(at)) + entries[at].value.len() == total_size(entries),
    decreases entries.len(),
{
    let rest = entries.drop_last();
    if at == entries.len() - 1 {
        assert(distinct_keys(rest));
        lemma_lookup_finds(rest, key);
        lemma_without_key(rest, key);
        assert(entries.remove(at) =~= rest);
    } else {
        assert(distinct_keys(rest));
        lemma_without_key_removes(rest, key, at);
        assert(entries.remove(at) =~= rest.remove(at).push(entries.last()));
        lemma_total_size_push(rest.remove(at), entries.last());
    }
}

/// A cached response.
struct CacheEntry {
    key: CacheKey,
    value: Vec<u8>,
}

/// The entries as the contracts speak of them.
spec fn models(entries: Seq<CacheEntry>) -> Seq<CacheEntryModel> {
    Seq::new(entries.len(), |i: int| CacheEntryModel { key: entries[i].key@, value: entries[i].value@ })
}

/// The place of the entry under `key`, if there is one.
fn position(entries: &Vec<CacheEntry>, key: &CacheKey) -> (at: Option<usize>)
    ensures
        match at {
            Some(i) => i < entries.len() && models(entries@)[i as int].key == key@,
            None => forall|i: int|
                0 <= i < entries.len() ==> (#[trigger] models(entries@)[i]).key != key@,
        },
{
    let mut i: usize = 0;
    while i < entries.len()
        invariant
            i <= entries.len(),
            forall|k: int| 0 <= k < i ==> (#[trigger] models(entries@)[k]).key != key@,
        decreases entries.len() - i,
    {
        if entries[i].key.same(key) {
            return Some(i);
        }
        i += 1;
    }
    None
}

/// Drops the entry under `key`, if there is one.
fn remove_key(entries: &mut Vec<CacheEntry>, total: &mut usize, key: &CacheKey)
    requires
        distinct_keys(models(old(entries)@)),
        *old(total) == total_size(models(old(entries)@)),
    ensures
        models(final(entries)@) == without_key(models(old(entries)@), key@),
        *final(total) == total_size(models(final(entries)@)),
{
    match position(entries, key) {
        Some(at) => {
            proof {
                lemma_without_key_removes(models(entries@), key@, at as int);
                lemma_entry_size_bounded(models(entries@), at as int);
            }
            let entry = entries.remove(at);
            *total = *total - entry.value.len();
            assert(models(entries@) =~= models(old(entries)@).remove(at as int));
        },
        None => {
            proof {
                lemma_lookup_finds(models(entries@), key@);
                lemma_without_key(models(entries@), key@);
            }
        },
    }
}

/// Drops the oldest entries until there is room for `incoming` bytes more.
fn make_room(
    entries: &mut Vec<CacheEntry>,
    total: &mut usize,
    incoming: usize,
    max_entries: usize,
    max_bytes: usize,
)
    requires
        *old(total) == total_size(models(old(entries)@)),
        incoming <= max_bytes,
    ensures
        models(final(entries)@) == evicted(
            models(old(entries)@),
            incoming as nat,
            max_entries as nat,
            max_bytes as nat,
        ),
        *final(total) == total_size(models(final(entries)@)),
{
    while entries.len() > 0 && (entries.len() >= max_entries || *total > max_bytes - incoming)
        invariant
            incoming <= max_bytes,
            *total == total_size(models(entries@)),
            evicted(models(entries@), incoming as nat, max_entries as nat, max_bytes as nat)
                == evicted(
                models(old(entries)@),
                incoming as nat,
                max_entries as nat,
                max_bytes as nat,
            ),
        decreases entries.len(),
    {
        let ghost before = models(entries@);
        proof {
            lemma_total_size_drop_first(before);
        }
        let entry = entries.remove(0);
        *total = *total - entry.value.len();
        assert(models(entries@) =~= before.drop_first());
    }
}

/// The response cache.
///
/// It never holds more than `max_entries` entries nor more than
/// `max_bytes` bytes, and at most one entry for a key. Entries leave in
/// the order in which they came.
pub struct ResponseCache {
    max_entries: usize,
    max_bytes: usize,
    total_bytes: usize,
    entries: Vec<CacheEntry>,
}

impl View for ResponseCache {
    type V = Seq<CacheEntryModel>;

    /// The entries, oldest first.
    closed spec fn view(&self) -> Seq<CacheEntryModel> {
        models(self.entries@)
    }
}

impl ResponseCache {
    #[verifier::type_invariant]
    spec fn well_formed(&self) -> bool {
        &&& within_limits(self@, self.max_entries as nat, self.max_bytes as nat)
        &&& self.total_bytes == total_size(self@)
    }

    /// The most entries the cache holds.
    pub closed spec fn entry_limit(&self) -> nat {
        self.max_entries as nat
    }

    /// The most bytes the cache holds.
    pub closed spec fn byte_limit(&self) -> nat {
        self.max_bytes as nat
    }

    /// An empty cache with the given limits.
    pub fn new(max_entries: usize, max_bytes: usize) -> (cache: ResponseCache)
        ensures
            cache@ == Seq::<CacheEntryModel>::empty(),
            cache.entry_limit() == max_entries,
            cache.byte_limit() == max_bytes,
    {
        let entries: Vec<CacheEntry> = Vec::new();
        assert(models(entries@) =~= Seq::<CacheEntryModel>::empty());
        ResponseCache { max_entries, max_bytes, total_bytes: 0, entries }
    }

    /// The number of entries, which is never above the limit.
    pub fn len(&self) -> (n: usize)
        ensures
            n == self@.len(),
            n <= self.entry_limit(),
    {
        proof {
            use_type_invariant(self);
        }
        self.entries.len()
    }

    /// The number of bytes that the entries hold together, which is never
    /// above the limit.
    pub fn size(&self) -> (n: usize)
        ensures
            n == total_size(self@),
            n <= self.byte_limit(),
    {
        proof {
            use_type_invariant(self);
        }
        self.total_bytes
    }

    /// The response cached under `key`, if there is one.
    pub fn get(&self, key: &CacheKey) -> (found: Option<&Vec<u8>>)
        ensures
            match found {
                Some(value) => lookup(self@, key@) == Some(value@),
                None => lookup(self@, key@) is None,
            },
    {
        proof {
            use_type_invariant(self);
            lemma_lookup_finds(self@, key@);
        }
        match position(&self.entries, key) {
            Some(i) => Some(&self.entries[i].value),
            None => None,
        }
    }

    /// Files `value` under `key` and says whether it was stored.
    ///
    /// A value that alone is larger than the byte limit is not stored, and
    /// nothing is stored in a cache that may hold no entry; the cache is
    /// then unchanged. Otherwise an older entry under the same key is
    /// dropped, the oldest entries leave until both limits hold with the
    /// new entry, and the new entry becomes the youngest.
    pub fn insert(&mut self, key: CacheKey, value: Vec<u8>) -> (stored: bool)
        ensures
            final(self).entry_limit() == old(self).entry_limit(),
            final(self).byte_limit() == old(self).byte_limit(),
            stored == cacheable(value@.len(), old(self).entry_limit(), old(self).byte_limit()),
            final(self)@ == inserted(
                old(self)@,
                key@,
                value@,
                old(self).entry_limit(),
                old(self).byte_limit(),
            ),
            within_limits(final(self)@, final(self).entry_limit(), final(self).byte_limit()),
    {
        proof {
            use_type_invariant(&*self);
            lemma_inserted_within_limits(
                self@,
                key@,
                value@,
                self.max_entries as nat,
                self.max_bytes as nat,
            );
        }
        if value.len() > self.max_bytes || self.max_entries == 0 {
            return false;
        }
        let mut taken = ResponseCache::new(self.max_entries, self.max_bytes);
        std::mem::swap(self, &mut taken);
        let ResponseCache { max_entries, max_bytes, total_bytes, entries } = taken;
        let mut entries = entries;
        let mut total = total_bytes;
        remove_key(&mut entries, &mut total, &key);
        make_room(&mut entries, &mut total, value.len(), max_entries, max_bytes);
        proof {
            lemma_evicted(
                without_key(old(self)@, key@),
                value@.len(),
                max_entries as nat,
                max_bytes as nat,
            );
            lemma_total_size_push(models(entries@), CacheEntryModel { key: key@, value: value@ });
        }
        let ghost kept = models(entries@);
        total = total + value.len();
        entries.push(CacheEntry { key, value });
        assert(models(entries@) =~= kept.push(CacheEntryModel { key: key@, value: value@ }));
        *self = ResponseCache { max_entries, max_bytes, total_bytes: total, entries };
        true
    }
}

} // verus!
