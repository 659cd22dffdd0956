//! The registry of pending transactions: which transactions are known to
//! wait for a block, and which of them a reorganisation has thrown back.

use dashmap::DashMap;
use vstd::prelude::*;
use crate::primitives::H256;

verus! {

/// What the registry holds of a transaction.
#[derive(Debug, Clone, Copy, PartialEq, Eq, Structural)]
pub enum Waiting {
    /// Seen by a backend and in no block yet.
    Pending,
    /// Thrown out of the chain by a reorganisation.
    Orphaned,
}

/// What is heard of a transaction.
#[derive(Debug, Clone, Copy, PartialEq, Eq, Structural)]
pub enum TxNews {
    Pending,
    Confirmed,
    Orphaned,
}

/// One transaction in the registry, as the contracts speak of it.
pub struct WaitingTx {
    pub hash: Seq<u8>,
    pub state: Waiting,
    /// When the registry last heard of the transaction, in milliseconds.
    pub seen_at: u64,
}

/// Where the transaction `hash` stands among the entries, if it does.
pub open spec fn place_of(entries: Seq<WaitingTx>, hash: Seq<u8>) -> Option<int> {
    if exists|i: int| 0 <= i < entries.len() && (#[trigger] entries[i]).hash == hash {
        Some(choose|i: int| 0 <= i < entries.len() && (#[trigger] entries[i]).hash == hash)
    } else {
        None
    }
}

/// Whether no transaction stands twice among the entries.
pub open spec fn each_once(entries: Seq<WaitingTx>) -> bool {
    forall|i: int, j: int|
        0 <= i < j < entries.len() ==> (#[trigger] entries[i]).hash != (#[trigger] entries[j]).hash
}

/// The entries with one more, the oldest having left where there was no
/// room.
pub open spec fn admitted(
    entries: Seq<WaitingTx>,
    entry: WaitingTx,
    capacity: nat,
) -> Seq<WaitingTx> {
    if capacity == 0 {
        entries
    } else if entries.len() >= capacity {
        entries.drop_first().push(entry)
    } else {
        entries.push(entry)
    }
}

/// The entries after news of the transaction `hash` that came at time
/// `now`.
///
/// A pending transaction is entered where it is not known, and is pending
/// again where it was orphaned. A confirmed transaction leaves. An orphaned
/// transaction is marked so, and entered where it is not known. Whatever
/// is entered or marked was last heard of now.
pub open spec fn after_news(
    entries: Seq<WaitingTx>,
    hash: Seq<u8>,
    news: TxNews,
    now: u64,
    capacity: nat,
) -> Seq<WaitingTx> {
    let state = if news == TxNews::Pending {
        Waiting::Pending
    } else {
        Waiting::Orphaned
    };
    match (news, place_of(entries, hash)) {
        (TxNews::Confirmed, Some(at)) => entries.remove(at),
        (TxNews::Confirmed, None) => entries,
        (_, Some(at)) => entries.update(at, WaitingTx { hash, state, seen_at: now }),
        (_, None) => admitted(entries, WaitingTx { hash, state, seen_at: now }, capacity),
    }
}

/// Whether news changes what the registry holds of the transaction, so
/// that the subscribers are to hear of it.
pub open spec fn is_news(entries: Seq<WaitingTx>, hash: Seq<u8>, news: TxNews) -> bool {
    match (news, place_of(entries, hash)) {
        (TxNews::Confirmed, at) => at is Some,
        (TxNews::Pending, Some(at)) => entries[at].state != Waiting::Pending,
        (TxNews::Orphaned, Some(at)) => entries[at].state != Waiting::Orphaned,
        (_, None) => true,
    }
}

/// Whether the registry has not heard of a transaction for longer than
/// `max_age`.
pub open spec fn is_stale(entry: WaitingTx, now: u64, max_age: u64) -> bool {
    now - entry.seen_at > max_age
}

/// The entries that are not stale, in their order.
pub open spec fn unexpired(entries: Seq<WaitingTx>, now: u64, max_age: u64) -> Seq<WaitingTx> {
    entries.filter(|entry: WaitingTx| !is_stale(entry, now, max_age))
}

/// What the registry holds of one transaction.
#[derive(Debug, Clone, Copy, PartialEq, Eq, Structural)]
pub struct Noted {
    pub state: Waiting,
    /// When the registry last heard of the transaction, in milliseconds.
    pub seen_at: u64,
}

/// The map that holds the transactions: what is held of each, by its
/// hash.
pub type TxMap = DashMap<[u8; 32], Noted>;

/// The transactions as the contracts speak of them: what is held of each,
/// by the bytes of its hash.
pub type Notes = Map<Seq<u8>, Noted>;

/// What a `DashMap` of transactions by the bytes of their hashes holds.
pub uninterp spec fn notes_in(map: TxMap) -> Notes;

/// A map that holds nothing.
///
/// Trusted: `DashMap::new`, which makes an empty map.
#[verifier::external_body]
fn new_notes() -> (made: TxMap)
    ensures
        notes_in(made).dom() == Set::<Seq<u8>>::empty(),
{
    DashMap::new()
}

/// What the map holds for a hash.
///
/// Trusted: `DashMap::get`, which gives a reference to the entry whose key
/// equals the given one, if there is one; the value is copied out of it.
/// The key is the array of the bytes of the hash.
#[verifier::external_body]
fn note_of(map: &TxMap, hash: &H256) -> (note: Option<Noted>)
    ensures
        note == (if notes_in(*map).dom().contains(hash@) {
            Some(notes_in(*map)[hash@])
        } else {
            None
        }),
{
    map.get(&hash.bytes).map(|entry| *entry.value())
}

/// Enters a value for a hash.
///
/// Trusted: `DashMap::insert`, which enters the value under the key and
/// puts it in the place of an older value under an equal key.
#[verifier::external_body]
fn set_note(map: &mut TxMap, hash: H256, note: Noted)
    ensures
        notes_in(*final(map)) == notes_in(*old(map)).insert(hash@, note),
{
    map.insert(hash.bytes, note);
}

/// Takes the entry for a hash out.
///
/// Trusted: `DashMap::remove`, which removes the entry whose key equals
/// the given one, if there is one, and leaves the other entries as they
/// are.
#[verifier::external_body]
fn drop_note(map: &mut TxMap, hash: &H256)
    ensures
        notes_in(*final(map)) == notes_in(*old(map)).remove(hash@),
{
    map.remove(&hash.bytes);
}

/// The entries that a map holds for the hashes, in the order of the
/// hashes.
spec fn entries_of(order: Seq<H256>, notes: Notes) -> Seq<WaitingTx> {
    Seq::new(
        order.len(),
        |i: int|
            WaitingTx {
                hash: order[i]@,
                state: notes[order[i]@].state,
                seen_at: notes[order[i]@].seen_at,
            },
    )
}

/// Whether the map holds the transactions with these hashes and no
/// others.
spec fn same_transactions(order: Seq<H256>, notes: Notes) -> bool {
    &&& forall|i: int| 0 <= i < order.len() ==> notes.dom().contains(#[trigger] order[i]@)
    &&& forall|h: Seq<u8>| #[trigger]
        notes.dom().contains(h) ==> exists|i: int| 0 <= i < order.len() && #[trigger] order[i]@ == h
}

/// Each entry among those that are not stale was among the entries, and
/// two of them stand as they stood.
proof fn lemma_unexpired_keeps_order(entries: Seq<WaitingTx>, now: u64, max_age: u64)
    ensures
        unexpired(entries, now, max_age).len() <= entries.len(),
        each_once(entries) ==> each_once(unexpired(entries, now, max_age)),
        forall|i: int|
            0 <= i < unexpired(entries, now, max_age).len() ==> exists|k: int|
                i <= k < entries.len() && entries[k] == #[trigger] unexpired(
                    entries,
                    now,
                    max_age,
                )[i],
    decreases entries.len(),
{
    reveal(Seq::filter);
    if entries.len() > 0 {
        let rest = entries.drop_last();
        lemma_unexpired_keeps_order(rest, now, max_age);
        let kept = unexpired(rest, now, max_age);
        let out = unexpired(entries, now, max_age);
        assert forall|i: int| 0 <= i < out.len() implies exists|k: int|
            i <= k < entries.len() && entries[k] == #[trigger] out[i] by {
            if i < kept.len() {
                let k = choose|k: int| i <= k < rest.len() && rest[k] == kept[i];
                assert(entries[k] == out[i]);
            } else {
                assert(entries[entries.len() - 1] == out[i]);
            }
        }
        if each_once(entries) {
            assert(each_once(rest)) by {
                assert forall|i: int, j: int| 0 <= i < j < rest.len() implies (
                #[trigger] rest[i]).hash != (#[trigger] rest[j]).hash by {
                    assert(entries[i].hash != entries[j].hash);
                }
            }
            assert forall|i: int, j: int| 0 <= i < j < out.len() implies (#[trigger] out[i]).hash
                != (#[trigger] out[j]).hash by {
                if j < kept.len() {
                    assert(kept[i].hash != kept[j].hash);
                } else {
                    let k = choose|k: int| i <= k < rest.len() && rest[k] == kept[i];
                    assert(entries[k].hash != entries[entries.len() - 1].hash);
                }
            }
        }
    }
}

/// The registry of pending transactions. It holds each transaction once,
/// and no more transactions than it has room for; the oldest leave first,
/// and those it has not heard of for too long can be put out.
pub struct PendingTransactions {
    capacity: usize,
    max_age: u64,
    /// The hashes of the transactions, oldest first.
    order: Vec<H256>,
    /// What is held of each transaction.
    notes: TxMap,
}

impl View for PendingTransactions {
    type V = Seq<WaitingTx>;

    /// The entries, oldest first.
    closed spec fn view(&self) -> Seq<WaitingTx> {
        entries_of(self.order@, notes_in(self.notes))
    }
}

impl PendingTransactions {
    #[verifier::type_invariant]
    spec fn well_formed(&self) -> bool {
        &&& self.order.len() <= self.capacity
        &&& each_once(self@)
        &&& same_transactions(self.order@, notes_in(self.notes))
    }

    /// The most transactions the registry holds.
    pub closed spec fn limit(&self) -> nat {
        self.capacity as nat
    }

    /// The milliseconds that a transaction stays without the registry
    /// hearing of it.
    pub closed spec fn age_limit(&self) -> u64 {
        self.max_age
    }

    /// An empty registry with room for `capacity` transactions, each of
    /// which stays `max_age` milliseconds after the registry last heard of
    /// it.
    pub fn new(capacity: usize, max_age: u64) -> (registry: PendingTransactions)
        ensures
            registry@ == Seq::<WaitingTx>::empty(),
            registry.limit() == capacity,
            registry.age_limit() == max_age,
    {
        let order: Vec<H256> = Vec::new();
        let notes = new_notes();
        assert(entries_of(order@, notes_in(notes)) =~= Seq::<WaitingTx>::empty());
        PendingTransactions { capacity, max_age, order, notes }
    }

    /// The number of transactions in the registry, none of which stands
    /// twice.
    pub fn len(&self) -> (n: usize)
        ensures
            n == self@.len(),
            n <= self.limit(),
            each_once(self@),
    {
        proof {
            use_type_invariant(self);
        }
        self.order.len()
    }

    fn position(&self, hash: &H256) -> (place: Option<usize>)
        ensures
            place_of(self@, hash@) == (match place {
                Some(p) => Some(p as int),
                None => None,
            }),
            place matches Some(p) ==> p < self@.len() && self@[p as int].hash == hash@,
    {
        proof {
            use_type_invariant(self);
        }
        let mut i: usize = 0;
        while i < self.order.len()
            invariant
                i <= self.order.len(),
                self@.len() == self.order.len(),
                each_once(self@),
                forall|k: int| 0 <= k < i ==> (#[trigger] self@[k]).hash != hash@,
            decreases self.order.len() - i,
        {
            if self.order[i].same(hash) {
                proof {
                    assert(self@[i as int].hash == hash@);
                    let at = place_of(self@, hash@)->0;
                    if at < i {
                        assert(self@[at].hash != self@[i as int].hash);
                    } else if i < at {
                        assert(self@[i as int].hash != self@[at].hash);
                    }
                }
                return Some(i);
            }
            assert(self@[i as int].hash != hash@);
            i += 1;
        }
        None
    }

    /// What the registry holds of the transaction `hash`, if anything.
    pub fn get(&self, hash: &H256) -> (state: Option<Waiting>)
        ensures
            state == (match place_of(self@, hash@) {
                Some(at) => Some(self@[at].state),
                None => None,
            }),
    {
        proof {
            use_type_invariant(self);
        }
        match note_of(&self.notes, hash) {
            Some(note) => {
                proof {
                    let i = choose|i: int| 0 <= i < self.order.len() && self.order[i]@ == hash@;
                    assert(self@[i].hash == hash@);
                }
                Some(note.state)
            },
            None => {
                assert forall|i: int| 0 <= i < self@.len() implies (#[trigger] self@[i]).hash
                    != hash@ by {
                    assert(notes_in(self.notes).dom().contains(self.order[i]@));
                }
                None
            },
        }
    }

    /// Puts out the transactions that the registry has not heard of for
    /// longer than its age limit, at time `now`.
    pub fn expire(&mut self, now: u64)
        ensures
            final(self).limit() == old(self).limit(),
            final(self).age_limit() == old(self).age_limit(),
            final(self)@ == unexpired(old(self)@, now, old(self).age_limit()),
    {
        proof {
            use_type_invariant(&*self);
            lemma_unexpired_keeps_order(self@, now, self.max_age);
        }
        let mut taken = PendingTransactions::new(self.capacity, self.max_age);
        std::mem::swap(self, &mut taken);
        let PendingTransactions { capacity, max_age, order, notes } = taken;
        let mut notes = notes;
        let ghost held = notes_in(notes);
        let ghost all = entries_of(order@, held);
        let ghost keep = |entry: WaitingTx| !is_stale(entry, now, max_age);
        let mut kept: Vec<H256> = Vec::new();
        let mut i: usize = 0;
        assert(all.take(0) =~= Seq::<WaitingTx>::empty());
        assert(entries_of(kept@, held) =~= all.take(0).filter(keep));
        while i < order.len()
            invariant
                i <= order.len(),
                all == entries_of(order@, held),
                each_once(all),
                same_transactions(order@, held),
                keep == |entry: WaitingTx| !is_stale(entry, now, max_age),
                kept.len() <= i,
                entries_of(kept@, held) == all.take(i as int).filter(keep),
                forall|k: int|
                    0 <= k < kept.len() ==> exists|j: int|
                        0 <= j < i && order[j]@ == (#[trigger] kept[k])@,
                forall|h: Seq<u8>| #[trigger]
                    notes_in(notes).dom().contains(h) ==> held.dom().contains(h) && notes_in(
                        notes,
                    )[h] == held[h],
                forall|k: int|
                    0 <= k < kept.len() ==> notes_in(notes).dom().contains((#[trigger] kept[k])@),
                forall|k: int|
                    i <= k < order.len() ==> notes_in(notes).dom().contains((#[trigger] order[k])@),
                forall|h: Seq<u8>| #[trigger]
                    notes_in(notes).dom().contains(h) ==> (exists|k: int|
                        0 <= k < kept.len() && (#[trigger] kept[k])@ == h) || (exists|k: int|
                        i <= k < order.len() && (#[trigger] order[k])@ == h),
            decreases order.len() - i,
        {
            let ghost done = entries_of(kept@, held);
            let ghost kept_before = kept@;
            let ghost notes_before = notes_in(notes);
            proof {
                assert(all.take(i + 1).drop_last() =~= all.take(i as int));
                reveal(Seq::filter);
            }
            let hash = order[i];
            assert(notes_before.dom().contains(order[i as int]@));
            let stale = match note_of(&notes, &hash) {
                Some(note) => now > note.seen_at && now - note.seen_at > max_age,
                None => true,
            };
            assert(stale == is_stale(all[i as int], now, max_age));
            if !stale {
                kept.push(hash);
                assert(entries_of(kept@, held) =~= done.push(all[i as int]));
                assert forall|k: int| 0 <= k < kept.len() implies exists|j: int|
                    0 <= j < i + 1 && order[j]@ == (#[trigger] kept[k])@ by {
                    if k < kept_before.len() {
                        let j = choose|j: int| 0 <= j < i && order[j]@ == kept_before[k]@;
                        assert(order[j]@ == kept[k]@);
                    } else {
                        assert(order[i as int]@ == kept[k]@);
                    }
                }
                assert forall|h: Seq<u8>| #[trigger]
                    notes_in(notes).dom().contains(h) implies (exists|k: int|
                    0 <= k < kept.len() && (#[trigger] kept[k])@ == h) || (exists|k: int|
                    i + 1 <= k < order.len() && (#[trigger] order[k])@ == h) by {
                    if exists|k: int| 0 <= k < kept_before.len() && (#[trigger] kept_before[k])@ == h {
                        let k = choose|k: int|
                            0 <= k < kept_before.len() && (#[trigger] kept_before[k])@ == h;
                        assert(kept[k]@ == h);
                    } else {
                        let k = choose|k: int| i <= k < order.len() && (#[trigger] order[k])@ == h;
                        if k == i {
                            assert(kept[kept.len() - 1]@ == h);
                        } else {
                            assert(order[k]@ == h);
                        }
                    }
                }
                assert forall|k: int| 0 <= k < kept.len() implies notes_in(notes).dom().contains(
                    (#[trigger] kept[k])@,
                ) by {
                    if k < kept_before.len() {
                        assert(kept_before[k] == kept[k]);
                    }
                }
            } else {
                drop_note(&mut notes, &hash);
                assert(entries_of(kept@, held) =~= done);
                assert forall|k: int| 0 <= k < kept.len() implies notes_in(notes).dom().contains(
                    (#[trigger] kept[k])@,
                ) by {
                    let j = choose|j: int| 0 <= j < i && order[j]@ == kept[k]@;
                    assert(all[j].hash != all[i as int].hash);
                }
                assert forall|k: int| i + 1 <= k < order.len() implies notes_in(notes).dom().contains(
                    (#[trigger] order[k])@,
                ) by {
                    assert(all[i as int].hash != all[k].hash);
                }
                assert forall|h: Seq<u8>| #[trigger]
                    notes_in(notes).dom().contains(h) implies (exists|k: int|
                    0 <= k < kept.len() && (#[trigger] kept[k])@ == h) || (exists|k: int|
                    i + 1 <= k < order.len() && (#[trigger] order[k])@ == h) by {
                    assert(notes_before.dom().contains(h));
                    if !(exists|k: int| 0 <= k < kept.len() && (#[trigger] kept[k])@ == h) {
                        let k = choose|k: int| i <= k < order.len() && (#[trigger] order[k])@ == h;
                        assert(k != i);
                        assert(order[k]@ == h);
                    }
                }
            }
            i += 1;
        }
        proof {
            assert(all.take(order.len() as int) =~= all);
            assert(entries_of(kept@, notes_in(notes)) =~= entries_of(kept@, held));
        }
        *self = PendingTransactions { capacity, max_age, order: kept, notes };
    }

    /// Takes note of news of the transaction `hash` that came at time
    /// `now`, and says whether the subscribers are to hear of it.
    pub fn apply(&mut self, hash: H256, news: TxNews, now: u64) -> (fresh: bool)
        ensures
            final(self).limit() == old(self).limit(),
            final(self).age_limit() == old(self).age_limit(),
            final(self)@ == after_news(old(self)@, hash@, news, now, old(self).limit()),
            fresh == is_news(old(self)@, hash@, news),
    {
        proof {
            use_type_invariant(&*self);
        }
        let place = self.position(&hash);
        let mut taken = PendingTransactions::new(self.capacity, self.max_age);
        std::mem::swap(self, &mut taken);
        let PendingTransactions { capacity, max_age, order, notes } = taken;
        let mut order = order;
        let mut notes = notes;
        let ghost held = notes_in(notes);
        let ghost hashes = order@;
        let ghost before = entries_of(order@, held);
        let state = match news {
            TxNews::Pending => Waiting::Pending,
            _ => Waiting::Orphaned,
        };
        let note = Noted { state, seen_at: now };
        let fresh = match (news, place) {
            (TxNews::Confirmed, Some(at)) => {
                order.remove(at);
                drop_note(&mut notes, &hash);
                proof {
                    assert forall|i: int| 0 <= i < order.len() implies (#[trigger] order[i])@
                        != hash@ by {
                        let a = if i < at {
                            i
                        } else {
                            i + 1
                        };
                        assert(order[i] == hashes[a]);
                        if a < at {
                            assert(before[a].hash != before[at as int].hash);
                        } else {
                            assert(before[at as int].hash != before[a].hash);
                        }
                    }
                    assert(entries_of(order@, notes_in(notes)) =~= before.remove(at as int));
                    assert forall|i: int| 0 <= i < order.len() implies notes_in(
                        notes,
                    ).dom().contains(#[trigger] order[i]@) by {
                        let a = if i < at {
                            i
                        } else {
                            i + 1
                        };
                        assert(order[i] == hashes[a]);
                        assert(held.dom().contains(hashes[a]@));
                    }
                    assert forall|h: Seq<u8>| #[trigger]
                        notes_in(notes).dom().contains(h) implies exists|i: int|
                        0 <= i < order.len() && #[trigger] order[i]@ == h by {
                        let a = choose|a: int| 0 <= a < hashes.len() && #[trigger] hashes[a]@ == h;
                        let i = if a < at {
                            a
                        } else {
                            a - 1
                        };
                        assert(order[i]@ == h);
                    }
                }
                true
            },
            (TxNews::Confirmed, None) => false,
            (_, Some(at)) => {
                let changed = match note_of(&notes, &hash) {
                    Some(known) => known.state != state,
                    None => true,
                };
                assert(held.dom().contains(hashes[at as int]@));
                set_note(&mut notes, hash, note);
                proof {
                    assert forall|i: int| 0 <= i < order.len() && i != at implies (
                    #[trigger] order[i])@ != hash@ by {
                        if i < at {
                            assert(before[i].hash != before[at as int].hash);
                        } else {
                            assert(before[at as int].hash != before[i].hash);
                        }
                    }
                    assert(entries_of(order@, notes_in(notes)) =~= before.update(
                        at as int,
                        WaitingTx { hash: hash@, state, seen_at: now },
                    ));
                    assert forall|h: Seq<u8>| #[trigger]
                        notes_in(notes).dom().contains(h) implies exists|i: int|
                        0 <= i < order.len() && #[trigger] order[i]@ == h by {
                        if h == hash@ {
                            assert(order[at as int]@ == h);
                        } else {
                            assert(held.dom().contains(h));
                        }
                    }
                }
                changed
            },
            (_, None) => {
                assert forall|i: int| 0 <= i < hashes.len() implies (#[trigger] hashes[i])@
                    != hash@ by {
                    assert(before[i].hash != hash@);
                }
                if capacity > 0 {
                    if order.len() >= capacity {
                        let oldest = order.remove(0);
                        drop_note(&mut notes, &oldest);
                        proof {
                            assert forall|i: int| 0 <= i < order.len() implies (
                            #[trigger] order[i])@ != oldest@ by {
                                assert(order[i] == hashes[i + 1]);
                                assert(before[0].hash != before[i + 1].hash);
                            }
                            assert(entries_of(order@, notes_in(notes)) =~= before.drop_first());
                        }
                    }
                    let ghost room = entries_of(order@, notes_in(notes));
                    let ghost hashes_left = order@;
                    let ghost notes_left = notes_in(notes);
                    order.push(hash);
                    set_note(&mut notes, hash, note);
                    proof {
                        assert forall|i: int| 0 <= i < hashes_left.len() implies (
                        #[trigger] hashes_left[i])@ != hash@ by {
                            let shift: int = if hashes.len() >= capacity {
                                1
                            } else {
                                0
                            };
                            assert(hashes_left[i] == hashes[i + shift]);
                        }
                        assert(entries_of(order@, notes_in(notes)) =~= room.push(
                            WaitingTx { hash: hash@, state, seen_at: now },
                        ));
                        assert forall|i: int| 0 <= i < order.len() implies notes_in(
                            notes,
                        ).dom().contains(#[trigger] order[i]@) by {
                            if i < hashes_left.len() {
                                let shift: int = if hashes.len() >= capacity {
                                    1
                                } else {
                                    0
                                };
                                assert(order[i] == hashes[i + shift]);
                                assert(held.dom().contains(hashes[i + shift]@));
                                assert(order[i]@ != hashes[0]@ || shift == 0) by {
                                    if shift == 1 {
                                        assert(before[0].hash != before[i + 1].hash);
                                    }
                                }
                            }
                        }
                        assert forall|h: Seq<u8>| #[trigger]
                            notes_in(notes).dom().contains(h) implies exists|i: int|
                            0 <= i < order.len() && #[trigger] order[i]@ == h by {
                            if h == hash@ {
                                assert(order[order.len() - 1]@ == h);
                            } else {
                                assert(held.dom().contains(h));
                                let a = choose|a: int|
                                    0 <= a < hashes.len() && #[trigger] hashes[a]@ == h;
                                let shift: int = if hashes.len() >= capacity {
                                    1
                                } else {
                                    0
                                };
                                assert(order[a - shift]@ == h);
                            }
                        }
                    }
                }
                true
            },
        };
        proof {
            let after = entries_of(order@, notes_in(notes));
            assert(after == after_news(before, hash@, news, now, capacity as nat));
            assert(each_once(after)) by {
                assert forall|i: int, j: int| 0 <= i < j < after.len() implies (
                #[trigger] after[i]).hash != (#[trigger] after[j]).hash by {
                    match (news, place) {
                        (TxNews::Confirmed, Some(at)) => {
                            let a = if i < at {
                                i
                            } else {
                                i + 1
                            };
                            let b = if j < at {
                                j
                            } else {
                                j + 1
                            };
                            assert(before[a].hash != before[b].hash);
                        },
                        (TxNews::Confirmed, None) => {
                            assert(before[i].hash != before[j].hash);
                        },
                        (_, Some(at)) => {
                            assert(before[i].hash != before[j].hash);
                        },
                        (_, None) => {
                            if capacity > 0 {
                                let shift: int = if before.len() >= capacity {
                                    1
                                } else {
                                    0
                                };
                                if j == after.len() - 1 {
                                    assert(before[i + shift].hash != hash@);
                                } else {
                                    assert(before[i + shift].hash != before[j + shift].hash);
                                }
                            } else {
                                assert(before[i].hash != before[j].hash);
                            }
                        },
                    }
                }
            }
        }
        *self = PendingTransactions { capacity, max_age, order, notes };
        fresh
    }
}

/// The entries after the same news of each of the transactions, one after
/// the other.
pub open spec fn after_news_of_all(
    entries: Seq<WaitingTx>,
    hashes: Seq<H256>,
    news: TxNews,
    now: u64,
    capacity: nat,
) -> Seq<WaitingTx>
    decreases hashes.len(),
{
    if hashes.len() == 0 {
        entries
    } else {
        after_news(
            after_news_of_all(entries, hashes.drop_last(), news, now, capacity),
            hashes.last()@,
            news,
            now,
            capacity,
        )
    }
}

impl PendingTransactions {
    /// Takes note of the same news of each of the transactions, one after
    /// the other, all at time `now`.
    pub fn apply_all(&mut self, hashes: &Vec<H256>, news: TxNews, now: u64)
        ensures
            final(self).limit() == old(self).limit(),
            final(self).age_limit() == old(self).age_limit(),
            final(self)@ == after_news_of_all(old(self)@, hashes@, news, now, old(self).limit()),
    {
        let mut i: usize = 0;
        assert(hashes@.take(0) =~= Seq::<H256>::empty());
        while i < hashes.len()
            invariant
                i <= hashes.len(),
                self.limit() == old(self).limit(),
                self.age_limit() == old(self).age_limit(),
                self@ == after_news_of_all(
                    old(self)@,
                    hashes@.take(i as int),
                    news,
                    now,
                    old(self).limit(),
                ),
            decreases hashes.len() - i,
        {
            assert(hashes@.take(i + 1).drop_last() =~= hashes@.take(i as int));
            assert(hashes@.take(i + 1).last() == hashes[i as int]);
            self.apply(hashes[i], news, now);
            i += 1;
        }
        assert(hashes@.take(hashes.len() as int) =~= hashes@);
    }
}

/// A block of the consensus chain and the transactions in it.
#[derive(Debug, PartialEq, Eq)]
pub struct ConfirmedBlock {
    pub number: u64,
    pub hash: H256,
    pub transactions: Vec<H256>,
}

/// The mathematical value of a [`ConfirmedBlock`].
pub struct ConfirmedModel {
    pub number: u64,
    pub hash: H256,
    pub transactions: Seq<H256>,
}

impl View for ConfirmedBlock {
    type V = ConfirmedModel;

    open spec fn view(&self) -> ConfirmedModel {
        ConfirmedModel { number: self.number, hash: self.hash, transactions: self.transactions@ }
    }
}

/// The transactions of the blocks at `fork` and above, block after block
/// in the order of the blocks.
pub open spec fn transactions_from(blocks: Seq<ConfirmedModel>, fork: u64) -> Seq<H256>
    decreases blocks.len(),
{
    if blocks.len() == 0 {
        Seq::empty()
    } else if blocks.last().number >= fork {
        transactions_from(blocks.drop_last(), fork) + blocks.last().transactions
    } else {
        transactions_from(blocks.drop_last(), fork)
    }
}

/// The transactions of a block at `fork` or above are among the
/// transactions of the blocks from `fork` on.
pub proof fn lemma_transactions_from_holds(
    blocks: Seq<ConfirmedModel>,
    fork: u64,
    place: int,
    transaction: H256,
)
    requires
        0 <= place < blocks.len(),
        blocks[place].number >= fork,
        blocks[place].transactions.contains(transaction),
    ensures
        transactions_from(blocks, fork).contains(transaction),
    decreases blocks.len(),
{
    let rest = transactions_from(blocks.drop_last(), fork);
    if place == blocks.len() - 1 {
        let own = blocks.last().transactions;
        let i = choose|i: int| 0 <= i < own.len() && own[i] == transaction;
        assert((rest + own)[rest.len() + i] == transaction);
    } else {
        lemma_transactions_from_holds(blocks.drop_last(), fork, place, transaction);
        let i = choose|i: int| 0 <= i < rest.len() && rest[i] == transaction;
        if blocks.last().number >= fork {
            assert((rest + blocks.last().transactions)[i] == transaction);
        }
    }
}

/// The blocks below `fork`, in their order.
pub open spec fn blocks_below(blocks: Seq<ConfirmedModel>, fork: u64) -> Seq<ConfirmedModel> {
    blocks.filter(|block: ConfirmedModel| block.number < fork)
}

/// The blocks with one more, the oldest having left where there was no
/// room.
pub open spec fn with_block(blocks: Seq<ConfirmedModel>, block: ConfirmedModel, capacity: nat) -> Seq<
    ConfirmedModel,
> {
    if capacity == 0 {
        blocks
    } else if blocks.len() >= capacity {
        blocks.drop_first().push(block)
    } else {
        blocks.push(block)
    }
}

spec fn block_models(blocks: Seq<ConfirmedBlock>) -> Seq<ConfirmedModel> {
    Seq::new(blocks.len(), |i: int| blocks[i]@)
}

/// The youngest blocks of the consensus chain with their transactions, for
/// as many blocks as there is room. When the chain is reorganised, the
/// transactions of the blocks that fall out of it are known from here.
pub struct ConfirmedLog {
    capacity: usize,
    blocks: Vec<ConfirmedBlock>,
}

impl View for ConfirmedLog {
    type V = Seq<ConfirmedModel>;

    /// The blocks, oldest first.
    closed spec fn view(&self) -> Seq<ConfirmedModel> {
        block_models(self.blocks@)
    }
}

impl ConfirmedLog {
    #[verifier::type_invariant]
    spec fn well_formed(&self) -> bool {
        self.blocks.len() <= self.capacity
    }

    /// The most blocks the log holds.
    pub closed spec fn limit(&self) -> nat {
        self.capacity as nat
    }

    /// An empty log with room for `capacity` blocks.
    pub fn new(capacity: usize) -> (log: ConfirmedLog)
        ensures
            log@ == Seq::<ConfirmedModel>::empty(),
            log.limit() == capacity,
    {
        let blocks: Vec<ConfirmedBlock> = Vec::new();
        assert(block_models(blocks@) =~= Seq::<ConfirmedModel>::empty());
        ConfirmedLog { capacity, blocks }
    }

    /// The number of blocks in the log, which is never above its limit.
    pub fn len(&self) -> (n: usize)
        ensures
            n == self@.len(),
            n <= self.limit(),
    {
        proof {
            use_type_invariant(self);
        }
        self.blocks.len()
    }

    /// Enters a block that has joined the consensus chain.
    pub fn confirm(&mut self, block: ConfirmedBlock)
        ensures
            final(self).limit() == old(self).limit(),
            final(self)@ == with_block(old(self)@, block@, old(self).limit()),
    {
        proof {
            use_type_invariant(&*self);
        }
        if self.capacity == 0 {
            return ;
        }
        let mut taken = ConfirmedLog::new(self.capacity);
        std::mem::swap(self, &mut taken);
        let ConfirmedLog { capacity, blocks } = taken;
        let mut blocks = blocks;
        if blocks.len() >= capacity {
            let ghost full = block_models(blocks@);
            blocks.remove(0);
            assert(block_models(blocks@) =~= full.drop_first());
        }
        let ghost room = block_models(blocks@);
        blocks.push(block);
        assert(block_models(blocks@) =~= room.push(block@));
        *self = ConfirmedLog { capacity, blocks };
    }

    /// Takes out the blocks at `fork` and above, which have fallen out of
    /// the consensus chain, and gives their transactions.
    pub fn orphan_from(&mut self, fork: u64) -> (orphaned: Vec<H256>)
        ensures
            final(self).limit() == old(self).limit(),
            final(self)@ == blocks_below(old(self)@, fork),
            orphaned@ == transactions_from(old(self)@, fork),
    {
        proof {
            use_type_invariant(&*self);
        }
        let mut taken = ConfirmedLog::new(self.capacity);
        std::mem::swap(self, &mut taken);
        let ConfirmedLog { capacity, blocks } = taken;
        let ghost all = block_models(blocks@);
        let ghost keep = |block: ConfirmedModel| block.number < fork;
        let mut left = blocks;
        let n = left.len();
        let mut kept: Vec<ConfirmedBlock> = Vec::new();
        let mut orphaned: Vec<H256> = Vec::new();
        let mut i: usize = 0;
        assert(all.take(0) =~= Seq::<ConfirmedModel>::empty());
        assert(block_models(kept@) =~= all.take(0).filter(keep));
        while i < n
            invariant
                i <= n,
                n == all.len(),
                n <= capacity,
                left.len() == n - i,
                block_models(left@) == all.skip(i as int),
                keep == |block: ConfirmedModel| block.number < fork,
                kept.len() <= i,
                block_models(kept@) == all.take(i as int).filter(keep),
                orphaned@ == transactions_from(all.take(i as int), fork),
            decreases n - i,
        {
            proof {
                assert(all.take(i + 1).drop_last() =~= all.take(i as int));
                assert(all.take(i + 1).last() == all[i as int]);
                reveal(Seq::filter);
            }
            let ghost done = block_models(kept@);
            let ghost rest = block_models(left@);
            let ghost before_left = left@;
            let block = left.remove(0);
            assert(block@ == rest[0]);
            assert forall|k: int| 0 <= k < left.len() implies #[trigger] block_models(left@)[k]
                == all.skip(i + 1)[k] by {
                assert(left@[k] == before_left[k + 1]);
                assert(rest[k + 1] == before_left[k + 1]@);
            }
            assert(block_models(left@) =~= all.skip(i + 1));
            if block.number < fork {
                kept.push(block);
                assert(block_models(kept@) =~= done.push(all[i as int]));
            } else {
                let mut transactions = block.transactions;
                orphaned.append(&mut transactions);
            }
            i += 1;
        }
        assert(all.take(n as int) =~= all);
        *self = ConfirmedLog { capacity, blocks: kept };
        orphaned
    }
}

} // verus!
