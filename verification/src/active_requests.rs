//! The requests that are on their way to a backend, by cache key.
//!
//! While a request is on its way, others for the same key wait for it
//! instead of going out themselves. The first to ask for a key leads; the
//! others follow the leader's notifier.

use dashmap::DashMap;
use vstd::prelude::*;
use crate::cache::{CacheKey, CacheKeyModel};

verus! {

/// `dashmap::DashMap`, a hash map that many threads can use at once.
/// Nothing is known of what is inside a value of it but what the items
/// below say.
#[verifier::external_type_specification]
#[verifier::external_body]
#[verifier::reject_recursive_types(K)]
#[verifier::reject_recursive_types(V)]
#[verifier::reject_recursive_types(S)]
pub struct ExDashMap<K, V, S>(DashMap<K, V, S>);

/// A cache key as the map holds it: the bytes of the block hash, the
/// method and the parameters.
pub type FlightKey = ([u8; 32], String, Option<String>);

/// The map that holds the requests on their way: the number of a notifier
/// for each cache key.
pub type FlightMap = DashMap<FlightKey, u64>;

/// The requests on their way as the contracts speak of them: the number of
/// the notifier that the followers wait on, for each cache key.
pub type Flights = Map<CacheKeyModel, u64>;

/// What a `DashMap` of notifiers by cache key holds, each key as the cache
/// key that its three parts make.
pub uninterp spec fn flights_in(map: FlightMap) -> Flights;

/// A map that holds nothing.
///
/// Trusted: `DashMap::new`, which makes an empty map.
#[verifier::external_body]
fn new_flights() -> (made: FlightMap)
    ensures
        flights_in(made).dom() == Set::<CacheKeyModel>::empty(),
{
    DashMap::new()
}

/// What the map holds for a key.
///
/// Trusted: `DashMap::get`, which gives a reference to the entry whose key
/// equals the given one, if there is one; the value is copied out of it.
/// The key is handed over as its three parts, which are equal where the
/// bytes and the characters they hold are.
#[verifier::external_body]
fn flight_of(map: &FlightMap, key: &CacheKey) -> (notifier: Option<u64>)
    ensures
        notifier == (if flights_in(*map).dom().contains(key@) {
            Some(flights_in(*map)[key@])
        } else {
            None
        }),
{
    let parts = (key.block_hash.bytes, key.method.clone(), key.params.clone());
    map.get(&parts).map(|entry| *entry.value())
}

/// Enters a value for a key.
///
/// Trusted: `DashMap::insert`, which enters the value under the key and
/// puts it in the place of an older value under an equal key.
#[verifier::external_body]
fn enter_flight(map: &mut FlightMap, key: CacheKey, notifier: u64)
    ensures
        flights_in(*final(map)) == flights_in(*old(map)).insert(key@, notifier),
{
    map.insert((key.block_hash.bytes, key.method, key.params), notifier);
}

/// Takes the entry for a key out and gives its value.
///
/// Trusted: `DashMap::remove`, which removes the entry whose key equals
/// the given one and returns it, if there is one, and leaves the other
/// entries as they are.
#[verifier::external_body]
fn leave_flight(map: &mut FlightMap, key: &CacheKey) -> (notifier: Option<u64>)
    ensures
        flights_in(*final(map)) == flights_in(*old(map)).remove(key@),
        notifier == (if flights_in(*old(map)).dom().contains(key@) {
            Some(flights_in(*old(map))[key@])
        } else {
            None
        }),
{
    let parts = (key.block_hash.bytes, key.method.clone(), key.params.clone());
    map.remove(&parts).map(|(_, notifier)| notifier)
}

/// The number of entries.
///
/// Trusted: `DashMap::len`, which counts the entries of the map.
#[verifier::external_body]
fn count_flights(map: &FlightMap) -> (n: usize)
    ensures
        n == flights_in(*map).len(),
{
    map.len()
}

/// Whether a request for `key` is on its way.
pub open spec fn in_flight(flights: Flights, key: CacheKeyModel) -> bool {
    flights.dom().contains(key)
}

/// The notifier of the request for `key` that is on its way.
pub open spec fn notifier_of(flights: Flights, key: CacheKeyModel) -> u64
    recommends
        in_flight(flights, key),
{
    flights[key]
}

/// The requests on their way with one more, for `key`.
pub open spec fn taken_off(flights: Flights, key: CacheKeyModel, notifier: u64) -> Flights {
    flights.insert(key, notifier)
}

/// The requests on their way without the one for `key`.
pub open spec fn landed(flights: Flights, key: CacheKeyModel) -> Flights {
    flights.remove(key)
}

/// What asking for a key gave.
#[derive(Debug, Clone, Copy, PartialEq, Eq, Structural)]
pub enum Flight {
    /// No request for the key was on its way: this one goes out, and
    /// others wait on the notifier with this number.
    Leader(u64),
    /// A request for the key is on its way: wait on the notifier with this
    /// number.
    Follower(u64),
}

/// The registry of requests on their way. It holds one notifier for a key
/// and no more.
pub struct ActiveRequests {
    next_notifier: u64,
    flights: FlightMap,
}

impl View for ActiveRequests {
    type V = Flights;

    closed spec fn view(&self) -> Flights {
        flights_in(self.flights)
    }
}

impl ActiveRequests {
    /// The number that the next notifier gets.
    pub closed spec fn next(&self) -> u64 {
        self.next_notifier
    }

    /// A registry with no request on its way.
    pub fn new() -> (registry: ActiveRequests)
        ensures
            registry@ == Flights::empty(),
            registry.next() == 0,
    {
        let flights = new_flights();
        assert(flights_in(flights) =~= Flights::empty());
        ActiveRequests { next_notifier: 0, flights }
    }

    /// The number of requests on their way.
    pub fn len(&self) -> (n: usize)
        ensures
            n == self@.len(),
    {
        count_flights(&self.flights)
    }

    /// Whether a request for `key` is on its way.
    pub fn contains(&self, key: &CacheKey) -> (b: bool)
        ensures
            b == in_flight(self@, key@),
    {
        flight_of(&self.flights, key).is_some()
    }

    /// Asks to send a request for `key`.
    ///
    /// Where none is on its way, this one leads: it is entered with a new
    /// notifier. Where one is on its way, this one follows it, and nothing
    /// changes.
    pub fn claim(&mut self, key: &CacheKey) -> (flight: Flight)
        ensures
            in_flight(old(self)@, key@) ==> flight == Flight::Follower(
                notifier_of(old(self)@, key@),
            ) && final(self)@ == old(self)@ && final(self).next() == old(self).next(),
            !in_flight(old(self)@, key@) ==> flight == Flight::Leader(old(self).next())
                && final(self)@ == taken_off(old(self)@, key@, old(self).next())
                && final(self).next() == old(self).next().wrapping_add(1),
            in_flight(final(self)@, key@),
    {
        match flight_of(&self.flights, key) {
            Some(notifier) => Flight::Follower(notifier),
            None => {
                let notifier = self.next_notifier;
                enter_flight(&mut self.flights, key.duplicate(), notifier);
                self.next_notifier = notifier.wrapping_add(1);
                Flight::Leader(notifier)
            },
        }
    }

    /// Takes the request for `key` out and gives the number of its
    /// notifier, if there was one on its way.
    pub fn remove(&mut self, key: &CacheKey) -> (notifier: Option<u64>)
        ensures
            final(self)@ == landed(old(self)@, key@),
            final(self).next() == old(self).next(),
            !in_flight(final(self)@, key@),
            notifier == (if in_flight(old(self)@, key@) {
                Some(notifier_of(old(self)@, key@))
            } else {
                None
            }),
    {
        leave_flight(&mut self.flights, key)
    }
}

/// What a task does with the registry.
pub enum FlightEvent {
    /// A task asks to send a request for the key.
    Claim(CacheKeyModel),
    /// The leader for the key has its answer, or has given up.
    Remove(CacheKeyModel),
}

/// The registry as the laws speak of it: the requests on their way and the
/// number that the next notifier gets.
pub struct RegistryModel {
    pub flights: Flights,
    pub next: u64,
}

/// The registry after the events, first to last, from an empty registry.
pub open spec fn registry_after(events: Seq<FlightEvent>) -> RegistryModel
    decreases events.len(),
{
    if events.len() == 0 {
        RegistryModel { flights: Flights::empty(), next: 0 }
    } else {
        let before = registry_after(events.drop_last());
        match events.last() {
            FlightEvent::Claim(key) => if in_flight(before.flights, key) {
                before
            } else {
                RegistryModel {
                    flights: taken_off(before.flights, key, before.next),
                    next: before.next.wrapping_add(1),
                }
            },
            FlightEvent::Remove(key) => RegistryModel {
                flights: landed(before.flights, key),
                next: before.next,
            },
        }
    }
}

/// The requests on their way after the events.
pub open spec fn flights_after(events: Seq<FlightEvent>) -> Flights {
    registry_after(events).flights
}

/// The tasks that lead for `key` after the events: those that asked when
/// none was on its way, and have not been taken out since.
pub open spec fn leaders(events: Seq<FlightEvent>, key: CacheKeyModel) -> int
    decreases events.len(),
{
    if events.len() == 0 {
        0
    } else {
        let before = events.drop_last();
        match events.last() {
            FlightEvent::Claim(k) => if k == key && !in_flight(flights_after(before), key) {
                leaders(before, key) + 1
            } else {
                leaders(before, key)
            },
            FlightEvent::Remove(k) => if k == key {
                0
            } else {
                leaders(before, key)
            },
        }
    }
}

/// Single-flight exclusivity: whatever the tasks do and in whatever order,
/// at most one task leads for a key at any time, and one does exactly
/// while the registry holds the key.
pub proof fn lemma_single_flight(events: Seq<FlightEvent>, key: CacheKeyModel)
    ensures
        0 <= leaders(events, key) <= 1,
        leaders(events, key) == 1 <==> in_flight(flights_after(events), key),
    decreases events.len(),
{
    if events.len() > 0 {
        lemma_single_flight(events.drop_last(), key);
    }
}

} // verus!
