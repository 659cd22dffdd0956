//! Choosing a backend for a request.
//!
//! The candidates are tried in an order drawn at random, each draw giving
//! a backend a chance in proportion to its weight and to the room it has
//! left below its ceiling of requests. The first that gives out a handle
//! serves the request.

use vstd::prelude::*;
use crate::rpcs::connection::Backend;
use crate::rpcs::connections::Pool;
use crate::rpcs::request::{AuthorizedRequest, OpenRequestHandle, OpenRequestResult, QuotaAnswer};

verus! {

/// The share of a draw that a backend gets: its weight times the part of
/// its ceiling that is free, in thousandths, rounded down. A backend at
/// its ceiling has no share.
pub open spec fn share_of(backend: Backend) -> nat {
    if backend.active_requests >= backend.hard_limit {
        0
    } else {
        (backend.weight as nat * (backend.hard_limit - backend.active_requests) as nat * 1000) / (
        backend.hard_limit as nat)
    }
}

/// The greatest share that a backend can have.
pub const MAX_SHARE: u128 = 4_294_967_295_000;

/// The share of a draw that a backend gets.
pub fn share(backend: &Backend) -> (s: u128)
    ensures
        s == share_of(*backend),
        s <= MAX_SHARE,
{
    if backend.active_requests >= backend.hard_limit {
        return 0;
    }
    let weight = backend.weight as u128;
    let free = (backend.hard_limit - backend.active_requests) as u128;
    let limit = backend.hard_limit as u128;
    proof {
        let w = weight as int;
        let f = free as int;
        let l = limit as int;
        assert(w * f <= 0xffff_ffff * 0xffff_ffff) by (nonlinear_arith)
            requires
                0 <= w <= 0xffff_ffff,
                0 <= f <= 0xffff_ffff,
        ;
        assert(w * f * 1000 <= w * l * 1000) by (nonlinear_arith)
            requires
                0 <= w,
                0 <= f <= l,
        ;
        assert((w * l * 1000) / l == w * 1000) by (nonlinear_arith)
            requires
                l > 0,
        ;
        assert((w * f * 1000) / l <= (w * l * 1000) / l) by (nonlinear_arith)
            requires
                w * f * 1000 <= w * l * 1000,
                l > 0,
        ;
    }
    weight * free * 1000 / limit
}

/// The sum of the shares.
pub open spec fn sum(shares: Seq<u128>) -> nat
    decreases shares.len(),
{
    if shares.len() == 0 {
        0
    } else {
        sum(shares.drop_last()) + shares.last() as nat
    }
}

/// Whether the draw `r` falls to the share at place `i`: the shares before
/// it sum to no more than `r`, and with it to more.
pub open spec fn falls_to(shares: Seq<u128>, r: nat, i: int) -> bool {
    &&& 0 <= i < shares.len()
    &&& sum(shares.take(i)) <= r < sum(shares.take(i + 1))
}

proof fn lemma_sum_take(shares: Seq<u128>, i: int)
    requires
        0 <= i < shares.len(),
    ensures
        sum(shares.take(i + 1)) == sum(shares.take(i)) + shares[i],
{
    assert(shares.take(i + 1).drop_last() =~= shares.take(i));
}

/// The sum of the shares, as long as each is a share that a backend can
/// have.
fn total(shares: &Vec<u128>) -> (t: u128)
    requires
        forall|k: int| 0 <= k < shares.len() ==> shares[k] <= MAX_SHARE,
    ensures
        t == sum(shares@),
{
    let mut t: u128 = 0;
    let mut i: usize = 0;
    assert(shares@.take(0) =~= Seq::<u128>::empty());
    while i < shares.len()
        invariant
            i <= shares.len(),
            forall|k: int| 0 <= k < shares.len() ==> shares[k] <= MAX_SHARE,
            t == sum(shares@.take(i as int)),
            t <= i * 4_294_967_295_000,
        decreases shares.len() - i,
    {
        proof {
            lemma_sum_take(shares@, i as int);
        }
        t = t + shares[i];
        i += 1;
    }
    assert(shares@.take(shares.len() as int) =~= shares@);
    t
}

/// The place that a draw falls to: none where no share is left to draw
/// from, and otherwise the place that the draw, reduced to below the sum of
/// the shares, falls to.
pub fn pick_weighted(shares: &Vec<u128>, draw: u64) -> (place: Option<usize>)
    requires
        forall|k: int| 0 <= k < shares.len() ==> shares[k] <= MAX_SHARE,
    ensures
        match place {
            Some(i) => sum(shares@) > 0 && falls_to(
                shares@,
                (draw as nat) % sum(shares@),
                i as int,
            ),
            None => sum(shares@) == 0,
        },
{
    let t = total(shares);
    if t == 0 {
        return None;
    }
    let r = draw as u128 % t;
    let mut before: u128 = 0;
    let mut i: usize = 0;
    assert(shares@.take(0) =~= Seq::<u128>::empty());
    while i < shares.len()
        invariant
            i <= shares.len(),
            forall|k: int| 0 <= k < shares.len() ==> shares[k] <= MAX_SHARE,
            before == sum(shares@.take(i as int)),
            before <= r < t,
            t == sum(shares@),
            r == (draw as nat) % sum(shares@),
            before <= i * 4_294_967_295_000,
        decreases shares.len() - i,
    {
        proof {
            lemma_sum_take(shares@, i as int);
        }
        if r < before + shares[i] {
            return Some(i);
        }
        before = before + shares[i];
        i += 1;
    }
    proof {
        assert(shares@.take(shares.len() as int) =~= shares@);
    }
    None
}

/// A number drawn at random.
///
/// Trusted: `rand::random` of `rand`, which gives a number from the
/// generator of the thread. Nothing is claimed of the number.
#[verifier::external_body]
pub(crate) fn random_draw() -> u64 {
    rand::random::<u64>()
}

/// What came of looking for a backend.
#[derive(Debug, PartialEq, Eq)]
pub enum BestBackend {
    /// The backend at `place` gave out a handle.
    Handle { place: usize, handle: OpenRequestHandle },
    /// No backend gave out a handle; the first to be ready is so at this
    /// time.
    RetryAt(u64),
    /// No backend can serve the request.
    NoBackend,
}

/// The time that comes first, among those at which a backend is ready
/// again; none where no backend said when.
pub open spec fn is_earliest(times: Seq<Option<u64>>, earliest: Option<u64>) -> bool {
    match earliest {
        Some(t) => times.contains(Some(t)) && forall|k: int|
            0 <= k < times.len() ==> ((#[trigger] times[k]) matches Some(other) ==> t <= other),
        None => forall|k: int| 0 <= k < times.len() ==> (#[trigger] times[k]) is None,
    }
}

/// What looking for a backend gives where none gave out a handle: the
/// time that comes first among those at which a backend is ready again,
/// and no backend where none said when.
pub fn without_handle(times: &Vec<Option<u64>>) -> (best: BestBackend)
    ensures
        match best {
            BestBackend::RetryAt(t) => is_earliest(times@, Some(t)),
            BestBackend::NoBackend => is_earliest(times@, None),
            BestBackend::Handle { .. } => false,
        },
{
    let mut earliest: Option<u64> = None;
    let mut i: usize = 0;
    while i < times.len()
        invariant
            i <= times.len(),
            is_earliest(times@.take(i as int), earliest),
        decreases times.len() - i,
    {
        let ghost seen = times@.take(i as int);
        let ghost next = times@.take(i + 1);
        assert(next.drop_last() =~= seen);
        assert forall|k: int| 0 <= k < seen.len() implies seen[k] == next[k] by {}
        match times[i] {
            Some(t) => {
                let sooner = match earliest {
                    Some(e) => t < e,
                    None => true,
                };
                if sooner {
                    earliest = Some(t);
                    assert(next[i as int] == Some(t));
                } else {
                    let ghost w = choose|w: int| 0 <= w < seen.len() && seen[w] == earliest;
                    assert(next[w] == earliest);
                }
            },
            None => {
                if earliest.is_some() {
                    let ghost w = choose|w: int| 0 <= w < seen.len() && seen[w] == earliest;
                    assert(next[w] == earliest);
                }
            },
        }
        i += 1;
    }
    assert(times@.take(times.len() as int) =~= times@);
    match earliest {
        Some(t) => BestBackend::RetryAt(t),
        None => BestBackend::NoBackend,
    }
}

/// The shares of the backends at the given places, in the order of the
/// places.
pub open spec fn shares_at(backends: Seq<Backend>, places: Seq<usize>) -> Seq<u128> {
    Seq::new(places.len(), |k: int| share_of(backends[places[k] as int]) as u128)
}

/// The place, among the shares, that the draw `r` falls to.
pub open spec fn place_drawn(shares: Seq<u128>, r: nat) -> int {
    choose|i: int| falls_to(shares, r, i)
}

/// The candidate that is tried next, by its place among those that are
/// left: the one that the next draw, reduced to below the sum of the
/// shares, falls to; and the first where no draw or no share is left.
pub open spec fn next_tried(backends: Seq<Backend>, places: Seq<usize>, draws: Seq<u64>) -> int {
    let shares = shares_at(backends, places);
    if draws.len() > 0 && sum(shares) > 0 {
        let k = place_drawn(shares, (draws[0] as nat) % sum(shares));
        if 0 <= k < places.len() {
            k
        } else {
            0
        }
    } else {
        0
    }
}

/// The order in which the candidates are tried, given the numbers drawn:
/// each in turn is drawn from those that are left, with the chance that
/// its share gives it, and one draw is used up for each.
pub open spec fn drawn_order(backends: Seq<Backend>, places: Seq<usize>, draws: Seq<u64>) -> Seq<
    usize,
>
    decreases places.len(),
{
    if places.len() == 0 {
        Seq::empty()
    } else {
        let k = next_tried(backends, places, draws);
        seq![places[k]] + drawn_order(
            backends,
            places.remove(k),
            if draws.len() > 0 {
                draws.drop_first()
            } else {
                draws
            },
        )
    }
}

proof fn lemma_sums_grow(shares: Seq<u128>, i: int, j: int)
    requires
        0 <= i <= j <= shares.len(),
    ensures
        sum(shares.take(i)) <= sum(shares.take(j)),
    decreases j - i,
{
    if i < j {
        lemma_sum_take(shares, j - 1);
        lemma_sums_grow(shares, i, j - 1);
    }
}

/// A draw falls to one place and no other.
proof fn lemma_falls_to_one(shares: Seq<u128>, r: nat, i: int, j: int)
    requires
        falls_to(shares, r, i),
        falls_to(shares, r, j),
    ensures
        i == j,
{
    if i < j {
        lemma_sums_grow(shares, i + 1, j);
    } else if j < i {
        lemma_sums_grow(shares, j + 1, i);
    }
}

/// Whatever is drawn, every candidate is tried exactly once.
pub proof fn lemma_drawn_order_permutes(backends: Seq<Backend>, places: Seq<usize>, draws: Seq<u64>)
    ensures
        drawn_order(backends, places, draws).to_multiset() == places.to_multiset(),
        drawn_order(backends, places, draws).len() == places.len(),
    decreases places.len(),
{
    broadcast use vstd::multiset::group_multiset_axioms;

    if places.len() == 0 {
        assert(drawn_order(backends, places, draws) =~= places);
    } else {
        let k = next_tried(backends, places, draws);
        let rest_draws = if draws.len() > 0 {
            draws.drop_first()
        } else {
            draws
        };
        let rest = drawn_order(backends, places.remove(k), rest_draws);
        lemma_drawn_order_permutes(backends, places.remove(k), rest_draws);
        vstd::seq_lib::lemma_multiset_commutative(seq![places[k]], rest);
        vstd::seq_lib::to_multiset_remove(places, k);
        assert(places.contains(places[k]));
        vstd::seq_lib::to_multiset_contains(places, places[k]);
        assert(seq![places[k]] =~= Seq::<usize>::empty().push(places[k]));
        vstd::seq_lib::to_multiset_build(Seq::<usize>::empty(), places[k]);
        assert(Seq::<usize>::empty().to_multiset() =~= vstd::multiset::Multiset::<usize>::empty()) by {
            vstd::seq_lib::to_multiset_len(Seq::<usize>::empty());
        }
        assert(drawn_order(backends, places, draws).to_multiset() =~= places.to_multiset());
    }
}

/// The requests that the backends have counted in all, taken together.
pub open spec fn requests_in_all(backends: Seq<Backend>) -> nat
    decreases backends.len(),
{
    if backends.len() == 0 {
        0
    } else {
        requests_in_all(backends.drop_last()) + backends.last().total_requests as nat
    }
}

proof fn lemma_requests_of_one_more(backends: Seq<Backend>, place: int, now: Backend)
    requires
        0 <= place < backends.len(),
    ensures
        requests_in_all(backends.update(place, now)) == requests_in_all(backends)
            - backends[place].total_requests + now.total_requests,
    decreases backends.len(),
{
    let changed = backends.update(place, now);
    if place == backends.len() - 1 {
        assert(changed.drop_last() =~= backends.drop_last());
    } else {
        lemma_requests_of_one_more(backends.drop_last(), place, now);
        assert(changed.drop_last() =~= backends.drop_last().update(place, now));
    }
}

/// Asking one backend for a handle counts one request where the handle is
/// given out, and none where it is not: on that backend and, as no other
/// backend changes, on all the backends taken together.
pub proof fn lemma_one_handle_counts_once(
    before: Seq<Backend>,
    after: Seq<Backend>,
    place: int,
    authorization: Option<AuthorizedRequest>,
    min_block: Option<u64>,
    quota: QuotaAnswer,
    now: u64,
    result: OpenRequestResult,
)
    requires
        0 <= place < before.len(),
        after.len() == before.len(),
        forall|i: int| 0 <= i < after.len() && i != place ==> after[i] == before[i],
        crate::rpcs::request::opened(
            before[place],
            after[place],
            authorization,
            min_block,
            quota,
            now,
            result,
        ),
        before[place].total_requests < u64::MAX,
    ensures
        requests_in_all(after) == requests_in_all(before) + (if result is Handle {
            1nat
        } else {
            0nat
        }),
{
    assert(after =~= before.update(place, after[place]));
    lemma_requests_of_one_more(before, place, after[place]);
}

/// No backend has a share above the greatest.
proof fn lemma_share_is_bounded(backend: Backend)
    ensures
        share_of(backend) <= MAX_SHARE,
{
    if backend.active_requests < backend.hard_limit {
        let w = backend.weight as int;
        let f = backend.hard_limit - backend.active_requests;
        let l = backend.hard_limit as int;
        assert(w * f * 1000 <= w * l * 1000) by (nonlinear_arith)
            requires
                0 <= w,
                0 <= f <= l,
        ;
        assert((w * l * 1000) / l == w * 1000) by (nonlinear_arith)
            requires
                l > 0,
        ;
        assert((w * f * 1000) / l <= (w * l * 1000) / l) by (nonlinear_arith)
            requires
                w * f * 1000 <= w * l * 1000,
                l > 0,
        ;
    }
}

/// A draw below the sum of the shares falls to some place.
proof fn lemma_falls_somewhere(shares: Seq<u128>, r: nat, from: int)
    requires
        0 <= from <= shares.len(),
        sum(shares.take(from)) <= r < sum(shares),
    ensures
        exists|i: int| falls_to(shares, r, i),
    decreases shares.len() - from,
{
    if from == shares.len() {
        assert(shares.take(from) =~= shares);
    } else if r < sum(shares.take(from + 1)) {
        assert(falls_to(shares, r, from));
    } else {
        lemma_falls_somewhere(shares, r, from + 1);
    }
}

/// Shares that sum to nothing are nothing each.
proof fn lemma_no_sum_no_share(shares: Seq<u128>, i: int)
    requires
        sum(shares) == 0,
        0 <= i < shares.len(),
    ensures
        shares[i] == 0,
    decreases shares.len(),
{
    if i < shares.len() - 1 {
        lemma_no_sum_no_share(shares.drop_last(), i);
    }
}

/// Whether the backends without a share stand behind all those that have
/// one.
pub open spec fn spent_come_last(backends: Seq<Backend>, order: Seq<usize>) -> bool {
    forall|i: int, j: int|
        0 <= i < j < order.len() && share_of(backends[order[i] as int]) == 0 ==> share_of(
            backends[order[j] as int],
        ) == 0
}

/// Where a number is drawn for each candidate, a backend at its ceiling
/// is tried only after every backend that has room.
pub proof fn lemma_spent_come_last(backends: Seq<Backend>, places: Seq<usize>, draws: Seq<u64>)
    requires
        draws.len() >= places.len(),
    ensures
        spent_come_last(backends, drawn_order(backends, places, draws)),
    decreases places.len(),
{
    if places.len() > 0 {
        let shares = shares_at(backends, places);
        let k = next_tried(backends, places, draws);
        let left = places.remove(k);
        let rest = drawn_order(backends, left, draws.drop_first());
        let order = drawn_order(backends, places, draws);
        lemma_spent_come_last(backends, left, draws.drop_first());
        lemma_drawn_order_permutes(backends, left, draws.drop_first());
        assert(order =~= seq![places[k]] + rest);
        lemma_share_is_bounded(backends[places[k] as int]);
        if sum(shares) > 0 {
            let r = (draws[0] as nat) % sum(shares);
            assert(r < sum(shares)) by (nonlinear_arith)
                requires
                    r == (draws[0] as nat) % sum(shares),
                    sum(shares) > 0,
            ;
            assert(shares.take(0) =~= Seq::<u128>::empty());
            lemma_falls_somewhere(shares, r, 0);
            assert(falls_to(shares, r, k));
            lemma_sum_take(shares, k);
            assert(share_of(backends[places[k] as int]) > 0);
        } else {
            assert forall|j: int| 0 <= j < rest.len() implies share_of(
                backends[#[trigger] rest[j] as int],
            ) == 0 by {
                vstd::seq_lib::to_multiset_contains(rest, rest[j]);
                vstd::seq_lib::to_multiset_contains(left, rest[j]);
                assert(rest.contains(rest[j]));
                let m = choose|m: int| 0 <= m < left.len() && left[m] == rest[j];
                let n = if m < k {
                    m
                } else {
                    m + 1
                };
                assert(places[n] == rest[j]);
                lemma_no_sum_no_share(shares, n);
                lemma_share_is_bounded(backends[places[n] as int]);
            }
        }
        assert forall|i: int, j: int|
            0 <= i < j < order.len() && share_of(backends[order[i] as int]) == 0 implies share_of(
            backends[order[j] as int],
        ) == 0 by {
            if i > 0 {
                assert(order[i] == rest[i - 1]);
                assert(order[j] == rest[j - 1]);
            } else {
                assert(order[j] == rest[j - 1]);
            }
        }
    }
}

impl Pool {
    /// The shares of the backends at the given places, in the order of the
    /// places.
    fn shares(&self, places: &Vec<usize>) -> (shares: Vec<u128>)
        requires
            forall|k: int| 0 <= k < places.len() ==> places[k] < self.backends.len(),
        ensures
            shares@ == shares_at(self.backends@, places@),
            forall|k: int| 0 <= k < shares.len() ==> shares[k] <= MAX_SHARE,
    {
        let mut shares: Vec<u128> = Vec::new();
        let mut i: usize = 0;
        while i < places.len()
            invariant
                i <= places.len(),
                shares.len() == i,
                forall|k: int| 0 <= k < places.len() ==> places[k] < self.backends.len(),
                forall|k: int| 0 <= k < i ==> shares[k] == share_of(self.backends[places[k] as int]),
                forall|k: int| 0 <= k < i ==> shares[k] <= MAX_SHARE,
            decreases places.len() - i,
        {
            shares.push(share(&self.backends[places[i]]));
            i += 1;
        }
        assert(shares@ =~= shares_at(self.backends@, places@));
        shares
    }

    /// The order in which the candidates are tried, given the numbers
    /// drawn.
    pub fn order_from_draws(&self, candidates: Vec<usize>, draws: &Vec<u64>) -> (order: Vec<usize>)
        requires
            forall|k: int| 0 <= k < candidates.len() ==> candidates[k] < self.backends.len(),
        ensures
            order@ == drawn_order(self.backends@, candidates@, draws@),
    {
        let mut left = candidates;
        let mut order: Vec<usize> = Vec::new();
        let mut used: usize = 0;
        assert(draws@.skip(0) =~= draws@);
        assert(order@ + drawn_order(self.backends@, left@, draws@.skip(0)) =~= drawn_order(
            self.backends@,
            candidates@,
            draws@,
        ));
        while left.len() > 0
            invariant
                used <= draws.len(),
                forall|k: int| 0 <= k < left.len() ==> left[k] < self.backends.len(),
                order@ + drawn_order(self.backends@, left@, draws@.skip(used as int))
                    == drawn_order(self.backends@, candidates@, draws@),
            decreases left.len(),
        {
            let ghost rest = draws@.skip(used as int);
            let ghost before_left = left@;
            let ghost before_order = order@;
            let shares = self.shares(&left);
            let place = if used < draws.len() {
                assert(rest[0] == draws[used as int]);
                match pick_weighted(&shares, draws[used]) {
                    Some(k) => {
                        proof {
                            let r = (draws[used as int] as nat) % sum(shares@);
                            lemma_falls_to_one(shares@, r, k as int, place_drawn(shares@, r));
                        }
                        k
                    },
                    None => 0,
                }
            } else {
                0
            };
            assert(place == next_tried(self.backends@, before_left, rest));
            let chosen = left.remove(place);
            order.push(chosen);
            proof {
                let rest_after = if rest.len() > 0 {
                    rest.drop_first()
                } else {
                    rest
                };
                if used < draws.len() {
                    assert(rest.drop_first() =~= draws@.skip(used + 1));
                } else {
                    assert(draws@.skip(used as int) =~= rest);
                }
                assert(before_order + (seq![chosen] + drawn_order(
                    self.backends@,
                    left@,
                    rest_after,
                )) =~= order@ + drawn_order(self.backends@, left@, rest_after));
            }
            if used < draws.len() {
                used += 1;
            }
        }
        assert(order@ + Seq::<usize>::empty() =~= order@);
        order
    }

    /// The order in which the candidates are tried: each in turn is drawn
    /// at random from those that are left, with the chance that its share
    /// gives it. One number is drawn for each candidate, so none is placed
    /// without a draw, and every candidate comes exactly once.
    pub fn best_order(&self, candidates: Vec<usize>) -> (order: Vec<usize>)
        requires
            forall|k: int| 0 <= k < candidates.len() ==> candidates[k] < self.backends.len(),
        ensures
            exists|draws: Seq<u64>|
                draws.len() == candidates.len() && order@ == #[trigger] drawn_order(
                    self.backends@,
                    candidates@,
                    draws,
                ),
            order@.to_multiset() == candidates@.to_multiset(),
            spent_come_last(self.backends@, order@),
    {
        let mut draws: Vec<u64> = Vec::new();
        let mut i: usize = 0;
        while i < candidates.len()
            invariant
                i <= candidates.len(),
                draws.len() == i,
            decreases candidates.len() - i,
        {
            draws.push(random_draw());
            i += 1;
        }
        proof {
            lemma_drawn_order_permutes(self.backends@, candidates@, draws@);
            lemma_spent_come_last(self.backends@, candidates@, draws@);
        }
        self.order_from_draws(candidates, &draws)
    }

    /// Asks the backend at `place` for a handle.
    pub fn try_backend(
        &mut self,
        place: usize,
        authorization: Option<AuthorizedRequest>,
        min_block: Option<u64>,
        quota: QuotaAnswer,
        now: u64,
    ) -> (result: OpenRequestResult)
        requires
            place < old(self).backends.len(),
        ensures
            final(self).backends.len() == old(self).backends.len(),
            forall|i: int|
                0 <= i < final(self).backends.len() && i != place ==> final(self).backends[i]
                    == old(self).backends[i],
            final(self).min_quorum_weight == old(self).min_quorum_weight,
            final(self).limits == old(self).limits,
            final(self).head == old(self).head,
            final(self).index == old(self).index,
            crate::rpcs::request::opened(
                old(self).backends[place as int],
                final(self).backends[place as int],
                authorization,
                min_block,
                quota,
                now,
                result,
            ),
    {
        let mut backends: Vec<Backend> = Vec::new();
        std::mem::swap(&mut backends, &mut self.backends);
        let mut backend = backends.remove(place);
        let result = backend.open_handle(authorization, min_block, quota, now);
        backends.insert(place, backend);
        std::mem::swap(&mut backends, &mut self.backends);
        result
    }
}

} // verus!
