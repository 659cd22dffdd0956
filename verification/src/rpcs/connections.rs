//! The pool of backends: its consensus head, its block index, and what it
//! makes of the answers when one request went to several backends.

use vstd::prelude::*;
use crate::errors::{ProviderFailure, Web3ProxyError};
use crate::json::JsonValue;
use crate::jsonrpc::JsonRpcForwardedResponse;
use crate::primitives::H256;
use crate::rpcs::blocks::{
    BlockIndex, HeadSnapshot, IndexedBlock, filed, below, fork_point, indexed_hash, reorg_from,
};
use crate::rpcs::connection::{
    Backend, Capabilities, Health, HealthLimits, health_after_failure, health_after_head,
    health_at,
};
use crate::rpcs::consensus::{
    Report, consensus_head, is_consensus, is_quorum_height, lemma_consensus_not_below,
    published_head, report_models, to_publish, weight_at_or_above,
};

verus! {

/// What came back from one backend.
#[derive(Debug, PartialEq, Eq)]
pub enum UpstreamOutcome {
    /// A JSON-RPC response, which may carry an error of the node.
    Response(JsonRpcForwardedResponse),
    /// No response.
    Failure(Web3ProxyError),
}

/// What an outcome is worth to a request that went to several backends.
#[derive(Debug, Clone, Copy, PartialEq, Eq, Structural)]
pub enum OutcomeKind {
    /// A result that is not `null`.
    Answer,
    /// The result `null`: the backend does not know.
    Null,
    /// An error of the node or a failure to reach it.
    Error,
}

impl UpstreamOutcome {
    /// What this outcome is worth.
    pub open spec fn kind(&self) -> OutcomeKind {
        match self {
            UpstreamOutcome::Failure(_) => OutcomeKind::Error,
            UpstreamOutcome::Response(r) => if r@.error is Some {
                OutcomeKind::Error
            } else if r@.result == Some(crate::json::JsonModel::Null) {
                OutcomeKind::Null
            } else {
                OutcomeKind::Answer
            },
        }
    }

    /// What this outcome is worth.
    pub fn classify(&self) -> (kind: OutcomeKind)
        ensures
            kind == self.kind(),
    {
        match self {
            UpstreamOutcome::Failure(_) => OutcomeKind::Error,
            UpstreamOutcome::Response(r) => if r.is_error() {
                OutcomeKind::Error
            } else if r.is_null() {
                OutcomeKind::Null
            } else {
                OutcomeKind::Answer
            },
        }
    }

    /// This outcome as what the client gets.
    pub open spec fn as_result(self) -> Result<JsonRpcForwardedResponse, Web3ProxyError> {
        match self {
            UpstreamOutcome::Response(r) => Ok(r),
            UpstreamOutcome::Failure(e) => Err(e),
        }
    }
}

/// Whether no outcome before place `i` is of the given kind.
pub open spec fn none_before(outcomes: Seq<UpstreamOutcome>, kind: OutcomeKind, i: int) -> bool {
    forall|j: int| 0 <= j < i && j < outcomes.len() ==> (#[trigger] outcomes[j]).kind() != kind
}

/// Whether the outcome at place `i` is the one that a request to several
/// backends returns, the outcomes standing in the order in which they
/// came: the first answer if there is any; else, if all are errors, the
/// last of them; else the first `null`.
pub open spec fn is_fan_out_choice(outcomes: Seq<UpstreamOutcome>, i: int) -> bool {
    &&& 0 <= i < outcomes.len()
    &&& if outcomes[i].kind() == OutcomeKind::Answer {
        none_before(outcomes, OutcomeKind::Answer, i)
    } else if outcomes[i].kind() == OutcomeKind::Null {
        none_before(outcomes, OutcomeKind::Answer, outcomes.len() as int) && none_before(
            outcomes,
            OutcomeKind::Null,
            i,
        )
    } else {
        none_before(outcomes, OutcomeKind::Answer, outcomes.len() as int) && none_before(
            outcomes,
            OutcomeKind::Null,
            outcomes.len() as int,
        ) && i == outcomes.len() - 1
    }
}

/// What a request that went to several backends returns, given what came
/// back in the order in which it came: the first response that is neither
/// `null` nor an error; if there is none and all are errors, the last
/// error; otherwise `null`. Where no backend was asked, there are no
/// servers to speak of.
pub fn fan_out_result(outcomes: Vec<UpstreamOutcome>) -> (result: Result<
    JsonRpcForwardedResponse,
    Web3ProxyError,
>)
    ensures
        outcomes.len() == 0 ==> result == Err::<JsonRpcForwardedResponse, Web3ProxyError>(
            Web3ProxyError::NoServersSynced,
        ),
        outcomes.len() > 0 ==> exists|i: int|
            is_fan_out_choice(outcomes@, i) && result == (#[trigger] outcomes@[i]).as_result(),
{
    if outcomes.len() == 0 {
        return Err(Web3ProxyError::NoServersSynced);
    }
    let mut first_answer: Option<usize> = None;
    let mut first_null: Option<usize> = None;
    let mut i: usize = 0;
    while i < outcomes.len()
        invariant
            i <= outcomes.len(),
            match first_answer {
                Some(a) => a < i && outcomes@[a as int].kind() == OutcomeKind::Answer && none_before(
                    outcomes@,
                    OutcomeKind::Answer,
                    a as int,
                ),
                None => none_before(outcomes@, OutcomeKind::Answer, i as int),
            },
            match first_null {
                Some(n) => n < i && outcomes@[n as int].kind() == OutcomeKind::Null && none_before(
                    outcomes@,
                    OutcomeKind::Null,
                    n as int,
                ),
                None => none_before(outcomes@, OutcomeKind::Null, i as int),
            },
        decreases outcomes.len() - i,
    {
        match outcomes[i].classify() {
            OutcomeKind::Answer => {
                if first_answer.is_none() {
                    first_answer = Some(i);
                }
            },
            OutcomeKind::Null => {
                if first_null.is_none() {
                    first_null = Some(i);
                }
            },
            OutcomeKind::Error => {},
        }
        i += 1;
    }
    let chosen = match first_answer {
        Some(a) => a,
        None => match first_null {
            Some(n) => n,
            None => outcomes.len() - 1,
        },
    };
    assert(is_fan_out_choice(outcomes@, chosen as int));
    let mut outcomes = outcomes;
    let outcome = outcomes.remove(chosen);
    match outcome {
        UpstreamOutcome::Response(r) => Ok(r),
        UpstreamOutcome::Failure(e) => Err(e),
    }
}

/// Fan-out return: the outcome that is returned is the only one that can
/// be: the first answer if there is any, else the last error if all are
/// errors, else the first `null`.
pub proof fn lemma_fan_out_choice_unique(outcomes: Seq<UpstreamOutcome>, i: int, j: int)
    requires
        is_fan_out_choice(outcomes, i),
        is_fan_out_choice(outcomes, j),
    ensures
        i == j,
{
    if i < j {
        assert(outcomes[i].kind() != outcomes[j].kind() || outcomes[i].kind() == OutcomeKind::Error);
    } else if j < i {
        assert(outcomes[j].kind() != outcomes[i].kind() || outcomes[j].kind() == OutcomeKind::Error);
    }
}

/// What a request that was sent to a backend is worth to the one who
/// asked: the response where one came; the error of the node as a
/// response, word for word; and a failure of the proxy where the call did
/// not get through. A response answers the call with the given id,
/// whatever id the backend sent it with.
pub open spec fn outcome_of(
    sent: Result<JsonRpcForwardedResponse, ProviderFailure>,
    id: JsonValue,
) -> UpstreamOutcome {
    match sent {
        Ok(response) => UpstreamOutcome::Response(
            JsonRpcForwardedResponse { id, result: response.result, error: response.error },
        ),
        Err(ProviderFailure::JsonRpc(error)) => UpstreamOutcome::Response(
            JsonRpcForwardedResponse { id, result: None, error: Some(error) },
        ),
        Err(ProviderFailure::Other(text)) => UpstreamOutcome::Failure(
            Web3ProxyError::EthersProvider(ProviderFailure::Other(text)),
        ),
    }
}

/// What a backend is after a request to it has ended. A response counts
/// for its health, and lets an unhealthy backend sync again. An error of
/// the node says nothing of the backend's health. A call that did not get
/// through counts against it.
pub open spec fn settled(
    backend: Backend,
    sent: Result<JsonRpcForwardedResponse, ProviderFailure>,
    limits: HealthLimits,
) -> Backend {
    match sent {
        Ok(_) => Backend {
            failures: 0,
            health: if backend.health == Health::Unhealthy {
                Health::Syncing
            } else {
                backend.health
            },
            ..backend
        },
        Err(ProviderFailure::JsonRpc(_)) => backend,
        Err(ProviderFailure::Other(_)) => {
            let failures = if backend.failures < u32::MAX {
                (backend.failures + 1) as u32
            } else {
                u32::MAX
            };
            Backend {
                failures,
                health: health_after_failure(
                    backend.health,
                    failures as nat,
                    limits.max_failures as nat,
                ),
                ..backend
            }
        },
    }
}

/// Whether the result is the response to the call with `id` that holds
/// the result `null` and no error.
pub open spec fn is_null_for(
    result: Result<JsonRpcForwardedResponse, Web3ProxyError>,
    id: JsonValue,
) -> bool {
    result matches Ok(response) && response.id == id && response@.result == Some(
        crate::json::JsonModel::Null,
    ) && response@.error is None
}

/// A request that went to several backends is answered under its own id.
/// Of outcomes that were settled for the call with `id`, the one that is
/// returned is a failure of the proxy or a response with that id; and
/// where no backend gave an answer and one gave `null`, it is the response
/// with that id, the result `null` and no error.
pub proof fn lemma_fan_out_answers_the_call(
    sent: Seq<Result<JsonRpcForwardedResponse, ProviderFailure>>,
    id: JsonValue,
    outcomes: Seq<UpstreamOutcome>,
    i: int,
)
    requires
        outcomes.len() == sent.len(),
        forall|k: int| 0 <= k < sent.len() ==> #[trigger] outcomes[k] == outcome_of(sent[k], id),
        is_fan_out_choice(outcomes, i),
    ensures
        outcomes[i].as_result() matches Ok(response) ==> response.id == id,
        none_before(outcomes, OutcomeKind::Answer, outcomes.len() as int) && (exists|k: int|
            0 <= k < outcomes.len() && (#[trigger] outcomes[k]).kind() == OutcomeKind::Null)
            ==> is_null_for(outcomes[i].as_result(), id),
{
    assert(outcomes[i] == outcome_of(sent[i], id));
    if none_before(outcomes, OutcomeKind::Answer, outcomes.len() as int) && (exists|k: int|
        0 <= k < outcomes.len() && (#[trigger] outcomes[k]).kind() == OutcomeKind::Null) {
        let k = choose|k: int|
            0 <= k < outcomes.len() && (#[trigger] outcomes[k]).kind() == OutcomeKind::Null;
        assert(outcomes[i].kind() != OutcomeKind::Answer);
        assert(outcomes[i].kind() == OutcomeKind::Null);
    }
}

/// A backend as the clock leaves it at time `now`: synced no more where
/// its last head is older than the stall timeout, and otherwise as it
/// was.
pub open spec fn stalled(backend: Backend, now: u64, limits: HealthLimits) -> Backend {
    Backend {
        health: health_at(
            backend.health,
            backend.head_seen_at as nat,
            now as nat,
            limits.stall_timeout as nat,
        ),
        ..backend
    }
}

/// The pool of backends.
pub struct Pool {
    pub backends: Vec<Backend>,
    /// The weight that has to stand behind the consensus head.
    pub min_quorum_weight: u64,
    pub limits: HealthLimits,
    /// The consensus head that was published last.
    pub head: Option<HeadSnapshot>,
    pub index: BlockIndex,
}

/// Whether a backend takes part in the consensus: it is synced or syncing
/// and has reported a head.
pub open spec fn takes_part(backend: Backend) -> bool {
    (backend.health == Health::Synced || backend.health == Health::Syncing) && backend.head is Some
}

/// The reports of the backends that take part in the consensus, in the
/// order of the backends, each with the request rate that its backend
/// tolerates for its weight.
pub open spec fn reports_of(backends: Seq<Backend>) -> Seq<Report>
    decreases backends.len(),
{
    if backends.len() == 0 {
        Seq::empty()
    } else if takes_part(backends.last()) {
        reports_of(backends.drop_last()).push(
            Report { head: backends.last().head->0, weight: backends.last().soft_limit },
        )
    } else {
        reports_of(backends.drop_last())
    }
}

/// The number of backends that are synced.
pub open spec fn synced_count(backends: Seq<Backend>) -> nat
    decreases backends.len(),
{
    if backends.len() == 0 {
        0
    } else {
        synced_count(backends.drop_last()) + (if backends.last().health == Health::Synced {
            1nat
        } else {
            0nat
        })
    }
}

/// Whether the backend can be asked for a request that needs block
/// `min_block` and the capabilities `needs`: with a block needed, its head
/// is at that block or above; without, it is synced; and it has the
/// capabilities.
pub open spec fn is_candidate(
    backend: Backend,
    min_block: Option<u64>,
    needs: Capabilities,
) -> bool {
    &&& match min_block {
        Some(needed) => backend.head matches Some(head) && head.number >= needed,
        None => backend.health == Health::Synced,
    }
    &&& backend.capabilities.covers(needs)
}

/// What a new head of a backend changed.
#[derive(Debug, PartialEq, Eq)]
pub struct HeadUpdate {
    /// The block at which the backend left the chain it was on, if it did.
    pub fork: Option<u64>,
    /// The consensus head as the reports now have it, if they have one.
    pub consensus: Option<HeadSnapshot>,
    /// The consensus head to publish, if there is a new one.
    pub published: Option<HeadSnapshot>,
}

impl Pool {
    /// The number of the consensus head; zero while there is none.
    pub open spec fn head_number(&self) -> u64 {
        match self.head {
            Some(head) => head.number,
            None => 0,
        }
    }

    /// The hash of the consensus head, if there is one.
    pub open spec fn head_hash(&self) -> Option<Seq<u8>> {
        match self.head {
            Some(head) => Some(head.hash@),
            None => None,
        }
    }

    /// A pool of the given backends with no head yet and an index with room
    /// for `index_capacity` blocks.
    pub fn new(
        backends: Vec<Backend>,
        min_quorum_weight: u64,
        limits: HealthLimits,
        index_capacity: usize,
    ) -> (pool: Pool)
        ensures
            pool.backends == backends,
            pool.min_quorum_weight == min_quorum_weight,
            pool.limits == limits,
            pool.head is None,
            pool.index@ == Seq::<IndexedBlock>::empty(),
            pool.index.limit() == index_capacity,
    {
        Pool { backends, min_quorum_weight, limits, head: None, index: BlockIndex::new(index_capacity) }
    }

    /// The hash of the consensus head, if there is one.
    pub fn head_block_hash(&self) -> (hash: Option<H256>)
        ensures
            hash == (match self.head {
                Some(head) => Some(head.hash),
                None => None,
            }),
    {
        match &self.head {
            Some(head) => Some(head.hash),
            None => None,
        }
    }

    /// The number of the consensus head; zero while there is none.
    pub fn head_block_number(&self) -> (number: u64)
        ensures
            number == self.head_number(),
    {
        match &self.head {
            Some(head) => head.number,
            None => 0,
        }
    }

    /// The hash of block `number`, as far as the index has it.
    pub fn block_hash(&self, number: u64) -> (hash: Option<H256>)
        ensures
            indexed_hash(self.index@, number as nat) == (match hash {
                Some(h) => Some(h@),
                None => None,
            }),
    {
        self.index.get(number)
    }

    /// The number of backends that are synced.
    pub fn num_synced_backends(&self) -> (n: usize)
        ensures
            n == synced_count(self.backends@),
    {
        let mut n: usize = 0;
        let mut i: usize = 0;
        assert(self.backends@.take(0) =~= Seq::<Backend>::empty());
        while i < self.backends.len()
            invariant
                i <= self.backends.len(),
                n == synced_count(self.backends@.take(i as int)),
                n <= i,
            decreases self.backends.len() - i,
        {
            assert(self.backends@.take(i + 1).drop_last() =~= self.backends@.take(i as int));
            if self.backends[i].health == Health::Synced {
                n += 1;
            }
            i += 1;
        }
        assert(self.backends@.take(self.backends.len() as int) =~= self.backends@);
        n
    }

    /// The reports of the backends that take part in the consensus.
    pub fn reports(&self) -> (reports: Vec<Report>)
        ensures
            reports@ == reports_of(self.backends@),
    {
        let mut reports: Vec<Report> = Vec::new();
        let mut i: usize = 0;
        assert(self.backends@.take(0) =~= Seq::<Backend>::empty());
        while i < self.backends.len()
            invariant
                i <= self.backends.len(),
                reports@ == reports_of(self.backends@.take(i as int)),
            decreases self.backends.len() - i,
        {
            assert(self.backends@.take(i + 1).drop_last() =~= self.backends@.take(i as int));
            let backend = &self.backends[i];
            if backend.health == Health::Synced || backend.health == Health::Syncing {
                match &backend.head {
                    Some(head) => {
                        reports.push(Report { head: *head, weight: backend.soft_limit });
                    },
                    None => {},
                }
            }
            i += 1;
        }
        assert(self.backends@.take(self.backends.len() as int) =~= self.backends@);
        reports
    }

    /// The backends that can be asked for a request that needs block
    /// `min_block` and the capabilities `needs`, by their places in the
    /// pool, in order.
    pub fn candidates(&self, min_block: Option<u64>, needs: &Capabilities) -> (places: Vec<usize>)
        ensures
            forall|k: int|
                0 <= k < places.len() ==> (#[trigger] places[k]) < self.backends.len()
                    && is_candidate(self.backends[places[k] as int], min_block, *needs),
            forall|k: int, l: int| 0 <= k < l < places.len() ==> places[k] < places[l],
            forall|i: int|
                0 <= i < self.backends.len() && is_candidate(
                    #[trigger] self.backends[i],
                    min_block,
                    *needs,
                ) ==> exists|k: int| 0 <= k < places.len() && places[k] == i,
    {
        let mut places: Vec<usize> = Vec::new();
        let mut i: usize = 0;
        while i < self.backends.len()
            invariant
                i <= self.backends.len(),
                forall|k: int|
                    0 <= k < places.len() ==> (#[trigger] places[k]) < i && is_candidate(
                        self.backends[places[k] as int],
                        min_block,
                        *needs,
                    ),
                forall|k: int, l: int| 0 <= k < l < places.len() ==> places[k] < places[l],
                forall|j: int|
                    0 <= j < i && is_candidate(#[trigger] self.backends[j], min_block, *needs)
                        ==> exists|k: int| 0 <= k < places.len() && places[k] == j,
            decreases self.backends.len() - i,
        {
            let backend = &self.backends[i];
            let reaches = match min_block {
                Some(needed) => match &backend.head {
                    Some(head) => head.number >= needed,
                    None => false,
                },
                None => backend.health == Health::Synced,
            };
            let ghost before = places@;
            if reaches && backend.capabilities.satisfies(needs) {
                places.push(i);
                assert(places@[places.len() - 1] == i);
                assert forall|j: int|
                    0 <= j < i + 1 && is_candidate(
                        #[trigger] self.backends[j],
                        min_block,
                        *needs,
                    ) implies exists|k: int| 0 <= k < places.len() && places[k] == j by {
                    if j < i {
                        let k = choose|k: int| 0 <= k < before.len() && before[k] == j;
                        assert(places@[k] == j);
                    }
                }
            }
            i += 1;
        }
        places
    }

    /// Looks at the clock for every backend: each synced backend whose
    /// last head is older than the stall timeout turns unhealthy.
    pub fn check_stalls(&mut self, now: u64)
        ensures
            final(self).backends.len() == old(self).backends.len(),
            forall|i: int|
                0 <= i < final(self).backends.len() ==> final(self).backends[i] == stalled(
                    old(self).backends[i],
                    now,
                    old(self).limits,
                ),
            final(self).min_quorum_weight == old(self).min_quorum_weight,
            final(self).limits == old(self).limits,
            final(self).head == old(self).head,
            final(self).index == old(self).index,
    {
        let limits = self.limits;
        let mut backends: Vec<Backend> = Vec::new();
        std::mem::swap(&mut backends, &mut self.backends);
        let ghost before = backends@;
        let mut i: usize = 0;
        while i < backends.len()
            invariant
                i <= backends.len(),
                backends.len() == before.len(),
                forall|k: int| 0 <= k < i ==> backends[k] == stalled(before[k], now, limits),
                forall|k: int| i <= k < backends.len() ==> backends[k] == before[k],
            decreases backends.len() - i,
        {
            let mut backend = backends.remove(i);
            backend.check_stall(now, &limits);
            backends.insert(i, backend);
            i += 1;
        }
        std::mem::swap(&mut backends, &mut self.backends);
    }

    /// Takes note of how the request with the given id went that was sent
    /// to the backend at `place`, and says what it is worth to the one who
    /// asked.
    pub fn settle(
        &mut self,
        place: usize,
        id: JsonValue,
        sent: Result<JsonRpcForwardedResponse, ProviderFailure>,
    ) -> (outcome: UpstreamOutcome)
        requires
            place < old(self).backends.len(),
        ensures
            outcome == outcome_of(sent, id),
            final(self).backends.len() == old(self).backends.len(),
            final(self).backends[place as int] == settled(
                old(self).backends[place as int],
                sent,
                old(self).limits,
            ),
            forall|i: int|
                0 <= i < final(self).backends.len() && i != place ==> final(self).backends[i]
                    == old(self).backends[i],
            final(self).min_quorum_weight == old(self).min_quorum_weight,
            final(self).limits == old(self).limits,
            final(self).head == old(self).head,
            final(self).index == old(self).index,
    {
        let mut backends: Vec<Backend> = Vec::new();
        std::mem::swap(&mut backends, &mut self.backends);
        let mut backend = backends.remove(place);
        let outcome = match sent {
            Ok(response) => {
                backend.record_success();
                UpstreamOutcome::Response(
                    JsonRpcForwardedResponse { id, result: response.result, error: response.error },
                )
            },
            Err(ProviderFailure::JsonRpc(error)) => UpstreamOutcome::Response(
                JsonRpcForwardedResponse { id, result: None, error: Some(error) },
            ),
            Err(ProviderFailure::Other(text)) => {
                backend.record_failure(&self.limits);
                UpstreamOutcome::Failure(
                    Web3ProxyError::EthersProvider(ProviderFailure::Other(text)),
                )
            },
        };
        backends.insert(place, backend);
        std::mem::swap(&mut backends, &mut self.backends);
        outcome
    }

    /// Takes note of a head that the backend at `place` reported at time
    /// `now`.
    pub fn on_head(&mut self, place: usize, head: HeadSnapshot, now: u64) -> (update: HeadUpdate)
        requires
            place < old(self).backends.len(),
        ensures
            head_taken(*old(self), *final(self), place, head, update),
    {
        let consensus_number = match &self.head {
            Some(h) => Some(h.number),
            None => None,
        };
        let fork = match &self.backends[place].head {
            Some(previous) => reorg_from(previous, &head),
            None => None,
        };
        let mut backends: Vec<Backend> = Vec::new();
        std::mem::swap(&mut backends, &mut self.backends);
        let mut backend = backends.remove(place);
        backend.observe_head(head, now, consensus_number, &self.limits);
        backends.insert(place, backend);
        std::mem::swap(&mut backends, &mut self.backends);

        let reports = self.reports();
        let previous_hash = self.head_block_hash();
        let consensus = consensus_head(
            &reports,
            self.min_quorum_weight,
            self.limits.max_lag,
            &previous_hash,
        );
        let published = to_publish(&self.head, &consensus);
        match &published {
            Some(new_head) => {
                match &self.head {
                    Some(h) => {
                        match reorg_from(h, new_head) {
                            Some(f) => {
                                self.index.invalidate_from(f);
                            },
                            None => {},
                        }
                    },
                    None => {},
                }
                self.index.insert(new_head.number, new_head.hash);
                self.head = Some(*new_head);
            },
            None => {},
        }
        HeadUpdate { fork, consensus, published }
    }
}

/// What a head that the backend at `place` reported does to the pool: the
/// backend's head and health follow it, the consensus head is worked out
/// anew, and a new consensus head is published and filed in the block
/// index, from which a fork of the consensus chain first takes the blocks
/// it leaves behind.
pub open spec fn head_taken(
    before: Pool,
    after: Pool,
    place: usize,
    head: HeadSnapshot,
    update: HeadUpdate,
) -> bool {
    &&& after.backends.len() == before.backends.len()
    &&& after.min_quorum_weight == before.min_quorum_weight
    &&& after.limits == before.limits
    &&& after.index.limit() == before.index.limit()
    &&& forall|i: int|
        0 <= i < after.backends.len() && i != place ==> after.backends[i] == before.backends[i]
    &&& after.backends[place as int].head == Some(head)
    &&& after.backends[place as int].health == health_after_head(
        before.backends[place as int].health,
        head.number as nat,
        match before.head {
            Some(h) => Some(h.number as nat),
            None => None,
        },
        before.limits.max_lag as nat,
    )
    &&& after.backends[place as int].active_requests == before.backends[place as int].active_requests
    &&& after.backends[place as int].total_requests == before.backends[place as int].total_requests
    &&& after.backends[place as int].id == before.backends[place as int].id
    &&& after.backends[place as int].soft_limit == before.backends[place as int].soft_limit
    &&& after.backends[place as int].hard_limit == before.backends[place as int].hard_limit
    &&& after.backends[place as int].weight == before.backends[place as int].weight
    &&& after.backends[place as int].capabilities == before.backends[place as int].capabilities
    &&& after.backends[place as int].has_db == before.backends[place as int].has_db
    &&& after.backends[place as int].failures == before.backends[place as int].failures
    &&& fork_point_of(before.backends[place as int].head, head) == (match update.fork {
        Some(f) => Some(f as nat),
        None => None,
    })
    &&& is_consensus(
        report_models(reports_of(after.backends@)),
        before.min_quorum_weight as nat,
        before.limits.max_lag as nat,
        match before.head {
            Some(h) => Some(h.hash@),
            None => None,
        },
        match update.consensus {
            Some(h) => Some(h@),
            None => None,
        },
    )
    &&& update.published == published_head(before.head, update.consensus)
    &&& after.head == (match update.published {
        Some(h) => Some(h),
        None => before.head,
    })
    &&& after.index@ == index_after(before.index@, before.index.limit(), before.head, update.published)
}

/// The block at which `head` leaves the chain of the head before it, if
/// there was one and it does.
pub open spec fn fork_point_of(previous: Option<HeadSnapshot>, head: HeadSnapshot) -> Option<nat> {
    match previous {
        Some(p) => fork_point(p@, head@),
        None => None,
    }
}

/// The block index after the pool has published a head, or none: a fork of
/// the consensus chain takes out the blocks from the fork on, and the new
/// head is filed.
pub open spec fn index_after(
    lines: Seq<IndexedBlock>,
    capacity: nat,
    previous: Option<HeadSnapshot>,
    published: Option<HeadSnapshot>,
) -> Seq<IndexedBlock> {
    match published {
        Some(head) => filed(
            match fork_point_of(previous, head) {
                Some(f) => below(lines, f),
                None => lines,
            },
            head.number as nat,
            head.hash@,
            capacity,
        ),
        None => lines,
    }
}

/// What a backend adds to the weight that stands at block `number` or
/// above: the request rate that it tolerates, where it takes part in the
/// consensus with a head at that block or above.
pub open spec fn weight_added(backend: Backend, number: nat) -> nat {
    if takes_part(backend) && backend.head->0.number >= number {
        backend.soft_limit as nat
    } else {
        0
    }
}

/// The weight of the backends that take part in the consensus with a head
/// at block `number` or above.
pub open spec fn weight_standing(backends: Seq<Backend>, number: nat) -> nat
    decreases backends.len(),
{
    if backends.len() == 0 {
        0
    } else {
        weight_standing(backends.drop_last(), number) + weight_added(backends.last(), number)
    }
}

/// Whether some backend takes part in the consensus with a head at block
/// `number` or above.
pub open spec fn stands_at(backends: Seq<Backend>, number: nat) -> bool {
    exists|i: int|
        0 <= i < backends.len() && takes_part(#[trigger] backends[i]) && backends[i].head->0.number
            >= number
}

/// Whether the head of the pool is backed: backends of the quorum weight
/// take part in the consensus with heads at its number or above.
pub open spec fn head_is_backed(pool: Pool) -> bool {
    pool.head matches Some(head) ==> stands_at(pool.backends@, head.number as nat)
        && weight_standing(pool.backends@, head.number as nat) >= pool.min_quorum_weight
}

proof fn lemma_weight_of_reports(backends: Seq<Backend>, number: nat)
    ensures
        weight_at_or_above(report_models(reports_of(backends)), number) == weight_standing(
            backends,
            number,
        ),
    decreases backends.len(),
{
    if backends.len() > 0 {
        let rest = backends.drop_last();
        lemma_weight_of_reports(rest, number);
        if takes_part(backends.last()) {
            assert(report_models(reports_of(backends)).drop_last() =~= report_models(
                reports_of(rest),
            ));
        }
    } else {
        assert(report_models(reports_of(backends)) =~= Seq::empty());
    }
}

/// The report of a backend that takes part in the consensus is among the
/// reports; gives its place.
proof fn lemma_report_of_backend(backends: Seq<Backend>, i: int) -> (j: int)
    requires
        0 <= i < backends.len(),
        takes_part(backends[i]),
    ensures
        0 <= j < reports_of(backends).len(),
        reports_of(backends)[j].head == backends[i].head->0,
    decreases backends.len(),
{
    if i == backends.len() - 1 {
        reports_of(backends).len() - 1
    } else {
        let j = lemma_report_of_backend(backends.drop_last(), i);
        if takes_part(backends.last()) {
            assert(reports_of(backends)[j] == reports_of(backends.drop_last())[j]);
        }
        j
    }
}

/// Each report is that of a backend that takes part in the consensus;
/// gives its place.
proof fn lemma_backend_of_report(backends: Seq<Backend>, j: int) -> (i: int)
    requires
        0 <= j < reports_of(backends).len(),
    ensures
        0 <= i < backends.len(),
        takes_part(backends[i]),
        backends[i].head->0 == reports_of(backends)[j].head,
    decreases backends.len(),
{
    let rest = backends.drop_last();
    if takes_part(backends.last()) && j == reports_of(backends).len() - 1 {
        backends.len() - 1
    } else {
        if takes_part(backends.last()) {
            assert(reports_of(backends)[j] == reports_of(rest)[j]);
        }
        let i = lemma_backend_of_report(rest, j);
        assert(backends[i] == rest[i]);
        i
    }
}

/// Whether the backend `next` stands where the backend `last` stood, or
/// above: it tolerates what that one tolerated, and takes part in the
/// consensus, no lower, if that one did.
pub open spec fn reported_on(last: Backend, next: Backend) -> bool {
    &&& next.soft_limit == last.soft_limit
    &&& takes_part(last) ==> takes_part(next) && next.head->0.number >= last.head->0.number
}

proof fn lemma_weight_never_falls(
    earlier: Seq<Backend>,
    later: Seq<Backend>,
    place: int,
    number: nat,
)
    requires
        0 <= place < earlier.len(),
        later == earlier.update(place, later[place]),
        reported_on(earlier[place], later[place]),
    ensures
        weight_standing(later, number) >= weight_standing(earlier, number),
        stands_at(earlier, number) ==> stands_at(later, number),
{
    lemma_weight_with_one_changed(earlier, place, later[place], number);
    if stands_at(earlier, number) {
        let i = choose|i: int|
            0 <= i < earlier.len() && takes_part(#[trigger] earlier[i]) && earlier[i].head->0.number
                >= number;
        assert(takes_part(later[i]) && later[i].head->0.number >= number);
    }
}

/// The consensus height stands: backends of the quorum weight take part
/// with heads at it or above.
proof fn lemma_consensus_stands(backends: Seq<Backend>, quorum: nat, height: nat)
    requires
        is_quorum_height(report_models(reports_of(backends)), quorum, height),
    ensures
        stands_at(backends, height),
        weight_standing(backends, height) >= quorum,
{
    let reports = report_models(reports_of(backends));
    lemma_weight_of_reports(backends, height);
    let j = choose|j: int| 0 <= j < reports.len() && (#[trigger] reports[j]).head.number == height;
    assert(reports[j] == reports_of(backends)[j]@);
    let i = lemma_backend_of_report(backends, j);
    assert(takes_part(backends[i]) && backends[i].head->0.number >= height);
}

/// The consensus height is not below a number at which the backends
/// stand with the quorum weight.
proof fn lemma_consensus_above_standing(
    backends: Seq<Backend>,
    quorum: nat,
    number: nat,
    height: nat,
)
    requires
        stands_at(backends, number),
        weight_standing(backends, number) >= quorum,
        is_quorum_height(report_models(reports_of(backends)), quorum, height),
    ensures
        number <= height,
{
    let reports = report_models(reports_of(backends));
    lemma_weight_of_reports(backends, number);
    let i = choose|i: int|
        0 <= i < backends.len() && takes_part(#[trigger] backends[i]) && backends[i].head->0.number
            >= number;
    let top = lemma_report_of_backend(backends, i);
    assert(reports[top] == reports_of(backends)[top]@);
    lemma_consensus_not_below(reports, quorum, number, top, height);
}

proof fn lemma_weight_with_one_changed(
    backends: Seq<Backend>,
    place: int,
    now: Backend,
    number: nat,
)
    requires
        0 <= place < backends.len(),
    ensures
        weight_standing(backends.update(place, now), number) == weight_standing(backends, number)
            - weight_added(backends[place], number) + weight_added(now, number),
    decreases backends.len(),
{
    let changed = backends.update(place, now);
    if place == backends.len() - 1 {
        assert(changed.drop_last() =~= backends.drop_last());
    } else {
        lemma_weight_with_one_changed(backends.drop_last(), place, now, number);
        assert(changed.drop_last() =~= backends.drop_last().update(place, now));
    }
}

/// Consensus monotonicity. While the head of the pool is backed, a head
/// that a backend reports, at its own last head or above or as its first,
/// never brings the consensus below the head of the pool: what the pool
/// then works out and what it publishes is at the number of its head or
/// above, and its head is backed again. A backend that reports for the
/// first time adds to the weight and can only raise the head.
pub proof fn lemma_published_head_never_falls(
    before: Pool,
    after: Pool,
    place: usize,
    head: HeadSnapshot,
    update: HeadUpdate,
)
    requires
        place < before.backends.len(),
        head_taken(before, after, place, head, update),
        head_is_backed(before),
        before.backends[place as int].head matches Some(last) ==> last.number <= head.number,
    ensures
        head_is_backed(after),
        before.head matches Some(old) ==> {
            &&& update.consensus matches Some(worked_out) ==> old.number <= worked_out.number
            &&& update.published matches Some(published) ==> old.number <= published.number
            &&& after.head matches Some(now) && old.number <= now.number
        },
{
    let earlier = before.backends@;
    let later = after.backends@;
    let quorum = before.min_quorum_weight as nat;
    assert(later =~= earlier.update(place as int, later[place as int]));
    assert(reported_on(earlier[place as int], later[place as int]));
    if let Some(old) = before.head {
        lemma_weight_never_falls(earlier, later, place as int, old.number as nat);
    }
    if let Some(worked_out) = update.consensus {
        lemma_consensus_stands(later, quorum, worked_out.number as nat);
        if let Some(old) = before.head {
            lemma_consensus_above_standing(
                later,
                quorum,
                old.number as nat,
                worked_out.number as nat,
            );
        }
    }
}

proof fn lemma_weight_stays(earlier: Seq<Backend>, later: Seq<Backend>, number: nat)
    requires
        earlier.len() == later.len(),
        forall|i: int| 0 <= i < earlier.len() ==> reported_on(#[trigger] earlier[i], later[i]),
    ensures
        weight_standing(later, number) >= weight_standing(earlier, number),
    decreases earlier.len(),
{
    if earlier.len() > 0 {
        let e = earlier.drop_last();
        let l = later.drop_last();
        assert forall|i: int| 0 <= i < e.len() implies reported_on(#[trigger] e[i], l[i]) by {
            assert(reported_on(earlier[i], later[i]));
        }
        lemma_weight_stays(e, l, number);
        assert(reported_on(earlier[earlier.len() - 1], later[earlier.len() - 1]));
    }
}

/// The head of the pool stays backed through whatever leaves every
/// backend standing where it stood or above: handles that are given out
/// and released, requests that succeed, and errors that the nodes answer
/// with. It may cease to be backed where a backend turns unhealthy, by
/// requests that fail or by the clock.
pub proof fn lemma_head_stays_backed(before: Pool, after: Pool)
    requires
        head_is_backed(before),
        after.head == before.head,
        after.min_quorum_weight == before.min_quorum_weight,
        after.backends.len() == before.backends.len(),
        forall|i: int|
            0 <= i < before.backends.len() ==> reported_on(
                #[trigger] before.backends[i],
                after.backends[i],
            ),
    ensures
        head_is_backed(after),
{
    if let Some(head) = before.head {
        let number = head.number as nat;
        lemma_weight_stays(before.backends@, after.backends@, number);
        let i = choose|i: int|
            0 <= i < before.backends.len() && takes_part(#[trigger] before.backends[i])
                && before.backends[i].head->0.number >= number;
        assert(reported_on(before.backends[i], after.backends[i]));
        assert(takes_part(after.backends@[i]) && after.backends@[i].head->0.number >= number);
    }
}

/// One head that a backend reported, and what it changed.
pub struct HeadStep {
    pub place: usize,
    pub head: HeadSnapshot,
    pub update: HeadUpdate,
}

/// Whether the pools are the pool as it was at first and after each of
/// the heads in turn, none of which is below the head that its backend
/// reported last.
pub open spec fn heads_taken(pools: Seq<Pool>, steps: Seq<HeadStep>) -> bool {
    &&& pools.len() == steps.len() + 1
    &&& forall|k: int|
        0 <= k < steps.len() ==> {
            &&& (#[trigger] steps[k]).place < pools[k].backends.len()
            &&& head_taken(pools[k], pools[k + 1], steps[k].place, steps[k].head, steps[k].update)
            &&& pools[k].backends[steps[k].place as int].head matches Some(last) ==> last.number
                <= steps[k].head.number
        }
}

proof fn lemma_heads_rise(pools: Seq<Pool>, steps: Seq<HeadStep>, from: int, to: int)
    requires
        heads_taken(pools, steps),
        head_is_backed(pools[0]),
        0 <= from <= to <= steps.len(),
    ensures
        head_is_backed(pools[to]),
        pools[from].head matches Some(early) ==> pools[to].head matches Some(late) && early.number
            <= late.number,
    decreases to,
{
    if to > 0 {
        let k = to - 1;
        lemma_heads_rise(pools, steps, if from <= k {
            from
        } else {
            k
        }, k);
        assert(steps[k].place < pools[k].backends.len());
        lemma_published_head_never_falls(
            pools[k],
            pools[k + 1],
            steps[k].place,
            steps[k].head,
            steps[k].update,
        );
    }
}

/// Consensus monotonicity of what is published: of two heads that the
/// pool publishes, the later is not at a lower number than the earlier,
/// as long as the pool starts with its head backed and every head that a
/// backend reports is its first or not below its last. Heads may be
/// passed over, but none that goes out is older than one that went out
/// before.
pub proof fn lemma_published_heads_never_fall(
    pools: Seq<Pool>,
    steps: Seq<HeadStep>,
    first: int,
    second: int,
)
    requires
        heads_taken(pools, steps),
        head_is_backed(pools[0]),
        0 <= first < second < steps.len(),
        steps[first].update.published is Some,
        steps[second].update.published is Some,
    ensures
        steps[first].update.published->0.number <= steps[second].update.published->0.number,
{
    assert(steps[first].place < pools[first].backends.len());
    assert(pools[first + 1].head == steps[first].update.published);
    lemma_heads_rise(pools, steps, first + 1, second);
    assert(steps[second].place < pools[second].backends.len());
    lemma_published_head_never_falls(
        pools[second],
        pools[second + 1],
        steps[second].place,
        steps[second].head,
        steps[second].update,
    );
}

proof fn lemma_no_reports(backends: Seq<Backend>)
    requires
        forall|i: int| 0 <= i < backends.len() ==> !takes_part(#[trigger] backends[i]),
    ensures
        reports_of(backends) == Seq::<Report>::empty(),
    decreases backends.len(),
{
    if backends.len() > 0 {
        assert(!takes_part(backends[backends.len() - 1]));
        let rest = backends.drop_last();
        assert forall|i: int| 0 <= i < rest.len() implies !takes_part(#[trigger] rest[i]) by {
            assert(rest[i] == backends[i]);
        }
        lemma_no_reports(rest);
    }
}

proof fn lemma_sole_report(backends: Seq<Backend>, place: int)
    requires
        0 <= place < backends.len(),
        takes_part(backends[place]),
        forall|i: int| 0 <= i < backends.len() && i != place ==> !takes_part(#[trigger] backends[i]),
    ensures
        reports_of(backends) == seq![
            Report { head: backends[place].head->0, weight: backends[place].soft_limit },
        ],
    decreases backends.len(),
{
    let rest = backends.drop_last();
    assert forall|i: int| 0 <= i < rest.len() && i != place implies !takes_part(
        #[trigger] rest[i],
    ) by {
        assert(rest[i] == backends[i]);
    }
    if place == backends.len() - 1 {
        lemma_no_reports(rest);
        assert(reports_of(backends) =~= seq![
            Report { head: backends[place].head->0, weight: backends[place].soft_limit },
        ]);
    } else {
        assert(!takes_part(backends[backends.len() - 1]));
        assert(rest[place] == backends[place]);
        lemma_sole_report(rest, place);
    }
}

/// Where the backend that reports is the only one that takes part in the
/// consensus and tolerates the quorum weight by itself, its head is the
/// consensus head: the pool works that head out, and publishes it, and has
/// it for its head, unless it is the head of the pool already. Such a
/// backend that reports another block at the height of its last head so
/// reorganises the pool.
pub proof fn lemma_sole_reporter_sets_the_head(
    before: Pool,
    after: Pool,
    place: usize,
    head: HeadSnapshot,
    update: HeadUpdate,
)
    requires
        place < before.backends.len(),
        head_taken(before, after, place, head, update),
        before.backends[place as int].health != Health::Unhealthy,
        before.backends[place as int].soft_limit >= before.min_quorum_weight,
        forall|i: int|
            0 <= i < before.backends.len() && i != place ==> !takes_part(
                #[trigger] before.backends[i],
            ),
    ensures
        update.consensus matches Some(worked_out) && worked_out@ == head@,
        (before.head matches Some(old) ==> old@ != head@) ==> update.published == update.consensus
            && after.head == update.consensus,
{
    let later = after.backends@;
    assert forall|i: int| 0 <= i < later.len() && i != place implies !takes_part(
        #[trigger] later[i],
    ) by {
        assert(later[i] == before.backends[i]);
    }
    lemma_sole_report(later, place as int);
    let report = Report { head, weight: later[place as int].soft_limit };
    let reports = report_models(reports_of(later));
    assert(reports =~= seq![report@]);
    assert(reports.drop_last() =~= Seq::empty());
    let quorum = before.min_quorum_weight as nat;
    assert(weight_at_or_above(reports, head.number as nat) >= quorum);
    match update.consensus {
        Some(worked_out) => {
            let w = choose|w: int|
                crate::rpcs::consensus::is_preferred(
                    reports,
                    worked_out@.number,
                    match before.head {
                        Some(h) => Some(h.hash@),
                        None => None,
                    },
                    w,
                ) && (#[trigger] reports[w]).head == worked_out@;
            assert(w == 0);
        },
        None => {
            assert(reports[0].head.number == head.number);
            if crate::rpcs::consensus::no_quorum(reports, quorum) {
                assert(weight_at_or_above(reports, reports[0].head.number) < quorum);
            } else {
                let h = choose|h: nat| #[trigger]
                    is_quorum_height(reports, quorum, h) && !crate::rpcs::consensus::within_lag(
                        reports,
                        h,
                        before.limits.max_lag as nat,
                    );
                let j = choose|j: int|
                    0 <= j < reports.len() && (#[trigger] reports[j]).head.number == h;
                assert(j == 0);
                assert(crate::rpcs::consensus::within_lag(
                    reports,
                    h,
                    before.limits.max_lag as nat,
                ));
            }
        },
    }
}

} // verus!
