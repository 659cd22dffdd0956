//! One upstream node: its limits, its head, its health and its counters.

use vstd::prelude::*;
use crate::rpcs::blocks::HeadSnapshot;

verus! {

/// How far a backend can be trusted with requests.
#[derive(Debug, Clone, Copy, PartialEq, Eq, Structural)]
pub enum Health {
    /// No head seen yet.
    New,
    /// Heads are coming in, but the backend is behind the consensus head.
    Syncing,
    /// The backend keeps up with the consensus head.
    Synced,
    /// Requests keep failing, or no head has come for too long.
    Unhealthy,
}

/// What a backend can do beyond the ordinary calls.
#[derive(Debug, Clone, Copy, PartialEq, Eq, Structural)]
pub struct Capabilities {
    pub archive: bool,
    pub trace: bool,
    pub debug: bool,
}

impl Capabilities {
    /// Whether a backend with these capabilities has all that `needs` asks.
    pub open spec fn covers(self, needs: Capabilities) -> bool {
        &&& needs.archive ==> self.archive
        &&& needs.trace ==> self.trace
        &&& needs.debug ==> self.debug
    }

    /// Whether a backend with these capabilities has all that `needs` asks.
    pub fn satisfies(&self, needs: &Capabilities) -> (b: bool)
        ensures
            b == self.covers(*needs),
    {
        (!needs.archive || self.archive) && (!needs.trace || self.trace) && (!needs.debug
            || self.debug)
    }
}

/// What turns a healthy backend unhealthy.
#[derive(Debug, Clone, Copy, PartialEq, Eq)]
pub struct HealthLimits {
    /// How far, in blocks, a head may be behind the consensus head.
    pub max_lag: u64,
    /// How many requests may fail in a row.
    pub max_failures: u32,
    /// How long, in milliseconds, the backend may go without a new head.
    pub stall_timeout: u64,
}

/// One upstream node.
#[derive(Debug, PartialEq, Eq)]
pub struct Backend {
    /// The name of the node, made from its URL.
    pub id: String,
    /// Requests per second that the node tolerates.
    pub soft_limit: u32,
    /// The most requests that may be under way at once.
    pub hard_limit: u32,
    /// The share of the load that the node is to get.
    pub weight: u32,
    pub capabilities: Capabilities,
    /// Whether reverts of calls to this node can be recorded.
    pub has_db: bool,
    /// The last head the node reported.
    pub head: Option<HeadSnapshot>,
    /// When that head came, in milliseconds.
    pub head_seen_at: u64,
    /// Requests under way.
    pub active_requests: u32,
    /// Requests ever started.
    pub total_requests: u64,
    /// Requests that failed since the last that succeeded.
    pub failures: u32,
    pub health: Health,
}

/// The health of a backend after it reported a head: a new backend starts
/// syncing, and a syncing one is synced once its head is no more than
/// `max_lag` blocks behind the consensus head. An unhealthy backend stays
/// so until a probe succeeds.
pub open spec fn health_after_head(
    health: Health,
    number: nat,
    consensus: Option<nat>,
    max_lag: nat,
) -> Health {
    match health {
        Health::Unhealthy => Health::Unhealthy,
        Health::Synced => Health::Synced,
        Health::New | Health::Syncing => match consensus {
            Some(c) if health == Health::Syncing && number + max_lag >= c => Health::Synced,
            _ => Health::Syncing,
        },
    }
}

/// The health of a backend after a request failed: a synced backend turns
/// unhealthy once `max_failures` requests have failed in a row.
pub open spec fn health_after_failure(health: Health, failures: nat, max_failures: nat) -> Health {
    if health == Health::Synced && failures >= max_failures {
        Health::Unhealthy
    } else {
        health
    }
}

/// The health of a backend at a time: a synced backend turns unhealthy
/// once it has gone more than `stall_timeout` without a new head.
pub open spec fn health_at(
    health: Health,
    head_seen_at: nat,
    now: nat,
    stall_timeout: nat,
) -> Health {
    if health == Health::Synced && now > head_seen_at + stall_timeout {
        Health::Unhealthy
    } else {
        health
    }
}

impl Backend {
    /// A backend that has not been heard of yet.
    pub fn new(
        id: String,
        soft_limit: u32,
        hard_limit: u32,
        weight: u32,
        capabilities: Capabilities,
        has_db: bool,
    ) -> (backend: Backend)
        ensures
            backend.id == id,
            backend.soft_limit == soft_limit,
            backend.hard_limit == hard_limit,
            backend.weight == weight,
            backend.capabilities == capabilities,
            backend.has_db == has_db,
            backend.head is None,
            backend.head_seen_at == 0,
            backend.active_requests == 0,
            backend.total_requests == 0,
            backend.failures == 0,
            backend.health == Health::New,
    {
        Backend {
            id,
            soft_limit,
            hard_limit,
            weight,
            capabilities,
            has_db,
            head: None,
            head_seen_at: 0,
            active_requests: 0,
            total_requests: 0,
            failures: 0,
            health: Health::New,
        }
    }

    /// Takes note of a head that the backend reported at time `now`, given
    /// the number of the consensus head, where there is one.
    pub fn observe_head(
        &mut self,
        head: HeadSnapshot,
        now: u64,
        consensus: Option<u64>,
        limits: &HealthLimits,
    )
        ensures
            final(self).head == Some(head),
            final(self).head_seen_at == now,
            final(self).health == health_after_head(
                old(self).health,
                head.number as nat,
                match consensus {
                    Some(c) => Some(c as nat),
                    None => None,
                },
                limits.max_lag as nat,
            ),
            final(self).id == old(self).id,
            final(self).soft_limit == old(self).soft_limit,
            final(self).hard_limit == old(self).hard_limit,
            final(self).weight == old(self).weight,
            final(self).capabilities == old(self).capabilities,
            final(self).has_db == old(self).has_db,
            final(self).active_requests == old(self).active_requests,
            final(self).total_requests == old(self).total_requests,
            final(self).failures == old(self).failures,
    {
        self.head = Some(head);
        self.head_seen_at = now;
        match self.health {
            Health::New => {
                self.health = Health::Syncing;
            },
            Health::Syncing => {
                match consensus {
                    Some(c) => {
                        if c <= limits.max_lag || head.number >= c - limits.max_lag {
                            self.health = Health::Synced;
                        }
                    },
                    None => {},
                }
            },
            Health::Synced => {},
            Health::Unhealthy => {},
        }
    }

    /// Takes note of a request that succeeded. For an unhealthy backend a
    /// success is the probe that lets it sync again.
    pub fn record_success(&mut self)
        ensures
            final(self).failures == 0,
            final(self).health == (if old(self).health == Health::Unhealthy {
                Health::Syncing
            } else {
                old(self).health
            }),
            final(self).id == old(self).id,
            final(self).soft_limit == old(self).soft_limit,
            final(self).hard_limit == old(self).hard_limit,
            final(self).weight == old(self).weight,
            final(self).capabilities == old(self).capabilities,
            final(self).has_db == old(self).has_db,
            final(self).head == old(self).head,
            final(self).head_seen_at == old(self).head_seen_at,
            final(self).active_requests == old(self).active_requests,
            final(self).total_requests == old(self).total_requests,
    {
        self.failures = 0;
        if self.health == Health::Unhealthy {
            self.health = Health::Syncing;
        }
    }

    /// Takes note of a request that failed.
    pub fn record_failure(&mut self, limits: &HealthLimits)
        ensures
            final(self).failures == (if old(self).failures < u32::MAX {
                old(self).failures + 1
            } else {
                u32::MAX as int
            }),
            final(self).health == health_after_failure(
                old(self).health,
                final(self).failures as nat,
                limits.max_failures as nat,
            ),
            final(self).id == old(self).id,
            final(self).soft_limit == old(self).soft_limit,
            final(self).hard_limit == old(self).hard_limit,
            final(self).weight == old(self).weight,
            final(self).capabilities == old(self).capabilities,
            final(self).has_db == old(self).has_db,
            final(self).head == old(self).head,
            final(self).head_seen_at == old(self).head_seen_at,
            final(self).active_requests == old(self).active_requests,
            final(self).total_requests == old(self).total_requests,
    {
        if self.failures < u32::MAX {
            self.failures = self.failures + 1;
        }
        if self.health == Health::Synced && self.failures >= limits.max_failures {
            self.health = Health::Unhealthy;
        }
    }

    /// Looks at the clock: a synced backend whose last head is older than
    /// the stall timeout turns unhealthy.
    pub fn check_stall(&mut self, now: u64, limits: &HealthLimits)
        ensures
            final(self).health == health_at(
                old(self).health,
                old(self).head_seen_at as nat,
                now as nat,
                limits.stall_timeout as nat,
            ),
            final(self).id == old(self).id,
            final(self).soft_limit == old(self).soft_limit,
            final(self).hard_limit == old(self).hard_limit,
            final(self).weight == old(self).weight,
            final(self).capabilities == old(self).capabilities,
            final(self).has_db == old(self).has_db,
            final(self).head == old(self).head,
            final(self).head_seen_at == old(self).head_seen_at,
            final(self).active_requests == old(self).active_requests,
            final(self).total_requests == old(self).total_requests,
            final(self).failures == old(self).failures,
    {
        if self.health == Health::Synced && now > self.head_seen_at && now - self.head_seen_at
            > limits.stall_timeout {
            self.health = Health::Unhealthy;
        }
    }
}

} // verus!
