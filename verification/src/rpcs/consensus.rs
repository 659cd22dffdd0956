//! The consensus head: the block that the pool takes for the head of the
//! canonical chain, derived from the heads that its backends report.
//!
//! The pool looks for the greatest reported block number at or above
//! which backends of enough weight stand together. The head is the block
//! that most of the weight at that number reports.

use vstd::prelude::*;
use crate::primitives::H256;
use crate::rpcs::blocks::{HeadModel, HeadSnapshot};

verus! {

/// The head that one backend reports, and the weight of that backend.
#[derive(Debug, Clone, Copy, PartialEq, Eq)]
pub struct Report {
    pub head: HeadSnapshot,
    pub weight: u32,
}

/// The mathematical value of a [`Report`].
pub struct ReportModel {
    pub head: HeadModel,
    pub weight: nat,
}

impl View for Report {
    type V = ReportModel;

    open spec fn view(&self) -> ReportModel {
        ReportModel { head: self.head@, weight: self.weight as nat }
    }
}

/// The reports as the contracts speak of them.
pub open spec fn report_models(reports: Seq<Report>) -> Seq<ReportModel> {
    Seq::new(reports.len(), |i: int| reports[i]@)
}

/// The weight of the backends whose head is at block `number` or above.
pub open spec fn weight_at_or_above(reports: Seq<ReportModel>, number: nat) -> nat
    decreases reports.len(),
{
    if reports.len() == 0 {
        0
    } else {
        weight_at_or_above(reports.drop_last(), number) + (if reports.last().head.number >= number {
            reports.last().weight
        } else {
            0
        })
    }
}

/// The weight of the backends whose head is the block `hash` at `number`.
pub open spec fn weight_of_block(reports: Seq<ReportModel>, number: nat, hash: Seq<u8>) -> nat
    decreases reports.len(),
{
    if reports.len() == 0 {
        0
    } else {
        weight_of_block(reports.drop_last(), number, hash) + (if reports.last().head.number
            == number && reports.last().head.hash == hash {
            reports.last().weight
        } else {
            0
        })
    }
}

/// Whether some backend reports a head at block `number`.
pub open spec fn is_reported(reports: Seq<ReportModel>, number: nat) -> bool {
    exists|i: int| 0 <= i < reports.len() && (#[trigger] reports[i]).head.number == number
}

/// Whether `number` is the consensus height: the greatest reported number
/// at or above which backends of at least the quorum weight stand.
pub open spec fn is_quorum_height(reports: Seq<ReportModel>, quorum: nat, number: nat) -> bool {
    &&& is_reported(reports, number)
    &&& weight_at_or_above(reports, number) >= quorum
    &&& forall|j: int|
        0 <= j < reports.len() && (#[trigger] reports[j]).head.number > number
            ==> weight_at_or_above(reports, reports[j].head.number) < quorum
}

/// Whether no reported number has the quorum weight at or above it.
pub open spec fn no_quorum(reports: Seq<ReportModel>, quorum: nat) -> bool {
    forall|j: int|
        0 <= j < reports.len() ==> weight_at_or_above(reports, (#[trigger] reports[j]).head.number)
            < quorum
}

/// Whether the report at `winner` is the one whose block the pool takes at
/// `number`: no other block there has more weight, none of equal weight
/// that continues the previous consensus head stands against one that
/// does not, and among equals the first reported wins.
pub open spec fn is_preferred(
    reports: Seq<ReportModel>,
    number: nat,
    previous: Option<Seq<u8>>,
    winner: int,
) -> bool {
    &&& 0 <= winner < reports.len()
    &&& reports[winner].head.number == number
    &&& forall|j: int|
        0 <= j < reports.len() && (#[trigger] reports[j]).head.number == number ==> !beats(
            reports,
            previous,
            j,
            winner,
        )
}

/// Whether the block of report `a` is to be taken before the block of
/// report `b`, both at the same number.
pub open spec fn beats(
    reports: Seq<ReportModel>,
    previous: Option<Seq<u8>>,
    a: int,
    b: int,
) -> bool {
    let wa = weight_of_block(reports, reports[a].head.number, reports[a].head.hash);
    let wb = weight_of_block(reports, reports[b].head.number, reports[b].head.hash);
    let ca = continues(reports[a].head, previous);
    let cb = continues(reports[b].head, previous);
    wa > wb || (wa == wb && ca && !cb) || (wa == wb && ca == cb && a < b && reports[a].head.hash
        != reports[b].head.hash)
}

/// Whether a head has the previous consensus head for its parent.
pub open spec fn continues(head: HeadModel, previous: Option<Seq<u8>>) -> bool {
    previous == Some(head.parent_hash)
}

/// Whether no backend reports a head more than `max_lag` blocks above
/// `number`.
pub open spec fn within_lag(reports: Seq<ReportModel>, number: nat, max_lag: nat) -> bool {
    forall|j: int| 0 <= j < reports.len() ==> (#[trigger] reports[j]).head.number <= number + max_lag
}

/// What the pool takes for its head, given the reports, the quorum weight,
/// how far the head may lag behind the greatest reported number, and the
/// hash of the previous consensus head.
pub open spec fn is_consensus(
    reports: Seq<ReportModel>,
    quorum: nat,
    max_lag: nat,
    previous: Option<Seq<u8>>,
    result: Option<HeadModel>,
) -> bool {
    match result {
        Some(head) => {
            &&& is_quorum_height(reports, quorum, head.number)
            &&& within_lag(reports, head.number, max_lag)
            &&& exists|w: int|
                is_preferred(reports, head.number, previous, w) && (#[trigger] reports[w]).head
                    == head
        },
        None => no_quorum(reports, quorum) || exists|h: nat| #[trigger]
            is_quorum_height(reports, quorum, h) && !within_lag(reports, h, max_lag),
    }
}

proof fn lemma_weight_unfold(reports: Seq<Report>, n: int, number: nat)
    requires
        0 <= n < reports.len(),
    ensures
        weight_at_or_above(report_models(reports.take(n + 1)), number) == weight_at_or_above(
            report_models(reports.take(n)),
            number,
        ) + (if reports[n].head.number >= number {
            reports[n].weight as nat
        } else {
            0
        }),
        weight_at_or_above(report_models(reports.take(n + 1)), number) <= (n + 1) * 0xffff_ffff,
    decreases n,
{
    assert(report_models(reports.take(n + 1)).drop_last() =~= report_models(reports.take(n)));
    if n > 0 {
        lemma_weight_unfold(reports, n - 1, number);
    } else {
        assert(report_models(reports.take(0)) =~= Seq::<ReportModel>::empty());
    }
}

proof fn lemma_block_weight_unfold(reports: Seq<Report>, n: int, number: nat, hash: Seq<u8>)
    requires
        0 <= n < reports.len(),
    ensures
        weight_of_block(report_models(reports.take(n + 1)), number, hash) == weight_of_block(
            report_models(reports.take(n)),
            number,
            hash,
        ) + (if reports[n].head.number == number && reports[n].head.hash@ == hash {
            reports[n].weight as nat
        } else {
            0
        }),
        weight_of_block(report_models(reports.take(n + 1)), number, hash) <= (n + 1) * 0xffff_ffff,
    decreases n,
{
    assert(report_models(reports.take(n + 1)).drop_last() =~= report_models(reports.take(n)));
    if n > 0 {
        lemma_block_weight_unfold(reports, n - 1, number, hash);
    } else {
        assert(report_models(reports.take(0)) =~= Seq::<ReportModel>::empty());
    }
}

/// The weight of the backends whose head is at block `number` or above.
pub fn weight_from(reports: &Vec<Report>, number: u64) -> (weight: u128)
    ensures
        weight == weight_at_or_above(report_models(reports@), number as nat),
{
    let mut weight: u128 = 0;
    let mut i: usize = 0;
    assert(report_models(reports@.take(0)) =~= Seq::<ReportModel>::empty());
    while i < reports.len()
        invariant
            i <= reports.len(),
            weight == weight_at_or_above(report_models(reports@.take(i as int)), number as nat),
            weight <= i * 0xffff_ffff,
        decreases reports.len() - i,
    {
        proof {
            lemma_weight_unfold(reports@, i as int, number as nat);
        }
        if reports[i].head.number >= number {
            weight = weight + reports[i].weight as u128;
        }
        i += 1;
    }
    assert(reports@.take(reports.len() as int) =~= reports@);
    weight
}

/// The weight of the backends whose head is the block `hash` at `number`.
pub fn weight_on(reports: &Vec<Report>, number: u64, hash: &H256) -> (weight: u128)
    ensures
        weight == weight_of_block(report_models(reports@), number as nat, hash@),
{
    let mut weight: u128 = 0;
    let mut i: usize = 0;
    assert(report_models(reports@.take(0)) =~= Seq::<ReportModel>::empty());
    while i < reports.len()
        invariant
            i <= reports.len(),
            weight == weight_of_block(
                report_models(reports@.take(i as int)),
                number as nat,
                hash@,
            ),
            weight <= i * 0xffff_ffff,
        decreases reports.len() - i,
    {
        proof {
            lemma_block_weight_unfold(reports@, i as int, number as nat, hash@);
        }
        if reports[i].head.number == number && reports[i].head.hash.same(hash) {
            weight = weight + reports[i].weight as u128;
        }
        i += 1;
    }
    assert(reports@.take(reports.len() as int) =~= reports@);
    weight
}

/// The consensus height, if the reports have one.
pub fn quorum_height(reports: &Vec<Report>, quorum: u64) -> (height: Option<u64>)
    ensures
        match height {
            Some(h) => is_quorum_height(report_models(reports@), quorum as nat, h as nat),
            None => no_quorum(report_models(reports@), quorum as nat),
        },
{
    let ghost models = report_models(reports@);
    let mut best: Option<u64> = None;
    let mut i: usize = 0;
    while i < reports.len()
        invariant
            i <= reports.len(),
            models == report_models(reports@),
            match best {
                Some(h) => {
                    &&& exists|k: int| 0 <= k < i && (#[trigger] models[k]).head.number == h
                    &&& weight_at_or_above(models, h as nat) >= quorum
                    &&& forall|j: int|
                        0 <= j < i && (#[trigger] models[j]).head.number > h ==> weight_at_or_above(
                            models,
                            models[j].head.number,
                        ) < quorum
                },
                None => forall|j: int|
                    0 <= j < i ==> weight_at_or_above(models, (#[trigger] models[j]).head.number)
                        < quorum,
            },
        decreases reports.len() - i,
    {
        let number = reports[i].head.number;
        let higher = match best {
            Some(h) => number > h,
            None => true,
        };
        if higher && weight_from(reports, number) >= quorum as u128 {
            assert(models[i as int].head.number == number);
            best = Some(number);
        }
        i += 1;
    }
    best
}

/// The place of the report whose block the pool takes at `number`.
fn preferred(reports: &Vec<Report>, number: u64, previous: &Option<H256>) -> (winner: usize)
    requires
        is_reported(report_models(reports@), number as nat),
    ensures
        is_preferred(
            report_models(reports@),
            number as nat,
            match previous {
                Some(p) => Some(p@),
                None => None,
            },
            winner as int,
        ),
{
    let ghost models = report_models(reports@);
    let ghost prev = match previous {
        Some(p) => Some(p@),
        None => None,
    };
    let mut winner: Option<usize> = None;
    let mut winner_weight: u128 = 0;
    let mut winner_continues = false;
    let mut i: usize = 0;
    while i < reports.len()
        invariant
            i <= reports.len(),
            models == report_models(reports@),
            prev == (match previous {
                Some(p) => Some(p@),
                None => None,
            }),
            match winner {
                Some(w) => {
                    &&& w < i
                    &&& models[w as int].head.number == number
                    &&& winner_weight == weight_of_block(
                        models,
                        number as nat,
                        models[w as int].head.hash,
                    )
                    &&& winner_continues == continues(models[w as int].head, prev)
                    &&& forall|j: int|
                        0 <= j < i && (#[trigger] models[j]).head.number == number ==> !beats(
                            models,
                            prev,
                            j,
                            w as int,
                        )
                },
                None => forall|j: int| 0 <= j < i ==> (#[trigger] models[j]).head.number != number,
            },
        decreases reports.len() - i,
    {
        if reports[i].head.number == number {
            let weight = weight_on(reports, number, &reports[i].head.hash);
            let follows = match previous {
                Some(p) => p.same(&reports[i].head.parent_hash),
                None => false,
            };
            assert(models[i as int].head == reports[i as int].head@);
            assert(follows == continues(models[i as int].head, prev));
            let better = match winner {
                Some(_) => weight > winner_weight || (weight == winner_weight && follows
                    && !winner_continues),
                None => true,
            };
            if better {
                winner = Some(i);
                winner_weight = weight;
                winner_continues = follows;
            }
        }
        i += 1;
    }
    match winner {
        Some(w) => w,
        None => {
            proof {
                let k = choose|k: int|
                    0 <= k < models.len() && (#[trigger] models[k]).head.number == number;
                assert(models[k].head.number != number);
            }
            0
        },
    }
}

/// The greatest number that any backend reports.
fn greatest_number(reports: &Vec<Report>) -> (greatest: u64)
    ensures
        forall|j: int|
            0 <= j < reports.len() ==> (#[trigger] report_models(reports@)[j]).head.number
                <= greatest,
        reports.len() > 0 ==> is_reported(report_models(reports@), greatest as nat),
{
    let ghost models = report_models(reports@);
    let mut greatest: u64 = 0;
    let mut i: usize = 0;
    while i < reports.len()
        invariant
            i <= reports.len(),
            models == report_models(reports@),
            forall|j: int| 0 <= j < i ==> (#[trigger] models[j]).head.number <= greatest,
            i > 0 ==> exists|k: int| 0 <= k < i && (#[trigger] models[k]).head.number == greatest,
        decreases reports.len() - i,
    {
        if reports[i].head.number > greatest || i == 0 {
            greatest = reports[i].head.number;
            assert(models[i as int].head.number == greatest);
        } else {
            let ghost k = choose|k: int|
                0 <= k < i && (#[trigger] models[k]).head.number == greatest;
            assert(models[k].head.number == greatest);
        }
        i += 1;
    }
    greatest
}

/// The consensus head for the reports of the backends that are synced or
/// syncing.
///
/// There is one where backends of at least the quorum weight stand at or
/// above some reported number, and the greatest such number is no more
/// than `max_lag` below the greatest number reported. It is the block at
/// that number with the most weight behind it; among blocks of equal
/// weight, one that has the previous consensus head for its parent; among
/// those, the first reported.
pub fn consensus_head(
    reports: &Vec<Report>,
    quorum: u64,
    max_lag: u64,
    previous: &Option<H256>,
) -> (head: Option<HeadSnapshot>)
    ensures
        is_consensus(
            report_models(reports@),
            quorum as nat,
            max_lag as nat,
            match previous {
                Some(p) => Some(p@),
                None => None,
            },
            match head {
                Some(h) => Some(h@),
                None => None,
            },
        ),
{
    let ghost models = report_models(reports@);
    match quorum_height(reports, quorum) {
        None => None,
        Some(number) => {
            let greatest = greatest_number(reports);
            if greatest - number > max_lag {
                proof {
                    let j = choose|j: int|
                        0 <= j < models.len() && (#[trigger] models[j]).head.number == greatest;
                    assert(models[j].head.number > number + max_lag);
                    assert(is_quorum_height(models, quorum as nat, number as nat));
                }
                None
            } else {
                let winner = preferred(reports, number, previous);
                assert(models[winner as int].head == reports[winner as int].head@);
                Some(reports[winner].head)
            }
        },
    }
}

/// Whether the later reports are those of the same backends, none of which
/// has gone back to a lower block.
pub open spec fn advanced(earlier: Seq<ReportModel>, later: Seq<ReportModel>) -> bool {
    &&& earlier.len() == later.len()
    &&& forall|i: int|
        0 <= i < earlier.len() ==> (#[trigger] earlier[i]).weight == later[i].weight && earlier[i].head.number
            <= later[i].head.number
}

proof fn lemma_weight_grows(earlier: Seq<ReportModel>, later: Seq<ReportModel>, number: nat)
    requires
        advanced(earlier, later),
    ensures
        weight_at_or_above(earlier, number) <= weight_at_or_above(later, number),
    decreases earlier.len(),
{
    if earlier.len() > 0 {
        let e = earlier.drop_last();
        let l = later.drop_last();
        assert forall|i: int| 0 <= i < e.len() implies (#[trigger] e[i]).weight == l[i].weight
            && e[i].head.number <= l[i].head.number by {
            assert(earlier[i].weight == later[i].weight);
        }
        lemma_weight_grows(e, l, number);
        assert(earlier[earlier.len() - 1].weight == later[earlier.len() - 1].weight);
    }
}

proof fn lemma_weight_same_without_report(reports: Seq<ReportModel>, number: nat)
    requires
        !is_reported(reports, number),
    ensures
        weight_at_or_above(reports, number) == weight_at_or_above(reports, number + 1),
    decreases reports.len(),
{
    if reports.len() > 0 {
        let rest = reports.drop_last();
        assert forall|i: int| 0 <= i < rest.len() implies (#[trigger] rest[i]).head.number
            != number by {
            assert(reports[i].head.number != number);
        }
        lemma_weight_same_without_report(rest, number);
        assert(reports[reports.len() - 1].head.number != number);
    }
}

/// Where backends of the quorum weight stand at or above `number`, and one
/// of them at or above it, they stand at or above a reported number that
/// is no lower.
proof fn lemma_quorum_at_reported(reports: Seq<ReportModel>, quorum: nat, number: nat, top: int)
    requires
        0 <= top < reports.len(),
        reports[top].head.number >= number,
        weight_at_or_above(reports, number) >= quorum,
    ensures
        exists|j: int|
            0 <= j < reports.len() && (#[trigger] reports[j]).head.number >= number
                && weight_at_or_above(reports, reports[j].head.number) >= quorum,
    decreases reports[top].head.number - number,
{
    if is_reported(reports, number) {
        let j = choose|j: int| 0 <= j < reports.len() && (#[trigger] reports[j]).head.number == number;
        assert(reports[j].head.number >= number);
    } else {
        lemma_weight_same_without_report(reports, number);
        assert(reports[top].head.number != number);
        lemma_quorum_at_reported(reports, quorum, number + 1, top);
        let j = choose|j: int|
            0 <= j < reports.len() && (#[trigger] reports[j]).head.number >= number + 1
                && weight_at_or_above(reports, reports[j].head.number) >= quorum;
        assert(reports[j].head.number >= number);
    }
}

/// Consensus monotonicity: as long as the same backends report and none of
/// them goes back to a lower block, the number of the consensus head never
/// decreases.
pub proof fn lemma_consensus_monotonic(
    earlier: Seq<ReportModel>,
    later: Seq<ReportModel>,
    quorum: nat,
    before: nat,
    after: nat,
)
    requires
        advanced(earlier, later),
        is_quorum_height(earlier, quorum, before),
        is_quorum_height(later, quorum, after),
    ensures
        before <= after,
{
    if after < before {
        let i = choose|i: int| 0 <= i < earlier.len() && (#[trigger] earlier[i]).head.number == before;
        assert(earlier[i].head.number <= later[i].head.number);
        lemma_weight_grows(earlier, later, before);
        lemma_quorum_at_reported(later, quorum, before, i);
        let j = choose|j: int|
            0 <= j < later.len() && (#[trigger] later[j]).head.number >= before
                && weight_at_or_above(later, later[j].head.number) >= quorum;
        assert(later[j].head.number > after);
    }
}

/// The consensus height is not below a number at or above which backends
/// of the quorum weight stand, one of them with a report.
pub proof fn lemma_consensus_not_below(
    reports: Seq<ReportModel>,
    quorum: nat,
    number: nat,
    top: int,
    height: nat,
)
    requires
        0 <= top < reports.len(),
        reports[top].head.number >= number,
        weight_at_or_above(reports, number) >= quorum,
        is_quorum_height(reports, quorum, height),
    ensures
        number <= height,
{
    if height < number {
        lemma_quorum_at_reported(reports, quorum, number, top);
        let j = choose|j: int|
            0 <= j < reports.len() && (#[trigger] reports[j]).head.number >= number
                && weight_at_or_above(reports, reports[j].head.number) >= quorum;
        assert(reports[j].head.number > height);
    }
}

/// What the pool publishes after it has worked out a consensus head: the
/// new head where there is one and it is not the head published before,
/// and nothing otherwise.
pub open spec fn published_head(previous: Option<HeadSnapshot>, computed: Option<HeadSnapshot>) -> Option<
    HeadSnapshot,
> {
    match (previous, computed) {
        (_, None) => None,
        (None, Some(head)) => Some(head),
        (Some(old), Some(head)) => if old@ == head@ {
            None
        } else {
            Some(head)
        },
    }
}

/// What the pool publishes after it has worked out a consensus head.
pub fn to_publish(previous: &Option<HeadSnapshot>, computed: &Option<HeadSnapshot>) -> (published:
    Option<HeadSnapshot>)
    ensures
        published == published_head(*previous, *computed),
{
    match computed {
        None => None,
        Some(head) => match previous {
            None => Some(*head),
            Some(old) => if old.same(head) {
                None
            } else {
                Some(*head)
            },
        },
    }
}

} // verus!
