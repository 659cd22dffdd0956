//! Heads of chains as the backends report them.

use vstd::prelude::*;
use crate::primitives::H256;

verus! {

/// The head of a chain as one backend saw it at one moment.
#[derive(Debug, Clone, Copy, PartialEq, Eq)]
pub struct HeadSnapshot {
    pub hash: H256,
    pub number: u64,
    pub parent_hash: H256,
    pub timestamp: u64,
}

/// The mathematical value of a [`HeadSnapshot`].
pub struct HeadModel {
    pub hash: Seq<u8>,
    pub number: nat,
    pub parent_hash: Seq<u8>,
    pub timestamp: nat,
}

impl View for HeadSnapshot {
    type V = HeadModel;

    open spec fn view(&self) -> HeadModel {
        HeadModel {
            hash: self.hash@,
            number: self.number as nat,
            parent_hash: self.parent_hash@,
            timestamp: self.timestamp as nat,
        }
    }
}

impl HeadSnapshot {
    /// Whether two snapshots show the same block at the same time.
    pub fn same(&self, other: &HeadSnapshot) -> (b: bool)
        ensures
            b == (self@ == other@),
    {
        self.number == other.number && self.timestamp == other.timestamp && self.hash.same(
            &other.hash,
        ) && self.parent_hash.same(&other.parent_hash)
    }
}

/// The block at which a new head leaves the chain of the head before it,
/// if it does: the number of the new head where it is not above the old
/// one and is another block, and the number of the old head where the new
/// one comes right after it and has another parent.
pub open spec fn fork_point(previous: HeadModel, head: HeadModel) -> Option<nat> {
    if head.number <= previous.number {
        if head.number == previous.number && head.hash == previous.hash {
            None
        } else {
            Some(head.number)
        }
    } else if head.number == previous.number + 1 && head.parent_hash != previous.hash {
        Some(previous.number)
    } else {
        None
    }
}

/// The block at which `head` leaves the chain of `previous`, if it does.
pub fn reorg_from(previous: &HeadSnapshot, head: &HeadSnapshot) -> (fork: Option<u64>)
    ensures
        fork_point(previous@, head@) == (match fork {
            Some(f) => Some(f as nat),
            None => None,
        }),
{
    if head.number <= previous.number {
        if head.number == previous.number && head.hash.same(&previous.hash) {
            None
        } else {
            Some(head.number)
        }
    } else if head.number - 1 == previous.number && !head.parent_hash.same(&previous.hash) {
        Some(previous.number)
    } else {
        None
    }
}

/// One line of the block index, as the contracts speak of it.
pub struct IndexedBlock {
    pub number: nat,
    pub hash: Seq<u8>,
}

/// The hash that the lines give for block `number`, if any: that of the
/// youngest line for it.
pub open spec fn indexed_hash(lines: Seq<IndexedBlock>, number: nat) -> Option<Seq<u8>>
    decreases lines.len(),
{
    if lines.len() == 0 {
        None
    } else if lines.last().number == number {
        Some(lines.last().hash)
    } else {
        indexed_hash(lines.drop_last(), number)
    }
}

/// The lines for blocks below `fork`, in their order.
pub open spec fn below(lines: Seq<IndexedBlock>, fork: nat) -> Seq<IndexedBlock> {
    lines.filter(|line: IndexedBlock| line.number < fork)
}

/// The lines for blocks other than `number`, in their order.
pub open spec fn except(lines: Seq<IndexedBlock>, number: nat) -> Seq<IndexedBlock> {
    lines.filter(|line: IndexedBlock| line.number != number)
}

/// The lines after block `number` was filed with `hash` in an index that
/// holds at most `capacity` lines: an older line for the number is gone,
/// the oldest line has left if the index was full, and the new line is
/// the youngest. An index that may hold no line stays empty.
pub open spec fn filed(lines: Seq<IndexedBlock>, number: nat, hash: Seq<u8>, capacity: nat) -> Seq<
    IndexedBlock,
> {
    let kept = except(lines, number);
    if capacity == 0 {
        lines
    } else if kept.len() >= capacity {
        kept.drop_first().push(IndexedBlock { number, hash })
    } else {
        kept.push(IndexedBlock { number, hash })
    }
}

struct IndexLine {
    number: u64,
    hash: H256,
}

spec fn line_models(lines: Seq<IndexLine>) -> Seq<IndexedBlock> {
    Seq::new(lines.len(), |i: int| IndexedBlock { number: lines[i].number as nat, hash: lines[i].hash@ })
}

/// The block index: the hashes of the blocks of the canonical chain by
/// their numbers, for as many blocks as it has room. A reorganisation of
/// the chain takes out the blocks from the fork on.
pub struct BlockIndex {
    capacity: usize,
    lines: Vec<IndexLine>,
}

impl View for BlockIndex {
    type V = Seq<IndexedBlock>;

    /// The lines, oldest first.
    closed spec fn view(&self) -> Seq<IndexedBlock> {
        line_models(self.lines@)
    }
}

impl BlockIndex {
    #[verifier::type_invariant]
    spec fn well_formed(&self) -> bool {
        self.lines.len() <= self.capacity
    }

    /// The most lines the index holds.
    pub closed spec fn limit(&self) -> nat {
        self.capacity as nat
    }

    /// An empty index with room for `capacity` blocks.
    pub fn new(capacity: usize) -> (index: BlockIndex)
        ensures
            index@ == Seq::<IndexedBlock>::empty(),
            index.limit() == capacity,
    {
        let lines: Vec<IndexLine> = Vec::new();
        assert(line_models(lines@) =~= Seq::<IndexedBlock>::empty());
        BlockIndex { capacity, lines }
    }

    /// The most blocks the index holds.
    pub fn capacity(&self) -> (capacity: usize)
        ensures
            capacity == self.limit(),
    {
        self.capacity
    }

    /// The number of blocks in the index, which is never above its limit.
    pub fn len(&self) -> (n: usize)
        ensures
            n == self@.len(),
            n <= self.limit(),
    {
        proof {
            use_type_invariant(self);
        }
        self.lines.len()
    }

    /// The hash of block `number`, if the index has it.
    pub fn get(&self, number: u64) -> (hash: Option<H256>)
        ensures
            indexed_hash(self@, number as nat) == (match hash {
                Some(h) => Some(h@),
                None => None,
            }),
    {
        let mut i: usize = self.lines.len();
        assert(self@.take(i as int) =~= self@);
        while i > 0
            invariant
                i <= self.lines.len(),
                indexed_hash(self@, number as nat) == indexed_hash(
                    self@.take(i as int),
                    number as nat,
                ),
            decreases i,
        {
            i -= 1;
            assert(self@.take(i + 1).drop_last() =~= self@.take(i as int));
            if self.lines[i].number == number {
                return Some(self.lines[i].hash);
            }
        }
        None
    }

    /// Files block `number` with `hash`.
    pub fn insert(&mut self, number: u64, hash: H256)
        ensures
            final(self).limit() == old(self).limit(),
            final(self)@ == filed(old(self)@, number as nat, hash@, old(self).limit()),
    {
        proof {
            use_type_invariant(&*self);
        }
        if self.capacity == 0 {
            return ;
        }
        let mut taken = BlockIndex::new(self.capacity);
        std::mem::swap(self, &mut taken);
        let BlockIndex { capacity, lines } = taken;
        let ghost before = line_models(lines@);
        let mut kept = retain_lines(lines, number, false);
        if kept.len() >= capacity {
            let ghost full = line_models(kept@);
            kept.remove(0);
            assert(line_models(kept@) =~= full.drop_first());
        }
        let ghost room = line_models(kept@);
        kept.push(IndexLine { number, hash });
        assert(line_models(kept@) =~= room.push(IndexedBlock { number: number as nat, hash: hash@ }));
        *self = BlockIndex { capacity, lines: kept };
    }

    /// Takes out the blocks from `fork` on.
    pub fn invalidate_from(&mut self, fork: u64)
        ensures
            final(self).limit() == old(self).limit(),
            final(self)@ == below(old(self)@, fork as nat),
    {
        proof {
            use_type_invariant(&*self);
        }
        let mut taken = BlockIndex::new(self.capacity);
        std::mem::swap(self, &mut taken);
        let BlockIndex { capacity, lines } = taken;
        let kept = retain_lines(lines, fork, true);
        *self = BlockIndex { capacity, lines: kept };
    }
}

/// Whether a line stays: with `lower`, where its number is below `number`;
/// without, where its number is another.
spec fn stays(line: IndexedBlock, number: nat, lower: bool) -> bool {
    if lower {
        line.number < number
    } else {
        line.number != number
    }
}

/// The lines that stay, in their order.
fn retain_lines(lines: Vec<IndexLine>, number: u64, lower: bool) -> (kept: Vec<IndexLine>)
    ensures
        kept.len() <= lines.len(),
        lower ==> line_models(kept@) == below(line_models(lines@), number as nat),
        !lower ==> line_models(kept@) == except(line_models(lines@), number as nat),
{
    let ghost models = line_models(lines@);
    let ghost keep = |line: IndexedBlock| stays(line, number as nat, lower);
    let mut kept: Vec<IndexLine> = Vec::new();
    let mut i: usize = 0;
    assert(models.take(0) =~= Seq::<IndexedBlock>::empty());
    assert(line_models(kept@) =~= models.take(0).filter(keep));
    while i < lines.len()
        invariant
            i <= lines.len(),
            models == line_models(lines@),
            keep == |line: IndexedBlock| stays(line, number as nat, lower),
            kept.len() <= i,
            line_models(kept@) == models.take(i as int).filter(keep),
        decreases lines.len() - i,
    {
        let ghost done = line_models(kept@);
        proof {
            assert(models.take(i + 1).drop_last() =~= models.take(i as int));
            reveal(Seq::filter);
        }
        let stay = if lower {
            lines[i].number < number
        } else {
            lines[i].number != number
        };
        if stay {
            kept.push(IndexLine { number: lines[i].number, hash: lines[i].hash });
            assert(line_models(kept@) =~= done.push(models[i as int]));
        }
        i += 1;
    }
    proof {
        assert(models.take(lines.len() as int) =~= models);
        if lower {
            assert(below(models, number as nat) =~= models.filter(keep)) by {
                assert(keep =~= (|line: IndexedBlock| line.number < number as nat));
            }
        } else {
            assert(except(models, number as nat) =~= models.filter(keep)) by {
                assert(keep =~= (|line: IndexedBlock| line.number != number as nat));
            }
        }
    }
    kept
}

} // verus!
