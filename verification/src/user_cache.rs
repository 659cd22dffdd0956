//! The cache of users: what the entrance knows of a key without asking
//! the database again, for as many keys as it has room.

use vstd::prelude::*;

verus! {

/// A user as the cache of users holds it.
#[derive(Debug, Clone, Copy, PartialEq, Eq, Structural)]
pub struct UserCacheValue {
    /// When the entry is to be looked up anew, in milliseconds.
    pub expires_at: u64,
    pub user_id: i64,
    pub user_count_per_period: u32,
}

/// One line of the cache, as the contracts speak of it.
pub struct CachedUser {
    pub key: u128,
    pub value: UserCacheValue,
}

/// What the lines hold for `key`, if anything: the value of the youngest
/// line for it.
pub open spec fn cached_user(lines: Seq<CachedUser>, key: u128) -> Option<UserCacheValue>
    decreases lines.len(),
{
    if lines.len() == 0 {
        None
    } else if lines.last().key == key {
        Some(lines.last().value)
    } else {
        cached_user(lines.drop_last(), key)
    }
}

/// The lines after `value` was filed under `key` in a cache that holds at
/// most `capacity` lines: an older line for the key is gone, the oldest
/// line has left if the cache was full, and the new line is the youngest.
/// A cache that may hold no line stays empty.
pub open spec fn with_user(
    lines: Seq<CachedUser>,
    key: u128,
    value: UserCacheValue,
    capacity: nat,
) -> Seq<CachedUser> {
    let kept = lines.filter(|line: CachedUser| line.key != key);
    if capacity == 0 {
        lines
    } else if kept.len() >= capacity {
        kept.drop_first().push(CachedUser { key, value })
    } else {
        kept.push(CachedUser { key, value })
    }
}

struct Line {
    key: u128,
    value: UserCacheValue,
}

spec fn line_models(lines: Seq<Line>) -> Seq<CachedUser> {
    Seq::new(lines.len(), |i: int| CachedUser { key: lines[i].key, value: lines[i].value })
}

/// The cache of users, by the numbers of their keys. It holds no more
/// users than it has room for; the oldest leave first.
pub struct UserCache {
    capacity: usize,
    lines: Vec<Line>,
}

impl View for UserCache {
    type V = Seq<CachedUser>;

    /// The lines, oldest first.
    closed spec fn view(&self) -> Seq<CachedUser> {
        line_models(self.lines@)
    }
}

impl UserCache {
    #[verifier::type_invariant]
    spec fn well_formed(&self) -> bool {
        self.lines.len() <= self.capacity
    }

    /// The most users the cache holds.
    pub closed spec fn limit(&self) -> nat {
        self.capacity as nat
    }

    /// An empty cache with room for `capacity` users.
    pub fn new(capacity: usize) -> (cache: UserCache)
        ensures
            cache@ == Seq::<CachedUser>::empty(),
            cache.limit() == capacity,
    {
        let lines: Vec<Line> = Vec::new();
        assert(line_models(lines@) =~= Seq::<CachedUser>::empty());
        UserCache { capacity, lines }
    }

    /// The number of users in the cache, which is never above its limit.
    pub fn len(&self) -> (n: usize)
        ensures
            n == self@.len(),
            n <= self.limit(),
    {
        proof {
            use_type_invariant(self);
        }
        self.lines.len()
    }

    /// What the cache holds for `key`, if anything.
    pub fn get(&self, key: u128) -> (value: Option<UserCacheValue>)
        ensures
            value == cached_user(self@, key),
    {
        let mut i: usize = self.lines.len();
        assert(self@.take(i as int) =~= self@);
        while i > 0
            invariant
                i <= self.lines.len(),
                cached_user(self@, key) == cached_user(self@.take(i as int), key),
            decreases i,
        {
            i -= 1;
            assert(self@.take(i + 1).drop_last() =~= self@.take(i as int));
            if self.lines[i].key == key {
                return Some(self.lines[i].value);
            }
        }
        None
    }

    /// Files `value` under `key`.
    pub fn insert(&mut self, key: u128, value: UserCacheValue)
        ensures
            final(self).limit() == old(self).limit(),
            final(self)@ == with_user(old(self)@, key, value, old(self).limit()),
    {
        proof {
            use_type_invariant(&*self);
        }
        if self.capacity == 0 {
            return ;
        }
        let mut taken = UserCache::new(self.capacity);
        std::mem::swap(self, &mut taken);
        let UserCache { capacity, lines } = taken;
        let mut kept = others(lines, key);
        if kept.len() >= capacity {
            let ghost full = line_models(kept@);
            kept.remove(0);
            assert(line_models(kept@) =~= full.drop_first());
        }
        let ghost room = line_models(kept@);
        kept.push(Line { key, value });
        assert(line_models(kept@) =~= room.push(CachedUser { key, value }));
        *self = UserCache { capacity, lines: kept };
    }
}

/// The lines for other keys, in their order.
fn others(lines: Vec<Line>, key: u128) -> (kept: Vec<Line>)
    ensures
        kept.len() <= lines.len(),
        line_models(kept@) == line_models(lines@).filter(|line: CachedUser| line.key != key),
{
    let ghost models = line_models(lines@);
    let ghost keep = |line: CachedUser| line.key != key;
    let mut kept: Vec<Line> = Vec::new();
    let mut i: usize = 0;
    assert(models.take(0) =~= Seq::<CachedUser>::empty());
    assert(line_models(kept@) =~= models.take(0).filter(keep));
    while i < lines.len()
        invariant
            i <= lines.len(),
            models == line_models(lines@),
            keep == |line: CachedUser| line.key != key,
            kept.len() <= i,
            line_models(kept@) == models.take(i as int).filter(keep),
        decreases lines.len() - i,
    {
        let ghost done = line_models(kept@);
        proof {
            assert(models.take(i + 1).drop_last() =~= models.take(i as int));
            reveal(Seq::filter);
        }
        if lines[i].key != key {
            kept.push(Line { key: lines[i].key, value: lines[i].value });
            assert(line_models(kept@) =~= done.push(models[i as int]));
        }
        i += 1;
    }
    assert(models.take(lines.len() as int) =~= models);
    kept
}

} // verus!
