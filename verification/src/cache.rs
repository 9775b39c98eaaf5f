//! The bounded history of recent records.

use crate::query::{answer, count_matches, matching, select, LogQuery};
use crate::record::{records, LogEntry, Record};
use vstd::prelude::*;

verus! {

/// The number of records the history keeps unless told otherwise.
pub const DEFAULT_CAPACITY: usize = 1000;

/// The last `n` items of `s` in their order, or all of `s` where it holds no
/// more than `n`.
pub open spec fn keep_last<T>(s: Seq<T>, n: nat) -> Seq<T> {
    if s.len() <= n {
        s
    } else {
        s.subrange(s.len() - n, s.len() as int)
    }
}

/// What a history of capacity `capacity` holds after `record` was appended to
/// `held`: the oldest records leave first.
pub open spec fn after_push(held: Seq<Record>, capacity: nat, record: Record) -> Seq<Record> {
    keep_last(held.push(record), capacity)
}

/// What a history of capacity `capacity` holds after each of `arrivals` was
/// appended to `held`, one after the other.
pub open spec fn after_pushes(
    held: Seq<Record>,
    capacity: nat,
    arrivals: Seq<Record>,
) -> Seq<Record>
    decreases arrivals.len(),
{
    if arrivals.len() == 0 {
        held
    } else {
        after_push(
            after_pushes(held, capacity, arrivals.drop_last()),
            capacity,
            arrivals.last(),
        )
    }
}

/// Appending one by one, with eviction after each append, leaves what one
/// eviction at the end would leave: the most recent `capacity` records of all
/// that were held or appended, in the order of their arrival.
pub proof fn lemma_pushes_keep_latest(held: Seq<Record>, capacity: nat, arrivals: Seq<Record>)
    requires
        held.len() <= capacity,
    ensures
        after_pushes(held, capacity, arrivals) == keep_last(held + arrivals, capacity),
    decreases arrivals.len(),
{
    if arrivals.len() == 0 {
        assert(held + arrivals =~= held);
    } else {
        let earlier = arrivals.drop_last();
        lemma_pushes_keep_latest(held, capacity, earlier);
        assert((held + earlier).push(arrivals.last()) =~= held + arrivals);
        assert(keep_last(keep_last(held + earlier, capacity).push(arrivals.last()), capacity)
            =~= keep_last((held + earlier).push(arrivals.last()), capacity));
    }
}

/// A history that started empty and received more records than it can keep
/// holds exactly the last `capacity` of them, in the order of their arrival,
/// and none that came before those.
pub proof fn lemma_overfull_history_holds_latest(capacity: nat, arrivals: Seq<Record>)
    requires
        arrivals.len() > capacity,
    ensures
        after_pushes(Seq::empty(), capacity, arrivals) == arrivals.subrange(
            arrivals.len() - capacity,
            arrivals.len() as int,
        ),
{
    lemma_pushes_keep_latest(Seq::empty(), capacity, arrivals);
    assert(Seq::<Record>::empty() + arrivals =~= arrivals);
}

/// A history keeps the order of arrival: the records it holds are the last of
/// all that were held or arrived, each as far from the end as it arrived, so
/// that of two records both still held the one that arrived first stands
/// first.
pub proof fn lemma_history_keeps_arrival_order(
    held: Seq<Record>,
    capacity: nat,
    arrivals: Seq<Record>,
    i: int,
    j: int,
)
    requires
        held.len() <= capacity,
        0 <= i < j < after_pushes(held, capacity, arrivals).len(),
    ensures
        ({
            let all = held + arrivals;
            let now = after_pushes(held, capacity, arrivals);
            let evicted: int = all.len() - now.len();
            &&& evicted >= 0
            &&& now[i] == all[evicted + i]
            &&& now[j] == all[evicted + j]
        }),
{
    lemma_pushes_keep_latest(held, capacity, arrivals);
}

/// However many records arrive and in whatever order, a history that started
/// empty holds as many as arrived, up to its capacity, and never more.
pub proof fn lemma_history_len(capacity: nat, arrivals: Seq<Record>)
    ensures
        after_pushes(Seq::empty(), capacity, arrivals).len() == if arrivals.len() <= capacity {
            arrivals.len()
        } else {
            capacity
        },
{
    lemma_pushes_keep_latest(Seq::empty(), capacity, arrivals);
    assert(Seq::<Record>::empty() + arrivals =~= arrivals);
}

/// Drops the oldest items of `items` until no more than `capacity` are left.
pub fn evict_surplus<T>(items: &mut Vec<T>, capacity: usize)
    ensures
        final(items)@ == keep_last(old(items)@, capacity as nat),
{
    if items.len() > capacity {
        let surplus: usize = items.len() - capacity;
        if surplus == 1 {
            items.remove(0);
        } else {
            let kept = items.split_off(surplus);
            *items = kept;
        }
    }
}

/// The most recent records in the order of their arrival, oldest first, never
/// more than the capacity fixed at construction.
pub struct BoundedCache {
    entries: Vec<LogEntry>,
    capacity: usize,
}

impl View for BoundedCache {
    type V = Seq<Record>;

    closed spec fn view(&self) -> Seq<Record> {
        records(self.entries@)
    }
}

impl Default for BoundedCache {
    /// An empty history of the default capacity.
    fn default() -> (cache: BoundedCache)
        ensures
            cache@ == Seq::<Record>::empty(),
            cache.capacity() == DEFAULT_CAPACITY,
    {
        BoundedCache::new(DEFAULT_CAPACITY)
    }
}

impl BoundedCache {
    #[verifier::type_invariant]
    spec fn within_capacity(&self) -> bool {
        self.entries@.len() <= self.capacity
    }

    /// The capacity fixed at construction.
    pub closed spec fn spec_capacity(&self) -> usize {
        self.capacity
    }

    /// An empty history that keeps up to `capacity` records.
    pub fn new(capacity: usize) -> (cache: BoundedCache)
        ensures
            cache@ == Seq::<Record>::empty(),
            cache.capacity() == capacity,
    {
        BoundedCache { entries: Vec::new(), capacity }
    }

    /// The number of records the history keeps at most.
    #[verifier::when_used_as_spec(spec_capacity)]
    pub fn capacity(&self) -> (capacity: usize)
        ensures
            capacity == self.spec_capacity(),
    {
        self.capacity
    }

    /// The number of records held.
    pub fn len(&self) -> (len: usize)
        ensures
            len == self@.len(),
            len <= self.capacity(),
    {
        proof {
            use_type_invariant(self);
        }
        self.entries.len()
    }

    /// Appends a record. Where that takes the history over its capacity the
    /// oldest records are evicted, so that the history then holds the most
    /// recent `capacity` records in their order.
    pub fn push(&mut self, entry: LogEntry)
        ensures
            final(self).capacity() == old(self).capacity(),
            final(self)@ == after_push(old(self)@, old(self).capacity() as nat, entry@),
            final(self)@.len() <= final(self).capacity(),
    {
        let mut entries: Vec<LogEntry> = Vec::new();
        std::mem::swap(&mut entries, &mut self.entries);
        entries.push(entry);
        evict_surplus(&mut entries, self.capacity);
        self.entries = entries;
    }

    /// The records held, from the oldest to the newest.
    pub fn entries(&self) -> (entries: &Vec<LogEntry>)
        ensures
            records(entries@) == self@,
    {
        &self.entries
    }

    /// Answers a query over the records held at this moment: the matching
    /// records, the newest first, cut to the page asked for. The history is
    /// left as it is.
    pub fn query(&self, query: &LogQuery) -> (page: Vec<LogEntry>)
        ensures
            records(page@) == answer(self@, query@),
    {
        select(&self.entries, query)
    }

    /// The number of records held that pass the filters of a query, over all
    /// of its pages.
    pub fn count_matches(&self, query: &LogQuery) -> (count: usize)
        ensures
            count == matching(self@, query@).len(),
    {
        count_matches(&self.entries, query)
    }
}

} // verus!
