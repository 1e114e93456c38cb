//! The bounded, drop-oldest queue sitting between the emitting threads and the export thread.

use std::collections::VecDeque;

use vstd::prelude::*;

verus! {

broadcast use vstd::std_specs::vecdeque::group_vec_dequeue_axioms;

/// A bounded queue that discards its oldest entry rather than growing or blocking.
///
/// A full buffer means the collector is slower than the application is emitting, and of the three ways out —
/// growing without limit, making the caller wait, or throwing something away — only the third keeps a telemetry
/// failure from becoming an application failure. Dropping the oldest entry means what survives is the most recent
/// picture rather than a stale prefix. The application puts one behind a lock per signal.
#[derive(Debug)]
pub struct Buffer<T> {
    /// The queued entries, oldest first.
    queue: VecDeque<T>,
    /// Entries discarded since the last [`take`](Buffer::take), reported once rather than per drop.
    dropped: u64,
    /// How many entries the queue holds before it starts discarding.
    capacity: usize,
}

impl<T> Buffer<T> {
    /// A buffer never holds more than it may, and may hold at least one entry.
    pub closed spec fn wf(self) -> bool {
        &&& 1 <= self.capacity
        &&& self.queue@.len() <= self.capacity
    }

    /// A well-formed buffer holds at most its limit, which is at least one.
    pub proof fn lemma_bounded(self)
        requires
            self.wf(),
        ensures
            1 <= self.limit(),
            self.entries().len() <= self.limit(),
    {
    }

    /// The queued entries, oldest first.
    pub closed spec fn entries(self) -> Seq<T> {
        self.queue@
    }

    /// How many entries have been discarded since the last take.
    pub closed spec fn drops(self) -> nat {
        self.dropped as nat
    }

    /// How many entries the buffer holds before it starts discarding.
    pub closed spec fn limit(self) -> nat {
        self.capacity as nat
    }

    /// Creates an empty buffer holding at most `capacity` entries.
    ///
    /// A `capacity` of zero is raised to one: a buffer that discards everything would make telemetry silently
    /// useless, and is far more likely a mistake than an intent.
    pub fn new(capacity: usize) -> (b: Self)
        ensures
            b.wf(),
            b.entries() == Seq::<T>::empty(),
            b.drops() == 0,
            b.limit() == (if capacity == 0 {
                1
            } else {
                capacity as nat
            }),
    {
        let capacity = if capacity == 0 {
            1
        } else {
            capacity
        };
        Buffer { queue: VecDeque::new(), dropped: 0, capacity }
    }

    /// Appends `item`, discarding the oldest entry if the buffer is already full, and returns the queue length
    /// afterwards, which the caller compares against the batch threshold to decide whether to wake the exporter.
    pub fn push(&mut self, item: T) -> (len: usize)
        requires
            old(self).wf(),
            old(self).drops() < u64::MAX,
        ensures
            final(self).wf(),
            final(self).limit() == old(self).limit(),
            old(self).entries().len() >= old(self).limit() ==> {
                &&& final(self).entries() == old(self).entries().drop_first().push(item)
                &&& final(self).drops() == old(self).drops() + 1
            },
            old(self).entries().len() < old(self).limit() ==> {
                &&& final(self).entries() == old(self).entries().push(item)
                &&& final(self).drops() == old(self).drops()
            },
            len == final(self).entries().len(),
            (final(self).entries(), final(self).drops()) == pushed(
                old(self).entries(),
                old(self).drops(),
                old(self).limit(),
                item,
            ),
    {
        if self.queue.len() >= self.capacity {
            let _ = self.queue.pop_front();
            self.dropped = self.dropped + 1;
        }
        self.queue.push_back(item);
        self.queue.len()
    }

    /// Removes everything queued, returning it oldest first alongside the number of entries discarded since the
    /// last call, and resets that tally.
    pub fn take(&mut self) -> (r: (Vec<T>, u64))
        requires
            old(self).wf(),
        ensures
            final(self).wf(),
            r.0@ == old(self).entries(),
            r.1 == old(self).drops(),
            final(self).entries() == Seq::<T>::empty(),
            final(self).drops() == 0,
            final(self).limit() == old(self).limit(),
    {
        let dropped = self.dropped;
        self.dropped = 0;
        let mut out: Vec<T> = Vec::new();
        let ghost original = self.queue@;
        while self.queue.len() > 0
            invariant
                out@ + self.queue@ == original,
                self.dropped == 0,
                self.capacity == old(self).capacity,
                self.capacity >= 1,
                self.queue@.len() <= self.capacity,
            decreases self.queue@.len(),
        {
            match self.queue.pop_front() {
                Some(entry) => {
                    out.push(entry);
                },
                None => {},
            }
        }
        assert(out@ =~= original);
        (out, dropped)
    }

    /// How many entries are queued right now.
    pub fn len(&self) -> (n: usize)
        requires
            self.wf(),
        ensures
            n == self.entries().len(),
    {
        self.queue.len()
    }

    /// How many entries have been discarded since the last take, as reported by it.
    pub fn dropped(&self) -> (n: u64)
        requires
            self.wf(),
        ensures
            n == self.drops(),
    {
        self.dropped
    }
}

/// The queue and drop tally after one push of `item` onto a buffer holding `entries`, with `drops` discarded so far
/// and room for `limit`: a full buffer loses its oldest entry and counts it.
pub open spec fn pushed<T>(entries: Seq<T>, drops: nat, limit: nat, item: T) -> (Seq<T>, nat) {
    if entries.len() >= limit {
        (entries.drop_first().push(item), drops + 1)
    } else {
        (entries.push(item), drops)
    }
}

/// The queue and drop tally after pushing `items`, oldest first, into an empty buffer that holds `limit` entries.
pub open spec fn after_pushes<T>(limit: nat, items: Seq<T>) -> (Seq<T>, nat)
    decreases items.len(),
{
    if items.len() == 0 {
        (Seq::empty(), 0)
    } else {
        let (queue, dropped) = after_pushes(limit, items.drop_last());
        if queue.len() >= limit {
            (queue.drop_first().push(items.last()), dropped + 1)
        } else {
            (queue.push(items.last()), dropped)
        }
    }
}

/// Whatever is pushed into a buffer that starts empty, what it then holds is exactly the most recent
/// `min(n, limit)` items in the order they were pushed, and every older one is counted as dropped: the buffer never
/// loses a recent entry, never reorders, and never loses count of what it discarded.
pub proof fn pushes_keep_the_most_recent<T>(limit: nat, items: Seq<T>)
    requires
        limit >= 1,
    ensures
        after_pushes(limit, items).0 == items.subrange(
            if items.len() > limit {
                items.len() - limit
            } else {
                0
            },
            items.len() as int,
        ),
        after_pushes(limit, items).1 == (if items.len() > limit {
            items.len() - limit
        } else {
            0
        }),
    decreases items.len(),
{
    if items.len() > 0 {
        let prefix = items.drop_last();
        pushes_keep_the_most_recent(limit, prefix);
        let n = items.len() as int;
        let start_before: int = if prefix.len() > limit {
            prefix.len() - limit
        } else {
            0
        };
        let start_after: int = if n > limit {
            n - limit
        } else {
            0
        };
        let (queue, _) = after_pushes(limit, prefix);
        if queue.len() >= limit {
            assert(queue.drop_first().push(items.last()) =~= items.subrange(start_after, n));
        } else {
            assert(queue.push(items.last()) =~= items.subrange(start_after, n));
        }
    }
}

/// A buffer's `push` is one step of [`after_pushes`]: pushing one more item into a buffer holding
/// `after_pushes(limit, items)` leaves it holding `after_pushes(limit, items.push(item))`.
pub proof fn push_is_one_step_of_the_history<T>(buffer: Buffer<T>, next: Buffer<T>, items: Seq<T>, item: T)
    requires
        (buffer.entries(), buffer.drops()) == after_pushes(buffer.limit(), items),
        next.limit() == buffer.limit(),
        buffer.entries().len() >= buffer.limit() ==> {
            &&& next.entries() == buffer.entries().drop_first().push(item)
            &&& next.drops() == buffer.drops() + 1
        },
        buffer.entries().len() < buffer.limit() ==> {
            &&& next.entries() == buffer.entries().push(item)
            &&& next.drops() == buffer.drops()
        },
    ensures
        (next.entries(), next.drops()) == after_pushes(next.limit(), items.push(item)),
{
    assert(items.push(item).drop_last() =~= items);
}

} // verus!
