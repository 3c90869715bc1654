//! The batch export pipeline: a bounded buffer of ended spans, the decision
//! when to flush it, and the retry policy for sending a batch.
use crate::span::Span;
use vstd::multiset::Multiset;
use vstd::prelude::*;
use vstd::seq_lib::{group_to_multiset_ensures, lemma_multiset_commutative};

verus! {

broadcast use group_to_multiset_ensures;

/// Sizes and interval of the pipeline.
#[derive(Clone, Copy, Debug, PartialEq, Eq, Structural)]
pub struct BatchConfig {
    /// Most spans the buffer holds; further spans are dropped.
    pub max_queue_size: usize,
    /// Buffer length at which a flush is due.
    pub max_export_batch_size: usize,
    /// Time after the last flush at which a flush of a non-empty buffer is due.
    pub scheduled_delay: u64,
}

impl BatchConfig {
    /// The sizes are positive and a batch fits in the buffer.
    pub open spec fn valid(self) -> bool {
        1 <= self.max_export_batch_size <= self.max_queue_size
    }

    /// A configuration, if the sizes are consistent.
    pub fn new(max_queue_size: usize, max_export_batch_size: usize, scheduled_delay: u64) -> (r:
        Option<BatchConfig>)
        ensures
            r is Some <==> (1 <= max_export_batch_size && max_export_batch_size <= max_queue_size),
            r matches Some(c) ==> c.max_queue_size == max_queue_size && c.max_export_batch_size
                == max_export_batch_size && c.scheduled_delay == scheduled_delay,
    {
        if 1 <= max_export_batch_size && max_export_batch_size <= max_queue_size {
            Some(BatchConfig { max_queue_size, max_export_batch_size, scheduled_delay })
        } else {
            None
        }
    }
}

/// `a + b`, held at `u64::MAX`.
pub open spec fn sat_add(a: u64, b: nat) -> u64 {
    if a + b > u64::MAX {
        u64::MAX
    } else {
        (a + b) as u64
    }
}

/// `n`, held at `u64::MAX`.
pub open spec fn sat(n: nat) -> u64 {
    if n > u64::MAX {
        u64::MAX
    } else {
        n as u64
    }
}

/// Buffers ended spans and hands them out in batches.
pub struct BatchProcessor {
    config: BatchConfig,
    queue: Vec<Span>,
    dropped: u64,
    last_flush: u64,
    shut_down: bool,
    /// Every span ever submitted.
    submitted: Ghost<Seq<Span>>,
    /// Every span handed out in a batch.
    emitted: Ghost<Seq<Span>>,
    /// Every span refused because the buffer was full or closed.
    rejected: Ghost<Seq<Span>>,
    /// How many handed-out spans were reported undelivered.
    undelivered: Ghost<nat>,
}

impl BatchProcessor {
    pub closed spec fn config(&self) -> BatchConfig {
        self.config
    }

    /// The spans waiting for the next flush, oldest first.
    pub closed spec fn queued(&self) -> Seq<Span> {
        self.queue@
    }

    pub closed spec fn dropped(&self) -> u64 {
        self.dropped
    }

    pub closed spec fn last_flush(&self) -> u64 {
        self.last_flush
    }

    pub closed spec fn is_shut_down(&self) -> bool {
        self.shut_down
    }

    pub closed spec fn submitted(&self) -> Seq<Span> {
        self.submitted@
    }

    pub closed spec fn emitted(&self) -> Seq<Span> {
        self.emitted@
    }

    pub closed spec fn rejected(&self) -> Seq<Span> {
        self.rejected@
    }

    pub closed spec fn undelivered(&self) -> nat {
        self.undelivered@
    }

    /// The configuration is valid, the buffer is within bounds, and every
    /// submitted span is in exactly one place: handed out, waiting, or refused.
    pub closed spec fn wf(&self) -> bool {
        &&& self.config.valid()
        &&& self.queue@.len() <= self.config.max_queue_size
        &&& self.dropped == sat(self.rejected@.len() + self.undelivered@)
        &&& self.submitted@.to_multiset() == self.emitted@.to_multiset().add(
            self.queue@.to_multiset(),
        ).add(self.rejected@.to_multiset())
    }

    /// Whether a flush is due at time `now`: the buffer has reached the batch
    /// size, or it is not empty and the interval has passed since the last flush.
    pub open spec fn flush_due(&self, now: u64) -> bool {
        self.queued().len() >= self.config().max_export_batch_size || (self.queued().len() > 0
            && now >= self.last_flush() && now - self.last_flush() >= self.config().scheduled_delay)
    }

    /// An empty pipeline whose last flush counts as `now`.
    pub fn new(config: BatchConfig, now: u64) -> (r: BatchProcessor)
        requires
            config.valid(),
        ensures
            r.wf(),
            r.config() == config,
            r.queued().len() == 0,
            r.dropped() == 0,
            r.last_flush() == now,
            !r.is_shut_down(),
            r.submitted().len() == 0,
            r.emitted().len() == 0,
            r.rejected().len() == 0,
            r.undelivered() == 0,
    {
        let r = BatchProcessor {
            config,
            queue: Vec::new(),
            dropped: 0,
            last_flush: now,
            shut_down: false,
            submitted: Ghost(Seq::empty()),
            emitted: Ghost(Seq::empty()),
            rejected: Ghost(Seq::empty()),
            undelivered: Ghost(0),
        };
        assert(r.submitted@.to_multiset() =~= r.emitted@.to_multiset().add(
            r.queue@.to_multiset(),
        ).add(r.rejected@.to_multiset()));
        r
    }

    /// Spans refused so far, by overflow, after shutdown, or given up in export.
    pub fn dropped_count(&self) -> (r: u64)
        ensures
            r == self.dropped(),
    {
        self.dropped
    }

    pub fn queue_len(&self) -> (r: usize)
        requires
            self.wf(),
        ensures
            r == self.queued().len(),
    {
        self.queue.len()
    }

    /// Adds an ended span to the buffer without blocking. When the buffer is
    /// full, or the pipeline is shut down, the new span is dropped and counted.
    pub fn submit(&mut self, span: Span)
        requires
            old(self).wf(),
        ensures
            final(self).wf(),
            final(self).config() == old(self).config(),
            final(self).last_flush() == old(self).last_flush(),
            final(self).is_shut_down() == old(self).is_shut_down(),
            final(self).emitted() == old(self).emitted(),
            final(self).submitted() == old(self).submitted().push(span),
            final(self).undelivered() == old(self).undelivered(),
            if old(self).is_shut_down() || old(self).queued().len()
                >= old(self).config().max_queue_size {
                &&& final(self).queued() == old(self).queued()
                &&& final(self).rejected() == old(self).rejected().push(span)
                &&& final(self).dropped() == sat_add(old(self).dropped(), 1)
            } else {
                &&& final(self).queued() == old(self).queued().push(span)
                &&& final(self).rejected() == old(self).rejected()
                &&& final(self).dropped() == old(self).dropped()
            },
    {
        let ghost s = span;
        if self.shut_down || self.queue.len() >= self.config.max_queue_size {
            self.dropped = self.dropped.saturating_add(1);
            proof {
                self.rejected@ = self.rejected@.push(s);
            }
        } else {
            self.queue.push(span);
        }
        proof {
            self.submitted@ = self.submitted@.push(s);
            assert(self.submitted@.to_multiset() =~= self.emitted@.to_multiset().add(
                self.queue@.to_multiset(),
            ).add(self.rejected@.to_multiset()));
        }
    }

    /// Whether a flush is due at `now`.
    pub fn is_flush_due(&self, now: u64) -> (r: bool)
        requires
            self.wf(),
        ensures
            r == self.flush_due(now),
    {
        self.queue.len() >= self.config.max_export_batch_size || (self.queue.len() > 0 && now
            >= self.last_flush && now - self.last_flush >= self.config.scheduled_delay)
    }

    /// Takes the whole buffer as one batch when a flush is due at `now`, and
    /// records `now` as the time of the last flush; otherwise changes nothing.
    pub fn poll(&mut self, now: u64) -> (r: Option<Vec<Span>>)
        requires
            old(self).wf(),
        ensures
            final(self).wf(),
            final(self).config() == old(self).config(),
            final(self).dropped() == old(self).dropped(),
            final(self).is_shut_down() == old(self).is_shut_down(),
            final(self).submitted() == old(self).submitted(),
            final(self).rejected() == old(self).rejected(),
            final(self).undelivered() == old(self).undelivered(),
            old(self).flush_due(now) ==> {
                &&& r matches Some(b) && b@ == old(self).queued()
                &&& final(self).queued().len() == 0
                &&& final(self).last_flush() == now
                &&& final(self).emitted() == old(self).emitted() + old(self).queued()
            },
            !old(self).flush_due(now) ==> {
                &&& r is None
                &&& final(self).queued() == old(self).queued()
                &&& final(self).last_flush() == old(self).last_flush()
                &&& final(self).emitted() == old(self).emitted()
            },
    {
        if self.is_flush_due(now) {
            let batch = self.take_all();
            self.last_flush = now;
            Some(batch)
        } else {
            None
        }
    }

    fn take_all(&mut self) -> (r: Vec<Span>)
        requires
            old(self).wf(),
        ensures
            final(self).wf(),
            r@ == old(self).queue@,
            final(self).queue@.len() == 0,
            final(self).emitted@ == old(self).emitted@ + old(self).queue@,
            final(self).config == old(self).config,
            final(self).dropped == old(self).dropped,
            final(self).last_flush == old(self).last_flush,
            final(self).shut_down == old(self).shut_down,
            final(self).submitted@ == old(self).submitted@,
            final(self).rejected@ == old(self).rejected@,
            final(self).undelivered@ == old(self).undelivered@,
    {
        let mut batch: Vec<Span> = Vec::new();
        std::mem::swap(&mut batch, &mut self.queue);
        proof {
            lemma_multiset_commutative(self.emitted@, batch@);
            self.emitted@ = self.emitted@ + batch@;
            assert(self.queue@.to_multiset() =~= Multiset::empty());
            assert(self.submitted@.to_multiset() =~= self.emitted@.to_multiset().add(
                self.queue@.to_multiset(),
            ).add(self.rejected@.to_multiset()));
        }
        batch
    }

    /// Closes the pipeline and hands out the whole buffer as the final batch.
    /// Spans submitted afterwards are dropped and counted.
    pub fn shutdown(&mut self) -> (r: Vec<Span>)
        requires
            old(self).wf(),
        ensures
            final(self).wf(),
            r@ == old(self).queued(),
            final(self).is_shut_down(),
            final(self).queued().len() == 0,
            final(self).emitted() == old(self).emitted() + old(self).queued(),
            final(self).config() == old(self).config(),
            final(self).dropped() == old(self).dropped(),
            final(self).last_flush() == old(self).last_flush(),
            final(self).submitted() == old(self).submitted(),
            final(self).rejected() == old(self).rejected(),
            final(self).undelivered() == old(self).undelivered(),
    {
        self.shut_down = true;
        self.take_all()
    }

    /// Counts `n` spans of a batch that could not be delivered (retries used
    /// up, or the shutdown deadline passed) as dropped.
    pub fn record_undelivered(&mut self, n: usize)
        requires
            old(self).wf(),
        ensures
            final(self).wf(),
            final(self).dropped() == sat_add(old(self).dropped(), n as nat),
            final(self).undelivered() == old(self).undelivered() + n,
            final(self).config() == old(self).config(),
            final(self).queued() == old(self).queued(),
            final(self).last_flush() == old(self).last_flush(),
            final(self).is_shut_down() == old(self).is_shut_down(),
            final(self).submitted() == old(self).submitted(),
            final(self).emitted() == old(self).emitted(),
            final(self).rejected() == old(self).rejected(),
    {
        self.dropped = self.dropped.saturating_add(n as u64);
        proof {
            self.undelivered@ = self.undelivered@ + n as nat;
        }
    }
}

/// No span is lost or duplicated: each submitted span has been handed out in
/// a batch, is waiting in the buffer, or was refused, as many times as it was
/// submitted.
pub proof fn lemma_spans_conserved(p: &BatchProcessor)
    requires
        p.wf(),
    ensures
        p.submitted().to_multiset() == p.emitted().to_multiset().add(p.queued().to_multiset()).add(
            p.rejected().to_multiset(),
        ),
        p.submitted().len() == p.emitted().len() + p.queued().len() + p.rejected().len(),
{
    let e = p.emitted().to_multiset();
    let q = p.queued().to_multiset();
    let j = p.rejected().to_multiset();
    assert(p.submitted().to_multiset().len() == e.add(q).add(j).len());
}

/// A well-formed pipeline has a valid configuration and a buffer within it.
pub proof fn lemma_wf_bounds(p: &BatchProcessor)
    requires
        p.wf(),
    ensures
        p.config().valid(),
        p.queued().len() <= p.config().max_queue_size,
{
}

/// The drop counter is exactly the number of refused spans plus those
/// reported undelivered, held at `u64::MAX`.
pub proof fn lemma_drops_counted(p: &BatchProcessor)
    requires
        p.wf(),
    ensures
        p.dropped() == sat(p.rejected().len() + p.undelivered()),
{
}

/// A buffer holding a full batch is due for a flush, whatever the time.
pub proof fn lemma_flush_at_batch_size(p: &BatchProcessor, now: u64)
    requires
        p.wf(),
        p.queued().len() == p.config().max_export_batch_size,
    ensures
        p.flush_due(now),
{
}

/// A buffer short of a full batch is due for a flush exactly when it is not
/// empty and the interval has passed since the last flush.
pub proof fn lemma_flush_below_batch_size(p: &BatchProcessor, now: u64)
    requires
        p.wf(),
        p.queued().len() < p.config().max_export_batch_size,
    ensures
        p.flush_due(now) <==> (p.queued().len() > 0 && now >= p.last_flush() && now
            - p.last_flush() >= p.config().scheduled_delay),
{
}

/// An empty buffer is never due for a flush, so a flush is not repeated
/// before new spans arrive.
pub proof fn lemma_empty_not_due(p: &BatchProcessor, now: u64)
    requires
        p.wf(),
        p.queued().len() == 0,
    ensures
        !p.flush_due(now),
{
    assert(p.config().max_export_batch_size >= 1);
}

} // verus!
