//! The queue of events that wait to be sent.
//!
//! The logger decides; its owner acts. `enqueue` says when a flush is due,
//! `flush` counts one as started, `flush_impl` hands out the batch that a
//! flush sends, and `shutdown` hands out the last batch, to be sent once
//! the flushes under way have been waited for.

use crate::statsig_event_internal::StatsigEventInternal;
use crate::statsig_options::StatsigOptions;
use vstd::prelude::*;

verus! {

pub struct StatsigLogger {
    pub events: Vec<StatsigEventInternal>,
    pub max_queue_size: usize,
    pub flush_interval_ms: u32,
    /// Whether the queue has outgrown its limit since a flush was last
    /// started.
    pub flush_due: bool,
    /// The flushes that were started and have not been reported finished.
    pub running_jobs: usize,
    pub is_shutdown: bool,
}

/// What the owner of a logger has to do to shut it down: wait for the
/// flushes under way, then send the last batch, if there is one.
pub struct ShutdownPlan {
    pub jobs_to_await: usize,
    pub batch: Option<Vec<StatsigEventInternal>>,
}

impl StatsigLogger {
    /// A logger with an empty queue.
    pub fn new(options: &StatsigOptions) -> (r: Self)
        ensures
            r.events@.len() == 0,
            r.max_queue_size == options.logger_max_queue_size,
            r.flush_interval_ms == options.logger_flush_interval_ms,
            !r.flush_due,
            r.running_jobs == 0,
            !r.is_shutdown,
    {
        Self {
            events: Vec::new(),
            max_queue_size: options.logger_max_queue_size as usize,
            flush_interval_ms: options.logger_flush_interval_ms,
            flush_due: false,
            running_jobs: 0,
            is_shutdown: false,
        }
    }

    /// Puts an event at the end of the queue. Where the queue is then longer
    /// than its limit a flush is due.
    pub fn enqueue(&mut self, event: StatsigEventInternal) -> (should_flush: bool)
        ensures
            final(self).events@ == old(self).events@.push(event),
            should_flush == (old(self).events@.len() + 1 > old(self).max_queue_size),
            final(self).flush_due == (old(self).flush_due || should_flush),
            final(self).running_jobs == old(self).running_jobs,
            final(self).max_queue_size == old(self).max_queue_size,
            final(self).flush_interval_ms == old(self).flush_interval_ms,
            final(self).is_shutdown == old(self).is_shutdown,
    {
        self.events.push(event);
        let should_flush = self.events.len() > self.max_queue_size;
        if should_flush {
            self.flush_due = true;
        }
        should_flush
    }

    /// Counts a flush as started; none is due any more.
    pub fn flush(&mut self)
        ensures
            !final(self).flush_due,
            final(self).running_jobs == if old(self).running_jobs < usize::MAX {
                old(self).running_jobs + 1
            } else {
                old(self).running_jobs as int
            },
            final(self).events == old(self).events,
            final(self).max_queue_size == old(self).max_queue_size,
            final(self).flush_interval_ms == old(self).flush_interval_ms,
            final(self).is_shutdown == old(self).is_shutdown,
    {
        self.flush_due = false;
        if self.running_jobs < usize::MAX {
            self.running_jobs = self.running_jobs + 1;
        }
    }

    /// Counts a flush as finished.
    pub fn job_finished(&mut self)
        ensures
            final(self).running_jobs == if old(self).running_jobs > 0 {
                old(self).running_jobs - 1
            } else {
                0
            },
            final(self).events == old(self).events,
            final(self).flush_due == old(self).flush_due,
            final(self).max_queue_size == old(self).max_queue_size,
            final(self).flush_interval_ms == old(self).flush_interval_ms,
            final(self).is_shutdown == old(self).is_shutdown,
    {
        if self.running_jobs > 0 {
            self.running_jobs = self.running_jobs - 1;
        }
    }

    /// Takes the queue for sending: every event in it, in order, or `None`
    /// where it is empty. The queue is empty afterwards.
    pub fn flush_impl(&mut self) -> (batch: Option<Vec<StatsigEventInternal>>)
        ensures
            final(self).events@.len() == 0,
            batch is Some == (old(self).events@.len() > 0),
            batch is Some ==> batch->0 == old(self).events,
            final(self).flush_due == old(self).flush_due,
            final(self).running_jobs == old(self).running_jobs,
            final(self).max_queue_size == old(self).max_queue_size,
            final(self).flush_interval_ms == old(self).flush_interval_ms,
            final(self).is_shutdown == old(self).is_shutdown,
    {
        if self.events.len() == 0 {
            return None;
        }
        let mut local_events: Vec<StatsigEventInternal> = Vec::new();
        std::mem::swap(&mut self.events, &mut local_events);
        Some(local_events)
    }

    /// Whether the periodic flush goes on.
    pub fn should_reschedule(&self) -> (r: bool)
        ensures
            r == !self.is_shutdown,
    {
        !self.is_shutdown
    }

    /// Shuts the logger down: the periodic flush stops, and the owner is
    /// told how many flushes to wait for and what to send last. Afterwards
    /// the queue is empty and no flush counts as under way.
    pub fn shutdown(&mut self) -> (plan: ShutdownPlan)
        ensures
            final(self).is_shutdown,
            final(self).events@.len() == 0,
            final(self).running_jobs == 0,
            !final(self).flush_due,
            plan.jobs_to_await == old(self).running_jobs,
            plan.batch is Some == (old(self).events@.len() > 0),
            plan.batch is Some ==> plan.batch->0 == old(self).events,
            final(self).max_queue_size == old(self).max_queue_size,
            final(self).flush_interval_ms == old(self).flush_interval_ms,
    {
        self.is_shutdown = true;
        self.flush_due = false;
        let jobs_to_await = self.running_jobs;
        self.running_jobs = 0;
        let batch = self.flush_impl();
        ShutdownPlan { jobs_to_await, batch }
    }
}

} // verus!
