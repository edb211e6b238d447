//! The bounded-concurrency engine's decisions, as a state machine: from the
//! current in-flight count and an observed event to the next count and the
//! action to perform. The surrounding process performs the actions (sleep,
//! ask the queue, spawn a worker, release a claim) and feeds the next event
//! back in; the ceiling on simultaneously in-flight jobs is never exceeded.

use vstd::prelude::*;

use crate::queue::JobRecord;
use crate::queue::JobStatus;

verus! {

/// What the coordinating loop observed.
pub enum SchedulerEvent {
    /// The top of the loop: time to decide whether to claim.
    Tick,
    /// The queue answered a claim attempt, with a record or empty-handed.
    Claimed(Option<JobRecord>),
    /// A worker task ended; true means it reported success, false covers
    /// both a reported generation error and an unexpected fault caught at
    /// the task boundary.
    TaskEnded(u64, bool),
}

/// What the coordinating loop must do next.
pub enum Directive {
    /// Suspend briefly and retry; the queue was empty or the ceiling is hit.
    Sleep,
    /// Ask the queue for the next claimable record.
    TryClaim,
    /// Start one worker task for this freshly claimed record.
    Spawn(JobRecord),
    /// Unconditionally release the claim on this record with this outcome;
    /// a worker task never ends without one such directive.
    Release(u64, JobStatus),
}

/// The bounded-concurrency state: how many workers are in flight, against a
/// fixed ceiling.
pub struct Scheduler {
    limit: u64,
    in_flight: u64,
}

impl Scheduler {
    /// The concurrency ceiling.
    pub closed spec fn limit_spec(self) -> u64 {
        self.limit
    }

    /// How many worker tasks are in flight.
    pub closed spec fn in_flight_spec(self) -> u64 {
        self.in_flight
    }

    /// The bound that every step preserves: never more in flight than the
    /// ceiling allows.
    pub open spec fn wf(self) -> bool {
        self.in_flight_spec() <= self.limit_spec() && self.limit_spec() >= 1
    }

    /// A fresh scheduler with nothing in flight.
    pub fn new(limit: u64) -> (s: Scheduler)
        requires
            limit >= 1,
        ensures
            s.wf(),
            s.limit_spec() == limit,
            s.in_flight_spec() == 0,
    {
        Scheduler { limit, in_flight: 0 }
    }

    /// Whether a further worker may start now.
    pub fn can_spawn(&self) -> (b: bool)
        ensures
            b == (self.in_flight_spec() < self.limit_spec()),
    {
        self.in_flight < self.limit
    }

    /// One decision of the coordinating loop. A claim is only attempted
    /// below the ceiling, a claimed record is always spawned, and a finished
    /// task always yields a release directive: success becomes done, a
    /// reported error or a caught fault becomes failed.
    pub fn step(&mut self, ev: SchedulerEvent) -> (d: Directive)
        requires
            old(self).wf(),
            ev matches SchedulerEvent::Claimed(Some(_)) ==> old(self).in_flight_spec() < old(
                self,
            ).limit_spec(),
            ev matches SchedulerEvent::TaskEnded(..) ==> old(self).in_flight_spec() > 0,
        ensures
            final(self).wf(),
            final(self).limit_spec() == old(self).limit_spec(),
            match ev {
                SchedulerEvent::Tick => final(self).in_flight_spec() == old(self).in_flight_spec()
                    && d == (if old(self).in_flight_spec() >= old(self).limit_spec() {
                    Directive::Sleep
                } else {
                    Directive::TryClaim
                }),
                SchedulerEvent::Claimed(rec) => match rec {
                    None => final(self).in_flight_spec() == old(self).in_flight_spec() && d
                        == Directive::Sleep,
                    Some(rec) => final(self).in_flight_spec() == old(self).in_flight_spec() + 1
                        && d == Directive::Spawn(rec),
                },
                SchedulerEvent::TaskEnded(id, ok) => final(self).in_flight_spec() == old(
                    self,
                ).in_flight_spec() - 1 && d == Directive::Release(
                    id,
                    if ok {
                        JobStatus::Done
                    } else {
                        JobStatus::Failed
                    },
                ),
            },
    {
        match ev {
            SchedulerEvent::Tick => {
                if self.in_flight >= self.limit {
                    Directive::Sleep
                } else {
                    Directive::TryClaim
                }
            },
            SchedulerEvent::Claimed(rec) => match rec {
                None => Directive::Sleep,
                Some(rec) => {
                    self.in_flight = self.in_flight + 1;
                    Directive::Spawn(rec)
                },
            },
            SchedulerEvent::TaskEnded(id, ok) => {
                self.in_flight = self.in_flight - 1;
                Directive::Release(
                    id,
                    if ok {
                        JobStatus::Done
                    } else {
                        JobStatus::Failed
                    },
                )
            },
        }
    }
}

} // verus!
