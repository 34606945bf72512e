use std::time::Instant;
use vstd::prelude::*;

verus! {

#[verifier::external_type_specification]
#[verifier::external_body]
pub struct ExInstant(Instant);

/// Relies on `std::time::Instant::now`: a reading of the monotonic clock.
/// Nothing is promised of its value.
#[verifier::external_body]
fn instant_now() -> (r: Instant) {
    Instant::now()
}

/// Relies on `std::time::Instant::elapsed`: the time since `origin`, in
/// nanoseconds. Nothing is promised of its value (it depends on the clock).
#[verifier::external_body]
fn nanos_since(origin: &Instant) -> (r: u128) {
    origin.elapsed().as_nanos()
}

/// The amount that `elapsed` grows by for a run from `start` to `now`
/// (clock readings in nanoseconds); it saturates rather than overflow.
pub open spec fn accumulated(elapsed: u128, start: u128, now: u128) -> u128 {
    elapsed.saturating_add(now.saturating_sub(start))
}

/// Measures time over one or more runs. Clock readings are nanoseconds
/// since the moment the stopwatch was created.
pub struct Stopwatch {
    origin: Instant,
    start_time: u128,
    is_running: bool,
    elapsed: u128,
}

impl Stopwatch {
    /// Whether a run is in progress.
    pub closed spec fn running(&self) -> bool {
        self.is_running
    }

    /// The clock reading at which the current run began.
    pub closed spec fn started_at(&self) -> u128 {
        self.start_time
    }

    /// Nanoseconds accumulated over the finished runs.
    pub closed spec fn accumulated_nanos(&self) -> u128 {
        self.elapsed
    }

    /// A stopped stopwatch with nothing accumulated.
    pub fn new() -> (r: Self)
        ensures
            !r.running(),
            r.accumulated_nanos() == 0,
            r.started_at() == 0,
    {
        Stopwatch { origin: instant_now(), start_time: 0, is_running: false, elapsed: 0 }
    }

    /// Starts a run at the current clock reading, unless one is in progress.
    pub fn start(&mut self)
        ensures
            final(self).running(),
            final(self).accumulated_nanos() == old(self).accumulated_nanos(),
            old(self).running() ==> final(self).started_at() == old(self).started_at(),
    {
        let now = nanos_since(&self.origin);
        self.start_at(now);
    }

    /// Starts a run at clock reading `now`, unless one is in progress.
    pub fn start_at(&mut self, now: u128)
        ensures
            final(self).running(),
            final(self).accumulated_nanos() == old(self).accumulated_nanos(),
            final(self).started_at() == if old(self).running() {
                old(self).started_at()
            } else {
                now
            },
    {
        if !self.is_running {
            self.start_time = now;
            self.is_running = true;
        }
    }

    /// Ends the current run, if any, at the current clock reading.
    pub fn stop(&mut self)
        ensures
            !final(self).running(),
            final(self).started_at() == old(self).started_at(),
            !old(self).running() ==> final(self).accumulated_nanos()
                == old(self).accumulated_nanos(),
            old(self).running() ==> exists|now: u128|
                final(self).accumulated_nanos() == accumulated(
                    old(self).accumulated_nanos(),
                    old(self).started_at(),
                    now,
                ),
    {
        let now = nanos_since(&self.origin);
        self.stop_at(now);
    }

    /// Ends the current run, if any, at clock reading `now`, adding its
    /// length to the accumulated time.
    pub fn stop_at(&mut self, now: u128)
        ensures
            !final(self).running(),
            final(self).started_at() == old(self).started_at(),
            final(self).accumulated_nanos() == if old(self).running() {
                accumulated(old(self).accumulated_nanos(), old(self).started_at(), now)
            } else {
                old(self).accumulated_nanos()
            },
    {
        if self.is_running {
            self.elapsed = self.elapsed.saturating_add(now.saturating_sub(self.start_time));
            self.is_running = false;
        }
    }

    /// Clears the accumulated time and stops the stopwatch.
    pub fn reset(&mut self)
        ensures
            !final(self).running(),
            final(self).accumulated_nanos() == 0,
            final(self).started_at() == old(self).started_at(),
    {
        self.elapsed = 0;
        self.is_running = false;
    }

    /// The total measured time in nanoseconds, the current run included.
    pub fn get_elapsed(&self) -> (r: u128)
        ensures
            !self.running() ==> r == self.accumulated_nanos(),
            self.running() ==> exists|now: u128|
                r == accumulated(self.accumulated_nanos(), self.started_at(), now),
    {
        let now = nanos_since(&self.origin);
        self.elapsed_at(now)
    }

    /// The total measured time in nanoseconds at clock reading `now`.
    pub fn elapsed_at(&self, now: u128) -> (r: u128)
        ensures
            r == if self.running() {
                accumulated(self.accumulated_nanos(), self.started_at(), now)
            } else {
                self.accumulated_nanos()
            },
    {
        if self.is_running {
            self.elapsed.saturating_add(now.saturating_sub(self.start_time))
        } else {
            self.elapsed
        }
    }
}

} // verus!
