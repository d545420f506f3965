//! The client's monotonic clock.
//!
//! Every client-side timestamp on the wire (`FrameAck.decoded_us`, `FrameAck.presented_us`,
//! `PointerEvent.timestamp`) is microseconds on this one clock. It is `Copy` because the
//! timestamps come from several threads: the session task, and one decode worker per window.
//! They have to share an epoch or the agent cannot compare them.

use std::time::{Duration, Instant};

use vstd::prelude::*;

verus! {

/// A reading of the operating system's monotonic clock: [`std::time::Instant`].
#[verifier::external_type_specification]
#[verifier::external_body]
pub struct ExInstant(Instant);

/// Whether `span` may be read as the time since an instant.
pub uninterp spec fn may_elapse(since: Instant, span: Duration) -> bool;

/// The whole microseconds in a span.
pub uninterp spec fn whole_micros(span: Duration) -> u128;

/// Reads the monotonic clock: [`std::time::Instant::now`]. Nothing is claimed of what it reads.
pub assume_specification[ std::time::Instant::now ]() -> (r: Instant)
;

/// The time since an instant: [`std::time::Instant::elapsed`].
///
/// Trusted: the span is one that may be read as the time since this instant. Nothing is claimed of
/// how long it is, nor of how it compares with a span read earlier: the clock does not go back, but
/// which of two calls came first is not something that a contract of either can speak of.
pub assume_specification[ std::time::Instant::elapsed ](instant: &Instant) -> (r: Duration)
    ensures
        may_elapse(*instant, r),
;

/// A span in whole microseconds: [`std::time::Duration::as_micros`].
///
/// Trusted: how many there are depends on the span alone.
pub assume_specification[ std::time::Duration::as_micros ](span: &Duration) -> (r: u128)
    ensures
        r == whole_micros(*span),
;

/// A count of microseconds as a timestamp, which holds half a million years of them.
pub open spec fn as_timestamp(micros: u128) -> u64 {
    if micros <= u64::MAX {
        micros as u64
    } else {
        u64::MAX
    }
}

/// Microseconds since the session started.
#[derive(Debug, Clone, Copy)]
pub struct ClientClock {
    start: Instant,
}

impl ClientClock {
    /// The instant this clock counts from.
    pub closed spec fn counts_from(&self) -> Instant {
        self.start
    }

    /// Whether the clock may read `us`.
    pub open spec fn may_read(&self, us: u64) -> bool {
        exists|span: Duration| #[trigger]
            may_elapse(self.counts_from(), span) && us == as_timestamp(whole_micros(span))
    }

    /// Starts a clock at this instant: it counts from what [`Instant::now`] read.
    pub fn new() -> (r: Self)
        ensures
            call_ensures(Instant::now, (), r.counts_from()),
    {
        ClientClock { start: Instant::now() }
    }

    /// The instant this clock counts from.
    ///
    /// Handed to anything that produces timestamps compared against this clock's (the CPU
    /// presenter, above all) so there is one epoch rather than one per component.
    pub fn epoch(&self) -> (r: Instant)
        ensures
            r == self.counts_from(),
    {
        self.start
    }

    /// A clock counting from an epoch someone else already established.
    pub fn from_epoch(start: Instant) -> (r: Self)
        ensures
            r.counts_from() == start,
    {
        ClientClock { start }
    }

    /// Microseconds since [`ClientClock::new`].
    pub fn now_us(&self) -> (r: u64)
        ensures
            self.may_read(r),
    {
        let span = self.start.elapsed();
        assert(may_elapse(self.counts_from(), span));
        saturated(span.as_micros())
    }
}

impl Default for ClientClock {
    fn default() -> (r: Self)
        ensures
            call_ensures(Instant::now, (), r.counts_from()),
    {
        Self::new()
    }
}

/// A count of microseconds as a timestamp, which holds half a million years of them.
pub fn saturated(micros: u128) -> (r: u64)
    ensures
        r == as_timestamp(micros),
{
    if micros <= u64::MAX as u128 {
        micros as u64
    } else {
        u64::MAX
    }
}

/// Clocks that count from one instant may read the same: a copy, or a clock rebuilt from its
/// epoch, is comparable with the clock it came from.
pub proof fn law_one_epoch_one_clock(a: ClientClock, b: ClientClock, us: u64)
    requires
        a.counts_from() == b.counts_from(),
    ensures
        a.may_read(us) == b.may_read(us),
{
}

/// A span with no fewer whole microseconds never reads as an earlier timestamp, and one that
/// fits reads exactly.
pub proof fn law_readings_follow_the_span(shorter: Duration, longer: Duration)
    requires
        whole_micros(shorter) <= whole_micros(longer),
    ensures
        as_timestamp(whole_micros(shorter)) <= as_timestamp(whole_micros(longer)),
        whole_micros(longer) <= u64::MAX ==> as_timestamp(whole_micros(longer)) == whole_micros(
            longer,
        ),
{
}

/// A count of microseconds is a timestamp as it is, up to the largest `u64`.
pub proof fn law_timestamps_saturate(micros: u128, r: u64)
    requires
        call_ensures(saturated, (micros,), r),
    ensures
        micros <= 0xffff_ffff_ffff_ffff ==> r == micros,
        micros > 0xffff_ffff_ffff_ffff ==> r == 0xffff_ffff_ffff_ffff,
{
}

/// A clock rebuilt from another's epoch counts from the same instant.
pub proof fn law_epochs_are_shared(a: &ClientClock, epoch: Instant, b: ClientClock, us: u64)
    requires
        call_ensures(ClientClock::epoch, (a,), epoch),
        call_ensures(ClientClock::from_epoch, (epoch,), b),
    ensures
        b.counts_from() == a.counts_from(),
        a.may_read(us) == b.may_read(us),
{
}

} // verus!
