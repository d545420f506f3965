//! Rolling statistics and clock-offset estimation.

use std::collections::HashMap;

use vstd::prelude::*;
use vstd::relations;

verus! {

/// The sum of some samples.
pub open spec fn total(s: Seq<u64>) -> nat
    decreases s.len(),
{
    if s.len() == 0 {
        0
    } else {
        total(s.drop_last()) + s.last() as nat
    }
}

/// The samples in ascending order.
pub open spec fn ascending(s: Seq<u64>) -> Seq<u64> {
    s.sort_by(|a: u64, b: u64| a <= b)
}

/// The rank, counted from one, of the `p`th percentile among `n` samples: the smallest rank that
/// at least `p` percent of them reach.
pub open spec fn nearest_rank(p: u8, n: nat) -> nat {
    let p = if p < 100 { p as nat } else { 100 };
    let rank = (p * n + 99) / 100;
    if rank < 1 {
        1
    } else {
        rank
    }
}

/// The samples after one more, of which the last `window` are kept.
pub open spec fn kept(samples: Seq<u64>, window: nat, value_us: u64) -> Seq<u64> {
    if samples.len() < window {
        samples.push(value_us)
    } else {
        samples.drop_first().push(value_us)
    }
}

/// The samples held after some values were recorded, one after the other.
pub open spec fn kept_of(window: nat, values: Seq<u64>) -> Seq<u64>
    decreases values.len(),
{
    if values.len() == 0 {
        Seq::empty()
    } else {
        kept(kept_of(window, values.drop_last()), window, values.last())
    }
}

/// Rolling statistics over the last samples.
#[derive(Debug)]
pub struct Samples {
    buf: Vec<u64>,
    head: usize,
    capacity: usize,
}

impl View for Samples {
    type V = Seq<u64>;

    /// The samples held, oldest first.
    closed spec fn view(&self) -> Seq<u64> {
        self.buf@.subrange(self.head as int, self.buf@.len() as int) + self.buf@.subrange(
            0,
            self.head as int,
        )
    }
}

impl Clone for Samples {
    fn clone(&self) -> (r: Self)
        ensures
            r@ == self@,
            r.window() == self.window(),
    {
        proof {
            use_type_invariant(self);
        }
        let buf = self.buf.clone();
        assert(buf@ =~= self.buf@);
        Samples { buf, head: self.head, capacity: self.capacity }
    }
}

impl Samples {
    #[verifier::type_invariant]
    spec fn inv(self) -> bool {
        &&& 1 <= self.capacity
        &&& self.buf@.len() <= self.capacity
        &&& self.head <= self.buf@.len()
        &&& self.buf@.len() < self.capacity ==> self.head == 0
        &&& self.buf@.len() == self.capacity ==> self.head < self.capacity
    }

    /// The most samples this window holds.
    pub closed spec fn window(self) -> nat {
        self.capacity as nat
    }

    /// A window holding at most `capacity` samples (capacity is clamped to at least 1).
    pub fn new(capacity: usize) -> (r: Self)
        ensures
            r@ == Seq::<u64>::empty(),
            r.window() == (if capacity < 1 { 1 } else { capacity as nat }),
    {
        let capacity: usize = if capacity < 1 { 1 } else { capacity };
        let r = Samples { buf: Vec::new(), head: 0, capacity };
        assert(r@ =~= Seq::<u64>::empty());
        r
    }

    /// Record a sample, evicting the oldest when full.
    pub fn push(&mut self, value_us: u64)
        ensures
            final(self).window() == old(self).window(),
            final(self)@ == kept(old(self)@, old(self).window(), value_us),
    {
        proof {
            use_type_invariant(&*self);
        }
        let mut this = Samples::new(1);
        std::mem::swap(self, &mut this);
        let Samples { mut buf, mut head, capacity } = this;
        if buf.len() < capacity {
            buf.push(value_us);
            if buf.len() == capacity {
                head = 0;
            }
        } else {
            buf.set(head, value_us);
            head = if head + 1 == capacity { 0 } else { head + 1 };
        }
        *self = Samples { buf, head, capacity };
        assert(self@ =~= kept(old(self)@, old(self).window(), value_us));
    }

    /// Number of samples currently held.
    pub fn len(&self) -> (r: usize)
        ensures
            r == self@.len(),
            r <= self.window(),
    {
        proof {
            use_type_invariant(self);
        }
        self.buf.len()
    }

    /// Whether no samples have been recorded.
    pub fn is_empty(&self) -> (r: bool)
        ensures
            r == (self@.len() == 0),
    {
        self.len() == 0
    }

    /// Most recent sample.
    pub fn last(&self) -> (r: Option<u64>)
        ensures
            r == (if self@.len() == 0 { None } else { Some(self@.last()) }),
    {
        proof {
            use_type_invariant(self);
        }
        if self.buf.len() == 0 {
            return None;
        }
        let idx: usize = if self.head == 0 { self.buf.len() - 1 } else { self.head - 1 };
        Some(self.buf[idx])
    }

    /// The samples, oldest first.
    pub fn to_vec(&self) -> (r: Vec<u64>)
        ensures
            r@ == self@,
    {
        proof {
            use_type_invariant(self);
        }
        let mut out: Vec<u64> = Vec::new();
        let mut i: usize = 0;
        while i < self.buf.len()
            invariant
                self.inv(),
                i <= self.buf.len(),
                out@ == self@.subrange(0, i as int),
            decreases self.buf.len() - i,
        {
            let idx: usize = if i < self.buf.len() - self.head {
                self.head + i
            } else {
                i - (self.buf.len() - self.head)
            };
            out.push(self.buf[idx]);
            assert(out@ =~= self@.subrange(0, i + 1));
            i = i + 1;
        }
        assert(out@ =~= self@);
        out
    }

    /// Arithmetic mean, or `None` when empty.
    ///
    /// The sum saturates rather than overflowing: silently wrapping into a small,
    /// plausible-looking number would hide that something is very wrong.
    pub fn mean(&self) -> (r: Option<u64>)
        ensures
            r == (if self@.len() == 0 {
                None
            } else {
                let sum = total(self@);
                let sum = if sum < u64::MAX { sum } else { u64::MAX as nat };
                Some((sum / self@.len()) as u64)
            }),
    {
        if self.is_empty() {
            return None;
        }
        let samples = self.to_vec();
        let mut sum: u64 = 0;
        let mut i: usize = 0;
        assert(samples@.subrange(0, 0) =~= Seq::<u64>::empty());
        while i < samples.len()
            invariant
                i <= samples.len(),
                samples@ == self@,
                sum == (if total(samples@.subrange(0, i as int)) < u64::MAX {
                    total(samples@.subrange(0, i as int))
                } else {
                    u64::MAX as nat
                }),
            decreases samples.len() - i,
        {
            proof {
                let next = samples@.subrange(0, i + 1);
                assert(next.drop_last() =~= samples@.subrange(0, i as int));
            }
            sum = sum.saturating_add(samples[i]);
            i = i + 1;
        }
        assert(samples@.subrange(0, samples@.len() as int) =~= samples@);
        Some((sum as u128 / samples.len() as u128) as u64)
    }

    /// Smallest sample.
    pub fn min(&self) -> (r: Option<u64>)
        ensures
            match r {
                None => self@.len() == 0,
                Some(m) => self@.contains(m) && forall|i: int|
                    0 <= i < self@.len() ==> m <= #[trigger] self@[i],
            },
    {
        let samples = self.to_vec();
        if samples.len() == 0 {
            return None;
        }
        let mut best: u64 = samples[0];
        let mut i: usize = 1;
        while i < samples.len()
            invariant
                1 <= i <= samples.len(),
                samples@ == self@,
                samples@.contains(best),
                forall|j: int| 0 <= j < i ==> best <= #[trigger] samples@[j],
            decreases samples.len() - i,
        {
            if samples[i] < best {
                best = samples[i];
            }
            i = i + 1;
        }
        Some(best)
    }

    /// Largest sample.
    pub fn max(&self) -> (r: Option<u64>)
        ensures
            match r {
                None => self@.len() == 0,
                Some(m) => self@.contains(m) && forall|i: int|
                    0 <= i < self@.len() ==> m >= #[trigger] self@[i],
            },
    {
        let samples = self.to_vec();
        if samples.len() == 0 {
            return None;
        }
        let mut best: u64 = samples[0];
        let mut i: usize = 1;
        while i < samples.len()
            invariant
                1 <= i <= samples.len(),
                samples@ == self@,
                samples@.contains(best),
                forall|j: int| 0 <= j < i ==> best >= #[trigger] samples@[j],
            decreases samples.len() - i,
        {
            if samples[i] > best {
                best = samples[i];
            }
            i = i + 1;
        }
        Some(best)
    }

    /// The value at the given percentile (0..=100), nearest-rank. `None` when empty.
    pub fn percentile(&self, p: u8) -> (r: Option<u64>)
        ensures
            r == (if self@.len() == 0 {
                None
            } else {
                Some(ascending(self@)[nearest_rank(p, self@.len()) - 1])
            }),
    {
        let mut sorted = self.to_vec();
        if sorted.len() == 0 {
            return None;
        }
        let p: u128 = if p < 100 { p as u128 } else { 100 };
        sort_ascending(&mut sorted);
        proof {
            law_ascending_is_unique(self@, sorted@);
        }
        let n: u128 = sorted.len() as u128;
        assert(p * n + 99 <= 100 * n + 99) by (nonlinear_arith)
            requires
                p <= 100,
        ;
        let rank: u128 = (p * n + 99) / 100;
        let rank: u128 = if rank < 1 { 1 } else { rank };
        assert(rank <= n);
        Some(sorted[rank as usize - 1])
    }
}

/// Sorts integers through `sort_unstable`.
///
/// Trusted: afterwards the vector holds the same integers, in ascending order.
#[verifier::external_body]
fn sort_ascending(v: &mut Vec<u64>)
    ensures
        final(v)@.to_multiset() == old(v)@.to_multiset(),
        forall|i: int, j: int| 0 <= i <= j < final(v)@.len() ==> final(v)@[i] <= final(v)@[j],
{
    v.sort_unstable()
}

/// A rearrangement in ascending order is the one that [`ascending`] gives: there is no other.
pub proof fn law_ascending_is_unique(s: Seq<u64>, sorted: Seq<u64>)
    requires
        sorted.to_multiset() == s.to_multiset(),
        forall|i: int, j: int| 0 <= i <= j < sorted.len() ==> sorted[i] <= sorted[j],
    ensures
        sorted == ascending(s),
        sorted.len() == s.len(),
{
    broadcast use vstd::seq_lib::group_to_multiset_ensures;

    let leq = |a: u64, b: u64| a <= b;
    assert(relations::total_ordering(leq));
    s.lemma_sort_by_ensures(leq);
    vstd::seq_lib::lemma_sorted_unique(sorted, s.sort_by(leq), leq);
    assert(sorted.len() == sorted.to_multiset().len());
    assert(s.len() == s.to_multiset().len());
}

/// A window holds exactly the most recent samples: all that were recorded while they fit, and the
/// last `window` of them from then on.
pub proof fn law_the_most_recent_samples_are_held(window: nat, values: Seq<u64>)
    requires
        window >= 1,
    ensures
        ({
            let held = kept_of(window, values);
            let k = if values.len() < window { values.len() } else { window };
            &&& held.len() == k
            &&& held == values.skip(values.len() - k)
            &&& values.len() > 0 ==> held.last() == values.last()
        }),
    decreases values.len(),
{
    let held = kept_of(window, values);
    if values.len() == 0 {
        assert(held =~= values.skip(0));
    } else {
        let before = values.drop_last();
        law_the_most_recent_samples_are_held(window, before);
        let k = if values.len() < window { values.len() } else { window };
        assert(held =~= values.skip(values.len() - k));
    }
}

/// What a [`ClockSync`] knows.
pub struct ClockView {
    /// When each unanswered ping was sent, by sequence number.
    pub pending: Map<u32, u64>,
    /// The round trips held, oldest first.
    pub rtt: Seq<u64>,
    /// How many round trips are held at most.
    pub window: nat,
    /// The estimate of `agent_clock - client_clock`.
    pub offset: Option<i64>,
    /// The round trip that the estimate came from.
    pub offset_rtt: Option<u64>,
    /// When the ping that the estimate came from was sent.
    pub applied_sent_us: Option<u64>,
}

/// The offset that a round trip shows: the agent's reading against the middle of the round trip.
pub open spec fn offset_shown(sent_us: u64, rtt: u64, agent_us: u64) -> i64 {
    let middle = sent_us + rtt / 2;
    let middle = if middle < u64::MAX { middle } else { u64::MAX as int };
    let offset = agent_us - middle;
    if offset < i64::MIN {
        i64::MIN
    } else if offset > i64::MAX {
        i64::MAX
    } else {
        offset as i64
    }
}

/// An agent timestamp on the client's clock, for an agent that is `offset_us` ahead.
pub open spec fn on_client_clock(agent_us: u64, offset_us: i64) -> u64 {
    let t = agent_us - offset_us;
    if t < 0 {
        0
    } else if t > u64::MAX {
        u64::MAX
    } else {
        t as u64
    }
}

/// A call of a [`ClockSync`].
pub enum ClockCall {
    /// See [`ClockSync::on_ping_sent`].
    PingSent {
        /// Sequence number of the ping.
        seq: u32,
        /// When it was sent.
        sent_us: u64,
    },
    /// See [`ClockSync::on_pong`].
    Pong {
        /// Sequence number of the ping it answers.
        seq: u32,
        /// The agent's clock.
        agent_us: u64,
        /// When it arrived.
        now_us: u64,
    },
}

impl ClockView {
    /// A tracker that has seen nothing, keeping `window` round trips.
    pub open spec fn fresh(window: nat) -> ClockView {
        ClockView {
            pending: Map::empty(),
            rtt: Seq::empty(),
            window,
            offset: None,
            offset_rtt: None,
            applied_sent_us: None,
        }
    }

    /// The state after a ping was sent.
    pub open spec fn after_ping(self, seq: u32, sent_us: u64) -> ClockView {
        ClockView { pending: self.pending.insert(seq, sent_us), ..self }
    }

    /// Half the round trip that the estimate came from.
    pub open spec fn error_bound(self) -> Option<u64> {
        match self.offset_rtt {
            None => None,
            Some(rtt) => Some((rtt / 2) as u64),
        }
    }

    /// The state after a call.
    pub open spec fn after(self, call: ClockCall) -> ClockView {
        match call {
            ClockCall::PingSent { seq, sent_us } => self.after_ping(seq, sent_us),
            ClockCall::Pong { seq, agent_us, now_us } => self.after_pong(seq, agent_us, now_us),
        }
    }

    /// The state after some calls, one after the other.
    pub open spec fn after_all(self, calls: Seq<ClockCall>) -> ClockView
        decreases calls.len(),
    {
        if calls.len() == 0 {
            self
        } else {
            self.after_all(calls.drop_last()).after(calls.last())
        }
    }

    /// The round trip that a call completes, if it completes one.
    pub open spec fn completes(self, call: ClockCall) -> Option<u64> {
        match call {
            ClockCall::PingSent { .. } => None,
            ClockCall::Pong { seq, now_us, .. } => self.round_trip(seq, now_us),
        }
    }

    /// The round trip that a pong at `now_us` completes, if it answers a ping.
    pub open spec fn round_trip(self, seq: u32, now_us: u64) -> Option<u64> {
        if self.pending.dom().contains(seq) {
            let sent_us = self.pending[seq];
            Some(if now_us < sent_us { 0 } else { (now_us - sent_us) as u64 })
        } else {
            None
        }
    }

    /// The state after a pong.
    pub open spec fn after_pong(self, seq: u32, agent_us: u64, now_us: u64) -> ClockView {
        match self.round_trip(seq, now_us) {
            None => self,
            Some(rtt) => {
                let sent_us = self.pending[seq];
                let newer = match self.applied_sent_us {
                    None => true,
                    Some(applied) => sent_us >= applied,
                };
                ClockView {
                    pending: self.pending.remove(seq),
                    rtt: kept(self.rtt, self.window, rtt),
                    window: self.window,
                    offset: if newer {
                        Some(offset_shown(sent_us, rtt, agent_us))
                    } else {
                        self.offset
                    },
                    offset_rtt: if newer { Some(rtt) } else { self.offset_rtt },
                    applied_sent_us: if newer { Some(sent_us) } else { self.applied_sent_us },
                }
            },
        }
    }
}

/// Round-trip time and clock-offset estimation from Ping/Pong exchanges.
///
/// This is the standard SNTP simplification of NTP's four-timestamp exchange: the agent reports
/// one clock reading (`agent_us`) rather than separate receive/send times, so the offset assumes
/// the agent's own processing between the two is negligible, and RTT/2 assumes the network
/// delays both directions equally. Neither is guaranteed by a TCP connection through a VM port
/// forward: the true error can exceed half the RTT if the path is asymmetric. What *is*
/// guaranteed: [`ClockSync::offset_error_bound_us`] never overstates precision, because it is
/// always half the RTT of the exact sample the current offset came from, not a smoothed or
/// assumed figure.
#[derive(Debug, Clone)]
pub struct ClockSync {
    pending: HashMap<u32, u64>,
    rtt: Samples,
    offset: Option<i64>,
    /// RTT of the sample `offset` was computed from, kept paired with the estimate it describes.
    offset_rtt: Option<u64>,
    /// Send time (client clock) of the most recent sample actually applied to `offset`, so a
    /// Pong that arrives out of order relative to when its Ping was sent cannot overwrite a
    /// newer estimate with a stale one.
    applied_sent_us: Option<u64>,
}

impl View for ClockSync {
    type V = ClockView;

    closed spec fn view(&self) -> ClockView {
        ClockView {
            pending: self.pending@,
            rtt: self.rtt@,
            window: self.rtt.window(),
            offset: self.offset,
            offset_rtt: self.offset_rtt,
            applied_sent_us: self.applied_sent_us,
        }
    }
}

impl ClockSync {
    /// A tracker keeping `window` RTT samples.
    pub fn new(window: usize) -> (r: Self)
        ensures
            r@ == ClockView::fresh(if window < 1 { 1 } else { window as nat }),
    {
        broadcast use vstd::std_specs::hash::group_hash_axioms;

        ClockSync {
            pending: HashMap::new(),
            rtt: Samples::new(window),
            offset: None,
            offset_rtt: None,
            applied_sent_us: None,
        }
    }

    /// Record that a Ping with `seq` was sent at client time `sent_us`.
    pub fn on_ping_sent(&mut self, seq: u32, sent_us: u64)
        ensures
            final(self)@ == old(self)@.after_ping(seq, sent_us),
    {
        broadcast use vstd::std_specs::hash::group_hash_axioms;

        self.pending.insert(seq, sent_us);
    }

    /// Record a Pong. `agent_us` is the agent's clock from the message, `now_us` the client
    /// time it arrived. Returns the round-trip time, or `None` if this seq was never sent
    /// (a duplicate or forged Pong must not corrupt the estimate).
    ///
    /// The RTT sample is always recorded, even for a Pong answering an older Ping than the one
    /// the current offset estimate is based on. The offset itself is not updated by such a
    /// sample, so a reordered reply can add a data point to `rtt()`'s statistics without ever
    /// making the offset estimate worse.
    pub fn on_pong(&mut self, seq: u32, agent_us: u64, now_us: u64) -> (r: Option<u64>)
        ensures
            r == old(self)@.round_trip(seq, now_us),
            final(self)@ == old(self)@.after_pong(seq, agent_us, now_us),
    {
        broadcast use vstd::std_specs::hash::group_hash_axioms;

        let sent_us: u64 = match self.pending.remove(&seq) {
            Some(sent_us) => sent_us,
            None => {
                assert(self@.pending =~= old(self)@.pending);
                return None;
            },
        };
        let rtt: u64 = now_us.saturating_sub(sent_us);
        self.rtt.push(rtt);
        let newer = match self.applied_sent_us {
            None => true,
            Some(applied) => sent_us >= applied,
        };
        if newer {
            let middle: u64 = sent_us.saturating_add(rtt / 2);
            let offset: i128 = agent_us as i128 - middle as i128;
            let offset: i64 = if offset < i64::MIN as i128 {
                i64::MIN
            } else if offset > i64::MAX as i128 {
                i64::MAX
            } else {
                offset as i64
            };
            self.offset = Some(offset);
            self.offset_rtt = Some(rtt);
            self.applied_sent_us = Some(sent_us);
        }
        Some(rtt)
    }

    /// RTT statistics.
    pub fn rtt(&self) -> (r: &Samples)
        ensures
            r@ == self@.rtt,
            r.window() == self@.window,
    {
        &self.rtt
    }

    /// Current estimate of `agent_clock - client_clock`, once at least one Pong has landed.
    /// Signed, because the agent's clock may be behind the client's.
    pub fn offset_us(&self) -> (r: Option<i64>)
        ensures
            r == self@.offset,
    {
        self.offset
    }

    /// Half the RTT of the sample [`ClockSync::offset_us`] was computed from: the error bound
    /// the symmetric-path assumption promises, *if* the path really is symmetric.
    pub fn offset_error_bound_us(&self) -> (r: Option<u64>)
        ensures
            r == self@.error_bound(),
    {
        match self.offset_rtt {
            None => None,
            Some(rtt) => Some(rtt / 2),
        }
    }

    /// Convert an agent timestamp into client time using the current offset estimate.
    pub fn agent_to_client(&self, agent_us: u64) -> (r: Option<u64>)
        ensures
            r == (match self@.offset {
                None => None,
                Some(offset) => Some(on_client_clock(agent_us, offset)),
            }),
    {
        match self.offset {
            None => None,
            Some(offset) => Some(agent_to_client(agent_us, offset)),
        }
    }
}

/// Converts an agent-clock timestamp into the equivalent client-clock timestamp, given
/// `offset_us = agent_clock - client_clock`. A result outside the range of a timestamp stays at
/// the end of that range.
pub fn agent_to_client(agent_us: u64, offset_us: i64) -> (r: u64)
    ensures
        r == on_client_clock(agent_us, offset_us),
{
    let t: i128 = agent_us as i128 - offset_us as i128;
    if t < 0 {
        0
    } else if t > u64::MAX as i128 {
        u64::MAX
    } else {
        t as u64
    }
}

/// A pong that answers no ping changes nothing.
pub proof fn law_unsolicited_pongs_are_ignored(c: ClockView, seq: u32, agent_us: u64, now_us: u64)
    requires
        !c.pending.dom().contains(seq),
    ensures
        c.round_trip(seq, now_us) is None,
        c.after_pong(seq, agent_us, now_us) == c,
{
}

/// A pong is counted once: a second one for the same ping changes nothing.
pub proof fn law_replayed_pongs_are_ignored(
    c: ClockView,
    seq: u32,
    agent_us: u64,
    now_us: u64,
    agent2_us: u64,
    now2_us: u64,
)
    ensures
        ({
            let once = c.after_pong(seq, agent_us, now_us);
            &&& once.round_trip(seq, now2_us) is None
            &&& once.after_pong(seq, agent2_us, now2_us) == once
        }),
{
}

/// The estimate only ever moves to pings sent later, and a pong for an older ping leaves it as
/// it is while its round trip still counts.
pub proof fn law_estimate_never_goes_back(c: ClockView, seq: u32, agent_us: u64, now_us: u64)
    requires
        c.pending.dom().contains(seq),
        c.applied_sent_us is Some,
    ensures
        ({
            let after = c.after_pong(seq, agent_us, now_us);
            &&& after.applied_sent_us is Some
            &&& after.applied_sent_us->0 >= c.applied_sent_us->0
            &&& after.rtt.last() == c.round_trip(seq, now_us)->0
            &&& c.pending[seq] < c.applied_sent_us->0 ==> after.offset == c.offset
                && after.offset_rtt == c.offset_rtt
        }),
{
}

/// What a tracker's estimate and its error bound never are: one without the other.
pub open spec fn paired(c: ClockView) -> bool {
    &&& c.offset is Some <==> c.offset_rtt is Some
    &&& c.offset is Some <==> c.applied_sent_us is Some
}

/// The error bound is always that of the exchange the estimate came from.
pub proof fn law_bound_belongs_to_the_estimate(
    c: ClockView,
    seq: u32,
    agent_us: u64,
    now_us: u64,
)
    requires
        paired(c),
    ensures
        paired(c.after_pong(seq, agent_us, now_us)),
        ({
            let after = c.after_pong(seq, agent_us, now_us);
            after.applied_sent_us != c.applied_sent_us ==> after.offset_rtt == c.round_trip(
                seq,
                now_us,
            ) && after.offset == Some(
                offset_shown(c.pending[seq], after.offset_rtt->0, agent_us),
            )
        }),
{
}

/// Whether the estimate of `c` came from call `k`, a pong that completed a round trip: offset,
/// round trip and send time are that exchange's.
pub open spec fn came_from(start: ClockView, calls: Seq<ClockCall>, k: int, c: ClockView) -> bool {
    let before = start.after_all(calls.take(k));
    &&& 0 <= k < calls.len()
    &&& calls[k] matches ClockCall::Pong { seq, agent_us, now_us }
    &&& before.round_trip(seq, now_us) is Some
    &&& c.offset_rtt == before.round_trip(seq, now_us)
    &&& c.offset == Some(offset_shown(before.pending[seq], c.offset_rtt->0, agent_us))
    &&& c.applied_sent_us == Some(before.pending[seq])
}

/// Whether call `j`, if it completed a round trip, did so for a ping sent before `sent_us`; or at
/// it, if the call is not one after `k`.
pub open spec fn answers_older(
    start: ClockView,
    calls: Seq<ClockCall>,
    j: int,
    sent_us: u64,
    k: int,
) -> bool {
    let before = start.after_all(calls.take(j));
    calls[j] matches ClockCall::Pong { seq, now_us, .. } ==> (before.round_trip(seq, now_us) is Some
        ==> before.pending[seq] < sent_us || (j <= k && before.pending[seq] == sent_us))
}

/// Whatever was sent and answered, the error bound is half the round trip of the very exchange that
/// the offset came from: there is a bound exactly when there is an offset, and both come from the
/// pong for the latest ping that was answered. A later pong for an older ping changes neither.
pub proof fn law_every_bound_belongs_to_its_estimate(window: nat, calls: Seq<ClockCall>)
    ensures
        ({
            let start = ClockView::fresh(window);
            let c = start.after_all(calls);
            &&& paired(c)
            &&& c.error_bound() is Some <==> c.offset is Some
            &&& c.offset is None ==> forall|j: int|
                0 <= j < calls.len() ==> start.after_all(#[trigger] calls.take(j)).completes(
                    calls[j],
                ) is None
            &&& c.offset is Some ==> exists|k: int|
                {
                    &&& #[trigger] came_from(start, calls, k, c)
                    &&& c.error_bound() == Some((start.after_all(calls.take(k)).completes(calls[k])->0
                        / 2) as u64)
                    &&& forall|j: int|
                        0 <= j < calls.len() ==> #[trigger] answers_older(
                            start,
                            calls,
                            j,
                            c.applied_sent_us->0,
                            k,
                        )
                }
        }),
    decreases calls.len(),
{
    let start = ClockView::fresh(window);
    let c = start.after_all(calls);
    if calls.len() > 0 {
        let less = calls.drop_last();
        let before = start.after_all(less);
        let last = calls.len() - 1;
        law_every_bound_belongs_to_its_estimate(window, less);
        assert forall|j: int| 0 <= j <= last implies #[trigger] calls.take(j) == less.take(j) by {
            assert(calls.take(j) =~= less.take(j));
        }
        assert(calls.take(last) =~= less);
        if c.offset is Some {
            if before.offset is Some && c.applied_sent_us == before.applied_sent_us && c.offset_rtt
                == before.offset_rtt && c.offset == before.offset && !came_from(
                start,
                calls,
                last,
                c,
            ) {
                let k = choose|k: int|
                    {
                        &&& #[trigger] came_from(start, less, k, before)
                        &&& forall|j: int|
                            0 <= j < less.len() ==> #[trigger] answers_older(
                                start,
                                less,
                                j,
                                before.applied_sent_us->0,
                                k,
                            )
                    };
                assert(came_from(start, calls, k, c));
                assert forall|j: int| 0 <= j < calls.len() implies #[trigger] answers_older(
                    start,
                    calls,
                    j,
                    c.applied_sent_us->0,
                    k,
                ) by {
                    if j < last {
                        assert(answers_older(start, less, j, before.applied_sent_us->0, k));
                    }
                }
            } else {
                assert(came_from(start, calls, last, c));
                assert forall|j: int| 0 <= j < calls.len() implies #[trigger] answers_older(
                    start,
                    calls,
                    j,
                    c.applied_sent_us->0,
                    last,
                ) by {
                    if j < last {
                        if before.offset is Some {
                            let k = choose|k: int|
                                {
                                    &&& #[trigger] came_from(start, less, k, before)
                                    &&& forall|j: int|
                                        0 <= j < less.len() ==> #[trigger] answers_older(
                                            start,
                                            less,
                                            j,
                                            before.applied_sent_us->0,
                                            k,
                                        )
                                };
                            assert(answers_older(
                                start,
                                less,
                                j,
                                before.applied_sent_us->0,
                                k,
                            ));
                        } else {
                            assert(start.after_all(less.take(j)).completes(less[j]) is None);
                        }
                    }
                }
            }
        } else {
            assert forall|j: int| 0 <= j < calls.len() implies start.after_all(
                #[trigger] calls.take(j),
            ).completes(calls[j]) is None by {
                if j < last {
                    assert(start.after_all(less.take(j)).completes(less[j]) is None);
                }
            }
        }
    }
}

/// A window holds at least one sample. While samples fit, recording one adds it behind the others;
/// from then on the oldest makes room for it. The one recorded last is the most recent one.
pub proof fn law_samples_are_recorded_in_order(capacity: usize, value_us: u64)
    ensures
        forall|s: Samples| #[trigger]
            call_ensures(Samples::new, (capacity,), s) ==> s@.len() == 0 && s.window() == (
            if capacity == 0 {
                1
            } else {
                capacity as int
            }),
        forall|p: &mut Samples, before: Vec<u64>, after: Vec<u64>, last: Option<u64>, len: usize|
            #![trigger call_ensures(Samples::push, (p, value_us), ()), call_ensures(Samples::to_vec, (&*p,), before), call_ensures(Samples::to_vec, (&*final(p),), after), call_ensures(Samples::last, (&*final(p),), last), call_ensures(Samples::len, (&*final(p),), len)]
            call_ensures(Samples::push, (p, value_us), ()) && call_ensures(
                Samples::to_vec,
                (&*p,),
                before,
            ) && call_ensures(Samples::to_vec, (&*final(p),), after) && call_ensures(
                Samples::last,
                (&*final(p),),
                last,
            ) && call_ensures(Samples::len, (&*final(p),), len) ==> {
                &&& last == Some(value_us)
                &&& len == after@.len()
                &&& final(p).window() == (*p).window()
                &&& before@.len() < (*p).window() ==> after@ == before@ + seq![value_us]
                &&& before@.len() >= (*p).window() ==> after@ == before@.skip(1) + seq![value_us]
            },
{
    assert forall|
        p: &mut Samples,
        before: Vec<u64>,
        after: Vec<u64>,
        last: Option<u64>,
        len: usize,
    |
        #![trigger call_ensures(Samples::push, (p, value_us), ()), call_ensures(Samples::to_vec, (&*p,), before), call_ensures(Samples::to_vec, (&*final(p),), after), call_ensures(Samples::last, (&*final(p),), last), call_ensures(Samples::len, (&*final(p),), len)]
        call_ensures(Samples::push, (p, value_us), ()) && call_ensures(
            Samples::to_vec,
            (&*p,),
            before,
        ) && call_ensures(Samples::to_vec, (&*final(p),), after) && call_ensures(
            Samples::last,
            (&*final(p),),
            last,
        ) && call_ensures(Samples::len, (&*final(p),), len) implies {
        &&& last == Some(value_us)
        &&& len == after@.len()
        &&& final(p).window() == (*p).window()
        &&& before@.len() < (*p).window() ==> after@ == before@ + seq![value_us]
        &&& before@.len() >= (*p).window() ==> after@ == before@.skip(1) + seq![value_us]
    } by {
        assert(before@.push(value_us) =~= before@ + seq![value_us]);
        assert(before@.len() > 0 ==> before@.drop_first().push(value_us) =~= before@.skip(1)
            + seq![value_us]);
    }
}

/// The smallest and the largest sample are samples, with no sample below the one or above the other;
/// there are such exactly where there are samples.
pub proof fn law_extremes_bound_the_samples(
    s: &Samples,
    held: Vec<u64>,
    empty: bool,
    least: Option<u64>,
    most: Option<u64>,
)
    requires
        call_ensures(Samples::to_vec, (s,), held),
        call_ensures(Samples::is_empty, (s,), empty),
        call_ensures(Samples::min, (s,), least),
        call_ensures(Samples::max, (s,), most),
    ensures
        empty <==> held@.len() == 0,
        least is None <==> empty,
        most is None <==> empty,
        !empty ==> held@.contains(least->0) && held@.contains(most->0),
        forall|i: int| 0 <= i < held@.len() ==> least->0 <= #[trigger] held@[i] <= most->0,
{
    if held@.len() > 0 {
        assert(s@[0] == held@[0]);
        assert(least is Some);
        assert(most is Some);
    }
}

/// The sum of some samples is what adding them up one after the other gives.
proof fn lemma_total_adds_up(s: Seq<u64>)
    ensures
        total(s) == s.fold_left(0int, |sum: int, x: u64| sum + x),
    decreases s.len(),
{
    if s.len() > 0 {
        lemma_total_adds_up(s.drop_last());
    }
}

/// The mean is the whole part of the sum shared out among the samples, of a sum that stays at the
/// largest `u64`.
pub proof fn law_means_share_out_the_sum(s: &Samples, held: Vec<u64>, mean: Option<u64>)
    requires
        call_ensures(Samples::to_vec, (s,), held),
        call_ensures(Samples::mean, (s,), mean),
    ensures
        mean is None <==> held@.len() == 0,
        mean matches Some(m) ==> ({
            let sum = held@.fold_left(0int, |sum: int, x: u64| sum + x);
            let sum = if sum < 0xffff_ffff_ffff_ffff {
                sum
            } else {
                0xffff_ffff_ffff_ffff
            };
            m * held@.len() <= sum < m * held@.len() + held@.len()
        }),
{
    lemma_total_adds_up(held@);
    if held@.len() > 0 {
        let n = held@.len() as int;
        let sum = total(held@);
        let sum = if sum < u64::MAX {
            sum as int
        } else {
            u64::MAX as int
        };
        vstd::arithmetic::div_mod::lemma_fundamental_div_mod(sum, n);
        vstd::arithmetic::mul::lemma_mul_is_commutative(n, sum / n);
        assert(0 <= sum / n <= u64::MAX) by (nonlinear_arith)
            requires
                0 <= sum <= u64::MAX,
                n > 0,
        ;
    }
}

/// The `p`th percentile is the sample that stands, in ascending order, at the first place with at
/// least `p` percent of the samples up to it. Past 100 it stays the largest.
pub proof fn law_percentiles_stand_at_their_rank(
    s: &Samples,
    p: u8,
    held: Vec<u64>,
    sorted: Seq<u64>,
    k: int,
    r: Option<u64>,
)
    requires
        call_ensures(Samples::to_vec, (s,), held),
        call_ensures(Samples::percentile, (s, p), r),
        sorted.to_multiset() == held@.to_multiset(),
        forall|i: int, j: int| 0 <= i <= j < sorted.len() ==> sorted[i] <= sorted[j],
        0 <= k < sorted.len(),
        p <= 100 ==> 100 * (k + 1) >= p * sorted.len(),
        p <= 100 ==> k == 0 || 100 * k < p * sorted.len(),
        p > 100 ==> k == sorted.len() - 1,
    ensures
        r == Some(sorted[k]),
{
    law_ascending_is_unique(held@, sorted);
    let n = held@.len();
    assert(nearest_rank(p, n) == k + 1);
}

/// Without samples there is no percentile.
pub proof fn law_no_samples_no_percentile(s: &Samples, p: u8, empty: bool, r: Option<u64>)
    requires
        call_ensures(Samples::is_empty, (s,), empty),
        call_ensures(Samples::percentile, (s, p), r),
    ensures
        r is None <==> empty,
{
}

/// A pong takes as long as passed between sending its ping and its arrival. If no ping sent later was
/// answered before, the agent is ahead by what it reads beyond the middle of the round trip, give or
/// take half the round trip, and its readings are set back by that much.
pub proof fn law_pongs_relate_the_clocks(
    seq: u32,
    sent_us: u64,
    agent_us: u64,
    now_us: u64,
    reading_us: u64,
)
    requires
        sent_us <= now_us,
        agent_us <= 0x7fff_ffff_ffff_ffff,
        now_us <= 0x7fff_ffff_ffff_ffff,
    ensures
        forall|
            p: &mut ClockSync,
            q: &mut ClockSync,
            rtt: Option<u64>,
            offset: Option<i64>,
            bound: Option<u64>,
            reading: Option<u64>,
        |
            #![trigger call_ensures(ClockSync::on_ping_sent, (p, seq, sent_us), ()), call_ensures(ClockSync::on_pong, (q, seq, agent_us, now_us), rtt), call_ensures(ClockSync::offset_us, (&*final(q),), offset), call_ensures(ClockSync::offset_error_bound_us, (&*final(q),), bound), call_ensures(ClockSync::agent_to_client, (&*final(q), reading_us), reading)]
            call_ensures(ClockSync::on_ping_sent, (p, seq, sent_us), ()) && (*q)@ == final(p)@
                && call_ensures(ClockSync::on_pong, (q, seq, agent_us, now_us), rtt)
                && call_ensures(ClockSync::offset_us, (&*final(q),), offset) && call_ensures(
                ClockSync::offset_error_bound_us,
                (&*final(q),),
                bound,
            ) && call_ensures(ClockSync::agent_to_client, (&*final(q), reading_us), reading) ==> {
                let ahead = agent_us - (sent_us + (now_us - sent_us) / 2);
                &&& rtt == Some((now_us - sent_us) as u64)
                &&& final(q)@.rtt.last() == now_us - sent_us
                &&& (*p)@.applied_sent_us is None || (*p)@.applied_sent_us->0 <= sent_us ==> {
                    &&& offset == Some(ahead as i64) && offset->0 == ahead
                    &&& bound == Some(((now_us - sent_us) / 2) as u64)
                    &&& 0 <= reading_us - ahead <= 0xffff_ffff_ffff_ffff ==> reading == Some(
                        (reading_us - ahead) as u64,
                    )
                    &&& reading_us - ahead < 0 ==> reading == Some(0u64)
                    &&& final(q)@.applied_sent_us == Some(sent_us)
                }
                &&& (*p)@.applied_sent_us is Some && (*p)@.applied_sent_us->0 > sent_us ==> {
                    &&& offset == (*p)@.offset
                    &&& final(q)@.applied_sent_us == (*p)@.applied_sent_us
                }
            },
{
}

/// A pong counts once, and one that answers no ping not at all.
pub proof fn law_only_answers_count(
    seq: u32,
    agent_us: u64,
    now_us: u64,
    agent2_us: u64,
    now2_us: u64,
)
    ensures
        forall|p: &mut ClockSync, q: &mut ClockSync, first: Option<u64>, second: Option<u64>|
            #![trigger call_ensures(ClockSync::on_pong, (p, seq, agent_us, now_us), first), call_ensures(ClockSync::on_pong, (q, seq, agent2_us, now2_us), second)]
            call_ensures(ClockSync::on_pong, (p, seq, agent_us, now_us), first) && (*q)@
                == final(p)@ && call_ensures(
                ClockSync::on_pong,
                (q, seq, agent2_us, now2_us),
                second,
            ) ==> second is None && final(q)@ == (*q)@,
        forall|window: usize, c: ClockSync, q: &mut ClockSync, r: Option<u64>|
            #![trigger call_ensures(ClockSync::new, (window,), c), call_ensures(ClockSync::on_pong, (q, seq, agent_us, now_us), r)]
            call_ensures(ClockSync::new, (window,), c) && (*q)@ == c@ && call_ensures(
                ClockSync::on_pong,
                (q, seq, agent_us, now_us),
                r,
            ) ==> r is None && final(q)@ == c@ && c@.rtt.len() == 0 && c@.offset is None,
{
}

/// An agent's reading is set back by as much as the agent is ahead, within the range of a timestamp.
pub proof fn law_readings_are_set_back(agent_us: u64, offset_us: i64, r: u64)
    requires
        call_ensures(agent_to_client, (agent_us, offset_us), r),
    ensures
        0 <= agent_us - offset_us <= 0xffff_ffff_ffff_ffff ==> r + offset_us == agent_us,
        agent_us < offset_us ==> r == 0,
        agent_us - offset_us > 0xffff_ffff_ffff_ffff ==> r == 0xffff_ffff_ffff_ffff,
{
}

} // verus!
