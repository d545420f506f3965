//! Where a frame's latency actually goes.
//!
//! # What this measures, and what it does not
//!
//! **Capture to present.** From the agent finishing its capture of a window to the client
//! finishing the call that puts those pixels on a surface. That is not glass-to-glass: it
//! excludes the guest's own compositor before capture, and the local display server and monitor
//! after present. Neither is visible from inside this process, so neither is claimed. A real
//! glass-to-glass figure needs a camera pointed at both screens.
//!
//! # The four stages
//!
//! | Stage | From | To | Clock |
//! |---|---|---|---|
//! | capture -> encode | `captured_us` | `encoded_us` | agent only |
//! | encode -> arrival | `encoded_us` | frame read off the wire | **both** |
//! | arrival -> decode | read off the wire | decoder finished | client only |
//! | decode -> present | decoder finished | surface written | client only |
//!
//! The "Clock" column is the honesty column. Three of these are differences between two
//! timestamps taken by the *same* clock, so they are exact regardless of how well the two ends
//! agree about time. Only **encode -> arrival** spans the two clocks, so only it (and therefore
//! the total, which contains it) depends on the offset estimate and inherits its error.
//!
//! That error is bounded by half the round-trip time and is usually far smaller, since it is
//! really half the *asymmetry* of the path rather than half its length. The report prints the
//! round-trip time next to the numbers for exactly this reason. The client-only span, arrival to
//! present, is printed separately because it is exact.
//!
//! # Percentiles, not means
//!
//! A mean hides the stalls, and the stalls are what a remote desktop feels like. p50 says what
//! it is usually like; p99 and the maximum say what makes someone complain.

use std::collections::BTreeMap;

use vstd::prelude::*;

use crate::proto::latency;
use crate::proto::latency::{agent_to_client, Samples};
use crate::text;

verus! {

/// Completed frames kept per window for the percentile window.
///
/// At 30 fps this is about a minute of history, which is long enough for p99 to mean something
/// and short enough that a report reflects recent behaviour rather than the whole session.
pub const SAMPLE_WINDOW: usize = 2048;

/// Frames that arrived but never finished, before the oldest is discarded.
///
/// The agent drops frames it has not had acknowledged, so some frames legitimately never
/// complete and this must not grow without bound.
pub const MAX_IN_FLIGHT: usize = 256;

/// One frame's journey, in microseconds.
#[derive(Debug, Clone, Copy, PartialEq, Eq)]
pub struct FrameStages {
    /// Agent-side capture to encode completion. Agent clock only, so exact.
    pub capture_to_encode_us: u64,
    /// Encode completion to the frame being read off the wire. **Spans both clocks.**
    pub encode_to_arrival_us: u64,
    /// Read off the wire to the decoder finishing. Client clock only, so exact.
    pub arrival_to_decode_us: u64,
    /// Decoder finishing to the pixels being written to a surface. Client clock only, so exact.
    pub decode_to_present_us: u64,
    /// Arrival to present: everything this client is responsible for. Exact.
    pub client_us: u64,
    /// Capture to present. Carries the clock-offset error; see the module docs.
    pub total_us: u64,
}

/// A frame seen but not yet finished.
#[derive(Debug, Clone, Copy, PartialEq, Eq)]
pub struct Partial {
    /// When the agent captured it, on the agent's clock.
    pub captured_us: u64,
    /// When the agent had encoded it, on the agent's clock.
    pub encoded_us: u64,
    /// When it was read off the wire.
    pub arrived_us: u64,
    /// When the decoder finished with it.
    pub decoded_us: Option<u64>,
}

/// The time from `from` to `to`, or zero if `to` is the earlier.
pub open spec fn span(from: u64, to: u64) -> u64 {
    if from < to {
        (to - from) as u64
    } else {
        0
    }
}

impl Partial {
    /// When the decoder finished. A frame that was presented without a decode report is one the
    /// passthrough path handled; arrival is its decode point.
    pub open spec fn decoded(self) -> u64 {
        match self.decoded_us {
            Some(decoded_us) => decoded_us,
            None => self.arrived_us,
        }
    }

    /// The stages of a frame presented at `presented_us`, for an agent that is `offset_us` ahead.
    pub open spec fn stages(self, presented_us: u64, offset_us: i64) -> FrameStages {
        FrameStages {
            capture_to_encode_us: span(self.captured_us, self.encoded_us),
            encode_to_arrival_us: span(
                latency::on_client_clock(self.encoded_us, offset_us),
                self.arrived_us,
            ),
            arrival_to_decode_us: span(self.arrived_us, self.decoded()),
            decode_to_present_us: span(self.decoded(), presented_us),
            client_us: span(self.arrived_us, presented_us),
            total_us: span(latency::on_client_clock(self.captured_us, offset_us), presented_us),
        }
    }
}

/// One window's accounting.
#[derive(Debug)]
pub struct WindowLatency {
    /// Frames that arrived and have not finished, by frame id.
    pub in_flight: BTreeMap<u64, Partial>,
    /// See [`FrameStages::capture_to_encode_us`].
    pub capture_to_encode: Samples,
    /// See [`FrameStages::encode_to_arrival_us`].
    pub encode_to_arrival: Samples,
    /// See [`FrameStages::arrival_to_decode_us`].
    pub arrival_to_decode: Samples,
    /// See [`FrameStages::decode_to_present_us`].
    pub decode_to_present: Samples,
    /// See [`FrameStages::client_us`].
    pub client: Samples,
    /// See [`FrameStages::total_us`].
    pub total: Samples,
    /// Frames presented.
    pub presented: u64,
    /// Frames that will never be presented.
    pub dropped: u64,
}

/// What a [`WindowLatency`] holds.
pub struct WindowView {
    /// Frames that arrived and have not finished, by frame id.
    pub in_flight: Map<u64, Partial>,
    /// See [`FrameStages::capture_to_encode_us`].
    pub capture_to_encode: Seq<u64>,
    /// See [`FrameStages::encode_to_arrival_us`].
    pub encode_to_arrival: Seq<u64>,
    /// See [`FrameStages::arrival_to_decode_us`].
    pub arrival_to_decode: Seq<u64>,
    /// See [`FrameStages::decode_to_present_us`].
    pub decode_to_present: Seq<u64>,
    /// See [`FrameStages::client_us`].
    pub client: Seq<u64>,
    /// See [`FrameStages::total_us`].
    pub total: Seq<u64>,
    /// Frames presented.
    pub presented: u64,
    /// Frames that will never be presented.
    pub dropped: u64,
}

impl View for WindowLatency {
    type V = WindowView;

    open spec fn view(&self) -> WindowView {
        WindowView {
            in_flight: self.in_flight@,
            capture_to_encode: self.capture_to_encode@,
            encode_to_arrival: self.encode_to_arrival@,
            arrival_to_decode: self.arrival_to_decode@,
            decode_to_present: self.decode_to_present@,
            client: self.client@,
            total: self.total@,
            presented: self.presented,
            dropped: self.dropped,
        }
    }
}

/// One more, as far as a counter goes.
pub open spec fn counted(n: u64) -> u64 {
    if n < u64::MAX {
        (n + 1) as u64
    } else {
        n
    }
}

/// The samples after one more, of which the last [`SAMPLE_WINDOW`] are kept.
pub open spec fn sampled(samples: Seq<u64>, value_us: u64) -> Seq<u64> {
    latency::kept(samples, SAMPLE_WINDOW as nat, value_us)
}

/// Whether `id` is the smallest of some frame ids.
pub open spec fn is_oldest(ids: Set<u64>, id: u64) -> bool {
    ids.contains(id) && forall|other: u64| ids.contains(other) ==> id <= other
}

/// The smallest of some frame ids.
pub open spec fn oldest_of(ids: Set<u64>) -> u64 {
    choose|id: u64| is_oldest(ids, id)
}

impl WindowView {
    /// The accounting of a window that has seen no frame.
    pub open spec fn fresh() -> WindowView {
        WindowView {
            in_flight: Map::empty(),
            capture_to_encode: Seq::empty(),
            encode_to_arrival: Seq::empty(),
            arrival_to_decode: Seq::empty(),
            decode_to_present: Seq::empty(),
            client: Seq::empty(),
            total: Seq::empty(),
            presented: 0,
            dropped: 0,
        }
    }

    /// Whether no more is held than may be.
    pub open spec fn bounded(self) -> bool {
        &&& self.in_flight.dom().finite()
        &&& self.in_flight.dom().len() <= MAX_IN_FLIGHT
        &&& self.capture_to_encode.len() <= SAMPLE_WINDOW
        &&& self.encode_to_arrival.len() <= SAMPLE_WINDOW
        &&& self.arrival_to_decode.len() <= SAMPLE_WINDOW
        &&& self.decode_to_present.len() <= SAMPLE_WINDOW
        &&& self.client.len() <= SAMPLE_WINDOW
        &&& self.total.len() <= SAMPLE_WINDOW
    }

    /// After a frame arrived. Frames the agent dropped never complete, so where there are too
    /// many the oldest is evicted, and counted.
    pub open spec fn after_arrival(self, frame_id: u64, partial: Partial) -> WindowView {
        let in_flight = self.in_flight.insert(frame_id, partial);
        if in_flight.dom().len() <= MAX_IN_FLIGHT {
            WindowView { in_flight, ..self }
        } else {
            WindowView {
                in_flight: in_flight.remove(oldest_of(in_flight.dom())),
                dropped: counted(self.dropped),
                ..self
            }
        }
    }

    /// After a frame was decoded.
    pub open spec fn after_decode(self, frame_id: u64, decoded_us: u64) -> WindowView {
        if self.in_flight.contains_key(frame_id) {
            let partial = Partial { decoded_us: Some(decoded_us), ..self.in_flight[frame_id] };
            WindowView { in_flight: self.in_flight.insert(frame_id, partial), ..self }
        } else {
            self
        }
    }

    /// After a frame in flight was presented.
    pub open spec fn after_present(self, frame_id: u64, stages: FrameStages) -> WindowView {
        WindowView {
            in_flight: self.in_flight.remove(frame_id),
            capture_to_encode: sampled(self.capture_to_encode, stages.capture_to_encode_us),
            encode_to_arrival: sampled(self.encode_to_arrival, stages.encode_to_arrival_us),
            arrival_to_decode: sampled(self.arrival_to_decode, stages.arrival_to_decode_us),
            decode_to_present: sampled(self.decode_to_present, stages.decode_to_present_us),
            client: sampled(self.client, stages.client_us),
            total: sampled(self.total, stages.total_us),
            presented: counted(self.presented),
            dropped: self.dropped,
        }
    }

    /// After a frame turned out never to be presented.
    pub open spec fn after_drop(self, frame_id: u64) -> WindowView {
        if self.in_flight.contains_key(frame_id) {
            WindowView {
                in_flight: self.in_flight.remove(frame_id),
                dropped: counted(self.dropped),
                ..self
            }
        } else {
            self
        }
    }
}

impl WindowLatency {
    /// Whether the samples are kept as long as they should be, and no more is held than may be.
    pub open spec fn wf(self) -> bool {
        &&& self@.bounded()
        &&& self.capture_to_encode.window() == SAMPLE_WINDOW
        &&& self.encode_to_arrival.window() == SAMPLE_WINDOW
        &&& self.arrival_to_decode.window() == SAMPLE_WINDOW
        &&& self.decode_to_present.window() == SAMPLE_WINDOW
        &&& self.client.window() == SAMPLE_WINDOW
        &&& self.total.window() == SAMPLE_WINDOW
    }

    fn new() -> (r: Self)
        ensures
            r.wf(),
            r@ == WindowView::fresh(),
    {
        let r = WindowLatency {
            in_flight: BTreeMap::new(),
            capture_to_encode: Samples::new(SAMPLE_WINDOW),
            encode_to_arrival: Samples::new(SAMPLE_WINDOW),
            arrival_to_decode: Samples::new(SAMPLE_WINDOW),
            decode_to_present: Samples::new(SAMPLE_WINDOW),
            client: Samples::new(SAMPLE_WINDOW),
            total: Samples::new(SAMPLE_WINDOW),
            presented: 0,
            dropped: 0,
        };
        assert(r@.in_flight.dom() =~= Set::empty());
        r
    }

    fn arrive(&mut self, frame_id: u64, partial: Partial)
        requires
            old(self).wf(),
        ensures
            final(self).wf(),
            final(self)@ == old(self)@.after_arrival(frame_id, partial),
    {
        broadcast use vstd::std_specs::btree::group_btree_axioms;
        broadcast use vstd::laws_cmp::group_laws_cmp;

        let ghost before = self@;
        self.in_flight.insert(frame_id, partial);
        let ghost held = before.in_flight.insert(frame_id, partial);
        assert(self.in_flight@ == held);
        if self.in_flight.len() > MAX_IN_FLIGHT {
            match oldest(&self.in_flight) {
                None => {
                    assert(false);
                },
                Some(id) => {
                    assert(is_oldest(held.dom(), id));
                    self.in_flight.remove(&id);
                    self.dropped = self.dropped.saturating_add(1);
                    assert(self.in_flight@ =~= held.remove(id));
                },
            }
        }
    }

    fn decode(&mut self, frame_id: u64, decoded_us: u64)
        requires
            old(self).wf(),
        ensures
            final(self).wf(),
            final(self)@ == old(self)@.after_decode(frame_id, decoded_us),
    {
        broadcast use vstd::std_specs::btree::group_btree_axioms;
        broadcast use vstd::laws_cmp::group_laws_cmp;

        let ghost before = self@;
        let partial = match self.in_flight.get(&frame_id) {
            None => {
                return;
            },
            Some(partial) => Partial { decoded_us: Some(decoded_us), ..*partial },
        };
        self.in_flight.insert(frame_id, partial);
        assert(self.in_flight@.dom() =~= before.in_flight.dom());
    }

    fn present(&mut self, frame_id: u64, presented_us: u64, offset_us: i64) -> (r: Option<
        FrameStages,
    >)
        requires
            old(self).wf(),
        ensures
            final(self).wf(),
            match r {
                None => !old(self)@.in_flight.contains_key(frame_id) && final(self)@ == old(self)@,
                Some(stages) => {
                    &&& old(self)@.in_flight.contains_key(frame_id)
                    &&& stages == old(self)@.in_flight[frame_id].stages(presented_us, offset_us)
                    &&& final(self)@ == old(self)@.after_present(frame_id, stages)
                },
            },
    {
        broadcast use vstd::std_specs::btree::group_btree_axioms;
        broadcast use vstd::laws_cmp::group_laws_cmp;

        let ghost before = self@;
        let partial = match self.in_flight.remove(&frame_id) {
            None => {
                assert(self.in_flight@ =~= before.in_flight);
                return None;
            },
            Some(partial) => partial,
        };
        assert(self.in_flight@ =~= before.in_flight.remove(frame_id));
        let decoded_us: u64 = match partial.decoded_us {
            Some(decoded_us) => decoded_us,
            None => partial.arrived_us,
        };
        let captured_client: u64 = agent_to_client(partial.captured_us, offset_us);
        let encoded_client: u64 = agent_to_client(partial.encoded_us, offset_us);
        let stages = FrameStages {
            capture_to_encode_us: partial.encoded_us.saturating_sub(partial.captured_us),
            encode_to_arrival_us: partial.arrived_us.saturating_sub(encoded_client),
            arrival_to_decode_us: decoded_us.saturating_sub(partial.arrived_us),
            decode_to_present_us: presented_us.saturating_sub(decoded_us),
            client_us: presented_us.saturating_sub(partial.arrived_us),
            total_us: presented_us.saturating_sub(captured_client),
        };
        self.capture_to_encode.push(stages.capture_to_encode_us);
        self.encode_to_arrival.push(stages.encode_to_arrival_us);
        self.arrival_to_decode.push(stages.arrival_to_decode_us);
        self.decode_to_present.push(stages.decode_to_present_us);
        self.client.push(stages.client_us);
        self.total.push(stages.total_us);
        self.presented = self.presented.saturating_add(1);
        Some(stages)
    }

    fn drop_frame(&mut self, frame_id: u64)
        requires
            old(self).wf(),
        ensures
            final(self).wf(),
            final(self)@ == old(self)@.after_drop(frame_id),
    {
        broadcast use vstd::std_specs::btree::group_btree_axioms;
        broadcast use vstd::laws_cmp::group_laws_cmp;

        let ghost before = self@;
        match self.in_flight.remove(&frame_id) {
            None => {
                assert(self.in_flight@ =~= before.in_flight);
            },
            Some(_) => {
                self.dropped = self.dropped.saturating_add(1);
                assert(self.in_flight@ =~= before.in_flight.remove(frame_id));
            },
        }
    }
}

/// Whether some ids are in ascending order, each once.
pub open spec fn is_ascending(ids: Seq<u32>) -> bool {
    forall|i: int, j: int| 0 <= i < j < ids.len() ==> ids[i] < ids[j]
}

/// Whether some ids are a set's, in ascending order.
pub open spec fn is_order(keys: Set<u32>, ids: Seq<u32>) -> bool {
    is_ascending(ids) && ids.to_set() == keys
}

/// The ids of a set, in ascending order.
pub open spec fn in_order(keys: Set<u32>) -> Seq<u32> {
    choose|ids: Seq<u32>| is_order(keys, ids)
}

/// There is one ascending order.
proof fn lemma_order_is_unique(a: Seq<u32>, b: Seq<u32>)
    requires
        is_ascending(a),
        is_ascending(b),
        a.to_set() == b.to_set(),
    ensures
        a == b,
    decreases a.len(),
{
    a.unique_seq_to_set();
    b.unique_seq_to_set();
    if a.len() == 0 {
        assert(a =~= b);
    } else {
        let (x, y) = (a.last(), b.last());
        assert(b.to_set().contains(x) && a.to_set().contains(y));
        let i = choose|i: int| 0 <= i < b.len() && b[i] == x;
        let j = choose|j: int| 0 <= j < a.len() && a[j] == y;
        assert(x == y);
        let (c, d) = (a.drop_last(), b.drop_last());
        assert forall|id: u32| c.to_set().contains(id) <==> d.to_set().contains(id) by {
            assert(c.to_set().contains(id) ==> a.to_set().contains(id));
            assert(d.to_set().contains(id) ==> b.to_set().contains(id));
            if c.to_set().contains(id) {
                let k = choose|k: int| 0 <= k < b.len() && b[k] == id;
                assert(d[k] == id);
            }
            if d.to_set().contains(id) {
                let k = choose|k: int| 0 <= k < a.len() && a[k] == id;
                assert(c[k] == id);
            }
        }
        assert(c.to_set() =~= d.to_set());
        lemma_order_is_unique(c, d);
        assert(a =~= c.push(x));
        assert(b =~= d.push(y));
    }
}

/// Keys in increasing order are numbers in increasing order.
proof fn lemma_increasing_frames(keys: Seq<&u64>)
    requires
        vstd::std_specs::btree::increasing_seq(keys),
    ensures
        forall|i: int, j: int| 0 <= i < j < keys.len() ==> *keys[i] < *keys[j],
{
    broadcast use vstd::std_specs::btree::group_btree_axioms;
    broadcast use vstd::laws_cmp::group_laws_cmp;
    assert(vstd::laws_cmp::obeys_cmp::<u64>());
    assert(vstd::laws_cmp::obeys_cmp::<&u64>());
    assert forall|i: int, j: int| 0 <= i < j < keys.len() implies *keys[i] < *keys[j] by {
        assert(vstd::std_specs::cmp::OrdSpec::cmp_spec(&keys[i], &keys[j]) is Less);
    }
}

/// The first key of a map, which is its smallest.
fn oldest<V>(map: &BTreeMap<u64, V>) -> (r: Option<u64>)
    ensures
        match r {
            None => map@.dom() == Set::<u64>::empty(),
            Some(k) => map@.contains_key(k) && forall|other: u64|
                map@.contains_key(other) ==> k <= other,
        },
{
    broadcast use vstd::std_specs::btree::group_btree_axioms;
    broadcast use vstd::laws_cmp::group_laws_cmp;
    for k in iter: map.keys()
        invariant
            iter.index() == 0,
            iter.seq().unref().to_set() == map@.dom(),
            vstd::std_specs::btree::increasing_seq(iter.seq()),
    {
        proof {
            let all = iter.seq();
            lemma_increasing_frames(all);
            assert(all.unref()[0] == *k);
            assert forall|other: u64| map@.contains_key(other) implies *k <= other by {
                let i = choose|i: int| 0 <= i < all.unref().len() && all.unref()[i] == other;
                assert(*all[i] == other);
            }
        }
        return Some(*k);
    }
    None
}

/// Keys in increasing order are window ids in increasing order.
proof fn lemma_increasing_windows(keys: Seq<&u32>)
    requires
        vstd::std_specs::btree::increasing_seq(keys),
    ensures
        forall|i: int, j: int| 0 <= i < j < keys.len() ==> *keys[i] < *keys[j],
{
    broadcast use vstd::std_specs::btree::group_btree_axioms;
    broadcast use vstd::laws_cmp::group_laws_cmp;

    assert(vstd::laws_cmp::obeys_cmp::<u32>());
    assert(vstd::laws_cmp::obeys_cmp::<&u32>());
    assert forall|i: int, j: int| 0 <= i < j < keys.len() implies *keys[i] < *keys[j] by {
        assert(vstd::std_specs::cmp::OrdSpec::cmp_spec(&keys[i], &keys[j]) is Less);
    }
}

/// The keys of a map, in ascending order.
fn window_ids<V>(map: &BTreeMap<u32, V>) -> (r: Vec<u32>)
    ensures
        is_ascending(r@),
        r@.to_set() == map@.dom(),
{
    broadcast use vstd::std_specs::btree::group_btree_axioms;
    broadcast use vstd::laws_cmp::group_laws_cmp;

    let mut ids: Vec<u32> = Vec::new();
    for k in iter: map.keys()
        invariant
            iter.seq().unref().to_set() == map@.dom(),
            vstd::std_specs::btree::increasing_seq(iter.seq()),
            ids@ == iter.seq().unref().take(iter.index()),
    {
        ids.push(*k);
        assert(ids@ =~= iter.seq().unref().take(iter.index() + 1));
    }
    proof {
        let all = vstd::std_specs::iter::IteratorSpec::remaining(&map.keys());
        lemma_increasing_windows(all);
        assert(ids@ =~= all.unref());
        assert forall|i: int, j: int| 0 <= i < j < ids@.len() implies ids@[i] < ids@[j] by {
            assert(ids@[i] == *all[i]);
            assert(ids@[j] == *all[j]);
        }
    }
    ids
}

/// What a [`LatencyMonitor`] holds.
pub struct LatencyView {
    /// Whether anything is being recorded.
    pub enabled: bool,
    /// The accounting of each window.
    pub windows: Map<u32, WindowView>,
}

impl LatencyView {
    /// Whether any window has completed frames to report on.
    pub open spec fn has_samples(self) -> bool {
        exists|id: u32| #[trigger]
            self.windows.contains_key(id) && self.windows[id].total.len() > 0
    }

    /// A window's accounting, which starts empty.
    pub open spec fn of(self, window_id: u32) -> WindowView {
        if self.windows.contains_key(window_id) {
            self.windows[window_id]
        } else {
            WindowView::fresh()
        }
    }

    /// Whether a frame is in flight.
    pub open spec fn awaits(self, window_id: u32, frame_id: u64) -> bool {
        self.windows.contains_key(window_id) && self.windows[window_id].in_flight.contains_key(
            frame_id,
        )
    }

    /// With another accounting for a window that is being recorded.
    pub open spec fn with(self, window_id: u32, window: WindowView) -> LatencyView {
        if self.enabled && self.windows.contains_key(window_id) {
            LatencyView { windows: self.windows.insert(window_id, window), ..self }
        } else {
            self
        }
    }

    /// After a frame was read off the wire.
    pub open spec fn after_arrival(self, window_id: u32, frame_id: u64, partial: Partial) -> LatencyView {
        if self.enabled {
            LatencyView {
                windows: self.windows.insert(
                    window_id,
                    self.of(window_id).after_arrival(frame_id, partial),
                ),
                ..self
            }
        } else {
            self
        }
    }

    /// After a decode worker finished with a frame.
    pub open spec fn after_decode(self, window_id: u32, frame_id: u64, decoded_us: u64) -> LatencyView {
        self.with(window_id, self.of(window_id).after_decode(frame_id, decoded_us))
    }

    /// The stages of a frame that reached a surface, if it is being followed.
    pub open spec fn presented(
        self,
        window_id: u32,
        frame_id: u64,
        presented_us: u64,
        offset_us: i64,
    ) -> Option<FrameStages> {
        if self.enabled && self.awaits(window_id, frame_id) {
            Some(self.windows[window_id].in_flight[frame_id].stages(presented_us, offset_us))
        } else {
            None
        }
    }

    /// After a frame reached a surface.
    pub open spec fn after_present(
        self,
        window_id: u32,
        frame_id: u64,
        presented_us: u64,
        offset_us: i64,
    ) -> LatencyView {
        match self.presented(window_id, frame_id, presented_us, offset_us) {
            None => self,
            Some(stages) => self.with(
                window_id,
                self.of(window_id).after_present(frame_id, stages),
            ),
        }
    }

    /// After a frame was decoded to nothing, or failed.
    pub open spec fn after_drop(self, window_id: u32, frame_id: u64) -> LatencyView {
        self.with(window_id, self.of(window_id).after_drop(frame_id))
    }

    /// After a window was forgotten.
    pub open spec fn after_forget(self, window_id: u32) -> LatencyView {
        LatencyView { windows: self.windows.remove(window_id), ..self }
    }

    /// After a call.
    pub open spec fn after(self, call: LatencyCall) -> LatencyView {
        match call {
            LatencyCall::Arrival { window_id, frame_id, partial } => self.after_arrival(
                window_id,
                frame_id,
                partial,
            ),
            LatencyCall::Decoded { window_id, frame_id, decoded_us } => self.after_decode(
                window_id,
                frame_id,
                decoded_us,
            ),
            LatencyCall::Presented { window_id, frame_id, presented_us, offset_us } =>
            self.after_present(window_id, frame_id, presented_us, offset_us),
            LatencyCall::Dropped { window_id, frame_id } => self.after_drop(window_id, frame_id),
            LatencyCall::Forget { window_id } => self.after_forget(window_id),
        }
    }

    /// After some calls, one after the other.
    pub open spec fn after_all(self, calls: Seq<LatencyCall>) -> LatencyView
        decreases calls.len(),
    {
        if calls.len() == 0 {
            self
        } else {
            self.after_all(calls.drop_last()).after(calls.last())
        }
    }

    /// Whether a call presents a frame of a window that is being followed.
    pub open spec fn presents(self, call: LatencyCall, id: u32) -> bool {
        call matches LatencyCall::Presented { window_id, frame_id, presented_us, offset_us }
            && window_id == id && self.presented(window_id, frame_id, presented_us, offset_us)
            is Some
    }
}

/// A call of a [`LatencyMonitor`].
pub enum LatencyCall {
    /// See [`LatencyMonitor::on_arrival`].
    Arrival {
        /// Window the frame belongs to.
        window_id: u32,
        /// The frame.
        frame_id: u64,
        /// What is known of it.
        partial: Partial,
    },
    /// See [`LatencyMonitor::on_decoded`].
    Decoded {
        /// Window the frame belongs to.
        window_id: u32,
        /// The frame.
        frame_id: u64,
        /// When it was decoded.
        decoded_us: u64,
    },
    /// See [`LatencyMonitor::on_presented`].
    Presented {
        /// Window the frame belongs to.
        window_id: u32,
        /// The frame.
        frame_id: u64,
        /// When it was presented.
        presented_us: u64,
        /// How far ahead the agent's clock is.
        offset_us: i64,
    },
    /// See [`LatencyMonitor::on_dropped`].
    Dropped {
        /// Window the frame belongs to.
        window_id: u32,
        /// The frame.
        frame_id: u64,
    },
    /// See [`LatencyMonitor::forget`].
    Forget {
        /// The window.
        window_id: u32,
    },
}

/// Per-window latency accounting, fed from the three points a frame passes through.
///
/// Disabled unless asked for: [`LatencyMonitor::is_enabled`] is checked before any work, so a
/// session that is not measuring pays a branch per frame and nothing else. Its counters stop at
/// the end of their range.
#[derive(Debug)]
pub struct LatencyMonitor {
    windows: BTreeMap<u32, WindowLatency>,
    enabled: bool,
}

impl View for LatencyMonitor {
    type V = LatencyView;

    closed spec fn view(&self) -> LatencyView {
        LatencyView {
            enabled: self.enabled,
            windows: self.windows@.map_values(|window: WindowLatency| window@),
        }
    }
}

impl Default for LatencyMonitor {
    fn default() -> (r: Self)
        ensures
            r@ == (LatencyView { enabled: false, windows: Map::empty() }),
    {
        Self::disabled()
    }
}

impl LatencyMonitor {
    #[verifier::type_invariant]
    spec fn inv(self) -> bool {
        forall|id: u32| #[trigger] self.windows@.contains_key(id) ==> self.windows@[id].wf()
    }

    /// A monitor that records nothing.
    pub fn disabled() -> (r: Self)
        ensures
            r@ == (LatencyView { enabled: false, windows: Map::empty() }),
    {
        let r = LatencyMonitor { windows: BTreeMap::new(), enabled: false };
        assert(r@.windows =~= Map::empty());
        r
    }

    /// A monitor that records.
    pub fn enabled() -> (r: Self)
        ensures
            r@ == (LatencyView { enabled: true, windows: Map::empty() }),
    {
        let r = LatencyMonitor { windows: BTreeMap::new(), enabled: true };
        assert(r@.windows =~= Map::empty());
        r
    }

    /// Whether anything is being recorded.
    pub fn is_enabled(&self) -> (r: bool)
        ensures
            r == self@.enabled,
    {
        self.enabled
    }

    /// One window's accounting.
    pub fn window(&self, window_id: u32) -> (r: Option<&WindowLatency>)
        ensures
            match r {
                None => !self@.windows.contains_key(window_id),
                Some(window) => {
                    &&& self@.windows.contains_key(window_id)
                    &&& window@ == self@.windows[window_id]
                    &&& window@.bounded()
                },
            },
    {
        broadcast use vstd::std_specs::btree::group_btree_axioms;
        broadcast use vstd::laws_cmp::group_laws_cmp;

        proof {
            use_type_invariant(self);
        }
        self.windows.get(&window_id)
    }

    /// Takes a window's accounting out, to be put back.
    fn take_window(&mut self, window_id: u32) -> (r: Option<WindowLatency>)
        ensures
            final(self)@.enabled == old(self)@.enabled,
            final(self)@.windows == old(self)@.windows.remove(window_id),
            match r {
                None => !old(self)@.windows.contains_key(window_id),
                Some(window) => {
                    &&& old(self)@.windows.contains_key(window_id)
                    &&& window@ == old(self)@.windows[window_id]
                    &&& window.wf()
                },
            },
    {
        broadcast use vstd::std_specs::btree::group_btree_axioms;
        broadcast use vstd::laws_cmp::group_laws_cmp;

        proof {
            use_type_invariant(&*self);
        }
        let mut windows: BTreeMap<u32, WindowLatency> = BTreeMap::new();
        std::mem::swap(&mut self.windows, &mut windows);
        let window = windows.remove(&window_id);
        self.windows = windows;
        assert(self@.windows =~= old(self)@.windows.remove(window_id));
        window
    }

    /// Puts a window's accounting in.
    fn put_window(&mut self, window_id: u32, window: WindowLatency)
        requires
            window.wf(),
        ensures
            final(self)@.enabled == old(self)@.enabled,
            final(self)@.windows == old(self)@.windows.insert(window_id, window@),
    {
        broadcast use vstd::std_specs::btree::group_btree_axioms;
        broadcast use vstd::laws_cmp::group_laws_cmp;

        proof {
            use_type_invariant(&*self);
        }
        let mut windows: BTreeMap<u32, WindowLatency> = BTreeMap::new();
        std::mem::swap(&mut self.windows, &mut windows);
        windows.insert(window_id, window);
        self.windows = windows;
        assert(self@.windows =~= old(self)@.windows.insert(window_id, window@));
    }

    /// A frame has been read off the wire, carrying the agent's own two timestamps.
    pub fn on_arrival(
        &mut self,
        window_id: u32,
        frame_id: u64,
        captured_us: u64,
        encoded_us: u64,
        arrived_us: u64,
    )
        ensures
            final(self)@ == old(self)@.after_arrival(
                window_id,
                frame_id,
                Partial { captured_us, encoded_us, arrived_us, decoded_us: None },
            ),
    {
        if !self.enabled {
            return;
        }
        let mut window = match self.take_window(window_id) {
            Some(window) => window,
            None => WindowLatency::new(),
        };
        window.arrive(
            frame_id,
            Partial { captured_us, encoded_us, arrived_us, decoded_us: None },
        );
        self.put_window(window_id, window);
        assert(self@.windows =~= old(self)@.windows.insert(window_id, window@));
    }

    /// A decode worker finished with a frame.
    pub fn on_decoded(&mut self, window_id: u32, frame_id: u64, decoded_us: u64)
        ensures
            final(self)@ == old(self)@.after_decode(window_id, frame_id, decoded_us),
    {
        if !self.enabled {
            return;
        }
        match self.take_window(window_id) {
            None => {
                assert(self@.windows =~= old(self)@.windows);
            },
            Some(mut window) => {
                window.decode(frame_id, decoded_us);
                self.put_window(window_id, window);
                assert(self@.windows =~= old(self)@.windows.insert(window_id, window@));
            },
        }
    }

    /// A frame reached a surface. Returns its stages, or `None` if it was never seen arriving,
    /// which happens for frames that were evicted, or when measuring started mid-stream.
    ///
    /// `offset_us` is the agent clock minus the client clock, from the ping/pong estimate.
    pub fn on_presented(
        &mut self,
        window_id: u32,
        frame_id: u64,
        presented_us: u64,
        offset_us: i64,
    ) -> (r: Option<FrameStages>)
        ensures
            r == old(self)@.presented(window_id, frame_id, presented_us, offset_us),
            final(self)@ == old(self)@.after_present(window_id, frame_id, presented_us, offset_us),
    {
        if !self.enabled {
            return None;
        }
        match self.take_window(window_id) {
            None => {
                assert(self@.windows =~= old(self)@.windows);
                None
            },
            Some(mut window) => {
                let stages = window.present(frame_id, presented_us, offset_us);
                self.put_window(window_id, window);
                assert(self@.windows =~= old(self)@.windows.insert(window_id, window@));
                assert(stages is None ==> self@.windows =~= old(self)@.windows);
                stages
            },
        }
    }

    /// A frame was decoded to nothing, or failed. It will never be presented.
    pub fn on_dropped(&mut self, window_id: u32, frame_id: u64)
        ensures
            final(self)@ == old(self)@.after_drop(window_id, frame_id),
    {
        if !self.enabled {
            return;
        }
        match self.take_window(window_id) {
            None => {
                assert(self@.windows =~= old(self)@.windows);
            },
            Some(mut window) => {
                window.drop_frame(frame_id);
                self.put_window(window_id, window);
                assert(self@.windows =~= old(self)@.windows.insert(window_id, window@));
            },
        }
    }

    /// Stop tracking a window.
    pub fn forget(&mut self, window_id: u32)
        ensures
            final(self)@ == old(self)@.after_forget(window_id),
    {
        self.take_window(window_id);
    }

    /// Whether any window has completed frames to report on.
    pub fn has_samples(&self) -> (r: bool)
        ensures
            r == self@.has_samples(),
    {
        let ids = window_ids(&self.windows);
        assert(ids@.to_set() == self@.windows.dom());
        let mut i: usize = 0;
        while i < ids.len()
            invariant
                i <= ids.len(),
                ids@.to_set() == self@.windows.dom(),
                forall|j: int|
                    0 <= j < i ==> self@.windows[#[trigger] ids@[j]].total.len() == 0,
            decreases ids.len() - i,
        {
            assert(ids@.to_set().contains(ids@[i as int]));
            match self.window(ids[i]) {
                None => {
                    assert(false);
                },
                Some(window) => {
                    if !window.total.is_empty() {
                        return true;
                    }
                },
            }
            i = i + 1;
        }
        proof {
            assert forall|id: u32| #[trigger] self@.windows.contains_key(id) implies self@.windows[
            id].total.len() == 0 by {
                assert(ids@.to_set().contains(id));
                let j = choose|j: int| 0 <= j < ids@.len() && ids@[j] == id;
                assert(self@.windows[ids@[j]].total.len() == 0);
            }
        }
        false
    }

    /// A human-readable report, one block per window.
    ///
    /// The round trip and the offset are printed alongside because they are what the reader needs
    /// in order to know how much of the end-to-end figure to believe.
    pub fn report(&self, rtt: Option<u64>, offset_us: Option<i64>) -> (r: String)
        ensures
            r@ == report_text(self@, rtt, offset_us),
    {
        let mut out = "oxclient latency: capture-to-present, microseconds\n".to_owned();
        push_clock_line(&mut out, rtt, offset_us);
        let ghost opening = out@;
        let ids = window_ids(&self.windows);
        assert(ids@.to_set() == self@.windows.dom());
        proof {
            assert(is_order(self@.windows.dom(), ids@));
            lemma_order_is_unique(ids@, in_order(self@.windows.dom()));
        }
        let mut i: usize = 0;
        assert(ids@.take(0) =~= Seq::<u32>::empty());
        assert(out@ =~= opening + window_blocks(self@.windows, ids@.take(0)));
        while i < ids.len()
            invariant
                i <= ids.len(),
                ids@.to_set() == self@.windows.dom(),
                out@ == opening + window_blocks(self@.windows, ids@.take(i as int)),
            decreases ids.len() - i,
        {
            assert(ids@.to_set().contains(ids@[i as int]));
            let ghost next = ids@.take(i + 1);
            assert(next.drop_last() =~= ids@.take(i as int));
            match self.window(ids[i]) {
                None => {
                    assert(false);
                },
                Some(window) => {
                    if !window.total.is_empty() {
                        push_block(&mut out, ids[i], window);
                    }
                },
            }
            assert(out@ =~= opening + window_blocks(self@.windows, next));
            i = i + 1;
        }
        assert(ids@.take(ids@.len() as int) =~= ids@);
        out
    }
}

/// The report on everything that was recorded: the clocks, and a block per window, in ascending
/// order of the windows' ids.
pub open spec fn report_text(
    monitor: LatencyView,
    rtt: Option<u64>,
    offset_us: Option<i64>,
) -> Seq<char> {
    "oxclient latency: capture-to-present, microseconds\n"@ + clock_line(rtt, offset_us)
        + window_blocks(monitor.windows, in_order(monitor.windows.dom()))
}

/// The line of a report that says how far the two clocks are known to agree.
pub open spec fn clock_line(rtt: Option<u64>, offset_us: Option<i64>) -> Seq<char> {
    match (rtt, offset_us) {
        (Some(rtt), Some(offset)) => "  clock: round trip "@ + text::decimal(rtt as nat)
            + " us, agent offset "@ + text::signed(offset as int)
            + " us, so the cross-clock stages are good to about +/-"@ + text::decimal(
            (rtt / 2) as nat,
        ) + " us\n"@,
        _ =>
            "  clock: no pong yet, so the agent's timestamps cannot be placed on this clock; only the client-only stages below are meaningful\n"@,
    }
}

fn push_clock_line(out: &mut String, rtt: Option<u64>, offset_us: Option<i64>)
    ensures
        final(out)@ == old(out)@ + clock_line(rtt, offset_us),
{
    match (rtt, offset_us) {
        (Some(rtt), Some(offset)) => {
            text::push_str(out, "  clock: round trip ");
            text::push_decimal(out, rtt);
            text::push_str(out, " us, agent offset ");
            text::push_signed(out, offset);
            text::push_str(out, " us, so the cross-clock stages are good to about +/-");
            text::push_decimal(out, rtt / 2);
            text::push_str(out, " us\n");
        },
        _ => {
            text::push_str(
                out,
                "  clock: no pong yet, so the agent's timestamps cannot be placed on this clock; only the client-only stages below are meaningful\n",
            );
        },
    }
    assert(out@ =~= old(out)@ + clock_line(rtt, offset_us));
}

/// The value at a percentile of some samples.
pub open spec fn percentile_of(samples: Seq<u64>, p: u8) -> Option<u64> {
    if samples.len() == 0 {
        None
    } else {
        Some(latency::ascending(samples)[latency::nearest_rank(p, samples.len()) - 1])
    }
}

/// Whether `m` is the largest of some samples.
pub open spec fn is_largest(samples: Seq<u64>, m: u64) -> bool {
    samples.contains(m) && forall|i: int| 0 <= i < samples.len() ==> m >= #[trigger] samples[i]
}

/// The largest of some samples.
pub open spec fn largest_of(samples: Seq<u64>) -> Option<u64> {
    if samples.len() == 0 {
        None
    } else {
        Some(choose|m: u64| is_largest(samples, m))
    }
}

/// A figure, right-aligned in eight columns, or a dash where there is none.
pub open spec fn column(value: Option<u64>) -> Seq<char> {
    text::right_aligned(
        match value {
            None => "-"@,
            Some(v) => text::decimal(v as nat),
        },
        8,
    )
}

/// One line of a report.
pub open spec fn stage_line(label: Seq<char>, samples: Seq<u64>, exact: bool) -> Seq<char> {
    "    "@ + label + " p50 "@ + column(percentile_of(samples, 50)) + "  p95 "@ + column(
        percentile_of(samples, 95),
    ) + "  p99 "@ + column(percentile_of(samples, 99)) + "  max "@ + column(largest_of(samples)) + (
    if exact {
        ""@
    } else {
        "   (+/- clock error)"@
    }) + "\n"@
}

fn push_column(out: &mut String, value: Option<u64>)
    ensures
        final(out)@ == old(out)@ + column(value),
{
    match value {
        None => text::push_right_aligned(out, "-", 8),
        Some(v) => {
            let shown = text::decimal_text(v);
            text::push_right_aligned(out, shown.as_str(), 8);
        },
    }
}

fn push_stage_line(out: &mut String, label: &str, samples: &Samples, exact: bool)
    ensures
        final(out)@ == old(out)@ + stage_line(label@, samples@, exact),
{
    let mut line = "    ".to_owned();
    text::push_str(&mut line, label);
    text::push_str(&mut line, " p50 ");
    push_column(&mut line, samples.percentile(50));
    text::push_str(&mut line, "  p95 ");
    push_column(&mut line, samples.percentile(95));
    text::push_str(&mut line, "  p99 ");
    push_column(&mut line, samples.percentile(99));
    text::push_str(&mut line, "  max ");
    let largest = samples.max();
    proof {
        if let Some(m) = largest {
            assert(is_largest(samples@, m));
            let other = choose|other: u64| is_largest(samples@, other);
            assert(is_largest(samples@, other));
            let i = choose|i: int| 0 <= i < samples@.len() && samples@[i] == m;
            let j = choose|j: int| 0 <= j < samples@.len() && samples@[j] == other;
            assert(other >= samples@[i]);
            assert(m >= samples@[j]);
        }
        assert(largest == largest_of(samples@));
    }
    push_column(&mut line, largest);
    if exact {
        text::push_str(&mut line, "");
    } else {
        text::push_str(&mut line, "   (+/- clock error)");
    }
    text::push_str(&mut line, "\n");
    text::push_str(out, line.as_str());
}

/// The block of a report for one window.
#[verifier::opaque]
pub open spec fn window_block(window_id: u32, window: WindowView) -> Seq<char> {
    "  window "@ + text::decimal(window_id as nat) + ": "@ + text::decimal(window.presented as nat)
        + " presented, "@ + text::decimal(window.dropped as nat) + " never presented\n"@
        + stage_line("capture->encode "@, window.capture_to_encode, true)
        + stage_line("encode->arrival "@, window.encode_to_arrival, false)
        + stage_line("arrival->decode "@, window.arrival_to_decode, true)
        + stage_line("decode->present "@, window.decode_to_present, true)
        + stage_line("client total    "@, window.client, true)
        + stage_line("END TO END      "@, window.total, false)
}

fn push_block(out: &mut String, window_id: u32, window: &WindowLatency)
    ensures
        final(out)@ == old(out)@ + window_block(window_id, window@),
{
    reveal(window_block);
    let mut block = "  window ".to_owned();
    text::push_decimal(&mut block, window_id as u64);
    text::push_str(&mut block, ": ");
    text::push_decimal(&mut block, window.presented);
    text::push_str(&mut block, " presented, ");
    text::push_decimal(&mut block, window.dropped);
    text::push_str(&mut block, " never presented\n");
    push_stage_line(&mut block, "capture->encode ", &window.capture_to_encode, true);
    push_stage_line(&mut block, "encode->arrival ", &window.encode_to_arrival, false);
    push_stage_line(&mut block, "arrival->decode ", &window.arrival_to_decode, true);
    push_stage_line(&mut block, "decode->present ", &window.decode_to_present, true);
    push_stage_line(&mut block, "client total    ", &window.client, true);
    push_stage_line(&mut block, "END TO END      ", &window.total, false);
    text::push_str(out, block.as_str());
}

/// The blocks of a report for some windows that have completed frames.
pub open spec fn window_blocks(windows: Map<u32, WindowView>, ids: Seq<u32>) -> Seq<char>
    decreases ids.len(),
{
    if ids.len() == 0 {
        Seq::empty()
    } else {
        let window = windows[ids.last()];
        window_blocks(windows, ids.drop_last()) + if window.total.len() == 0 {
            Seq::empty()
        } else {
            window_block(ids.last(), window)
        }
    }
}

/// The four stages account for the whole of the end-to-end figure, for a frame whose journey is
/// in order on the client's clock.
pub proof fn law_stages_account_for_the_journey(
    partial: Partial,
    presented_us: u64,
    offset_us: i64,
)
    requires
        offset_us <= partial.captured_us <= partial.encoded_us <= u64::MAX + offset_us,
        partial.encoded_us - offset_us <= partial.arrived_us <= partial.decoded() <= presented_us,
    ensures
        ({
            let stages = partial.stages(presented_us, offset_us);
            &&& stages.total_us == stages.capture_to_encode_us + stages.encode_to_arrival_us
                + stages.arrival_to_decode_us + stages.decode_to_present_us
            &&& stages.client_us == stages.arrival_to_decode_us + stages.decode_to_present_us
        }),
{
}

/// A wrong offset does not touch what was measured with one clock: only the stage that spans both
/// clocks, and the total, move with the estimate.
pub proof fn law_one_clock_stages_ignore_the_offset(
    partial: Partial,
    presented_us: u64,
    one: i64,
    another: i64,
)
    ensures
        ({
            let a = partial.stages(presented_us, one);
            let b = partial.stages(presented_us, another);
            &&& a.capture_to_encode_us == b.capture_to_encode_us
            &&& a.arrival_to_decode_us == b.arrival_to_decode_us
            &&& a.decode_to_present_us == b.decode_to_present_us
            &&& a.client_us == b.client_us
        }),
{
}

/// A disabled monitor records nothing.
pub proof fn law_disabled_monitors_record_nothing(
    monitor: LatencyView,
    window_id: u32,
    frame_id: u64,
    partial: Partial,
    at_us: u64,
    offset_us: i64,
)
    requires
        !monitor.enabled,
    ensures
        monitor.after_arrival(window_id, frame_id, partial) == monitor,
        monitor.after_decode(window_id, frame_id, at_us) == monitor,
        monitor.presented(window_id, frame_id, at_us, offset_us) is None,
        monitor.after_present(window_id, frame_id, at_us, offset_us) == monitor,
        monitor.after_drop(window_id, frame_id) == monitor,
{
}

/// However many frames never complete, no more than [`MAX_IN_FLIGHT`] are held, and every frame
/// that is let go of is counted.
pub proof fn law_unfinished_frames_are_bounded(
    window: WindowView,
    frame_id: u64,
    partial: Partial,
)
    requires
        window.bounded(),
        !window.in_flight.contains_key(frame_id),
        window.dropped < u64::MAX,
    ensures
        ({
            let after = window.after_arrival(frame_id, partial);
            &&& after.bounded()
            &&& after.in_flight.dom().len() + after.dropped == window.in_flight.dom().len()
                + window.dropped + 1
        }),
{
    let held = window.in_flight.insert(frame_id, partial);
    assert(held.dom().len() == window.in_flight.dom().len() + 1);
    if held.dom().len() > MAX_IN_FLIGHT {
        lemma_oldest_exists(held.dom());
        assert(is_oldest(held.dom(), oldest_of(held.dom())));
        assert(held.remove(oldest_of(held.dom())).dom() =~= held.dom().remove(
            oldest_of(held.dom()),
        ));
    }
}

/// Some frame ids, if there are any, have a smallest.
proof fn lemma_oldest_exists(ids: Set<u64>)
    requires
        ids.finite(),
        ids.len() > 0,
    ensures
        exists|id: u64| is_oldest(ids, id),
    decreases ids.len(),
{
    let id = ids.choose();
    assert(ids.contains(id));
    let rest = ids.remove(id);
    if rest.len() == 0 {
        assert(rest =~= Set::empty());
        assert forall|other: u64| ids.contains(other) implies id <= other by {
            assert(!rest.contains(other));
        }
        assert(is_oldest(ids, id));
    } else {
        lemma_oldest_exists(rest);
        let low = choose|low: u64| is_oldest(rest, low);
        let smallest = if id < low {
            id
        } else {
            low
        };
        assert forall|other: u64| ids.contains(other) implies smallest <= other by {
            assert(other == id || rest.contains(other));
        }
        assert(is_oldest(ids, smallest));
    }
}

/// A frame that was never seen arriving, or that was reported as dropped, is not invented when
/// it is said to be presented.
pub proof fn law_unseen_frames_are_not_invented(
    monitor: LatencyView,
    window_id: u32,
    frame_id: u64,
    presented_us: u64,
    offset_us: i64,
)
    ensures
        !monitor.awaits(window_id, frame_id) ==> monitor.presented(
            window_id,
            frame_id,
            presented_us,
            offset_us,
        ) is None && monitor.after_present(window_id, frame_id, presented_us, offset_us)
            == monitor,
        monitor.enabled ==> !monitor.after_drop(window_id, frame_id).awaits(window_id, frame_id),
{
}

/// Windows are accounted separately: nothing that happens to a frame of one window changes what
/// is known of another.
pub proof fn law_windows_are_accounted_apart(
    monitor: LatencyView,
    window_id: u32,
    frame_id: u64,
    partial: Partial,
    at_us: u64,
    offset_us: i64,
    other: u32,
)
    requires
        other != window_id,
    ensures
        monitor.after_arrival(window_id, frame_id, partial).of(other) == monitor.of(other),
        monitor.after_decode(window_id, frame_id, at_us).of(other) == monitor.of(other),
        monitor.after_present(window_id, frame_id, at_us, offset_us).of(other) == monitor.of(other),
        monitor.after_drop(window_id, frame_id).of(other) == monitor.of(other),
{
}

/// A monitor that has seen nothing.
pub open spec fn unused(enabled: bool) -> LatencyView {
    LatencyView { enabled, windows: Map::empty() }
}

/// Whether call `k` presented a frame of a window that was not forgotten since.
pub open spec fn presented_at(enabled: bool, calls: Seq<LatencyCall>, id: u32, k: int) -> bool {
    &&& 0 <= k < calls.len()
    &&& unused(enabled).after_all(calls.take(k)).presents(calls[k], id)
    &&& forall|j: int|
        k < j < calls.len() ==> (#[trigger] calls[j]) != (LatencyCall::Forget { window_id: id })
}

/// A window has samples exactly when a frame of it was presented since it was forgotten.
proof fn lemma_samples_of(enabled: bool, calls: Seq<LatencyCall>, id: u32)
    ensures
        ({
            let m = unused(enabled).after_all(calls);
            &&& m.enabled == enabled
            &&& m.windows.contains_key(id) && m.windows[id].total.len() > 0 <==> exists|k: int|
                presented_at(enabled, calls, id, k)
        }),
    decreases calls.len(),
{
    let m = unused(enabled).after_all(calls);
    if calls.len() > 0 {
        let less = calls.drop_last();
        let before = unused(enabled).after_all(less);
        let last = calls.len() - 1;
        let call = calls.last();
        lemma_samples_of(enabled, less, id);
        assert(calls.take(last) =~= less);
        assert forall|k: int| 0 <= k < last implies (#[trigger] presented_at(
            enabled,
            calls,
            id,
            k,
        ) <==> presented_at(enabled, less, id, k) && call != (LatencyCall::Forget {
            window_id: id,
        })) by {
            assert(calls.take(k) =~= less.take(k));
            if presented_at(enabled, calls, id, k) {
                assert forall|j: int| k < j < less.len() implies (#[trigger] less[j]) != (
                LatencyCall::Forget { window_id: id }) by {
                    assert(calls[j] == less[j]);
                }
            }
            if presented_at(enabled, less, id, k) && call != (LatencyCall::Forget {
                window_id: id,
            }) {
                assert forall|j: int| k < j < calls.len() implies (#[trigger] calls[j]) != (
                LatencyCall::Forget { window_id: id }) by {
                    if j < last {
                        assert(calls[j] == less[j]);
                    }
                }
            }
        }
        assert(presented_at(enabled, calls, id, last) <==> before.presents(call, id));
        let had = before.windows.contains_key(id) && before.windows[id].total.len() > 0;
        let has = m.windows.contains_key(id) && m.windows[id].total.len() > 0;
        assert(has <==> before.presents(call, id) || (had && call != (LatencyCall::Forget {
            window_id: id,
        }))) by {
            match call {
                LatencyCall::Presented { window_id, .. } => {
                    if window_id == id && before.presents(call, id) {
                        assert(m.windows[id].total.len() > 0);
                    }
                },
                _ => {},
            }
        }
        if has {
            if before.presents(call, id) {
                assert(presented_at(enabled, calls, id, last));
            } else {
                let k = choose|k: int| presented_at(enabled, less, id, k);
                assert(presented_at(enabled, calls, id, k));
            }
        }
        if exists|k: int| presented_at(enabled, calls, id, k) {
            let k = choose|k: int| presented_at(enabled, calls, id, k);
            if k < last {
                assert(presented_at(enabled, less, id, k));
            }
        }
    }
}

/// Whatever a monitor was told, there are samples exactly when for some window a presented frame
/// was accounted for since that window was last forgotten. A disabled monitor never has any.
pub proof fn law_samples_come_from_presented_frames(enabled: bool, calls: Seq<LatencyCall>)
    ensures
        unused(enabled).after_all(calls).has_samples() <==> exists|id: u32, k: int|
            presented_at(enabled, calls, id, k),
        !enabled ==> !unused(enabled).after_all(calls).has_samples(),
{
    let m = unused(enabled).after_all(calls);
    assert forall|id: u32|
        (#[trigger] m.windows.contains_key(id) && m.windows[id].total.len() > 0) <==> exists|
            k: int,
        |
            presented_at(enabled, calls, id, k) by {
        lemma_samples_of(enabled, calls, id);
    }
    if m.has_samples() {
        let id = choose|id: u32| #[trigger]
            m.windows.contains_key(id) && m.windows[id].total.len() > 0;
        let k = choose|k: int| presented_at(enabled, calls, id, k);
        assert(presented_at(enabled, calls, id, k));
        lemma_samples_of(enabled, calls.take(k), id);
    }
    if exists|id: u32, k: int| presented_at(enabled, calls, id, k) {
        let (id, k) = choose|id: u32, k: int| presented_at(enabled, calls, id, k);
        lemma_samples_of(enabled, calls, id);
        assert(m.windows.contains_key(id));
    }
}

/// A frame that is followed from the wire over the decoder to the screen is measured stage by stage:
/// each stage is the time between its two points, the agent's points set back by as much as the agent
/// is ahead. It is counted, and its stages are the most recent samples of its window.
pub proof fn law_followed_frames_are_measured(
    window_id: u32,
    frame_id: u64,
    captured_us: u64,
    encoded_us: u64,
    arrived_us: u64,
    decoded_us: u64,
    presented_us: u64,
    offset_us: i64,
)
    requires
        captured_us <= encoded_us,
        arrived_us <= decoded_us <= presented_us,
        0 <= captured_us - offset_us <= 0xffff_ffff_ffff_ffff,
        0 <= encoded_us - offset_us <= arrived_us,
    ensures
        forall|
            a: &mut LatencyMonitor,
            b: &mut LatencyMonitor,
            c: &mut LatencyMonitor,
            r: Option<FrameStages>,
        |
            #![trigger call_ensures(LatencyMonitor::on_arrival, (a, window_id, frame_id, captured_us, encoded_us, arrived_us), ()), call_ensures(LatencyMonitor::on_decoded, (b, window_id, frame_id, decoded_us), ()), call_ensures(LatencyMonitor::on_presented, (c, window_id, frame_id, presented_us, offset_us), r)]
            call_ensures(
                LatencyMonitor::on_arrival,
                (a, window_id, frame_id, captured_us, encoded_us, arrived_us),
                (),
            ) && (*b)@ == final(a)@ && call_ensures(
                LatencyMonitor::on_decoded,
                (b, window_id, frame_id, decoded_us),
                (),
            ) && (*c)@ == final(b)@ && call_ensures(
                LatencyMonitor::on_presented,
                (c, window_id, frame_id, presented_us, offset_us),
                r,
            ) && (*a)@.enabled && (*a)@.of(window_id).in_flight.dom().finite() && (*a)@.of(
                window_id,
            ).in_flight.dom().len() < 256 ==> {
                &&& r matches Some(s)
                &&& s.capture_to_encode_us == encoded_us - captured_us
                &&& s.encode_to_arrival_us == arrived_us - (encoded_us - offset_us)
                &&& s.arrival_to_decode_us == decoded_us - arrived_us
                &&& s.decode_to_present_us == presented_us - decoded_us
                &&& s.client_us == presented_us - arrived_us
                &&& s.total_us == presented_us - (captured_us - offset_us)
                &&& final(c)@.windows.contains_key(window_id)
                &&& ({
                    let before = (*a)@.of(window_id);
                    let after = final(c)@.windows[window_id];
                    &&& after.capture_to_encode.last() == s.capture_to_encode_us
                    &&& after.encode_to_arrival.last() == s.encode_to_arrival_us
                    &&& after.arrival_to_decode.last() == s.arrival_to_decode_us
                    &&& after.decode_to_present.last() == s.decode_to_present_us
                    &&& after.client.last() == s.client_us
                    &&& after.total.last() == s.total_us
                    &&& before.total.len() < 2048 ==> after.total.len() == before.total.len() + 1
                    &&& before.total.len() == 2048 ==> after.total.len() == 2048
                    &&& before.presented < 0xffff_ffff_ffff_ffff ==> after.presented
                        == before.presented + 1
                    &&& after.dropped == before.dropped
                    &&& !after.in_flight.contains_key(frame_id)
                })
            },
{
    assert forall|
        a: &mut LatencyMonitor,
        b: &mut LatencyMonitor,
        c: &mut LatencyMonitor,
        r: Option<FrameStages>,
    |
        #![trigger call_ensures(LatencyMonitor::on_arrival, (a, window_id, frame_id, captured_us, encoded_us, arrived_us), ()), call_ensures(LatencyMonitor::on_decoded, (b, window_id, frame_id, decoded_us), ()), call_ensures(LatencyMonitor::on_presented, (c, window_id, frame_id, presented_us, offset_us), r)]
        call_ensures(
            LatencyMonitor::on_arrival,
            (a, window_id, frame_id, captured_us, encoded_us, arrived_us),
            (),
        ) && (*b)@ == final(a)@ && call_ensures(
            LatencyMonitor::on_decoded,
            (b, window_id, frame_id, decoded_us),
            (),
        ) && (*c)@ == final(b)@ && call_ensures(
            LatencyMonitor::on_presented,
            (c, window_id, frame_id, presented_us, offset_us),
            r,
        ) && (*a)@.enabled && (*a)@.of(window_id).in_flight.dom().finite() && (*a)@.of(
            window_id,
        ).in_flight.dom().len() < 256 implies {
        &&& r matches Some(s)
        &&& s.capture_to_encode_us == encoded_us - captured_us
        &&& s.encode_to_arrival_us == arrived_us - (encoded_us - offset_us)
        &&& s.arrival_to_decode_us == decoded_us - arrived_us
        &&& s.decode_to_present_us == presented_us - decoded_us
        &&& s.client_us == presented_us - arrived_us
        &&& s.total_us == presented_us - (captured_us - offset_us)
        &&& final(c)@.windows.contains_key(window_id)
        &&& ({
            let before = (*a)@.of(window_id);
            let after = final(c)@.windows[window_id];
            &&& after.capture_to_encode.last() == s.capture_to_encode_us
            &&& after.encode_to_arrival.last() == s.encode_to_arrival_us
            &&& after.arrival_to_decode.last() == s.arrival_to_decode_us
            &&& after.decode_to_present.last() == s.decode_to_present_us
            &&& after.client.last() == s.client_us
            &&& after.total.last() == s.total_us
            &&& before.total.len() < 2048 ==> after.total.len() == before.total.len() + 1
            &&& before.total.len() == 2048 ==> after.total.len() == 2048
            &&& before.presented < 0xffff_ffff_ffff_ffff ==> after.presented == before.presented
                + 1
            &&& after.dropped == before.dropped
            &&& !after.in_flight.contains_key(frame_id)
        })
    } by {
        let held = (*a)@.of(window_id).in_flight;
        let partial = Partial { captured_us, encoded_us, arrived_us, decoded_us: None };
        assert(held.insert(frame_id, partial).dom() =~= held.dom().insert(frame_id));
        assert(held.insert(frame_id, partial).dom().len() <= 256);
    }
}

/// A frame that no decoder reported on was decoded as it arrived. A stage whose end reads earlier than
/// its beginning took no time.
pub proof fn law_undecoded_frames_count_from_arrival(
    window_id: u32,
    frame_id: u64,
    captured_us: u64,
    encoded_us: u64,
    arrived_us: u64,
    presented_us: u64,
    offset_us: i64,
)
    ensures
        forall|a: &mut LatencyMonitor, c: &mut LatencyMonitor, r: Option<FrameStages>|
            #![trigger call_ensures(LatencyMonitor::on_arrival, (a, window_id, frame_id, captured_us, encoded_us, arrived_us), ()), call_ensures(LatencyMonitor::on_presented, (c, window_id, frame_id, presented_us, offset_us), r)]
            call_ensures(
                LatencyMonitor::on_arrival,
                (a, window_id, frame_id, captured_us, encoded_us, arrived_us),
                (),
            ) && (*c)@ == final(a)@ && call_ensures(
                LatencyMonitor::on_presented,
                (c, window_id, frame_id, presented_us, offset_us),
                r,
            ) && (*a)@.enabled && !(*a)@.windows.contains_key(window_id) ==> {
                &&& r matches Some(s)
                &&& s.arrival_to_decode_us == 0
                &&& s.capture_to_encode_us == (if captured_us < encoded_us {
                    encoded_us - captured_us
                } else {
                    0
                })
                &&& s.client_us == (if arrived_us < presented_us {
                    presented_us - arrived_us
                } else {
                    0
                })
                &&& s.decode_to_present_us == s.client_us
            },
{
    assert forall|a: &mut LatencyMonitor, c: &mut LatencyMonitor, r: Option<FrameStages>|
        #![trigger call_ensures(LatencyMonitor::on_arrival, (a, window_id, frame_id, captured_us, encoded_us, arrived_us), ()), call_ensures(LatencyMonitor::on_presented, (c, window_id, frame_id, presented_us, offset_us), r)]
        call_ensures(
            LatencyMonitor::on_arrival,
            (a, window_id, frame_id, captured_us, encoded_us, arrived_us),
            (),
        ) && (*c)@ == final(a)@ && call_ensures(
            LatencyMonitor::on_presented,
            (c, window_id, frame_id, presented_us, offset_us),
            r,
        ) && (*a)@.enabled && !(*a)@.windows.contains_key(window_id) implies {
        &&& r matches Some(s)
        &&& s.arrival_to_decode_us == 0
        &&& s.capture_to_encode_us == (if captured_us < encoded_us {
            encoded_us - captured_us
        } else {
            0
        })
        &&& s.client_us == (if arrived_us < presented_us {
            presented_us - arrived_us
        } else {
            0
        })
        &&& s.decode_to_present_us == s.client_us
    } by {
        let partial = Partial { captured_us, encoded_us, arrived_us, decoded_us: None };
        let held = Map::<u64, Partial>::empty().insert(frame_id, partial);
        assert(held.dom() =~= Set::empty().insert(frame_id));
    }
}

/// Where 256 frames of a window are in flight and one more arrives, the one with the smallest id is
/// given up and counted as dropped.
pub proof fn law_the_oldest_frame_makes_room(
    window_id: u32,
    frame_id: u64,
    captured_us: u64,
    encoded_us: u64,
    arrived_us: u64,
    oldest: u64,
)
    ensures
        forall|a: &mut LatencyMonitor| #[trigger]
            call_ensures(
                LatencyMonitor::on_arrival,
                (a, window_id, frame_id, captured_us, encoded_us, arrived_us),
                (),
            ) && (*a)@.enabled && (*a)@.windows.contains_key(window_id) && ({
                let held = (*a)@.windows[window_id].in_flight.dom();
                &&& held.finite() && held.len() == 256
                &&& !held.contains(frame_id)
                &&& held.contains(oldest) && oldest < frame_id
                &&& forall|other: u64| held.contains(other) ==> oldest <= other
            }) ==> {
                let before = (*a)@.windows[window_id];
                let after = final(a)@.windows[window_id];
                &&& after.in_flight.dom() == before.in_flight.dom().insert(frame_id).remove(oldest)
                &&& after.in_flight[frame_id].captured_us == captured_us
                &&& after.in_flight[frame_id].encoded_us == encoded_us
                &&& after.in_flight[frame_id].arrived_us == arrived_us
                &&& before.dropped < 0xffff_ffff_ffff_ffff ==> after.dropped == before.dropped + 1
                &&& after.presented == before.presented
            },
{
    assert forall|a: &mut LatencyMonitor| #[trigger]
        call_ensures(
            LatencyMonitor::on_arrival,
            (a, window_id, frame_id, captured_us, encoded_us, arrived_us),
            (),
        ) && (*a)@.enabled && (*a)@.windows.contains_key(window_id) && ({
            let held = (*a)@.windows[window_id].in_flight.dom();
            &&& held.finite() && held.len() == 256
            &&& !held.contains(frame_id)
            &&& held.contains(oldest) && oldest < frame_id
            &&& forall|other: u64| held.contains(other) ==> oldest <= other
        }) implies {
        let before = (*a)@.windows[window_id];
        let after = final(a)@.windows[window_id];
        &&& after.in_flight.dom() == before.in_flight.dom().insert(frame_id).remove(oldest)
        &&& after.in_flight[frame_id].captured_us == captured_us
        &&& after.in_flight[frame_id].encoded_us == encoded_us
        &&& after.in_flight[frame_id].arrived_us == arrived_us
        &&& before.dropped < 0xffff_ffff_ffff_ffff ==> after.dropped == before.dropped + 1
        &&& after.presented == before.presented
    } by {
        let held = (*a)@.windows[window_id].in_flight;
        let partial = Partial { captured_us, encoded_us, arrived_us, decoded_us: None };
        let more = held.insert(frame_id, partial);
        assert(more.dom() =~= held.dom().insert(frame_id));
        assert(is_oldest(more.dom(), oldest));
        assert(oldest_of(more.dom()) == oldest);
        assert(more.remove(oldest).dom() =~= held.dom().insert(frame_id).remove(oldest));
    }
}

/// A frame that is dropped while it is in flight is counted as dropped and leaves no sample; a frame
/// that is not in flight changes nothing.
pub proof fn law_dropped_frames_are_counted(window_id: u32, frame_id: u64)
    ensures
        forall|a: &mut LatencyMonitor| #[trigger]
            call_ensures(LatencyMonitor::on_dropped, (a, window_id, frame_id), ())
                && (*a)@.enabled ==> {
                let before = (*a)@.of(window_id);
                let after = final(a)@.of(window_id);
                &&& before.in_flight.contains_key(frame_id) ==> {
                    &&& after.in_flight == before.in_flight.remove(frame_id)
                    &&& before.dropped < 0xffff_ffff_ffff_ffff ==> after.dropped == before.dropped
                        + 1
                    &&& after.presented == before.presented
                    &&& after.total == before.total
                    &&& after.client == before.client
                }
                &&& !before.in_flight.contains_key(frame_id) ==> final(a)@ == (*a)@
                &&& final(a)@.windows.remove(window_id) == (*a)@.windows.remove(window_id)
            },
{
    assert forall|a: &mut LatencyMonitor| #[trigger]
        call_ensures(LatencyMonitor::on_dropped, (a, window_id, frame_id), ())
            && (*a)@.enabled implies {
        let before = (*a)@.of(window_id);
        let after = final(a)@.of(window_id);
        &&& before.in_flight.contains_key(frame_id) ==> {
            &&& after.in_flight == before.in_flight.remove(frame_id)
            &&& before.dropped < 0xffff_ffff_ffff_ffff ==> after.dropped == before.dropped + 1
            &&& after.presented == before.presented
            &&& after.total == before.total
            &&& after.client == before.client
        }
        &&& !before.in_flight.contains_key(frame_id) ==> final(a)@ == (*a)@
        &&& final(a)@.windows.remove(window_id) == (*a)@.windows.remove(window_id)
    } by {
        assert(final(a)@.windows.remove(window_id) =~= (*a)@.windows.remove(window_id));
        if !(*a)@.of(window_id).in_flight.contains_key(frame_id) {
            assert(final(a)@.windows =~= (*a)@.windows);
        }
    }
}

/// Only what was asked for is recorded: a monitor that is disabled stays as it is, and there is
/// something to report exactly where some window has a presented frame.
pub proof fn law_monitors_record_on_demand(
    off: LatencyMonitor,
    on: LatencyMonitor,
    recording: bool,
    silent: bool,
    m: &LatencyMonitor,
    some: bool,
    window_id: u32,
    window: Option<&WindowLatency>,
)
    requires
        call_ensures(LatencyMonitor::disabled, (), off),
        call_ensures(LatencyMonitor::enabled, (), on),
        call_ensures(LatencyMonitor::is_enabled, (&on,), recording),
        call_ensures(LatencyMonitor::is_enabled, (&off,), silent),
        call_ensures(LatencyMonitor::has_samples, (m,), some),
        call_ensures(LatencyMonitor::window, (m, window_id), window),
    ensures
        recording && !silent,
        on@.windows.len() == 0 && off@.windows.len() == 0,
        window matches Some(w) && w.total@.len() > 0 ==> some,
        some ==> exists|id: u32| #[trigger]
            m@.windows.contains_key(id) && m@.windows[id].total.len() > 0,
{
    assert(on@.windows.dom() =~= Set::empty());
    assert(off@.windows.dom() =~= Set::empty());
}

/// A forgotten window leaves nothing behind, and no other window loses anything.
pub proof fn law_forgetting_clears_one_window(window_id: u32, other: u32)
    ensures
        forall|a: &mut LatencyMonitor| #[trigger]
            call_ensures(LatencyMonitor::forget, (a, window_id), ()) ==> {
                &&& !final(a)@.windows.contains_key(window_id)
                &&& other != window_id ==> final(a)@.of(other) == (*a)@.of(other)
                &&& final(a)@.enabled == (*a)@.enabled
            },
{
}

/// A report begins with what it is of and how far the clocks are known to agree: to half the round
/// trip, or not at all before a pong.
pub proof fn law_reports_begin_with_the_clocks(
    m: &LatencyMonitor,
    rtt: u64,
    offset_us: i64,
    known: String,
    unknown: String,
)
    requires
        call_ensures(LatencyMonitor::report, (m, Some(rtt), Some(offset_us)), known),
        call_ensures(LatencyMonitor::report, (m, None, None), unknown),
    ensures
        ("oxclient latency: capture-to-present, microseconds\n"@ + "  clock: round trip "@
            + text::decimal(rtt as nat) + " us, agent offset "@ + text::signed(offset_us as int)
            + " us, so the cross-clock stages are good to about +/-"@ + text::decimal(
            (rtt / 2) as nat,
        ) + " us\n"@).is_prefix_of(known@),
        ("oxclient latency: capture-to-present, microseconds\n"@
            + "  clock: no pong yet, so the agent's timestamps cannot be placed on this clock; only the client-only stages below are meaningful\n"@).is_prefix_of(
            unknown@,
        ),
{
    let title = "oxclient latency: capture-to-present, microseconds\n"@;
    let blocks = window_blocks(m@.windows, in_order(m@.windows.dom()));
    let line = clock_line(Some(rtt), Some(offset_us));
    let none = clock_line(None, None);
    let first = title + "  clock: round trip "@ + text::decimal(rtt as nat)
        + " us, agent offset "@ + text::signed(offset_us as int)
        + " us, so the cross-clock stages are good to about +/-"@ + text::decimal(
        (rtt / 2) as nat,
    ) + " us\n"@;
    assert(first =~= title + line);
    assert(known@ =~= title + line + blocks);
    assert(known@.subrange(0, first.len() as int) =~= first);
    assert(unknown@.subrange(0, (title + none).len() as int) =~= title + none);
}

/// A figure in eight columns.
pub open spec fn padded(value: u64) -> Seq<char> {
    let digits = text::decimal(value as nat);
    if digits.len() < 8 {
        Seq::new((8 - digits.len()) as nat, |i: int| ' ') + digits
    } else {
        digits
    }
}

/// The heading of a window's block.
pub open spec fn heading(id: u32, presented: u64, dropped: u64) -> Seq<char> {
    "  window "@ + text::decimal(id as nat) + ": "@ + text::decimal(presented as nat)
        + " presented, "@ + text::decimal(dropped as nat) + " never presented\n"@
}

/// The line of the end-to-end figures.
pub open spec fn journey_line(p50: u64, p95: u64, p99: u64, most: u64) -> Seq<char> {
    "    "@ + "END TO END      "@ + " p50 "@ + padded(p50) + "  p95 "@ + padded(p95) + "  p99 "@
        + padded(p99) + "  max "@ + padded(most) + "   (+/- clock error)"@ + "\n"@
}

/// The line of the end-to-end figures is that of their samples.
proof fn lemma_journey_line(samples: Seq<u64>, p50: u64, p95: u64, p99: u64, most: u64)
    requires
        percentile_of(samples, 50) == Some(p50),
        percentile_of(samples, 95) == Some(p95),
        percentile_of(samples, 99) == Some(p99),
        largest_of(samples) == Some(most),
    ensures
        stage_line("END TO END      "@, samples, false) == journey_line(p50, p95, p99, most),
{
    assert(column(Some(p50)) == padded(p50));
    assert(column(Some(p95)) == padded(p95));
    assert(column(Some(p99)) == padded(p99));
    assert(column(Some(most)) == padded(most));
}

/// The lines between the heading and the last one, taken together.
proof fn lemma_regroup(
    a: Seq<char>,
    b: Seq<char>,
    c: Seq<char>,
    d: Seq<char>,
    e: Seq<char>,
    f: Seq<char>,
)
    ensures
        a + b + c + d + e + f == a + (b + c + d + e + f),
{
    assert(a + b + c + d + e + f =~= a + (b + c + d + e + f));
}

/// A block has its heading in front and its end-to-end figures at its end.
proof fn lemma_block_parts(id: u32, v: WindowView) -> (middle: Seq<char>)
    ensures
        window_block(id, v) == heading(id, v.presented, v.dropped) + middle + stage_line(
            "END TO END      "@,
            v.total,
            false,
        ),
{
    reveal(window_block);
    let (b, c, d, e, f) = (
        stage_line("capture->encode "@, v.capture_to_encode, true),
        stage_line("encode->arrival "@, v.encode_to_arrival, false),
        stage_line("arrival->decode "@, v.arrival_to_decode, true),
        stage_line("decode->present "@, v.decode_to_present, true),
        stage_line("client total    "@, v.client, true),
    );
    lemma_regroup(heading(id, v.presented, v.dropped), b, c, d, e, f);
    b + c + d + e + f
}

/// There is one largest sample.
proof fn lemma_largest(samples: Seq<u64>, m: u64)
    requires
        is_largest(samples, m),
    ensures
        largest_of(samples) == Some(m),
{
    let other = choose|other: u64| is_largest(samples, other);
    assert(is_largest(samples, other));
    let i = choose|i: int| 0 <= i < samples.len() && samples[i] == m;
    let j = choose|j: int| 0 <= j < samples.len() && samples[j] == other;
    assert(other >= samples[i]);
    assert(m >= samples[j]);
}

/// The report on one window names it and counts its frames, and ends with its end-to-end figures: the
/// median, the 95th and the 99th percentile and the largest, of which the clocks' error is said.
pub proof fn law_reports_end_with_the_whole_journey(
    m: &LatencyMonitor,
    rtt: Option<u64>,
    offset_us: Option<i64>,
    id: u32,
    w: &WindowLatency,
    p50: Option<u64>,
    p95: Option<u64>,
    p99: Option<u64>,
    most: Option<u64>,
    r: String,
) -> (parts: (Seq<char>, Seq<char>))
    requires
        call_ensures(LatencyMonitor::report, (m, rtt, offset_us), r),
        call_ensures(LatencyMonitor::window, (m, id), Some(w)),
        m@.windows.dom() == set![id],
        w.total@.len() > 0,
        call_ensures(Samples::percentile, (&w.total, 50), p50),
        call_ensures(Samples::percentile, (&w.total, 95), p95),
        call_ensures(Samples::percentile, (&w.total, 99), p99),
        call_ensures(Samples::max, (&w.total,), most),
    ensures
        r@ == parts.0 + heading(id, w.presented, w.dropped) + parts.1 + journey_line(
            p50->0,
            p95->0,
            p99->0,
            most->0,
        ),
{
    let v = w@;
    let ids = seq![id];
    assert(ids.to_set() =~= set![id]) by {
        assert(ids[0] == id);
        assert forall|other: u32| ids.to_set().contains(other) <==> set![id].contains(other) by {
            assert(ids.to_set().contains(other) <==> ids.contains(other));
        }
    }
    assert(is_order(m@.windows.dom(), ids));
    lemma_order_is_unique(ids, in_order(m@.windows.dom()));
    assert(ids.drop_last().len() == 0);
    let front = "oxclient latency: capture-to-present, microseconds\n"@ + clock_line(
        rtt,
        offset_us,
    );
    assert(w.total@[0] == v.total[0]);
    assert(is_largest(v.total, most->0));
    lemma_largest(v.total, most->0);
    lemma_journey_line(v.total, p50->0, p95->0, p99->0, most->0);
    let middle = lemma_block_parts(id, v);
    let block = window_block(id, v);
    let line = journey_line(p50->0, p95->0, p99->0, most->0);
    let head = heading(id, w.presented, w.dropped);
    assert(window_blocks(m@.windows, ids.drop_last()) == Seq::<char>::empty());
    assert(window_blocks(m@.windows, ids) == Seq::<char>::empty() + block);
    assert(Seq::<char>::empty() + block =~= block);
    assert(front + (head + middle + line) =~= front + head + middle + line);
    (front, middle)
}

} // verus!
