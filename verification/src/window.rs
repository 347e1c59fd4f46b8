use vstd::prelude::*;
use ringbuffer::{AllocRingBuffer, RingBuffer};
use crate::csi::{CSIReading, CSIReadingView, Correlation, CorrelationView};

verus! {

#[verifier::external_type_specification]
#[verifier::external_body]
#[verifier::reject_recursive_types(T)]
pub struct ExAllocRingBuffer<T>(ringbuffer::AllocRingBuffer<T>);

/// Largest window a sender's state is given.
pub const MAX_WINDOW_SIZE: usize = 65536;

/// Longest time, in microseconds, between the first reading of a window and
/// one that is still correlated with it.
pub const WINDOW_SPAN_US: u64 = 1_000_000;

/// Intervals above this are taken for a rollover of the sequence counter.
pub const WRAPAROUND_THRESHOLD: i32 = 65000;

/// The readings a ring buffer holds, oldest first.
pub uninterp spec fn ring_items(rb: AllocRingBuffer<CSIReading>) -> Seq<CSIReadingView>;

/// The number of readings a ring buffer was made for.
pub uninterp spec fn ring_capacity(rb: AllocRingBuffer<CSIReading>) -> nat;

/// A bounded window after one more reading: while there is room the reading
/// is added at the end, after that the oldest one leaves first.
pub open spec fn pushed(items: Seq<CSIReadingView>, capacity: nat, item: CSIReadingView) -> Seq<
    CSIReadingView,
> {
    if items.len() < capacity {
        items.push(item)
    } else {
        items.skip(1).push(item)
    }
}

/// Calls `AllocRingBuffer::new`, which panics on a capacity of zero and
/// allocates room for the next power of two. Claimed of it: the buffer is
/// empty and keeps the capacity it was asked for.
#[verifier::external_body]
fn ring_new(capacity: usize) -> (rb: AllocRingBuffer<CSIReading>)
    requires
        0 < capacity <= MAX_WINDOW_SIZE,
    ensures
        ring_items(rb) == Seq::<CSIReadingView>::empty(),
        ring_capacity(rb) == capacity,
{
    AllocRingBuffer::new(capacity)
}

/// Calls `RingBuffer::enqueue` on an `AllocRingBuffer`. Claimed of it: the
/// capacity stays, and the reading becomes the newest item, after the oldest
/// one was dropped if the buffer was full.
#[verifier::external_body]
fn ring_push(rb: &mut AllocRingBuffer<CSIReading>, reading: CSIReading)
    ensures
        ring_capacity(*final(rb)) == ring_capacity(*old(rb)),
        ring_items(*final(rb)) == pushed(ring_items(*old(rb)), ring_capacity(*old(rb)), reading@),
{
    let _ = rb.enqueue(reading);
}

/// Calls `RingBuffer::to_vec` on an `AllocRingBuffer`. Claimed of it: the
/// vector holds a clone of each item, oldest first.
#[verifier::external_body]
fn ring_to_vec(rb: &AllocRingBuffer<CSIReading>) -> (v: Vec<CSIReading>)
    ensures
        views(v@) == ring_items(*rb),
{
    rb.to_vec()
}

/// The views of a run of readings.
pub open spec fn views(readings: Seq<CSIReading>) -> Seq<CSIReadingView> {
    Seq::new(readings.len(), |i: int| readings[i]@)
}

/// Index of the last reading that a window's correlation takes in, when the
/// readings before `i` were looked at and `prev` was the last one taken: a
/// reading older than the last one taken is passed over, and the first one
/// more than a second younger than the window's first reading ends the walk.
pub open spec fn last_in_window(items: Seq<CSIReadingView>, i: int, prev: int) -> int
    decreases items.len() - i,
{
    if i < 0 || i >= items.len() {
        prev
    } else if items[i].timestamp_us < items[prev].timestamp_us {
        last_in_window(items, i + 1, prev)
    } else if items[i].timestamp_us - items[0].timestamp_us > WINDOW_SPAN_US {
        prev
    } else {
        last_in_window(items, i + 1, i)
    }
}

/// The correlation taken over a window: between its oldest reading and the
/// last one that lies within a second of it.
pub open spec fn window_correlation(items: Seq<CSIReadingView>) -> CorrelationView {
    CorrelationView::Pearson {
        frame: items[0].csi_matrix,
        frame2: items[last_in_window(items, 1, 0)].csi_matrix,
    }
}

/// The last reading taken is one of the window's.
pub proof fn lemma_last_in_window_bounds(items: Seq<CSIReadingView>, i: int, prev: int)
    requires
        0 <= prev < i,
        prev < items.len(),
    ensures
        prev <= last_in_window(items, i, prev) < items.len(),
    decreases items.len() - i,
{
    if i < items.len() {
        if items[i].timestamp_us < items[prev].timestamp_us {
            lemma_last_in_window_bounds(items, i + 1, prev);
        } else if items[i].timestamp_us - items[0].timestamp_us > WINDOW_SPAN_US {
        } else {
            lemma_last_in_window_bounds(items, i + 1, i);
        }
    }
}

/// Says which two matrices a window's correlation is taken between.
pub fn window_pearson(window: &Vec<CSIReading>) -> (r: Correlation)
    requires
        window@.len() > 0,
    ensures
        r@ == window_correlation(views(window@)),
{
    let ghost items = views(window@);
    let mut prev: usize = 0;
    let mut i: usize = 1;
    while i < window.len()
        invariant
            items == views(window@),
            0 <= prev < i,
            prev < window@.len(),
            items[prev as int].timestamp_us >= items[0].timestamp_us,
            last_in_window(items, 1, 0) == last_in_window(items, i as int, prev as int),
        decreases window@.len() - i,
    {
        if window[i].timestamp_us < window[prev].timestamp_us {
            i = i + 1;
        } else if window[i].timestamp_us - window[0].timestamp_us > WINDOW_SPAN_US {
            i = window.len();
        } else {
            prev = i;
            i = i + 1;
        }
    }
    Correlation::Pearson {
        frame: window[0].csi_matrix.clone(),
        frame2: window[prev].csi_matrix.clone(),
    }
}

/// What is kept of one sender: its latest reading, a window of its recent
/// in-order readings, and how many were added since the window was last
/// correlated. A store made for a window size of zero has no buffer.
pub struct CSIStore {
    pub reading: CSIReading,
    pub buffer: Option<AllocRingBuffer<CSIReading>>,
    pub counter: usize,
}

pub struct StoreView {
    pub reading: CSIReadingView,
    pub window: Seq<CSIReadingView>,
    pub capacity: nat,
    pub counter: nat,
}

impl View for CSIStore {
    type V = StoreView;

    open spec fn view(&self) -> StoreView {
        StoreView {
            reading: self.reading@,
            window: match self.buffer {
                Some(rb) => ring_items(rb),
                None => Seq::empty(),
            },
            capacity: match self.buffer {
                Some(rb) => ring_capacity(rb),
                None => 0,
            },
            counter: self.counter as nat,
        }
    }
}

impl StoreView {
    /// A store is well formed for a window size when it was made for that
    /// size, its window holds no more readings, and its counter has not
    /// passed it.
    pub open spec fn wf(self, window_size: nat) -> bool {
        &&& self.capacity == window_size
        &&& self.window.len() <= window_size
        &&& self.counter <= window_size
        &&& window_size <= MAX_WINDOW_SIZE
    }
}

/// The reading emitted for the first frame of a sender.
pub open spec fn first_reading(obs: CSIReadingView) -> CSIReadingView {
    CSIReadingView { correlation_coefficient: CorrelationView::Zero, interval: 1, ..obs }
}

/// The store made for the first frame of a sender.
pub open spec fn first_store(obs: CSIReadingView, window_size: nat) -> StoreView {
    StoreView {
        reading: first_reading(obs),
        window: Seq::empty(),
        capacity: window_size,
        counter: 0,
    }
}

/// Whether a frame arrived behind the one stored for its sender.
pub open spec fn out_of_order(state: StoreView, obs: CSIReadingView) -> bool {
    obs.sequence_identifier < state.reading.sequence_identifier
}

/// The interval of a frame before a rollover is looked for: the distance
/// to the stored sequence identifier, or that identifier itself when the
/// frame arrived out of order.
pub open spec fn raw_interval(state: StoreView, obs: CSIReadingView) -> int {
    if out_of_order(state, obs) {
        state.reading.sequence_identifier as int
    } else {
        obs.sequence_identifier - state.reading.sequence_identifier
    }
}

/// The interval emitted for a frame: a raw interval above the threshold is
/// replaced by the distance across a rollover of the 16-bit counter.
pub open spec fn emitted_interval(state: StoreView, obs: CSIReadingView) -> int {
    if raw_interval(state, obs) > WRAPAROUND_THRESHOLD {
        obs.sequence_identifier + (u16::MAX - state.reading.sequence_identifier)
    } else {
        raw_interval(state, obs)
    }
}

/// The correlation of a frame with the one stored before it.
pub open spec fn pairwise(state: StoreView, obs: CSIReadingView) -> CorrelationView {
    CorrelationView::Pearson { frame: obs.csi_matrix, frame2: state.reading.csi_matrix }
}

/// The reading that enters the window for an in-order frame.
pub open spec fn windowed_reading(state: StoreView, obs: CSIReadingView) -> CSIReadingView {
    CSIReadingView {
        correlation_coefficient: pairwise(state, obs),
        interval: raw_interval(state, obs) as i32,
        ..obs
    }
}

/// Whether a frame is added to its sender's window.
pub open spec fn enters_window(state: StoreView, obs: CSIReadingView) -> bool {
    !out_of_order(state, obs) && state.capacity > 0
}

/// The window of a sender after a frame.
pub open spec fn next_window(state: StoreView, obs: CSIReadingView) -> Seq<CSIReadingView> {
    if enters_window(state, obs) {
        pushed(state.window, state.capacity, windowed_reading(state, obs))
    } else {
        state.window
    }
}

/// Whether a frame makes its sender's window due for correlation.
pub open spec fn window_due(state: StoreView, obs: CSIReadingView) -> bool {
    enters_window(state, obs) && state.counter + 1 > state.capacity
}

/// The counter of a sender after a frame.
pub open spec fn next_counter(state: StoreView, obs: CSIReadingView) -> nat {
    if !enters_window(state, obs) {
        state.counter
    } else if window_due(state, obs) {
        0
    } else {
        state.counter + 1
    }
}

/// The correlation emitted for a frame: none when it arrived out of order,
/// the window's when that is due, else the one with the stored frame.
pub open spec fn next_correlation(state: StoreView, obs: CSIReadingView) -> CorrelationView {
    if out_of_order(state, obs) {
        CorrelationView::Zero
    } else if window_due(state, obs) {
        window_correlation(next_window(state, obs))
    } else {
        pairwise(state, obs)
    }
}

/// The reading emitted for a frame of a sender that has a store.
pub open spec fn next_reading(state: StoreView, obs: CSIReadingView) -> CSIReadingView {
    CSIReadingView {
        correlation_coefficient: next_correlation(state, obs),
        interval: emitted_interval(state, obs) as i32,
        ..obs
    }
}

/// The store of a sender after a frame: the emitted reading replaces the
/// stored one.
pub open spec fn next_store(state: StoreView, obs: CSIReadingView) -> StoreView {
    StoreView {
        reading: next_reading(state, obs),
        window: next_window(state, obs),
        capacity: state.capacity,
        counter: next_counter(state, obs),
    }
}

impl CSIStore {
    /// The store of a sender seen for the first time, together with the
    /// reading to emit for it.
    pub fn new(reading: CSIReading, window_size: usize) -> (r: (CSIStore, CSIReading))
        requires
            window_size <= MAX_WINDOW_SIZE,
        ensures
            r.0@ == first_store(reading@, window_size as nat),
            r.0@.wf(window_size as nat),
            r.1@ == first_reading(reading@),
    {
        let mut reading = reading;
        reading.correlation_coefficient = Correlation::Zero;
        reading.interval = 1;
        let buffer = if window_size == 0 {
            None
        } else {
            Some(ring_new(window_size))
        };
        let store = CSIStore { reading: reading.clone(), buffer, counter: 0 };
        (store, reading)
    }

    /// Takes one more frame of the sender into its store and returns the
    /// reading to emit for it.
    pub fn advance(&mut self, reading: CSIReading, window_size: usize) -> (r: CSIReading)
        requires
            old(self)@.wf(window_size as nat),
        ensures
            final(self)@ == next_store(old(self)@, reading@),
            final(self)@.wf(window_size as nat),
            r@ == next_reading(old(self)@, reading@),
    {
        let mut reading = reading;
        let prev: u16 = self.reading.sequence_identifier;
        let seq: u16 = reading.sequence_identifier;
        if seq < prev {
            reading.interval = prev as i32;
            reading.correlation_coefficient = Correlation::Zero;
        } else {
            reading.correlation_coefficient = Correlation::Pearson {
                frame: reading.csi_matrix.clone(),
                frame2: self.reading.csi_matrix.clone(),
            };
            reading.interval = seq as i32 - prev as i32;
            if window_size > 0 {
                match &mut self.buffer {
                    Some(rb) => {
                        ring_push(rb, reading.clone());
                        self.counter = self.counter + 1;
                        if self.counter > window_size {
                            self.counter = 0;
                            let window = ring_to_vec(rb);
                            reading.correlation_coefficient = window_pearson(&window);
                        }
                    },
                    None => {},
                }
            }
        }
        if reading.interval > WRAPAROUND_THRESHOLD {
            reading.interval = seq as i32 + (u16::MAX as i32 - prev as i32);
        }
        self.reading = reading.clone();
        reading
    }
}

} // verus!
