use vstd::prelude::*;
use dashmap::DashMap;
use crate::csi::{CSIReading, CSIReadingView, CorrelationView};
use crate::window::{
    emitted_interval, first_reading, first_store, next_reading, next_store, CSIStore, StoreView,
    MAX_WINDOW_SIZE, WRAPAROUND_THRESHOLD,
};

verus! {

#[verifier::external_type_specification]
#[verifier::external_body]
#[verifier::reject_recursive_types(K)]
#[verifier::reject_recursive_types(V)]
#[verifier::reject_recursive_types(S)]
pub struct ExDashMap<K, V, S>(dashmap::DashMap<K, V, S>);

/// The stores a concurrent map holds, by sender tag and antenna.
pub uninterp spec fn frame_entries(map: DashMap<(String, i8), CSIStore>) -> Map<
    (Seq<char>, i8),
    StoreView,
>;

/// The concurrent map that holds the stores.
pub type Senders = DashMap<(String, i8), CSIStore>;

/// What a sender is known by: its tag and its antenna.
pub type SenderKey = (String, i8);

/// The entries of a map that knows no sender.
pub open spec fn no_senders() -> Map<(Seq<char>, i8), StoreView> {
    Map::empty()
}

/// Calls `DashMap::new`. Claimed of it: the map is empty.
#[verifier::external_body]
fn entries_new() -> (fresh: Senders)
    ensures
        frame_entries(fresh) == no_senders(),
{
    DashMap::new()
}

/// Calls `DashMap::remove`. Claimed of it: the key's store, if there was
/// one, is handed out and the key is gone; the other entries stay.
#[verifier::external_body]
fn entries_remove(map: &mut Senders, key: &SenderKey) -> (r: Option<CSIStore>)
    ensures
        frame_entries(*final(map)) == frame_entries(*old(map)).remove(key@),
        match r {
            Some(store) => frame_entries(*old(map)).contains_key(key@) && store@ == frame_entries(
                *old(map),
            )[key@],
            None => !frame_entries(*old(map)).contains_key(key@),
        },
{
    map.remove(key).map(|entry| entry.1)
}

/// Calls `DashMap::insert`. Claimed of it: the key holds the store
/// afterwards; the other entries stay.
#[verifier::external_body]
fn entries_insert(map: &mut Senders, key: SenderKey, store: CSIStore)
    ensures
        frame_entries(*final(map)) == frame_entries(*old(map)).insert(key@, store@),
{
    let _ = map.insert(key, store);
}

/// Calls `DashMap::get` and clones the reading of the store it finds.
/// Claimed of it: a known key gives the reading its store holds, an
/// unknown key nothing.
#[verifier::external_body]
fn entries_reading(map: &Senders, key: &SenderKey) -> (r: Option<CSIReading>)
    ensures
        match r {
            Some(reading) => frame_entries(*map).contains_key(key@) && reading@ == frame_entries(
                *map,
            )[key@].reading,
            None => !frame_entries(*map).contains_key(key@),
        },
{
    map.get(key).map(|entry| entry.reading.clone())
}

/// The key under which a reading's sender is kept.
pub open spec fn sender_key(obs: CSIReadingView) -> (Seq<char>, i8) {
    (obs.mac, obs.antenna)
}

/// The reading emitted when `obs` arrives at a map with these entries.
pub open spec fn emitted(entries: Map<(Seq<char>, i8), StoreView>, obs: CSIReadingView) -> CSIReadingView {
    if entries.contains_key(sender_key(obs)) {
        next_reading(entries[sender_key(obs)], obs)
    } else {
        first_reading(obs)
    }
}

/// The entries of a map after `obs` arrived: its sender's store is made or
/// moved on, every other store is left alone.
pub open spec fn upserted(
    entries: Map<(Seq<char>, i8), StoreView>,
    window_size: nat,
    obs: CSIReadingView,
) -> Map<(Seq<char>, i8), StoreView> {
    if entries.contains_key(sender_key(obs)) {
        entries.insert(sender_key(obs), next_store(entries[sender_key(obs)], obs))
    } else {
        entries.insert(sender_key(obs), first_store(obs, window_size))
    }
}

/// The entries of a map after a run of readings arrived one by one.
pub open spec fn upserted_all(
    entries: Map<(Seq<char>, i8), StoreView>,
    window_size: nat,
    run: Seq<CSIReadingView>,
) -> Map<(Seq<char>, i8), StoreView>
    decreases run.len(),
{
    if run.len() == 0 {
        entries
    } else {
        upserted(upserted_all(entries, window_size, run.drop_last()), window_size, run.last())
    }
}

/// Whether every store of a map is well formed for a window size.
pub open spec fn entries_wf(entries: Map<(Seq<char>, i8), StoreView>, window_size: nat) -> bool {
    forall|key: (Seq<char>, i8)| #[trigger]
        entries.contains_key(key) ==> entries[key].wf(window_size)
}

/// The state of all senders: one store for each pair of sender tag and
/// antenna that was seen, all made for the same window size.
pub struct FrameMap {
    map: Senders,
    window_size: usize,
}

impl FrameMap {
    /// The stores by sender tag and antenna.
    pub closed spec fn entries(&self) -> Map<(Seq<char>, i8), StoreView> {
        frame_entries(self.map)
    }

    /// The window size every store is made for.
    pub closed spec fn window(&self) -> nat {
        self.window_size as nat
    }

    /// Every store is well formed for the map's window size.
    pub open spec fn wf(&self) -> bool {
        &&& self.window() <= MAX_WINDOW_SIZE
        &&& entries_wf(self.entries(), self.window())
    }

    /// A map without senders, or nothing where the window size is above
    /// the largest one supported.
    pub fn new(window_size: usize) -> (r: Option<FrameMap>)
        ensures
            window_size > MAX_WINDOW_SIZE ==> r is None,
            window_size <= MAX_WINDOW_SIZE ==> (r matches Some(m) && m.wf() && m.window()
                == window_size && m.entries() == no_senders()),
    {
        if window_size > MAX_WINDOW_SIZE {
            None
        } else {
            Some(FrameMap { map: entries_new(), window_size })
        }
    }

    /// The window size the map was made with.
    pub fn window_size(&self) -> (w: usize)
        ensures
            w == self.window(),
    {
        self.window_size
    }

    /// The reading last stored for a sender, if the sender is known.
    pub fn latest(&self, mac: &str, antenna: i8) -> (r: Option<CSIReading>)
        ensures
            match r {
                Some(reading) => self.entries().contains_key((mac@, antenna)) && reading@
                    == self.entries()[(mac@, antenna)].reading,
                None => !self.entries().contains_key((mac@, antenna)),
            },
    {
        let key = (mac.to_owned(), antenna);
        entries_reading(&self.map, &key)
    }

    /// Takes a reading into the store of its sender, which is made if the
    /// sender is new, and returns the reading to emit. Senders are never
    /// removed, and no other sender's store changes.
    pub fn upsert(&mut self, reading: CSIReading) -> (r: CSIReading)
        requires
            old(self).wf(),
        ensures
            final(self).wf(),
            final(self).window() == old(self).window(),
            final(self).entries() == upserted(old(self).entries(), old(self).window(), reading@),
            r@ == emitted(old(self).entries(), reading@),
    {
        let key = (reading.mac.clone(), reading.antenna);
        match entries_remove(&mut self.map, &key) {
            Some(store) => {
                let mut store = store;
                let out = store.advance(reading, self.window_size);
                entries_insert(&mut self.map, key, store);
                out
            },
            None => {
                let (store, out) = CSIStore::new(reading, self.window_size);
                entries_insert(&mut self.map, key, store);
                out
            },
        }
    }
}

/// A sender that is known stays known, whatever arrives, and only the
/// store of the sender of a reading changes when it arrives.
pub proof fn lemma_senders_stay(
    entries: Map<(Seq<char>, i8), StoreView>,
    window_size: nat,
    obs: CSIReadingView,
    key: (Seq<char>, i8),
)
    requires
        entries.contains_key(key),
    ensures
        upserted(entries, window_size, obs).contains_key(key),
        key != sender_key(obs) ==> upserted(entries, window_size, obs)[key] == entries[key],
{
}

/// After a reading arrived, the store of its sender holds that reading's
/// timestamp, sequence identifier and matrix: the latest arrival wins.
pub proof fn lemma_latest_wins(
    entries: Map<(Seq<char>, i8), StoreView>,
    window_size: nat,
    obs: CSIReadingView,
)
    ensures
        upserted(entries, window_size, obs).contains_key(sender_key(obs)),
        upserted(entries, window_size, obs)[sender_key(obs)].reading == emitted(entries, obs),
        emitted(entries, obs).timestamp_us == obs.timestamp_us,
        emitted(entries, obs).sequence_identifier == obs.sequence_identifier,
        emitted(entries, obs).csi_matrix == obs.csi_matrix,
{
}

/// When a sender is first seen with `first`, and none of its readings that
/// arrive afterwards is older than `first`, then the sender stays known and
/// the timestamp stored for it never falls below the one it was first seen
/// with, whatever arrives from other senders in between.
pub proof fn lemma_first_seen_timestamp(
    entries: Map<(Seq<char>, i8), StoreView>,
    window_size: nat,
    first: CSIReadingView,
    later: Seq<CSIReadingView>,
)
    requires
        !entries.contains_key(sender_key(first)),
        forall|i: int|
            0 <= i < later.len() && sender_key(#[trigger] later[i]) == sender_key(first)
                ==> first.timestamp_us <= later[i].timestamp_us,
    ensures
        upserted_all(upserted(entries, window_size, first), window_size, later).contains_key(
            sender_key(first),
        ),
        first.timestamp_us <= upserted_all(
            upserted(entries, window_size, first),
            window_size,
            later,
        )[sender_key(first)].reading.timestamp_us,
    decreases later.len(),
{
    if later.len() > 0 {
        lemma_first_seen_timestamp(entries, window_size, first, later.drop_last());
        let before = upserted_all(
            upserted(entries, window_size, first),
            window_size,
            later.drop_last(),
        );
        lemma_senders_stay(before, window_size, later.last(), sender_key(first));
        lemma_latest_wins(before, window_size, later.last());
    }
}

/// Well-formed stores stay well formed when a reading arrives.
pub proof fn lemma_upserted_wf(
    entries: Map<(Seq<char>, i8), StoreView>,
    window_size: nat,
    obs: CSIReadingView,
)
    requires
        window_size <= MAX_WINDOW_SIZE,
        entries_wf(entries, window_size),
    ensures
        entries_wf(upserted(entries, window_size, obs), window_size),
{
}

/// The interval emitted for a frame whose sequence identifier differs from
/// the stored one lies between 1 and the rollover threshold, or it is the
/// distance across a rollover of the 16-bit counter. A frame that repeats
/// the stored identifier has the interval zero.
pub proof fn lemma_interval_range(state: StoreView, obs: CSIReadingView)
    ensures
        obs.sequence_identifier != state.reading.sequence_identifier ==> 1 <= next_reading(
            state,
            obs,
        ).interval <= WRAPAROUND_THRESHOLD || next_reading(state, obs).interval
            == obs.sequence_identifier + (u16::MAX - state.reading.sequence_identifier),
        obs.sequence_identifier == state.reading.sequence_identifier ==> next_reading(
            state,
            obs,
        ).interval == 0,
        next_reading(state, obs).interval == emitted_interval(state, obs),
        first_reading(obs).interval == 1,
{
}

/// A frame that arrives twice at a map that did not know its sender is
/// emitted twice with the same fields, but for the second time with the
/// interval zero and the correlation of its matrix with itself.
pub proof fn lemma_same_frame_twice(
    entries: Map<(Seq<char>, i8), StoreView>,
    window_size: nat,
    obs: CSIReadingView,
)
    requires
        !entries.contains_key(sender_key(obs)),
    ensures
        emitted(entries, obs) == first_reading(obs),
        emitted(upserted(entries, window_size, obs), obs) == (CSIReadingView {
            interval: 0,
            correlation_coefficient: CorrelationView::Pearson {
                frame: obs.csi_matrix,
                frame2: obs.csi_matrix,
            },
            ..first_reading(obs)
        }),
{
}

} // verus!
