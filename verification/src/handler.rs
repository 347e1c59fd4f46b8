use vstd::prelude::*;
use crate::config::AppConfig;
use crate::csi::{
    csi_decode, parse_csi_protobuf, readable, reading_of, CSIReading, CSIReadingView,
    CSI_DATA_LENGTH,
};
use crate::error::RecvMessageError;
use crate::message::{MessageData, MessageType};
use crate::record::{csi_records, record_views, DerivedRecord, DerivedRecordView};
use crate::store::{emitted, upserted, FrameMap};
use crate::telemetry::{
    parse_telemetry_protobuf, telemetry_decode, telemetry_reading_of, TelemetryReading,
    TelemetryReadingView,
};
use crate::window::StoreView;

verus! {

/// The bytes that a zlib stream inflates to, or nothing where the bytes
/// are no such stream.
pub uninterp spec fn zlib_inflated(compressed: Seq<u8>) -> Option<Seq<u8>>;

/// Calls `inflate::inflate_bytes_zlib`, which inflates a zlib stream and
/// checks its checksum. Claimed of it: its result depends on the bytes alone.
#[verifier::external_body]
fn inflate_zlib(compressed: &[u8]) -> (r: Option<Vec<u8>>)
    ensures
        match r {
            Some(data) => zlib_inflated(compressed@) == Some(data@),
            None => zlib_inflated(compressed@) is None,
        },
{
    match inflate::inflate_bytes_zlib(compressed) {
        Ok(data) => Some(data),
        Err(_) => None,
    }
}

/// The reading that a protobuf payload gives, or why it gives none:
/// malformed protobuf first, then fields out of range, then a `csi_data`
/// of the wrong length.
pub open spec fn frame_reading(payload: Seq<u8>) -> Result<CSIReadingView, RecvMessageError> {
    match csi_decode(payload) {
        Err(e) => Err(RecvMessageError::ProtobufParseError(e)),
        Ok(msg) => if !readable(msg) {
            Err(RecvMessageError::CSIReadingGenerateError)
        } else if msg.csi_data.len() != CSI_DATA_LENGTH {
            Err(RecvMessageError::CSIMatrixParseError)
        } else {
            Ok(reading_of(msg))
        },
    }
}

/// The telemetry reading that a protobuf payload gives, or why it gives
/// none.
pub open spec fn telemetry_frame_reading(payload: Seq<u8>) -> Result<
    TelemetryReadingView,
    RecvMessageError,
> {
    match telemetry_decode(payload) {
        Err(e) => Err(RecvMessageError::ProtobufParseError(e)),
        Ok(msg) => if msg.device_mac.len() < 6 {
            Err(RecvMessageError::TelemetryReadingGenerateError)
        } else {
            Ok(telemetry_reading_of(msg))
        },
    }
}

/// Decodes a CSI payload and builds its reading.
pub fn parse_csi(expected_payload: &[u8]) -> (r: Result<CSIReading, RecvMessageError>)
    ensures
        match frame_reading(expected_payload@) {
            Ok(obs) => r matches Ok(reading) && reading@ == obs,
            Err(e) => r matches Err(err) && err == e,
        },
{
    match parse_csi_protobuf(expected_payload) {
        Err(e) => Err(RecvMessageError::ProtobufParseError(e)),
        Ok(frame) => crate::csi::get_reading(&frame),
    }
}

/// Decodes a telemetry payload and builds its reading.
pub fn parse_telemetry(expected_payload: &[u8]) -> (r: Result<TelemetryReading, RecvMessageError>)
    ensures
        match telemetry_frame_reading(expected_payload@) {
            Ok(obs) => r matches Ok(reading) && reading@ == obs,
            Err(e) => r matches Err(err) && err == e,
        },
{
    match parse_telemetry_protobuf(expected_payload) {
        Err(e) => Err(RecvMessageError::ProtobufParseError(e)),
        Ok(frame) => crate::telemetry::get_reading(&frame),
    }
}

/// Takes a reading into the state of its sender and returns the reading to
/// emit: for a new sender with interval one and no correlation, for a known
/// one with the interval to the stored sequence identifier and the
/// correlation that is due.
pub fn map_reading(reading: CSIReading, frame_map: &mut FrameMap) -> (r: CSIReading)
    requires
        old(frame_map).wf(),
    ensures
        final(frame_map).wf(),
        final(frame_map).window() == old(frame_map).window(),
        final(frame_map).entries() == upserted(
            old(frame_map).entries(),
            old(frame_map).window(),
            reading@,
        ),
        r@ == emitted(old(frame_map).entries(), reading@),
{
    frame_map.upsert(reading)
}

/// What handling a datagram gives: the records to emit and the entries of
/// the sender map afterwards, or the reason why the datagram is dropped.
pub struct Outcome {
    pub records: Seq<DerivedRecordView>,
    pub entries: Map<(Seq<char>, i8), StoreView>,
}

/// The outcome of a telemetry datagram: one record, and no change to the
/// senders.
pub open spec fn telemetry_outcome(
    payload: Seq<u8>,
    measurement: Seq<char>,
    entries: Map<(Seq<char>, i8), StoreView>,
) -> Result<Outcome, RecvMessageError> {
    match telemetry_frame_reading(payload) {
        Err(e) => Err(e),
        Ok(reading) => Ok(
            Outcome {
                records: seq![DerivedRecordView::Telemetry { measurement, telemetry: reading }],
                entries,
            },
        ),
    }
}

/// The outcome of a datagram with a single CSI frame.
pub open spec fn csi_outcome(
    payload: Seq<u8>,
    measurement: Seq<char>,
    entries: Map<(Seq<char>, i8), StoreView>,
    window_size: nat,
) -> Result<Outcome, RecvMessageError> {
    match frame_reading(payload) {
        Err(e) => Err(e),
        Ok(obs) => Ok(
            Outcome {
                records: csi_records(measurement, seq![emitted(entries, obs)]),
                entries: upserted(entries, window_size, obs),
            },
        ),
    }
}

/// The reading in slot `i` of an inflated batch, if the slot holds one: a
/// slot is a length byte, which may not exceed the frame size, and after it
/// that many bytes of protobuf, padded to the frame size.
pub open spec fn slot_reading(data: Seq<u8>, frame_size: int, i: int) -> Option<CSIReadingView> {
    let start = i * (frame_size + 1);
    let n = data[start] as int;
    if n > frame_size {
        None
    } else {
        match frame_reading(data.subrange(start + 1, start + 1 + n)) {
            Ok(obs) => Some(obs),
            Err(_) => None,
        }
    }
}

/// The entries of the sender map after the first `k` slots of a batch.
pub open spec fn batch_entries(
    data: Seq<u8>,
    frame_size: int,
    entries: Map<(Seq<char>, i8), StoreView>,
    window_size: nat,
    k: nat,
) -> Map<(Seq<char>, i8), StoreView>
    decreases k,
{
    if k == 0 {
        entries
    } else {
        let before = batch_entries(data, frame_size, entries, window_size, (k - 1) as nat);
        match slot_reading(data, frame_size, k - 1) {
            Some(obs) => upserted(before, window_size, obs),
            None => before,
        }
    }
}

/// The readings emitted for the first `k` slots of a batch, in slot order.
/// A slot without a reading is passed over.
pub open spec fn batch_readings(
    data: Seq<u8>,
    frame_size: int,
    entries: Map<(Seq<char>, i8), StoreView>,
    window_size: nat,
    k: nat,
) -> Seq<CSIReadingView>
    decreases k,
{
    if k == 0 {
        Seq::empty()
    } else {
        let before = batch_entries(data, frame_size, entries, window_size, (k - 1) as nat);
        let readings = batch_readings(data, frame_size, entries, window_size, (k - 1) as nat);
        match slot_reading(data, frame_size, k - 1) {
            Some(obs) => readings.push(emitted(before, obs)),
            None => readings,
        }
    }
}

/// The outcome of an inflated batch: a framing error when its length is
/// no whole number of slots, else what its slots give one after the other.
pub open spec fn batch_outcome(
    data: Seq<u8>,
    frame_size: int,
    measurement: Seq<char>,
    entries: Map<(Seq<char>, i8), StoreView>,
    window_size: nat,
) -> Result<Outcome, RecvMessageError> {
    if (data.len() as int) % (frame_size + 1) != 0 {
        Err(RecvMessageError::MessageFramingError)
    } else {
        let slots = ((data.len() as int) / (frame_size + 1)) as nat;
        Ok(
            Outcome {
                records: csi_records(
                    measurement,
                    batch_readings(data, frame_size, entries, window_size, slots),
                ),
                entries: batch_entries(data, frame_size, entries, window_size, slots),
            },
        )
    }
}

/// The outcome of a datagram with a compressed batch.
pub open spec fn compressed_outcome(
    payload: Seq<u8>,
    frame_size: int,
    measurement: Seq<char>,
    entries: Map<(Seq<char>, i8), StoreView>,
    window_size: nat,
) -> Result<Outcome, RecvMessageError> {
    match zlib_inflated(payload) {
        None => Err(RecvMessageError::MessageDecompressionError),
        Some(data) => batch_outcome(data, frame_size, measurement, entries, window_size),
    }
}

/// The outcome of a datagram.
pub open spec fn message_outcome(
    format: MessageType,
    payload: Seq<u8>,
    config: AppConfig,
    entries: Map<(Seq<char>, i8), StoreView>,
    window_size: nat,
) -> Result<Outcome, RecvMessageError> {
    match format {
        MessageType::Telemetry => telemetry_outcome(
            payload,
            config.influx.sensor_telemetry_measurement@,
            entries,
        ),
        MessageType::CSI => csi_outcome(
            payload,
            config.influx.csi_metrics_measurement@,
            entries,
            window_size,
        ),
        MessageType::CSICompressed => compressed_outcome(
            payload,
            config.message.csi_frame_size as int,
            config.influx.csi_metrics_measurement@,
            entries,
            window_size,
        ),
    }
}

/// Whether the result of a call, and the senders after it, are what an
/// outcome says: on success the records and the entries are the outcome's,
/// on failure the error is the outcome's and the entries are as before.
pub open spec fn came_out(
    outcome: Result<Outcome, RecvMessageError>,
    result: Result<Vec<DerivedRecord>, RecvMessageError>,
    before: Map<(Seq<char>, i8), StoreView>,
    after: Map<(Seq<char>, i8), StoreView>,
) -> bool {
    match outcome {
        Ok(o) => result matches Ok(records) && record_views(records@) == o.records && after
            == o.entries,
        Err(e) => result matches Err(err) && err == e && after == before,
    }
}

/// The name of the measurement that CSI metrics are written to.
pub fn csi_metrics_measurement(config: &AppConfig) -> (name: String)
    ensures
        name@ == config.influx.csi_metrics_measurement@,
{
    config.influx.csi_metrics_measurement.clone()
}

/// Handles a telemetry datagram: one record under the telemetry
/// measurement, or the reason why the payload has no reading.
pub fn handle_telemetry(message: MessageData, config: &AppConfig) -> (r: Result<
    Vec<DerivedRecord>,
    RecvMessageError,
>)
    ensures
        match telemetry_frame_reading(message.payload@) {
            Ok(reading) => r matches Ok(records) && record_views(records@)
                == seq![
                DerivedRecordView::Telemetry {
                    measurement: config.influx.sensor_telemetry_measurement@,
                    telemetry: reading,
                },
            ],
            Err(e) => r matches Err(err) && err == e,
        },
{
    match parse_telemetry(message.payload.as_slice()) {
        Err(e) => Err(e),
        Ok(reading) => {
            let measurement = config.influx.sensor_telemetry_measurement.clone();
            let mut records: Vec<DerivedRecord> = Vec::new();
            records.push(DerivedRecord::Telemetry { measurement, telemetry: reading });
            Ok(records)
        },
    }
}

/// Handles a datagram with a single CSI frame: one record under the CSI
/// measurement and the sender's state moved on, or the reason why the
/// payload has no reading.
pub fn handle_csi(message: MessageData, f: &mut FrameMap, config: &AppConfig) -> (r: Result<
    Vec<DerivedRecord>,
    RecvMessageError,
>)
    requires
        old(f).wf(),
    ensures
        final(f).wf(),
        final(f).window() == old(f).window(),
        came_out(
            csi_outcome(
                message.payload@,
                config.influx.csi_metrics_measurement@,
                old(f).entries(),
                old(f).window(),
            ),
            r,
            old(f).entries(),
            final(f).entries(),
        ),
{
    match parse_csi(message.payload.as_slice()) {
        Err(e) => Err(e),
        Ok(frame) => {
            let mapped_reading = map_reading(frame, f);
            let measurement = csi_metrics_measurement(config);
            let ghost readings = seq![mapped_reading@];
            let mut records: Vec<DerivedRecord> = Vec::new();
            records.push(DerivedRecord::Csi { measurement, reading: mapped_reading });
            assert(record_views(records@) =~= csi_records(
                config.influx.csi_metrics_measurement@,
                readings,
            ));
            Ok(records)
        },
    }
}

/// Unpacks an inflated batch slot by slot. A slot whose length byte is
/// above the frame size, or whose bytes give no reading, is passed over;
/// every other slot moves its sender's state on and gives one record, in
/// slot order.
pub fn unpack_batch(data: &[u8], f: &mut FrameMap, config: &AppConfig) -> (r: Result<
    Vec<DerivedRecord>,
    RecvMessageError,
>)
    requires
        old(f).wf(),
        config.message.csi_frame_size >= 0,
    ensures
        final(f).wf(),
        final(f).window() == old(f).window(),
        came_out(
            batch_outcome(
                data@,
                config.message.csi_frame_size as int,
                config.influx.csi_metrics_measurement@,
                old(f).entries(),
                old(f).window(),
            ),
            r,
            old(f).entries(),
            final(f).entries(),
        ),
{
    let compressed_frame_size: usize = config.slot_size();
    let frame_size: usize = compressed_frame_size - 1;
    if data.len() % compressed_frame_size > 0 {
        return Err(RecvMessageError::MessageFramingError);
    }
    let frame_count: usize = data.len() / compressed_frame_size;
    assert(frame_count * compressed_frame_size == data@.len()) by (nonlinear_arith)
        requires
            compressed_frame_size > 0,
            frame_count == data@.len() / (compressed_frame_size as nat),
            data@.len() % (compressed_frame_size as nat) == 0,
    ;
    let ghost before = f.entries();
    let ghost window_size = f.window();
    let ghost size = frame_size as int;
    let ghost measurement = config.influx.csi_metrics_measurement@;
    let mut write_queries: Vec<DerivedRecord> = Vec::new();
    let mut i: usize = 0;
    let mut start: usize = 0;
    assert(record_views(write_queries@) =~= csi_records(
        measurement,
        batch_readings(data@, size, before, window_size, 0),
    ));
    while i < frame_count
        invariant
            i <= frame_count,
            start == i * compressed_frame_size,
            frame_count * compressed_frame_size == data@.len(),
            compressed_frame_size == frame_size + 1,
            size == frame_size,
            measurement == config.influx.csi_metrics_measurement@,
            f.wf(),
            f.window() == window_size,
            f.entries() == batch_entries(data@, size, before, window_size, i as nat),
            record_views(write_queries@) == csi_records(
                measurement,
                batch_readings(data@, size, before, window_size, i as nat),
            ),
        decreases frame_count - i,
    {
        assert((i + 1) * compressed_frame_size <= frame_count * compressed_frame_size
            && (i + 1) * compressed_frame_size == i * compressed_frame_size
            + compressed_frame_size) by (nonlinear_arith)
            requires
                i + 1 <= frame_count,
                compressed_frame_size >= 0,
        ;
        let ghost readings = batch_readings(data@, size, before, window_size, i as nat);
        let protobuf_size: usize = data[start] as usize;
        if protobuf_size <= frame_size {
            let protobuf_start: usize = start + 1;
            let protobuf_end: usize = protobuf_start + protobuf_size;
            let protobuf_contents = vstd::slice::slice_subrange(data, protobuf_start, protobuf_end);
            match parse_csi(protobuf_contents) {
                Ok(reading) => {
                    let mapped_reading = map_reading(reading, f);
                    let ghost mapped = mapped_reading@;
                    let ghost earlier = write_queries@;
                    write_queries.push(
                        DerivedRecord::Csi {
                            measurement: csi_metrics_measurement(config),
                            reading: mapped_reading,
                        },
                    );
                    assert(csi_records(measurement, readings).len() == readings.len());
                    assert(csi_records(measurement, readings.push(mapped)).len() == readings.len()
                        + 1);
                    assert forall|j: int| 0 <= j < write_queries@.len() implies record_views(
                        write_queries@,
                    )[j] == csi_records(measurement, readings.push(mapped))[j] by {
                        if j < earlier.len() {
                            assert(record_views(earlier)[j] == csi_records(measurement, readings)[j]);
                        }
                    }
                    assert(record_views(write_queries@) =~= csi_records(
                        measurement,
                        readings.push(mapped),
                    ));
                },
                Err(_) => {},
            }
        }
        i = i + 1;
        start = start + compressed_frame_size;
    }
    Ok(write_queries)
}

/// Handles a datagram with a compressed batch: the payload is inflated as
/// a zlib stream and unpacked slot by slot.
pub fn handle_compressed_csi(message: MessageData, f: &mut FrameMap, config: &AppConfig) -> (r:
    Result<Vec<DerivedRecord>, RecvMessageError>)
    requires
        old(f).wf(),
        config.message.csi_frame_size >= 0,
    ensures
        final(f).wf(),
        final(f).window() == old(f).window(),
        came_out(
            compressed_outcome(
                message.payload@,
                config.message.csi_frame_size as int,
                config.influx.csi_metrics_measurement@,
                old(f).entries(),
                old(f).window(),
            ),
            r,
            old(f).entries(),
            final(f).entries(),
        ),
{
    match inflate_zlib(message.payload.as_slice()) {
        None => Err(RecvMessageError::MessageDecompressionError),
        Some(decompressed_data) => unpack_batch(decompressed_data.as_slice(), f, config),
    }
}

/// Handles one datagram according to its format and returns the records
/// to emit. A datagram that is dropped leaves the senders as they were.
pub fn handle_message(m: MessageData, f: &mut FrameMap, config: &AppConfig) -> (r: Result<
    Vec<DerivedRecord>,
    RecvMessageError,
>)
    requires
        old(f).wf(),
        config.message.csi_frame_size >= 0,
    ensures
        final(f).wf(),
        final(f).window() == old(f).window(),
        came_out(
            message_outcome(m.format, m.payload@, *config, old(f).entries(), old(f).window()),
            r,
            old(f).entries(),
            final(f).entries(),
        ),
{
    match m.format {
        MessageType::Telemetry => handle_telemetry(m, config),
        MessageType::CSI => handle_csi(m, f, config),
        MessageType::CSICompressed => handle_compressed_csi(m, f, config),
    }
}

/// A batch in which every one of the first `k` slots holds a reading gives
/// `k` readings, the one at place `i` being what slot `i` emits at the
/// state that the slots before it left.
pub proof fn lemma_full_batch(
    data: Seq<u8>,
    frame_size: int,
    entries: Map<(Seq<char>, i8), StoreView>,
    window_size: nat,
    k: nat,
)
    requires
        forall|i: int| 0 <= i < k ==> slot_reading(data, frame_size, i) is Some,
    ensures
        batch_readings(data, frame_size, entries, window_size, k).len() == k,
        forall|i: int|
            0 <= i < k ==> #[trigger] batch_readings(data, frame_size, entries, window_size, k)[i]
                == emitted(
                batch_entries(data, frame_size, entries, window_size, i as nat),
                slot_reading(data, frame_size, i).unwrap(),
            ),
    decreases k,
{
    if k > 0 {
        lemma_full_batch(data, frame_size, entries, window_size, (k - 1) as nat);
    }
}

/// A batch never gives more readings than it has slots.
pub proof fn lemma_batch_length(
    data: Seq<u8>,
    frame_size: int,
    entries: Map<(Seq<char>, i8), StoreView>,
    window_size: nat,
    k: nat,
)
    ensures
        batch_readings(data, frame_size, entries, window_size, k).len() <= k,
    decreases k,
{
    if k > 0 {
        lemma_batch_length(data, frame_size, entries, window_size, (k - 1) as nat);
    }
}

/// Whether a protobuf fits a slot: it is no longer than the frame size
/// and its length fits the slot's length byte.
pub open spec fn fits(frame: Seq<u8>, frame_size: int) -> bool {
    frame.len() <= frame_size && frame.len() <= u8::MAX
}

/// The slot that carries a protobuf: its length, its bytes, and zeros up
/// to the frame size.
pub open spec fn slot_of(frame: Seq<u8>, frame_size: int) -> Seq<u8> {
    seq![frame.len() as u8] + frame + Seq::new(
        (frame_size - frame.len()) as nat,
        |i: int| 0u8,
    )
}

/// The batch that carries a run of protobufs, one slot each, in order.
pub open spec fn slotted(frames: Seq<Seq<u8>>, frame_size: int) -> Seq<u8>
    decreases frames.len(),
{
    if frames.len() == 0 {
        Seq::empty()
    } else {
        slotted(frames.drop_last(), frame_size) + slot_of(frames.last(), frame_size)
    }
}

/// A batch of protobufs that fit has one whole slot for each of them.
pub proof fn lemma_slotted_len(frames: Seq<Seq<u8>>, frame_size: int)
    requires
        frame_size >= 0,
        forall|j: int| 0 <= j < frames.len() ==> fits(#[trigger] frames[j], frame_size),
    ensures
        slotted(frames, frame_size).len() == frames.len() * (frame_size + 1),
        (slotted(frames, frame_size).len() as int) % (frame_size + 1) == 0,
        (slotted(frames, frame_size).len() as int) / (frame_size + 1) == frames.len(),
    decreases frames.len(),
{
    let n = frames.len() as int;
    let size = frame_size + 1;
    if n > 0 {
        lemma_slotted_len(frames.drop_last(), frame_size);
        assert((n - 1) * size + size == n * size) by (nonlinear_arith);
    } else {
        assert(0 * size == 0) by (nonlinear_arith);
    }
    vstd::arithmetic::div_mod::lemma_mod_multiples_basic(n, size);
    vstd::arithmetic::div_mod::lemma_div_by_multiple(n, size);
}

/// In a batch built from protobufs that fit, slot `i` gives the reading
/// of protobuf `i`, if that has one: framing loses and reorders nothing.
pub proof fn lemma_slotted_reading(frames: Seq<Seq<u8>>, frame_size: int, i: int)
    requires
        frame_size >= 0,
        forall|j: int| 0 <= j < frames.len() ==> fits(#[trigger] frames[j], frame_size),
        0 <= i < frames.len(),
    ensures
        slot_reading(slotted(frames, frame_size), frame_size, i) == match frame_reading(
            frames[i],
        ) {
            Ok(obs) => Some(obs),
            Err(_) => None,
        },
    decreases frames.len(),
{
    let n = frames.len() as int;
    let size = frame_size + 1;
    let earlier = frames.drop_last();
    let head = slotted(earlier, frame_size);
    let data = slotted(frames, frame_size);
    let start = i * size;
    lemma_slotted_len(earlier, frame_size);
    assert(0 <= start && start + size <= n * size && (n - 1) * size + size == n * size && (i
        < n - 1 ==> start + size <= (n - 1) * size) && (i == n - 1 ==> start == (n - 1) * size))
        by (nonlinear_arith)
        requires
            0 <= i < n,
            size > 0,
            start == i * size,
    ;
    if i < n - 1 {
        lemma_slotted_reading(earlier, frame_size, i);
        let len = head[start] as int;
        if len <= frame_size {
            assert(data.subrange(start + 1, start + 1 + len) =~= head.subrange(
                start + 1,
                start + 1 + len,
            ));
        }
    } else {
        let frame = frames[i];
        assert(data.subrange(start + 1, start + 1 + frame.len()) =~= frame);
    }
}

/// A batch built from protobufs that fit and that each have a reading is
/// handled without error and gives one record for each of them, in their
/// order: the record at place `i` is what protobuf `i` emits at the state
/// that the protobufs before it left.
pub proof fn lemma_batch_of_frames(
    frames: Seq<Seq<u8>>,
    frame_size: int,
    measurement: Seq<char>,
    entries: Map<(Seq<char>, i8), StoreView>,
    window_size: nat,
)
    requires
        frame_size >= 0,
        forall|j: int| 0 <= j < frames.len() ==> fits(#[trigger] frames[j], frame_size),
        forall|j: int| 0 <= j < frames.len() ==> frame_reading(#[trigger] frames[j]) is Ok,
    ensures
        batch_outcome(slotted(frames, frame_size), frame_size, measurement, entries, window_size)
            matches Ok(outcome) && outcome.records.len() == frames.len() && forall|i: int|
            0 <= i < frames.len() ==> #[trigger] outcome.records[i] == (DerivedRecordView::Csi {
                measurement,
                reading: emitted(
                    batch_entries(
                        slotted(frames, frame_size),
                        frame_size,
                        entries,
                        window_size,
                        i as nat,
                    ),
                    frame_reading(frames[i]).unwrap(),
                ),
            }),
{
    let data = slotted(frames, frame_size);
    let k = frames.len();
    lemma_slotted_len(frames, frame_size);
    assert forall|i: int| 0 <= i < k implies slot_reading(data, frame_size, i) == Some(
        frame_reading(frames[i]).unwrap(),
    ) by {
        lemma_slotted_reading(frames, frame_size, i);
    }
    lemma_full_batch(data, frame_size, entries, window_size, k);
}

} // verus!
