use vstd::prelude::*;
use vstd::string::StringExecFns;
use vstd::utf8::{decode_utf8, valid_utf8};
use crate::csi::{low_byte, wrap_i8};
use crate::error::{ProtobufError, RecvMessageError};
use crate::hex::{push_upper_hex, upper_hex};
use crate::wire::{
    field_at, low_i32, low_u32, read_field, signed_i64, to_i32, to_i64, to_u32, Field, FieldView,
    WIRE_LENGTH_DELIMITED, WIRE_VARINT,
};

verus! {

/// A decoded telemetry frame. On the wire its fields are numbered in this
/// order, from one: address and version are length-delimited, the others
/// varints.
#[derive(Debug, PartialEq, Eq)]
pub struct TelemetryMessage {
    pub timestamp: u64,
    pub device_mac: Vec<u8>,
    pub version: String,
    pub device_type: i32,
    pub message_type: i32,
    pub current_sequence_identifier: u32,
    pub uptime_ms: i64,
    pub is_eth: bool,
}

pub struct TelemetryMessageView {
    pub timestamp: u64,
    pub device_mac: Seq<u8>,
    pub version: Seq<char>,
    pub device_type: i32,
    pub message_type: i32,
    pub current_sequence_identifier: u32,
    pub uptime_ms: i64,
    pub is_eth: bool,
}

impl View for TelemetryMessage {
    type V = TelemetryMessageView;

    open spec fn view(&self) -> TelemetryMessageView {
        TelemetryMessageView {
            timestamp: self.timestamp,
            device_mac: self.device_mac@,
            version: self.version@,
            device_type: self.device_type,
            message_type: self.message_type,
            current_sequence_identifier: self.current_sequence_identifier,
            uptime_ms: self.uptime_ms,
            is_eth: self.is_eth,
        }
    }
}

/// The frame in which no field was set.
pub open spec fn empty_telemetry_message() -> TelemetryMessageView {
    TelemetryMessageView {
        timestamp: 0,
        device_mac: Seq::empty(),
        version: Seq::empty(),
        device_type: 0,
        message_type: 0,
        current_sequence_identifier: 0,
        uptime_ms: 0,
        is_eth: false,
    }
}

/// A frame after one more field was read: a known field replaces the
/// earlier value and must come with its own wire type, a version must be
/// UTF-8, and an unknown field is passed over.
pub open spec fn telemetry_merge(msg: TelemetryMessageView, f: FieldView) -> Result<
    TelemetryMessageView,
    ProtobufError,
> {
    if f.tag == 2 || f.tag == 3 {
        if f.wire_type != WIRE_LENGTH_DELIMITED {
            Err(ProtobufError::UnexpectedWireType)
        } else if f.tag == 2 {
            Ok(TelemetryMessageView { device_mac: f.data, ..msg })
        } else if valid_utf8(f.data) {
            Ok(TelemetryMessageView { version: decode_utf8(f.data), ..msg })
        } else {
            Err(ProtobufError::InvalidString)
        }
    } else if 1 <= f.tag <= 8 {
        if f.wire_type != WIRE_VARINT {
            Err(ProtobufError::UnexpectedWireType)
        } else if f.tag == 1 {
            Ok(TelemetryMessageView { timestamp: f.value, ..msg })
        } else if f.tag == 4 {
            Ok(TelemetryMessageView { device_type: low_i32(f.value), ..msg })
        } else if f.tag == 5 {
            Ok(TelemetryMessageView { message_type: low_i32(f.value), ..msg })
        } else if f.tag == 6 {
            Ok(TelemetryMessageView { current_sequence_identifier: low_u32(f.value), ..msg })
        } else if f.tag == 7 {
            Ok(TelemetryMessageView { uptime_ms: signed_i64(f.value), ..msg })
        } else {
            Ok(TelemetryMessageView { is_eth: f.value != 0, ..msg })
        }
    } else {
        Ok(msg)
    }
}

/// The frame that `bytes` hold, read field by field onto `msg`.
pub open spec fn telemetry_decode_from(bytes: Seq<u8>, msg: TelemetryMessageView) -> Result<
    TelemetryMessageView,
    ProtobufError,
>
    decreases bytes.len(),
{
    if bytes.len() == 0 {
        Ok(msg)
    } else {
        match field_at(bytes) {
            Err(e) => Err(e),
            Ok((f, n)) => match telemetry_merge(msg, f) {
                Err(e) => Err(e),
                Ok(merged) => if 1 <= n <= bytes.len() {
                    telemetry_decode_from(bytes.skip(n as int), merged)
                } else {
                    Ok(merged)
                },
            },
        }
    }
}

/// The telemetry frame that a protobuf payload holds.
pub open spec fn telemetry_decode(bytes: Seq<u8>) -> Result<TelemetryMessageView, ProtobufError> {
    telemetry_decode_from(bytes, empty_telemetry_message())
}

/// Calls `String::from_utf8`. Claimed of it: bytes that are valid UTF-8
/// give the string they encode, any others give nothing.
#[verifier::external_body]
fn utf8_text(bytes: Vec<u8>) -> (r: Option<String>)
    ensures
        match r {
            Some(s) => valid_utf8(bytes@) && s@ == decode_utf8(bytes@),
            None => !valid_utf8(bytes@),
        },
{
    match String::from_utf8(bytes) {
        Ok(s) => Some(s),
        Err(_) => None,
    }
}

fn merge_telemetry_field(msg: TelemetryMessage, field: Field) -> (r: Result<
    TelemetryMessage,
    ProtobufError,
>)
    ensures
        match telemetry_merge(msg@, field@) {
            Ok(m) => r matches Ok(merged) && merged@ == m,
            Err(e) => r matches Err(err) && err == e,
        },
{
    let mut msg = msg;
    if field.tag == 2 || field.tag == 3 {
        if field.wire_type != WIRE_LENGTH_DELIMITED {
            return Err(ProtobufError::UnexpectedWireType);
        }
        if field.tag == 2 {
            msg.device_mac = field.data;
        } else {
            match utf8_text(field.data) {
                Some(version) => {
                    msg.version = version;
                },
                None => {
                    return Err(ProtobufError::InvalidString);
                },
            }
        }
        Ok(msg)
    } else if 1 <= field.tag && field.tag <= 8 {
        if field.wire_type != WIRE_VARINT {
            return Err(ProtobufError::UnexpectedWireType);
        }
        if field.tag == 1 {
            msg.timestamp = field.value;
        } else if field.tag == 4 {
            msg.device_type = to_i32(field.value);
        } else if field.tag == 5 {
            msg.message_type = to_i32(field.value);
        } else if field.tag == 6 {
            msg.current_sequence_identifier = to_u32(field.value);
        } else if field.tag == 7 {
            msg.uptime_ms = to_i64(field.value);
        } else {
            msg.is_eth = field.value != 0;
        }
        Ok(msg)
    } else {
        Ok(msg)
    }
}

/// Decodes a telemetry frame from its protobuf encoding. Fields may come
/// in any order and more than once; the last value of a field stands.
pub fn parse_telemetry_protobuf(expected_protobuf: &[u8]) -> (r: Result<
    TelemetryMessage,
    ProtobufError,
>)
    ensures
        match telemetry_decode(expected_protobuf@) {
            Ok(m) => r matches Ok(msg) && msg@ == m,
            Err(e) => r matches Err(err) && err == e,
        },
{
    let mut msg = TelemetryMessage {
        timestamp: 0,
        device_mac: Vec::new(),
        version: String::new(),
        device_type: 0,
        message_type: 0,
        current_sequence_identifier: 0,
        uptime_ms: 0,
        is_eth: false,
    };
    let mut pos: usize = 0;
    assert(expected_protobuf@.skip(0) =~= expected_protobuf@);
    while pos < expected_protobuf.len()
        invariant
            pos <= expected_protobuf@.len(),
            telemetry_decode(expected_protobuf@) == telemetry_decode_from(
                expected_protobuf@.skip(pos as int),
                msg@,
            ),
        decreases expected_protobuf@.len() - pos,
    {
        let ghost rest = expected_protobuf@.skip(pos as int);
        match read_field(expected_protobuf, pos) {
            Err(e) => {
                return Err(e);
            },
            Ok((field, next)) => {
                assert(rest.skip(next - pos) =~= expected_protobuf@.skip(next as int));
                match merge_telemetry_field(msg, field) {
                    Err(e) => {
                        return Err(e);
                    },
                    Ok(merged) => {
                        msg = merged;
                    },
                }
                pos = next;
            },
        }
    }
    Ok(msg)
}

/// One heartbeat of a sensor, as it is emitted.
#[derive(Debug, PartialEq, Eq)]
pub struct TelemetryReading {
    pub timestamp_us: u64,
    pub current_sequence_identifier: i16,
    pub uptime_ms: i64,
    pub device_mac: String,
    pub version: String,
    pub device_type: i8,
    pub message_type: i8,
    pub is_eth: bool,
}

pub struct TelemetryReadingView {
    pub timestamp_us: u64,
    pub current_sequence_identifier: i16,
    pub uptime_ms: i64,
    pub device_mac: Seq<char>,
    pub version: Seq<char>,
    pub device_type: i8,
    pub message_type: i8,
    pub is_eth: bool,
}

impl View for TelemetryReading {
    type V = TelemetryReadingView;

    open spec fn view(&self) -> TelemetryReadingView {
        TelemetryReadingView {
            timestamp_us: self.timestamp_us,
            current_sequence_identifier: self.current_sequence_identifier,
            uptime_ms: self.uptime_ms,
            device_mac: self.device_mac@,
            version: self.version@,
            device_type: self.device_type,
            message_type: self.message_type,
            is_eth: self.is_eth,
        }
    }
}

/// A number cut to its low sixteen bits, read in two's complement.
pub open spec fn wrap_i16(v: u32) -> i16 {
    let m = (v as int) % 65536;
    if m < 32768 {
        m as i16
    } else {
        (m - 65536) as i16
    }
}

/// The tag of a device: `0x` and the last byte of its address in
/// upper-case hexadecimal, without padding.
pub open spec fn device_tag(mac: Seq<u8>) -> Seq<char> {
    seq!['0', 'x'] + upper_hex(mac[5])
}

/// The reading of a telemetry frame whose address has six bytes or more.
pub open spec fn telemetry_reading_of(msg: TelemetryMessageView) -> TelemetryReadingView {
    TelemetryReadingView {
        timestamp_us: msg.timestamp,
        current_sequence_identifier: wrap_i16(msg.current_sequence_identifier),
        uptime_ms: msg.uptime_ms,
        device_mac: device_tag(msg.device_mac),
        version: msg.version,
        device_type: wrap_i8(msg.device_type) as i8,
        message_type: wrap_i8(msg.message_type) as i8,
        is_eth: msg.is_eth,
    }
}

fn low_word(v: u32) -> (r: i16)
    ensures
        r == wrap_i16(v),
{
    let m: u32 = v % 65536;
    if m < 32768 {
        m as i16
    } else {
        (m as i32 - 65536) as i16
    }
}

impl TelemetryReading {
    /// The reading of a frame that has one.
    pub fn new(msg: &TelemetryMessage) -> (r: Self)
        requires
            msg@.device_mac.len() >= 6,
        ensures
            r@ == telemetry_reading_of(msg@),
    {
        proof {
            reveal_strlit("0x");
        }
        let mut device_mac = String::from_str("0x");
        assert(device_mac@ =~= seq!['0', 'x']);
        push_upper_hex(&mut device_mac, msg.device_mac[5]);
        TelemetryReading {
            timestamp_us: msg.timestamp,
            current_sequence_identifier: low_word(msg.current_sequence_identifier),
            uptime_ms: msg.uptime_ms,
            device_mac,
            version: msg.version.clone(),
            device_type: low_byte(msg.device_type) as i8,
            message_type: low_byte(msg.message_type) as i8,
            is_eth: msg.is_eth,
        }
    }
}

/// Builds the reading of a telemetry frame. A frame whose address has
/// fewer than six bytes has none.
pub fn get_reading(msg: &TelemetryMessage) -> (r: Result<TelemetryReading, RecvMessageError>)
    ensures
        msg@.device_mac.len() >= 6 ==> (r matches Ok(reading) && reading@ == telemetry_reading_of(
            msg@,
        )),
        msg@.device_mac.len() < 6 ==> r matches Err(RecvMessageError::TelemetryReadingGenerateError),
{
    if msg.device_mac.len() < 6 {
        Err(RecvMessageError::TelemetryReadingGenerateError)
    } else {
        Ok(TelemetryReading::new(msg))
    }
}

} // verus!
