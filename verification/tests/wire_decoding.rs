use csi_ingest::csi::{
    get_csi_matrix, get_reading, parse_csi_protobuf, CSIReading, Correlation, CsiMessage,
};
use csi_ingest::error::{ProtobufError, RecvMessageError};
use csi_ingest::handler::{parse_csi, parse_telemetry};
use csi_ingest::hex::{hex_digit, push_upper_hex};
use csi_ingest::telemetry::{parse_telemetry_protobuf, TelemetryMessage, TelemetryReading};
use csi_ingest::wire::{copy_range, read_field, read_varint, to_i32, to_i64, to_u32};

fn varint(mut v: u64) -> Vec<u8> {
    let mut out = Vec::new();
    loop {
        let b = (v & 0x7f) as u8;
        v >>= 7;
        if v == 0 {
            out.push(b);
            return out;
        }
        out.push(b | 0x80);
    }
}

fn varint_field(tag: u32, v: u64) -> Vec<u8> {
    let mut out = varint((tag as u64) << 3);
    out.extend(varint(v));
    out
}

fn bytes_field(tag: u32, data: &[u8]) -> Vec<u8> {
    let mut out = varint(((tag as u64) << 3) | 2);
    out.extend(varint(data.len() as u64));
    out.extend_from_slice(data);
    out
}

fn ramp() -> Vec<u8> {
    (0..128).map(|i| i as u8).collect()
}

fn csi_frame(timestamp: u64, seq: u32, antenna: u32, rssi: i32, noise: i32, mac: &[u8], csi: &[u8]) -> Vec<u8> {
    let mut out = varint_field(1, timestamp);
    out.extend(varint_field(2, seq as u64));
    out.extend(varint_field(3, antenna as u64));
    out.extend(varint_field(4, rssi as i64 as u64));
    out.extend(varint_field(5, noise as i64 as u64));
    out.extend(bytes_field(6, mac));
    out.extend(bytes_field(7, csi));
    out
}

#[test]
fn varint_of_one_byte() {
    assert_eq!(read_varint(&[0x05, 0xff], 0), Ok((5, 1)));
}

#[test]
fn varint_of_two_bytes() {
    assert_eq!(read_varint(&[0xac, 0x02], 0), Ok((300, 2)));
}

#[test]
fn varint_read_from_the_middle() {
    assert_eq!(read_varint(&[0x00, 0x00, 0x96, 0x01, 0x07], 2), Ok((150, 4)));
}

#[test]
fn varint_of_ten_bytes_holds_the_largest_value() {
    let bytes = [0xff, 0xff, 0xff, 0xff, 0xff, 0xff, 0xff, 0xff, 0xff, 0x01];
    assert_eq!(read_varint(&bytes, 0), Ok((u64::MAX, 10)));
}

#[test]
fn varint_whose_tenth_byte_overflows_is_refused() {
    let bytes = [0xff, 0xff, 0xff, 0xff, 0xff, 0xff, 0xff, 0xff, 0xff, 0x02];
    assert_eq!(read_varint(&bytes, 0), Err(ProtobufError::InvalidVarint));
}

#[test]
fn varint_of_eleven_bytes_is_refused() {
    let bytes = [0x80, 0x80, 0x80, 0x80, 0x80, 0x80, 0x80, 0x80, 0x80, 0x80, 0x01];
    assert_eq!(read_varint(&bytes, 0), Err(ProtobufError::InvalidVarint));
}

#[test]
fn varint_cut_short_is_refused() {
    assert_eq!(read_varint(&[0x80, 0x80], 0), Err(ProtobufError::InvalidVarint));
    assert_eq!(read_varint(&[], 0), Err(ProtobufError::InvalidVarint));
    assert_eq!(read_varint(&[0x01], 1), Err(ProtobufError::InvalidVarint));
}

#[test]
fn varint_with_padding_zero_groups_is_read() {
    assert_eq!(read_varint(&[0x81, 0x80, 0x00], 0), Ok((1, 3)));
}

#[test]
fn field_of_each_wire_type() {
    let (f, next) = read_field(&[0x08, 0x96, 0x01], 0).unwrap();
    assert_eq!((f.tag, f.wire_type, f.value, f.data, next), (1, 0, 150, vec![], 3));
    let (f, next) = read_field(&[0x11, 1, 2, 3, 4, 5, 6, 7, 8, 9], 0).unwrap();
    assert_eq!((f.tag, f.wire_type, f.value, f.data, next), (2, 1, 0, vec![1, 2, 3, 4, 5, 6, 7, 8], 9));
    let (f, next) = read_field(&[0x1a, 0x02, 0xaa, 0xbb, 0xcc], 0).unwrap();
    assert_eq!((f.tag, f.wire_type, f.value, f.data, next), (3, 2, 0, vec![0xaa, 0xbb], 4));
    let (f, next) = read_field(&[0x25, 1, 2, 3, 4], 0).unwrap();
    assert_eq!((f.tag, f.wire_type, f.value, f.data, next), (4, 5, 0, vec![1, 2, 3, 4], 5));
}

#[test]
fn group_is_passed_over_as_a_whole() {
    let bytes = [0x0b, 0x08, 0x96, 0x01, 0x13, 0x12, 0x01, 0xaa, 0x14, 0x0c, 0x10, 0x07];
    let (f, next) = read_field(&bytes, 0).unwrap();
    assert_eq!((f.tag, f.wire_type, f.value, f.data, next), (1, 3, 0, vec![], 10));
    let (f, next) = read_field(&[0xff, 0x1b, 0x1c], 1).unwrap();
    assert_eq!((f.tag, f.wire_type, next), (3, 3, 3));
    let mut nested = vec![0x0b; 99];
    nested.extend(vec![0x0c; 99]);
    assert_eq!(read_field(&nested, 0).map(|(_, next)| next), Ok(198));
    let mut too_deep = vec![0x0b; 101];
    too_deep.extend(vec![0x0c; 101]);
    assert_eq!(read_field(&too_deep, 0).err(), Some(ProtobufError::InvalidGroup));
}

#[test]
fn frame_with_an_unknown_group_is_decoded() {
    let mut bytes = varint_field(2, 7);
    bytes.extend(vec![0x4b, 0x08, 0x01, 0x4c]);
    bytes.extend(varint_field(3, 1));
    let msg = parse_csi_protobuf(&bytes).unwrap();
    assert_eq!((msg.sequence_identifier, msg.antenna), (7, 1));
    assert_eq!(
        parse_csi_protobuf(&[0x0b, 0x0c]).err(),
        Some(ProtobufError::UnexpectedWireType)
    );
}

#[test]
fn field_errors() {
    assert_eq!(read_field(&[0x80], 0).err(), Some(ProtobufError::InvalidVarint));
    assert_eq!(
        read_field(&[0x88, 0x80, 0x80, 0x80, 0x10], 0).err(),
        Some(ProtobufError::InvalidKey)
    );
    assert_eq!(read_field(&[0x0e], 0).err(), Some(ProtobufError::InvalidWireType));
    assert_eq!(read_field(&[0x0f], 0).err(), Some(ProtobufError::InvalidWireType));
    assert_eq!(read_field(&[0x00, 0x01], 0).err(), Some(ProtobufError::InvalidTag));
    assert_eq!(read_field(&[0x0b], 0).err(), Some(ProtobufError::InvalidGroup));
    assert_eq!(read_field(&[0x0b, 0x08, 0x01], 0).err(), Some(ProtobufError::InvalidGroup));
    assert_eq!(read_field(&[0x0b, 0x14], 0).err(), Some(ProtobufError::InvalidGroup));
    assert_eq!(read_field(&[0x0c], 0).err(), Some(ProtobufError::UnexpectedEndGroup));
    assert_eq!(read_field(&[0x09, 1, 2, 3], 0).err(), Some(ProtobufError::BufferUnderflow));
    assert_eq!(read_field(&[0x0d, 1, 2, 3], 0).err(), Some(ProtobufError::BufferUnderflow));
    assert_eq!(read_field(&[0x0a, 0x03, 1, 2], 0).err(), Some(ProtobufError::BufferUnderflow));
    assert_eq!(read_field(&[0x0a, 0x80], 0).err(), Some(ProtobufError::InvalidVarint));
    assert_eq!(read_field(&[0x08], 0).err(), Some(ProtobufError::InvalidVarint));
}

#[test]
fn copy_range_copies_the_range() {
    assert_eq!(copy_range(&[1, 2, 3, 4, 5], 1, 4), vec![2, 3, 4]);
    assert_eq!(copy_range(&[1, 2, 3], 3, 3), Vec::<u8>::new());
}

#[test]
fn integer_conversions() {
    assert_eq!(to_u32(0x1_0000_0005), 5);
    assert_eq!(to_u32(u64::MAX), u32::MAX);
    assert_eq!(to_i32(5), 5);
    assert_eq!(to_i32(-50i64 as u64), -50);
    assert_eq!(to_i32(0x8000_0000), i32::MIN);
    assert_eq!(to_i32(0x7fff_ffff), i32::MAX);
    assert_eq!(to_i32(0x1_0000_0001), 1);
    assert_eq!(to_i64(12345), 12345);
    assert_eq!(to_i64(u64::MAX), -1);
    assert_eq!(to_i64(0x8000_0000_0000_0000), i64::MIN);
    assert_eq!(to_i64(0x7fff_ffff_ffff_ffff), i64::MAX);
}

#[test]
fn hex_digits_are_upper_case() {
    assert_eq!(hex_digit(0), "0");
    assert_eq!(hex_digit(9), "9");
    assert_eq!(hex_digit(10), "A");
    assert_eq!(hex_digit(15), "F");
}

#[test]
fn hex_of_a_byte_is_not_padded() {
    let mut out = String::from(">");
    push_upper_hex(&mut out, 0x00);
    push_upper_hex(&mut out, 0x0a);
    push_upper_hex(&mut out, 0x10);
    push_upper_hex(&mut out, 0xab);
    push_upper_hex(&mut out, 0xff);
    assert_eq!(out, ">0A10ABFF");
}

#[test]
fn csi_frame_is_decoded_field_by_field() {
    let mac = [0x00, 0x11, 0x22, 0xaa, 0xbb, 0xcc];
    let bytes = csi_frame(1_700_000_000_123_456, 100, 1, -50, -92, &mac, &ramp());
    let msg = parse_csi_protobuf(&bytes).unwrap();
    assert_eq!(
        msg,
        CsiMessage {
            timestamp: 1_700_000_000_123_456,
            sequence_identifier: 100,
            antenna: 1,
            rssi: -50,
            noise_floor: -92,
            src_mac: mac.to_vec(),
            csi_data: ramp(),
        }
    );
}

#[test]
fn empty_payload_is_the_empty_frame() {
    let msg = parse_csi_protobuf(&[]).unwrap();
    assert_eq!(
        msg,
        CsiMessage {
            timestamp: 0,
            sequence_identifier: 0,
            antenna: 0,
            rssi: 0,
            noise_floor: 0,
            src_mac: vec![],
            csi_data: vec![],
        }
    );
}

#[test]
fn last_value_of_a_field_stands_and_unknown_fields_are_passed_over() {
    let mut bytes = varint_field(2, 7);
    bytes.extend(varint_field(9, 1234));
    bytes.extend(bytes_field(12, &[1, 2, 3]));
    bytes.extend(vec![0x69, 1, 2, 3, 4, 5, 6, 7, 8]);
    bytes.extend(vec![0x75, 1, 2, 3, 4]);
    bytes.extend(varint_field(2, 9));
    let msg = parse_csi_protobuf(&bytes).unwrap();
    assert_eq!(msg.sequence_identifier, 9);
    assert_eq!(msg.timestamp, 0);
}

#[test]
fn known_field_with_another_wire_type_is_refused() {
    assert_eq!(
        parse_csi_protobuf(&bytes_field(1, &[1])).err(),
        Some(ProtobufError::UnexpectedWireType)
    );
    assert_eq!(
        parse_csi_protobuf(&varint_field(7, 1)).err(),
        Some(ProtobufError::UnexpectedWireType)
    );
    assert_eq!(
        parse_telemetry_protobuf(&varint_field(3, 1)).err(),
        Some(ProtobufError::UnexpectedWireType)
    );
    assert_eq!(
        parse_telemetry_protobuf(&bytes_field(8, &[1])).err(),
        Some(ProtobufError::UnexpectedWireType)
    );
}

#[test]
fn malformed_frame_is_a_protobuf_error() {
    assert_eq!(
        parse_csi(&[0x08]).err(),
        Some(RecvMessageError::ProtobufParseError(ProtobufError::InvalidVarint))
    );
    assert_eq!(
        parse_telemetry(&[0x12, 0x05, 1]).err(),
        Some(RecvMessageError::ProtobufParseError(ProtobufError::BufferUnderflow))
    );
}

#[test]
fn matrix_holds_the_squared_magnitudes_of_the_active_subcarriers() {
    let mac = [0, 0, 0, 1, 2, 3];
    let msg = parse_csi_protobuf(&csi_frame(1, 1, 0, -40, 0, &mac, &ramp())).unwrap();
    let matrix = get_csi_matrix(&msg).unwrap();
    assert_eq!(matrix.rssi, -40);
    assert_eq!(matrix.power.len(), 53);
    assert_eq!(matrix.power[0], 4 * 4 + 5 * 5);
    assert_eq!(matrix.power[25], 54 * 54 + 55 * 55);
    assert_eq!(matrix.power[26], 74 * 74 + 75 * 75);
    assert_eq!(matrix.power[52], 126 * 126 + 127 * 127);
    for dest in 0..53usize {
        let k = if dest < 26 { dest + 2 } else { dest + 11 };
        let expected = (2 * k) * (2 * k) + (2 * k + 1) * (2 * k + 1);
        assert_eq!(matrix.power[dest] as usize, expected);
    }
}

#[test]
fn matrix_reads_bytes_as_signed() {
    let mut csi = vec![0u8; 128];
    csi[4] = 0xff;
    csi[5] = 0x80;
    csi[126] = 0x7f;
    csi[127] = 0xfe;
    let msg = CsiMessage {
        timestamp: 0,
        sequence_identifier: 0,
        antenna: 0,
        rssi: 0,
        noise_floor: 0,
        src_mac: vec![0; 6],
        csi_data: csi,
    };
    let matrix = get_csi_matrix(&msg).unwrap();
    assert_eq!(matrix.power[0], 1 + 128 * 128);
    assert_eq!(matrix.power[1], 0);
    assert_eq!(matrix.power[52], 127 * 127 + 4);
}

#[test]
fn csi_data_of_127_bytes_has_no_matrix() {
    let mac = [0, 0, 0, 1, 2, 3];
    let bytes = csi_frame(1, 1, 0, -40, 0, &mac, &ramp()[..127]);
    let msg = parse_csi_protobuf(&bytes).unwrap();
    assert_eq!(get_csi_matrix(&msg).err(), Some(RecvMessageError::CSIMatrixParseError));
    assert_eq!(get_reading(&msg).err(), Some(RecvMessageError::CSIMatrixParseError));
    assert_eq!(parse_csi(&bytes).err(), Some(RecvMessageError::CSIMatrixParseError));
}

#[test]
fn csi_data_of_129_bytes_has_no_matrix() {
    let mut csi = ramp();
    csi.push(0);
    let bytes = csi_frame(1, 1, 0, -40, 0, &[0, 0, 0, 1, 2, 3], &csi);
    assert_eq!(parse_csi(&bytes).err(), Some(RecvMessageError::CSIMatrixParseError));
}

#[test]
fn reading_of_a_frame() {
    let mac = [0x00, 0x11, 0x22, 0xaa, 0x0b, 0xc0];
    let bytes = csi_frame(77, 65535, 127, -128, -92, &mac, &ramp());
    let reading = parse_csi(&bytes).unwrap();
    let matrix = get_csi_matrix(&parse_csi_protobuf(&bytes).unwrap()).unwrap();
    assert_eq!(
        reading,
        CSIReading {
            timestamp_us: 77,
            rssi: -128,
            noise_floor: -92,
            correlation_coefficient: Correlation::Zero,
            sequence_identifier: 65535,
            interval: 1,
            mac: String::from("AABC0"),
            antenna: 127,
            csi_matrix: matrix,
        }
    );
}

#[test]
fn noise_floor_is_cut_to_eight_bits() {
    let mac = [0, 0, 0, 0, 0, 0];
    let reading = parse_csi(&csi_frame(1, 1, 0, 0, 200, &mac, &ramp())).unwrap();
    assert_eq!(reading.noise_floor, -56);
    let reading = parse_csi(&csi_frame(1, 1, 0, 0, -129, &mac, &ramp())).unwrap();
    assert_eq!(reading.noise_floor, 127);
    let reading = parse_csi(&csi_frame(1, 1, 0, 0, 127, &mac, &ramp())).unwrap();
    assert_eq!(reading.noise_floor, 127);
    assert_eq!(reading.mac, "000");
}

#[test]
fn frame_with_a_field_out_of_range_has_no_reading() {
    let mac = [0, 0, 0, 1, 2, 3];
    let cases = vec![
        csi_frame(1, 65536, 0, 0, 0, &mac, &ramp()),
        csi_frame(1, 1, 128, 0, 0, &mac, &ramp()),
        csi_frame(1, 1, 0, 128, 0, &mac, &ramp()),
        csi_frame(1, 1, 0, -129, 0, &mac, &ramp()),
        csi_frame(1, 1, 0, 0, 0, &mac[..5], &ramp()),
        csi_frame(1, 1, 0, 0, 0, &mac[..5], &ramp()[..10]),
    ];
    for bytes in cases {
        assert_eq!(parse_csi(&bytes).err(), Some(RecvMessageError::CSIReadingGenerateError));
    }
}

fn telemetry_frame(mac: &[u8], version: &[u8], seq: u32, uptime: i64, eth: bool) -> Vec<u8> {
    let mut out = varint_field(1, 424242);
    out.extend(bytes_field(2, mac));
    out.extend(bytes_field(3, version));
    out.extend(varint_field(4, 2));
    out.extend(varint_field(5, -3i64 as u64));
    out.extend(varint_field(6, seq as u64));
    out.extend(varint_field(7, uptime as u64));
    out.extend(varint_field(8, eth as u64));
    out
}

#[test]
fn telemetry_frame_is_decoded_field_by_field() {
    let mac = [0, 0, 0, 0, 0, 0xab];
    let bytes = telemetry_frame(&mac, "v1.2-\u{e9}".as_bytes(), 40000, -5, true);
    let msg = parse_telemetry_protobuf(&bytes).unwrap();
    assert_eq!(
        msg,
        TelemetryMessage {
            timestamp: 424242,
            device_mac: mac.to_vec(),
            version: String::from("v1.2-\u{e9}"),
            device_type: 2,
            message_type: -3,
            current_sequence_identifier: 40000,
            uptime_ms: -5,
            is_eth: true,
        }
    );
}

#[test]
fn telemetry_reading_of_a_frame() {
    let mac = [0, 0, 0, 0, 0, 0xab];
    let bytes = telemetry_frame(&mac, b"1.0.3", 40000, 12345, false);
    assert_eq!(
        parse_telemetry(&bytes),
        Ok(TelemetryReading {
            timestamp_us: 424242,
            current_sequence_identifier: 40000u32 as u16 as i16,
            uptime_ms: 12345,
            device_mac: String::from("0xAB"),
            version: String::from("1.0.3"),
            device_type: 2,
            message_type: -3,
            is_eth: false,
        })
    );
    assert_eq!(40000u32 as u16 as i16, -25536);
}

#[test]
fn telemetry_tag_of_a_small_byte_has_one_digit() {
    let bytes = telemetry_frame(&[9, 9, 9, 9, 9, 0x07, 0xff], b"", 1, 1, false);
    assert_eq!(parse_telemetry(&bytes).unwrap().device_mac, "0x7");
}

#[test]
fn telemetry_version_must_be_utf8() {
    let bytes = telemetry_frame(&[0; 6], &[0x76, 0xff, 0x31], 1, 1, false);
    assert_eq!(
        parse_telemetry_protobuf(&bytes).err(),
        Some(ProtobufError::InvalidString)
    );
    let bytes = telemetry_frame(&[0; 6], &[0xc3], 1, 1, false);
    assert_eq!(
        parse_telemetry(&bytes).err(),
        Some(RecvMessageError::ProtobufParseError(ProtobufError::InvalidString))
    );
}

#[test]
fn telemetry_with_a_short_address_has_no_reading() {
    let bytes = telemetry_frame(&[1, 2, 3, 4, 5], b"1", 1, 1, false);
    assert_eq!(
        parse_telemetry(&bytes).err(),
        Some(RecvMessageError::TelemetryReadingGenerateError)
    );
    assert_eq!(
        parse_telemetry(&[]).err(),
        Some(RecvMessageError::TelemetryReadingGenerateError)
    );
}
