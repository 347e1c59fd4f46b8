use csi_ingest::config::{AppConfig, Buffer, Influx, Message};
use csi_ingest::decimal::{push_decimal, push_digits};
use csi_ingest::error::RecvMessageError;
use csi_ingest::record::{Batch, DerivedRecord};
use csi_ingest::store::FrameMap;
use csi_ingest::worker::{flush_step, process_datagram};

fn varint(mut v: u64) -> Vec<u8> {
    let mut out = Vec::new();
    loop {
        let b = (v & 0x7f) as u8;
        v >>= 7;
        if v == 0 {
            out.push(b);
            return out;
        }
        out.push(b | 0x80);
    }
}

fn varint_field(tag: u32, v: u64) -> Vec<u8> {
    let mut out = varint((tag as u64) << 3);
    out.extend(varint(v));
    out
}

fn bytes_field(tag: u32, data: &[u8]) -> Vec<u8> {
    let mut out = varint(((tag as u64) << 3) | 2);
    out.extend(varint(data.len() as u64));
    out.extend_from_slice(data);
    out
}

fn csi_datagram(seq: u32) -> Vec<u8> {
    let mut out = vec![0x02];
    out.extend(varint_field(1, 1000 + seq as u64));
    out.extend(varint_field(2, seq as u64));
    out.extend(bytes_field(6, &[1, 2, 3, 4, 5, 6]));
    out.extend(bytes_field(7, &[7u8; 128]));
    out
}

fn config(write_batch_size: i32) -> AppConfig {
    AppConfig {
        buffer: Buffer { window_size: 8 },
        message: Message { address: String::from("0.0.0.0"), csi_frame_size: 145, port: 6969 },
        influx: Influx {
            protocol: String::from("http"),
            address: String::from("influx.local"),
            port: 8086,
            write_batch_size,
            database: String::from("csi"),
            csi_metrics_measurement: String::from("csi_metrics"),
            sensor_telemetry_measurement: String::from("sensor_telemetry"),
        },
    }
}

fn receive(datagram: &[u8]) -> [u8; 2000] {
    let mut buf = [0u8; 2000];
    buf[..datagram.len()].copy_from_slice(datagram);
    buf
}

fn sequence_of(record: &DerivedRecord) -> u16 {
    match record {
        DerivedRecord::Csi { reading, .. } => reading.sequence_identifier,
        DerivedRecord::Telemetry { .. } => panic!("a CSI record was expected"),
    }
}

#[test]
fn worker_adds_records_and_asks_for_a_flush_above_the_threshold() {
    let cfg = config(2);
    let mut f = FrameMap::new(cfg.buffer.window_size).unwrap();
    let mut batch = Batch::new(cfg.batch_threshold());
    for seq in 1..=2u32 {
        let d = csi_datagram(seq);
        let r = process_datagram(&receive(&d), d.len(), String::from("a"), &mut f, &cfg, &mut batch);
        assert_eq!(r, Ok(false));
    }
    let d = csi_datagram(3);
    let r = process_datagram(&receive(&d), d.len(), String::from("a"), &mut f, &cfg, &mut batch);
    assert_eq!(r, Ok(true));
    assert_eq!(batch.len(), 3);
    let taken = flush_step(true, &mut batch).unwrap();
    assert_eq!(taken.iter().map(sequence_of).collect::<Vec<u16>>(), vec![1, 2, 3]);
    assert_eq!(batch.len(), 0);
}

#[test]
fn worker_drops_a_datagram_of_unknown_format() {
    let cfg = config(2);
    let mut f = FrameMap::new(cfg.buffer.window_size).unwrap();
    let mut batch = Batch::new(cfg.batch_threshold());
    let d = csi_datagram(10);
    process_datagram(&receive(&d), d.len(), String::from("a"), &mut f, &cfg, &mut batch).unwrap();
    let mut unknown = csi_datagram(11);
    unknown[0] = 0x09;
    let r = process_datagram(
        &receive(&unknown),
        unknown.len(),
        String::from("10.1.1.1:40000"),
        &mut f,
        &cfg,
        &mut batch,
    );
    assert_eq!(
        r,
        Err(RecvMessageError::MessageFormatDecodeError(
            0x09,
            String::from("10.1.1.1:40000"),
            unknown.len()
        ))
    );
    assert_eq!(batch.len(), 1);
    let d = csi_datagram(12);
    process_datagram(&receive(&d), d.len(), String::from("a"), &mut f, &cfg, &mut batch).unwrap();
    let taken = flush_step(true, &mut batch).unwrap();
    match &taken[1] {
        DerivedRecord::Csi { reading, .. } => assert_eq!(reading.interval, 2),
        DerivedRecord::Telemetry { .. } => panic!("a CSI record was expected"),
    }
}

#[test]
fn worker_drops_a_malformed_or_empty_datagram() {
    let cfg = config(2);
    let mut f = FrameMap::new(cfg.buffer.window_size).unwrap();
    let mut batch = Batch::new(cfg.batch_threshold());
    let mut short = csi_datagram(1);
    short.pop();
    let r = process_datagram(&receive(&short), short.len(), String::from("a"), &mut f, &cfg, &mut batch);
    assert!(matches!(r, Err(RecvMessageError::ProtobufParseError(_))));
    let r = process_datagram(&receive(&[]), 0, String::from("a"), &mut f, &cfg, &mut batch);
    assert_eq!(r, Err(RecvMessageError::MessageTypeDecodeError));
    let r = process_datagram(&receive(&[0x03, 0x00]), 2, String::from("a"), &mut f, &cfg, &mut batch);
    assert_eq!(r, Err(RecvMessageError::MessageDecompressionError));
    let r = process_datagram(&receive(&[0x01]), 1, String::from("a"), &mut f, &cfg, &mut batch);
    assert_eq!(r, Err(RecvMessageError::TelemetryReadingGenerateError));
    assert_eq!(batch.len(), 0);
}

#[test]
fn flusher_leaves_the_batch_alone_without_a_signal() {
    let cfg = config(0);
    let mut f = FrameMap::new(cfg.buffer.window_size).unwrap();
    let mut batch = Batch::new(cfg.batch_threshold());
    let d = csi_datagram(1);
    let r = process_datagram(&receive(&d), d.len(), String::from("a"), &mut f, &cfg, &mut batch);
    assert_eq!(r, Ok(true));
    assert_eq!(flush_step(false, &mut batch), None);
    assert_eq!(batch.len(), 1);
    assert_eq!(flush_step(true, &mut batch).map(|taken| taken.len()), Some(1));
    assert_eq!(flush_step(true, &mut batch), Some(vec![]));
}

#[test]
fn sink_address() {
    let mut cfg = config(1000);
    assert_eq!(cfg.get_influx().url(), "http://influx.local:8086");
    assert_eq!(cfg.get_influx().database, "csi");
    cfg.influx.port = 0;
    assert_eq!(cfg.influx.url(), "http://influx.local:0");
    cfg.influx.port = -32768;
    cfg.influx.protocol = String::from("https");
    assert_eq!(cfg.influx.url(), "https://influx.local:-32768");
    cfg.influx.port = 32767;
    assert_eq!(cfg.influx.url(), "https://influx.local:32767");
}

#[test]
fn decimal_numbers() {
    let mut out = String::new();
    push_digits(&mut out, 0);
    out.push(' ');
    push_digits(&mut out, 9);
    out.push(' ');
    push_digits(&mut out, 10);
    out.push(' ');
    push_digits(&mut out, 4_294_967_295);
    out.push(' ');
    push_decimal(&mut out, -1);
    out.push(' ');
    push_decimal(&mut out, i32::MIN);
    out.push(' ');
    push_decimal(&mut out, i32::MAX);
    out.push(' ');
    push_decimal(&mut out, 1005);
    assert_eq!(out, "0 9 10 4294967295 -1 -2147483648 2147483647 1005");
}
