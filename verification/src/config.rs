use vstd::prelude::*;
use vstd::string::StringExecFns;
use crate::decimal::{decimal, push_decimal};
use crate::window::MAX_WINDOW_SIZE;

verus! {

/// Settings of the per-sender window.
#[derive(Clone, Debug)]
pub struct Buffer {
    pub window_size: usize,
}

/// Settings of the datagram endpoint and of the batch framing.
#[derive(Clone, Debug)]
pub struct Message {
    pub address: String,
    pub csi_frame_size: i16,
    pub port: u16,
}

/// Settings of the time-series sink.
#[derive(Clone, Debug)]
pub struct Influx {
    pub protocol: String,
    pub address: String,
    pub port: i16,
    pub write_batch_size: i32,
    pub database: String,
    pub csi_metrics_measurement: String,
    pub sensor_telemetry_measurement: String,
}

impl Influx {
    /// The address of the sink: protocol, host and port.
    pub open spec fn spec_url(&self) -> Seq<char> {
        self.protocol@ + seq![':', '/', '/'] + self.address@ + seq![':'] + decimal(
            self.port as int,
        )
    }

    pub fn url(&self) -> (url: String)
        ensures
            url@ == self.spec_url(),
    {
        proof {
            reveal_strlit("://");
            reveal_strlit(":");
        }
        let mut url = self.protocol.clone();
        url.append("://");
        url.append(self.address.as_str());
        url.append(":");
        push_decimal(&mut url, self.port as i32);
        url
    }
}

/// The configuration snapshot taken at startup.
#[derive(Clone, Debug)]
pub struct AppConfig {
    pub buffer: Buffer,
    pub message: Message,
    pub influx: Influx,
}

impl AppConfig {
    /// A configuration can be run with when its window is not above the
    /// largest one supported and neither its frame size nor its batch size
    /// is negative.
    pub open spec fn valid(&self) -> bool {
        &&& self.buffer.window_size <= MAX_WINDOW_SIZE
        &&& self.message.csi_frame_size >= 0
        &&& self.influx.write_batch_size >= 0
    }

    /// The settings of the sink.
    pub fn get_influx(&self) -> (influx: &Influx)
        ensures
            influx == &self.influx,
    {
        &self.influx
    }

    pub fn is_valid(&self) -> (ok: bool)
        ensures
            ok == self.valid(),
    {
        self.buffer.window_size <= MAX_WINDOW_SIZE && self.message.csi_frame_size >= 0
            && self.influx.write_batch_size >= 0
    }

    /// Bytes in one slot of an inflated batch: a length byte and room for
    /// one frame.
    pub fn slot_size(&self) -> (size: usize)
        requires
            self.message.csi_frame_size >= 0,
        ensures
            size == self.message.csi_frame_size + 1,
    {
        self.message.csi_frame_size as usize + 1
    }

    /// Number of buffered records above which a flush is asked for.
    pub fn batch_threshold(&self) -> (threshold: usize)
        requires
            self.influx.write_batch_size >= 0,
        ensures
            threshold == self.influx.write_batch_size,
    {
        self.influx.write_batch_size as usize
    }
}

} // verus!
