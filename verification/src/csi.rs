use vstd::prelude::*;
use crate::error::{ProtobufError, RecvMessageError};
use crate::hex::{push_upper_hex, upper_hex};
use crate::wire::{
    field_at, low_i32, low_u32, read_field, to_i32, to_u32, Field, FieldView,
    WIRE_LENGTH_DELIMITED, WIRE_VARINT,
};

verus! {

/// Subcarriers that carry signal: 2 to 27 and 37 to 63.
pub const ACTIVE_SUBCARRIERS: usize = 53;

/// Bytes in the `csi_data` of a frame: 64 pairs of imaginary and real part.
pub const CSI_DATA_LENGTH: usize = 128;

/// Largest sequence identifier a sensor sends.
pub const MAX_SEQUENCE_IDENTIFIER: u32 = 65535;

/// A decoded CSI frame. On the wire its fields are numbered in this order,
/// from one: the first five are varints, the last two length-delimited.
#[derive(Debug, PartialEq, Eq)]
pub struct CsiMessage {
    pub timestamp: u64,
    pub sequence_identifier: u32,
    pub antenna: u32,
    pub rssi: i32,
    pub noise_floor: i32,
    pub src_mac: Vec<u8>,
    pub csi_data: Vec<u8>,
}

pub struct CsiMessageView {
    pub timestamp: u64,
    pub sequence_identifier: u32,
    pub antenna: u32,
    pub rssi: i32,
    pub noise_floor: i32,
    pub src_mac: Seq<u8>,
    pub csi_data: Seq<u8>,
}

impl View for CsiMessage {
    type V = CsiMessageView;

    open spec fn view(&self) -> CsiMessageView {
        CsiMessageView {
            timestamp: self.timestamp,
            sequence_identifier: self.sequence_identifier,
            antenna: self.antenna,
            rssi: self.rssi,
            noise_floor: self.noise_floor,
            src_mac: self.src_mac@,
            csi_data: self.csi_data@,
        }
    }
}

/// The frame in which no field was set.
pub open spec fn empty_csi_message() -> CsiMessageView {
    CsiMessageView {
        timestamp: 0,
        sequence_identifier: 0,
        antenna: 0,
        rssi: 0,
        noise_floor: 0,
        src_mac: Seq::empty(),
        csi_data: Seq::empty(),
    }
}

/// A frame after one more field was read: a known field replaces the
/// earlier value and must come with its own wire type, an unknown one is
/// passed over.
pub open spec fn csi_merge(msg: CsiMessageView, f: FieldView) -> Result<
    CsiMessageView,
    ProtobufError,
> {
    if 1 <= f.tag <= 5 {
        if f.wire_type != WIRE_VARINT {
            Err(ProtobufError::UnexpectedWireType)
        } else if f.tag == 1 {
            Ok(CsiMessageView { timestamp: f.value, ..msg })
        } else if f.tag == 2 {
            Ok(CsiMessageView { sequence_identifier: low_u32(f.value), ..msg })
        } else if f.tag == 3 {
            Ok(CsiMessageView { antenna: low_u32(f.value), ..msg })
        } else if f.tag == 4 {
            Ok(CsiMessageView { rssi: low_i32(f.value), ..msg })
        } else {
            Ok(CsiMessageView { noise_floor: low_i32(f.value), ..msg })
        }
    } else if f.tag == 6 || f.tag == 7 {
        if f.wire_type != WIRE_LENGTH_DELIMITED {
            Err(ProtobufError::UnexpectedWireType)
        } else if f.tag == 6 {
            Ok(CsiMessageView { src_mac: f.data, ..msg })
        } else {
            Ok(CsiMessageView { csi_data: f.data, ..msg })
        }
    } else {
        Ok(msg)
    }
}

/// The frame that `bytes` hold, read field by field onto `msg`.
pub open spec fn csi_decode_from(bytes: Seq<u8>, msg: CsiMessageView) -> Result<
    CsiMessageView,
    ProtobufError,
>
    decreases bytes.len(),
{
    if bytes.len() == 0 {
        Ok(msg)
    } else {
        match field_at(bytes) {
            Err(e) => Err(e),
            Ok((f, n)) => match csi_merge(msg, f) {
                Err(e) => Err(e),
                Ok(merged) => if 1 <= n <= bytes.len() {
                    csi_decode_from(bytes.skip(n as int), merged)
                } else {
                    Ok(merged)
                },
            },
        }
    }
}

/// The CSI frame that a protobuf payload holds.
pub open spec fn csi_decode(bytes: Seq<u8>) -> Result<CsiMessageView, ProtobufError> {
    csi_decode_from(bytes, empty_csi_message())
}

fn merge_csi_field(msg: CsiMessage, field: Field) -> (r: Result<CsiMessage, ProtobufError>)
    ensures
        match csi_merge(msg@, field@) {
            Ok(m) => r matches Ok(merged) && merged@ == m,
            Err(e) => r matches Err(err) && err == e,
        },
{
    let mut msg = msg;
    if 1 <= field.tag && field.tag <= 5 {
        if field.wire_type != WIRE_VARINT {
            return Err(ProtobufError::UnexpectedWireType);
        }
        if field.tag == 1 {
            msg.timestamp = field.value;
        } else if field.tag == 2 {
            msg.sequence_identifier = to_u32(field.value);
        } else if field.tag == 3 {
            msg.antenna = to_u32(field.value);
        } else if field.tag == 4 {
            msg.rssi = to_i32(field.value);
        } else {
            msg.noise_floor = to_i32(field.value);
        }
        Ok(msg)
    } else if field.tag == 6 || field.tag == 7 {
        if field.wire_type != WIRE_LENGTH_DELIMITED {
            return Err(ProtobufError::UnexpectedWireType);
        }
        if field.tag == 6 {
            msg.src_mac = field.data;
        } else {
            msg.csi_data = field.data;
        }
        Ok(msg)
    } else {
        Ok(msg)
    }
}

/// Decodes a CSI frame from its protobuf encoding. Fields may come in any
/// order and more than once; the last value of a field stands.
pub fn parse_csi_protobuf(expected_protobuf: &[u8]) -> (r: Result<CsiMessage, ProtobufError>)
    ensures
        match csi_decode(expected_protobuf@) {
            Ok(m) => r matches Ok(msg) && msg@ == m,
            Err(e) => r matches Err(err) && err == e,
        },
{
    let mut msg = CsiMessage {
        timestamp: 0,
        sequence_identifier: 0,
        antenna: 0,
        rssi: 0,
        noise_floor: 0,
        src_mac: Vec::new(),
        csi_data: Vec::new(),
    };
    let mut pos: usize = 0;
    assert(expected_protobuf@.skip(0) =~= expected_protobuf@);
    while pos < expected_protobuf.len()
        invariant
            pos <= expected_protobuf@.len(),
            csi_decode(expected_protobuf@) == csi_decode_from(
                expected_protobuf@.skip(pos as int),
                msg@,
            ),
        decreases expected_protobuf@.len() - pos,
    {
        let ghost rest = expected_protobuf@.skip(pos as int);
        match read_field(expected_protobuf, pos) {
            Err(e) => {
                return Err(e);
            },
            Ok((field, next)) => {
                assert(rest.skip(next - pos) =~= expected_protobuf@.skip(next as int));
                match merge_csi_field(msg, field) {
                    Err(e) => {
                        return Err(e);
                    },
                    Ok(merged) => {
                        msg = merged;
                    },
                }
                pos = next;
            },
        }
    }
    Ok(msg)
}


/// The subcarrier whose value stands at place `dest` of a matrix: the
/// eleven guard and centre carriers 0, 1 and 28 to 36 are left out.
pub open spec fn required_subcarrier(dest: int) -> int {
    if dest < 26 {
        dest + 2
    } else {
        dest + 11
    }
}

/// A byte read as a signed 8-bit number.
pub open spec fn signed_byte(b: u8) -> int {
    if b < 128 {
        b as int
    } else {
        b as int - 256
    }
}

/// Squared magnitude of the subcarrier at place `dest`: its imaginary part
/// comes first in `csi`, its real part second.
pub open spec fn subcarrier_power(csi: Seq<u8>, dest: int) -> u32 {
    let k = required_subcarrier(dest);
    let im = signed_byte(csi[2 * k]);
    let re = signed_byte(csi[2 * k + 1]);
    (im * im + re * re) as u32
}

/// What a frame's amplitude vector is computed from: the squared magnitude
/// of each active subcarrier, in ascending subcarrier order, and the
/// received signal strength that scales them. Turning these into scaled
/// decibel amplitudes takes a square root and a logarithm, which callers do.
#[derive(Debug, PartialEq, Eq)]
pub struct CsiMatrix {
    pub power: Vec<u32>,
    pub rssi: i32,
}

pub struct CsiMatrixView {
    pub power: Seq<u32>,
    pub rssi: i32,
}

impl View for CsiMatrix {
    type V = CsiMatrixView;

    open spec fn view(&self) -> CsiMatrixView {
        CsiMatrixView { power: self.power@, rssi: self.rssi }
    }
}

impl Clone for CsiMatrix {
    fn clone(&self) -> (r: Self)
        ensures
            r@ == self@,
    {
        let mut power: Vec<u32> = Vec::new();
        let mut i: usize = 0;
        while i < self.power.len()
            invariant
                i <= self.power@.len(),
                power@ == self.power@.subrange(0, i as int),
            decreases self.power@.len() - i,
        {
            power.push(self.power[i]);
            i = i + 1;
        }
        assert(power@ =~= self.power@);
        CsiMatrix { power, rssi: self.rssi }
    }
}

/// The matrix of a frame whose `csi_data` has 128 bytes.
pub open spec fn matrix_of(msg: CsiMessageView) -> CsiMatrixView {
    CsiMatrixView {
        power: Seq::new(ACTIVE_SUBCARRIERS as nat, |dest: int| subcarrier_power(msg.csi_data, dest)),
        rssi: msg.rssi,
    }
}

fn signed(b: u8) -> (r: i32)
    ensures
        r == signed_byte(b),
{
    if b < 128 {
        b as i32
    } else {
        b as i32 - 256
    }
}

fn build_matrix(msg: &CsiMessage) -> (m: CsiMatrix)
    requires
        msg@.csi_data.len() == CSI_DATA_LENGTH,
    ensures
        m@ == matrix_of(msg@),
{
    let mut power: Vec<u32> = Vec::new();
    let mut dest: usize = 0;
    while dest < ACTIVE_SUBCARRIERS
        invariant
            dest <= ACTIVE_SUBCARRIERS,
            msg@.csi_data.len() == CSI_DATA_LENGTH,
            power@.len() == dest,
            forall|d: int| 0 <= d < dest ==> power@[d] == subcarrier_power(msg@.csi_data, d),
        decreases ACTIVE_SUBCARRIERS - dest,
    {
        let src: usize = if dest < 26 {
            dest + 2
        } else {
            dest + 11
        };
        let im: i32 = signed(msg.csi_data[2 * src]);
        let re: i32 = signed(msg.csi_data[2 * src + 1]);
        assert(0 <= im * im <= 16384) by (nonlinear_arith)
            requires
                -128 <= im <= 127,
        ;
        assert(0 <= re * re <= 16384) by (nonlinear_arith)
            requires
                -128 <= re <= 127,
        ;
        power.push((im * im + re * re) as u32);
        dest = dest + 1;
    }
    assert(power@ =~= matrix_of(msg@).power);
    CsiMatrix { power, rssi: msg.rssi }
}

/// Builds the matrix of a frame. A frame whose `csi_data` does not hold
/// exactly 128 bytes has none.
pub fn get_csi_matrix(msg: &CsiMessage) -> (r: Result<CsiMatrix, RecvMessageError>)
    ensures
        msg@.csi_data.len() == CSI_DATA_LENGTH ==> (r matches Ok(m) && m@ == matrix_of(msg@)),
        msg@.csi_data.len() != CSI_DATA_LENGTH ==> r matches Err(
            RecvMessageError::CSIMatrixParseError,
        ),
{
    if msg.csi_data.len() != CSI_DATA_LENGTH {
        Err(RecvMessageError::CSIMatrixParseError)
    } else {
        Ok(build_matrix(msg))
    }
}

/// How the correlation coefficient of a reading is to be computed.
#[derive(Debug, PartialEq, Eq)]
pub enum Correlation {
    /// No correlation was taken: the coefficient is zero.
    Zero,
    /// The Pearson correlation of the amplitude vectors of two matrices.
    Pearson { frame: CsiMatrix, frame2: CsiMatrix },
}

pub enum CorrelationView {
    Zero,
    Pearson { frame: CsiMatrixView, frame2: CsiMatrixView },
}

impl View for Correlation {
    type V = CorrelationView;

    open spec fn view(&self) -> CorrelationView {
        match self {
            Correlation::Zero => CorrelationView::Zero,
            Correlation::Pearson { frame, frame2 } => CorrelationView::Pearson {
                frame: frame@,
                frame2: frame2@,
            },
        }
    }
}

impl Clone for Correlation {
    fn clone(&self) -> (r: Self)
        ensures
            r@ == self@,
    {
        match self {
            Correlation::Zero => Correlation::Zero,
            Correlation::Pearson { frame, frame2 } => Correlation::Pearson {
                frame: frame.clone(),
                frame2: frame2.clone(),
            },
        }
    }
}

/// One observation of a link, as it is stored and as it is emitted.
#[derive(Debug, PartialEq, Eq)]
pub struct CSIReading {
    pub timestamp_us: u64,
    pub rssi: i8,
    pub noise_floor: i32,
    pub correlation_coefficient: Correlation,
    pub sequence_identifier: u16,
    pub interval: i32,
    pub mac: String,
    pub antenna: i8,
    pub csi_matrix: CsiMatrix,
}

pub struct CSIReadingView {
    pub timestamp_us: u64,
    pub rssi: i8,
    pub noise_floor: i32,
    pub correlation_coefficient: CorrelationView,
    pub sequence_identifier: u16,
    pub interval: i32,
    pub mac: Seq<char>,
    pub antenna: i8,
    pub csi_matrix: CsiMatrixView,
}

impl View for CSIReading {
    type V = CSIReadingView;

    open spec fn view(&self) -> CSIReadingView {
        CSIReadingView {
            timestamp_us: self.timestamp_us,
            rssi: self.rssi,
            noise_floor: self.noise_floor,
            correlation_coefficient: self.correlation_coefficient@,
            sequence_identifier: self.sequence_identifier,
            interval: self.interval,
            mac: self.mac@,
            antenna: self.antenna,
            csi_matrix: self.csi_matrix@,
        }
    }
}

impl Clone for CSIReading {
    fn clone(&self) -> (r: Self)
        ensures
            r@ == self@,
    {
        CSIReading {
            timestamp_us: self.timestamp_us,
            rssi: self.rssi,
            noise_floor: self.noise_floor,
            correlation_coefficient: self.correlation_coefficient.clone(),
            sequence_identifier: self.sequence_identifier,
            interval: self.interval,
            mac: self.mac.clone(),
            antenna: self.antenna,
            csi_matrix: self.csi_matrix.clone(),
        }
    }
}

/// The tag of a sender: the last three bytes of its address in upper-case
/// hexadecimal, without padding or separators.
pub open spec fn mac_tag(mac: Seq<u8>) -> Seq<char> {
    upper_hex(mac[3]) + upper_hex(mac[4]) + upper_hex(mac[5])
}

/// A number cut to its low eight bits, read in two's complement.
pub open spec fn wrap_i8(v: i32) -> i32 {
    let m = (v as int) % 256;
    if m < 128 {
        m as i32
    } else {
        (m - 256) as i32
    }
}

/// Whether a frame's scalar fields fit a reading: antenna and signal
/// strength in eight signed bits, the sequence identifier in sixteen
/// unsigned, and an address of at least six bytes.
pub open spec fn readable(msg: CsiMessageView) -> bool {
    &&& msg.antenna <= 127
    &&& -128 <= msg.rssi <= 127
    &&& msg.sequence_identifier <= MAX_SEQUENCE_IDENTIFIER
    &&& msg.src_mac.len() >= 6
}

/// The reading that a frame gives when it is the first of its sender: no
/// correlation, and an interval of one.
pub open spec fn reading_of(msg: CsiMessageView) -> CSIReadingView {
    CSIReadingView {
        timestamp_us: msg.timestamp,
        rssi: msg.rssi as i8,
        noise_floor: wrap_i8(msg.noise_floor),
        correlation_coefficient: CorrelationView::Zero,
        sequence_identifier: msg.sequence_identifier as u16,
        interval: 1,
        mac: mac_tag(msg.src_mac),
        antenna: msg.antenna as i8,
        csi_matrix: matrix_of(msg),
    }
}

/// Cuts a number to its low eight bits, read in two's complement.
pub fn low_byte(v: i32) -> (r: i32)
    ensures
        r == wrap_i8(v),
{
    let shifted: i64 = v as i64 + 0x8000_0000;
    let m: i64 = shifted % 256;
    if m < 128 {
        m as i32
    } else {
        (m - 256) as i32
    }
}

fn sender_tag(mac: &Vec<u8>) -> (tag: String)
    requires
        mac@.len() >= 6,
    ensures
        tag@ == mac_tag(mac@),
{
    let mut tag = String::new();
    push_upper_hex(&mut tag, mac[3]);
    push_upper_hex(&mut tag, mac[4]);
    push_upper_hex(&mut tag, mac[5]);
    tag
}

impl CSIReading {
    /// The reading of a frame that has one.
    pub fn new(msg: &CsiMessage) -> (r: Self)
        requires
            readable(msg@),
            msg@.csi_data.len() == CSI_DATA_LENGTH,
        ensures
            r@ == reading_of(msg@),
    {
        CSIReading {
            timestamp_us: msg.timestamp,
            rssi: msg.rssi as i8,
            noise_floor: low_byte(msg.noise_floor),
            correlation_coefficient: Correlation::Zero,
            sequence_identifier: msg.sequence_identifier as u16,
            interval: 1,
            mac: sender_tag(&msg.src_mac),
            antenna: msg.antenna as i8,
            csi_matrix: build_matrix(msg),
        }
    }
}

/// Builds the reading of a frame, or says why it has none: a scalar field
/// out of range or a short address first, a `csi_data` of the wrong length
/// second.
pub fn get_reading(msg: &CsiMessage) -> (r: Result<CSIReading, RecvMessageError>)
    ensures
        !readable(msg@) ==> r matches Err(RecvMessageError::CSIReadingGenerateError),
        readable(msg@) && msg@.csi_data.len() != CSI_DATA_LENGTH ==> r matches Err(
            RecvMessageError::CSIMatrixParseError,
        ),
        readable(msg@) && msg@.csi_data.len() == CSI_DATA_LENGTH ==> (r matches Ok(reading)
            && reading@ == reading_of(msg@)),
{
    if msg.antenna > 127 || msg.rssi < -128 || msg.rssi > 127 || msg.sequence_identifier
        > MAX_SEQUENCE_IDENTIFIER || msg.src_mac.len() < 6 {
        return Err(RecvMessageError::CSIReadingGenerateError);
    }
    if msg.csi_data.len() != CSI_DATA_LENGTH {
        return Err(RecvMessageError::CSIMatrixParseError);
    }
    Ok(CSIReading::new(msg))
}

} // verus!
