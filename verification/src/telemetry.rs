//! Telemetry capture: one record per telemetry tick with the latest encoder
//! reading, kinematic estimate and PWM outputs, gathered into a fixed-capacity
//! buffer that is written to flash at the end of the capture.
use vstd::prelude::*;
use crate::angle::IntAngle;
use crate::hal::EncoderData;
use crate::pll::KinematicEst;

verus! {

/// The latest PWM outputs of the controller.
#[derive(Clone, Copy, Debug)]
pub struct ControllerData {
    pub pwm_a: u32,
    pub pwm_b: u32,
    pub pwm_c: u32,
}

/// One telemetry record. Serialised as 32 little-endian bytes in field order.
#[derive(Clone, Copy, Debug)]
pub struct TelemetryData<const BITS: usize> {
    pub timestamp: u64,
    pub measured_angle: IntAngle<BITS>,
    pub estimated_angle: IntAngle<BITS>,
    pub estimated_velocity: i32,
    pub pwm_a: u32,
    pub pwm_b: u32,
    pub pwm_c: u32,
}

/// The size of a serialised record.
pub const TELEMETRY_ENTRY_LEN: usize = 32;

/// The four little-endian bytes of `v`.
pub open spec fn le_bytes_u32(v: u32) -> Seq<u8> {
    seq![v as u8, (v >> 8u32) as u8, (v >> 16u32) as u8, (v >> 24u32) as u8]
}

/// The eight little-endian bytes of `v`.
pub open spec fn le_bytes_u64(v: u64) -> Seq<u8> {
    seq![
        v as u8, (v >> 8u64) as u8, (v >> 16u64) as u8, (v >> 24u64) as u8,
        (v >> 32u64) as u8, (v >> 40u64) as u8, (v >> 48u64) as u8, (v >> 56u64) as u8,
    ]
}

/// The serialised form of a record: timestamp, measured angle, estimated angle,
/// estimated velocity and the three PWM values, little-endian, signed values in
/// two's complement.
pub open spec fn telemetry_bytes<const BITS: usize>(d: TelemetryData<BITS>) -> Seq<u8> {
    le_bytes_u64(d.timestamp)
        + le_bytes_u32(d.measured_angle@ as u32)
        + le_bytes_u32(d.estimated_angle@ as u32)
        + le_bytes_u32(d.estimated_velocity as u32)
        + le_bytes_u32(d.pwm_a)
        + le_bytes_u32(d.pwm_b)
        + le_bytes_u32(d.pwm_c)
}

/// The little-endian `u32` stored at `i` in `s`.
pub open spec fn le_u32_at(s: Seq<u8>, i: int) -> u32 {
    (s[i] as u32) | ((s[i + 1] as u32) << 8u32) | ((s[i + 2] as u32) << 16u32) | ((s[i + 3] as u32) << 24u32)
}

/// The little-endian `u64` stored at `i` in `s`.
pub open spec fn le_u64_at(s: Seq<u8>, i: int) -> u64 {
    (s[i] as u64) | ((s[i + 1] as u64) << 8u64) | ((s[i + 2] as u64) << 16u64) | ((s[i + 3] as u64) << 24u64)
        | ((s[i + 4] as u64) << 32u64) | ((s[i + 5] as u64) << 40u64) | ((s[i + 6] as u64) << 48u64)
        | ((s[i + 7] as u64) << 56u64)
}

fn read_le_u32(b: &[u8], i: usize) -> (r: u32)
    requires
        i + 4 <= b@.len(),
    ensures
        r == le_u32_at(b@, i as int),
{
    (b[i] as u32) | ((b[i + 1] as u32) << 8u32) | ((b[i + 2] as u32) << 16u32) | ((b[i + 3] as u32) << 24u32)
}

fn read_le_u64(b: &[u8], i: usize) -> (r: u64)
    requires
        i + 8 <= b@.len(),
    ensures
        r == le_u64_at(b@, i as int),
{
    (b[i] as u64) | ((b[i + 1] as u64) << 8u64) | ((b[i + 2] as u64) << 16u64) | ((b[i + 3] as u64) << 24u64)
        | ((b[i + 4] as u64) << 32u64) | ((b[i + 5] as u64) << 40u64) | ((b[i + 6] as u64) << 48u64)
        | ((b[i + 7] as u64) << 56u64)
}

/// Reading back the little-endian bytes of a `u32` gives the `u32`.
pub proof fn lemma_le_u32_round_trip(v: u32)
    ensures
        le_u32_at(le_bytes_u32(v), 0) == v,
{
    let b = le_bytes_u32(v);
    let (b0, b1, b2, b3) = (b[0], b[1], b[2], b[3]);
    assert(b0 == v as u8 && b1 == (v >> 8u32) as u8 && b2 == (v >> 16u32) as u8 && b3 == (v >> 24u32) as u8);
    assert((b0 as u32) | ((b1 as u32) << 8u32) | ((b2 as u32) << 16u32) | ((b3 as u32) << 24u32) == v) by (bit_vector)
        requires
            b0 == v as u8,
            b1 == (v >> 8u32) as u8,
            b2 == (v >> 16u32) as u8,
            b3 == (v >> 24u32) as u8,
    ;
}

/// Reading back the little-endian bytes of a `u64` gives the `u64`.
pub proof fn lemma_le_u64_round_trip(v: u64)
    ensures
        le_u64_at(le_bytes_u64(v), 0) == v,
{
    let b = le_bytes_u64(v);
    let (b0, b1, b2, b3, b4, b5, b6, b7) = (b[0], b[1], b[2], b[3], b[4], b[5], b[6], b[7]);
    assert(b0 == v as u8 && b1 == (v >> 8u64) as u8 && b2 == (v >> 16u64) as u8 && b3 == (v >> 24u64) as u8);
    assert(b4 == (v >> 32u64) as u8 && b5 == (v >> 40u64) as u8 && b6 == (v >> 48u64) as u8 && b7 == (v >> 56u64) as u8);
    assert((b0 as u64) | ((b1 as u64) << 8u64) | ((b2 as u64) << 16u64) | ((b3 as u64) << 24u64)
        | ((b4 as u64) << 32u64) | ((b5 as u64) << 40u64) | ((b6 as u64) << 48u64) | ((b7 as u64) << 56u64) == v)
        by (bit_vector)
        requires
            b0 == v as u8,
            b1 == (v >> 8u64) as u8,
            b2 == (v >> 16u64) as u8,
            b3 == (v >> 24u64) as u8,
            b4 == (v >> 32u64) as u8,
            b5 == (v >> 40u64) as u8,
            b6 == (v >> 48u64) as u8,
            b7 == (v >> 56u64) as u8,
    ;
}

/// An `i32` survives the round trip through `u32`.
proof fn lemma_i32_u32_round_trip(x: i32)
    ensures
        (x as u32) as i32 == x,
{
    assert((x as u32) as i32 == x) by (bit_vector);
}

/// The serialisation of a record reads back to the same record: each field
/// decoded from its place in the 32 bytes equals the field.
pub proof fn lemma_telemetry_bytes_round_trip<const BITS: usize>(d: TelemetryData<BITS>)
    ensures
        telemetry_bytes(d).len() == TELEMETRY_ENTRY_LEN,
        le_u64_at(telemetry_bytes(d), 0) == d.timestamp,
        le_u32_at(telemetry_bytes(d), 8) as i32 == d.measured_angle@,
        le_u32_at(telemetry_bytes(d), 12) as i32 == d.estimated_angle@,
        le_u32_at(telemetry_bytes(d), 16) as i32 == d.estimated_velocity,
        le_u32_at(telemetry_bytes(d), 20) == d.pwm_a,
        le_u32_at(telemetry_bytes(d), 24) == d.pwm_b,
        le_u32_at(telemetry_bytes(d), 28) == d.pwm_c,
{
    let b = telemetry_bytes(d);
    let s_ts = le_bytes_u64(d.timestamp);
    let s_m = le_bytes_u32(d.measured_angle@ as u32);
    let s_e = le_bytes_u32(d.estimated_angle@ as u32);
    let s_v = le_bytes_u32(d.estimated_velocity as u32);
    let s_a = le_bytes_u32(d.pwm_a);
    let s_b = le_bytes_u32(d.pwm_b);
    let s_c = le_bytes_u32(d.pwm_c);
    assert(b.subrange(0, 8) =~= s_ts);
    assert(b.subrange(8, 12) =~= s_m);
    assert(b.subrange(12, 16) =~= s_e);
    assert(b.subrange(16, 20) =~= s_v);
    assert(b.subrange(20, 24) =~= s_a);
    assert(b.subrange(24, 28) =~= s_b);
    assert(b.subrange(28, 32) =~= s_c);
    lemma_le_u64_round_trip(d.timestamp);
    lemma_le_u32_round_trip(d.measured_angle@ as u32);
    lemma_le_u32_round_trip(d.estimated_angle@ as u32);
    lemma_le_u32_round_trip(d.estimated_velocity as u32);
    lemma_le_u32_round_trip(d.pwm_a);
    lemma_le_u32_round_trip(d.pwm_b);
    lemma_le_u32_round_trip(d.pwm_c);
    lemma_i32_u32_round_trip(d.measured_angle@);
    lemma_i32_u32_round_trip(d.estimated_angle@);
    lemma_i32_u32_round_trip(d.estimated_velocity);
    assert(le_u64_at(b, 0) == le_u64_at(s_ts, 0));
    assert(le_u32_at(b, 8) == le_u32_at(s_m, 0));
    assert(le_u32_at(b, 12) == le_u32_at(s_e, 0));
    assert(le_u32_at(b, 16) == le_u32_at(s_v, 0));
    assert(le_u32_at(b, 20) == le_u32_at(s_a, 0));
    assert(le_u32_at(b, 24) == le_u32_at(s_b, 0));
    assert(le_u32_at(b, 28) == le_u32_at(s_c, 0));
}

fn push_le_u32(out: &mut Vec<u8>, v: u32)
    ensures
        final(out)@ == old(out)@ + le_bytes_u32(v),
{
    out.push(v as u8);
    out.push((v >> 8u32) as u8);
    out.push((v >> 16u32) as u8);
    out.push((v >> 24u32) as u8);
}

fn push_le_u64(out: &mut Vec<u8>, v: u64)
    ensures
        final(out)@ == old(out)@ + le_bytes_u64(v),
{
    out.push(v as u8);
    out.push((v >> 8u64) as u8);
    out.push((v >> 16u64) as u8);
    out.push((v >> 24u64) as u8);
    out.push((v >> 32u64) as u8);
    out.push((v >> 40u64) as u8);
    out.push((v >> 48u64) as u8);
    out.push((v >> 56u64) as u8);
}

impl<const BITS: usize> Default for TelemetryData<BITS> {
    /// A record of zeros.
    fn default() -> (d: Self)
        ensures
            d.timestamp == 0,
            d.measured_angle@ == 0,
            d.estimated_angle@ == 0,
            d.estimated_velocity == 0,
            d.pwm_a == 0,
            d.pwm_b == 0,
            d.pwm_c == 0,
    {
        TelemetryData {
            timestamp: 0,
            measured_angle: IntAngle::default(),
            estimated_angle: IntAngle::default(),
            estimated_velocity: 0,
            pwm_a: 0,
            pwm_b: 0,
            pwm_c: 0,
        }
    }
}

impl<const BITS: usize> TelemetryData<BITS> {
    /// An empty record stamped with `timestamp` (µs).
    pub fn new(timestamp: u64) -> (d: Self)
        ensures
            d.timestamp == timestamp,
            d.measured_angle@ == 0,
            d.estimated_angle@ == 0,
            d.estimated_velocity == 0,
            d.pwm_a == 0,
            d.pwm_b == 0,
            d.pwm_c == 0,
    {
        TelemetryData { timestamp, ..Default::default() }
    }

    /// The record of one telemetry tick: stamped with `timestamp`, and filled
    /// from each source that has a value; a missing source leaves its fields 0.
    pub fn from_samples(
        timestamp: u64,
        encoder: Option<EncoderData<BITS>>,
        kin_est: Option<KinematicEst<BITS>>,
        controller: Option<ControllerData>,
    ) -> (d: Self)
        ensures
            d.timestamp == timestamp,
            d.measured_angle@ == (match encoder { Some(e) => e.angle@, None => 0 }),
            d.estimated_angle@ == (match kin_est { Some(k) => k.angle@, None => 0 }),
            d.estimated_velocity == (match kin_est { Some(k) => k.velocity, None => 0 }),
            d.pwm_a == (match controller { Some(c) => c.pwm_a, None => 0 }),
            d.pwm_b == (match controller { Some(c) => c.pwm_b, None => 0 }),
            d.pwm_c == (match controller { Some(c) => c.pwm_c, None => 0 }),
    {
        let mut data = TelemetryData::new(timestamp);
        if let Some(encoder_data) = encoder {
            data.measured_angle = encoder_data.angle;
        }
        if let Some(kin_est_data) = kin_est {
            data.estimated_angle = kin_est_data.angle;
            data.estimated_velocity = kin_est_data.velocity;
        }
        if let Some(controller_data) = controller {
            data.pwm_a = controller_data.pwm_a;
            data.pwm_b = controller_data.pwm_b;
            data.pwm_c = controller_data.pwm_c;
        }
        data
    }

    /// Reads a record back from its 32 serialised bytes (`None` for any other length).
    pub fn read_from_bytes(bytes: &[u8]) -> (r: Option<Self>)
        ensures
            r is Some <==> bytes@.len() == TELEMETRY_ENTRY_LEN,
            r is Some ==> r->0.timestamp == le_u64_at(bytes@, 0),
            r is Some ==> r->0.measured_angle@ == le_u32_at(bytes@, 8) as i32,
            r is Some ==> r->0.estimated_angle@ == le_u32_at(bytes@, 12) as i32,
            r is Some ==> r->0.estimated_velocity == le_u32_at(bytes@, 16) as i32,
            r is Some ==> r->0.pwm_a == le_u32_at(bytes@, 20),
            r is Some ==> r->0.pwm_b == le_u32_at(bytes@, 24),
            r is Some ==> r->0.pwm_c == le_u32_at(bytes@, 28),
    {
        if bytes.len() != TELEMETRY_ENTRY_LEN {
            return None;
        }
        Some(TelemetryData {
            timestamp: read_le_u64(bytes, 0),
            measured_angle: IntAngle::from_raw(read_le_u32(bytes, 8) as i32),
            estimated_angle: IntAngle::from_raw(read_le_u32(bytes, 12) as i32),
            estimated_velocity: read_le_u32(bytes, 16) as i32,
            pwm_a: read_le_u32(bytes, 20),
            pwm_b: read_le_u32(bytes, 24),
            pwm_c: read_le_u32(bytes, 28),
        })
    }

    /// The 32-byte serialised form of this record.
    pub fn as_bytes(&self) -> (b: Vec<u8>)
        ensures
            b@ == telemetry_bytes(*self),
            b@.len() == TELEMETRY_ENTRY_LEN,
    {
        let mut out: Vec<u8> = Vec::new();
        push_le_u64(&mut out, self.timestamp);
        push_le_u32(&mut out, self.measured_angle.raw_value() as u32);
        push_le_u32(&mut out, self.estimated_angle.raw_value() as u32);
        push_le_u32(&mut out, self.estimated_velocity as u32);
        push_le_u32(&mut out, self.pwm_a);
        push_le_u32(&mut out, self.pwm_b);
        push_le_u32(&mut out, self.pwm_c);
        out
    }
}

/// Angle resolution of the captured telemetry (the AS5048A encoder's 14 bits).
pub const TELEMETRY_BITS: usize = 14;

/// Number of records the telemetry buffer holds.
pub const TELEMETRY_BUFFER_LEN: usize = 50;

#[verifier::external_type_specification]
#[verifier::external_body]
#[verifier::reject_recursive_types(T)]
pub struct ExHeaplessVec<T, const N: usize>(heapless::Vec<T, N>);

/// The fixed-capacity buffer a capture fills and hands to flash.
pub type TelemetryBuffer = heapless::Vec<TelemetryData<14>, 50>;

/// The records held by a telemetry buffer, in insertion order.
pub uninterp spec fn telemetry_buffer_contents(buf: heapless::Vec<TelemetryData<14>, 50>) -> Seq<TelemetryData<14>>;

/// `heapless::Vec::new`: a vector holding nothing.
#[verifier::external_body]
fn telemetry_buffer_new() -> (b: TelemetryBuffer)
    ensures
        telemetry_buffer_contents(b) == Seq::<TelemetryData<14>>::empty(),
{
    heapless::Vec::new()
}

/// `heapless::Vec::push`: appends `item` when fewer than the capacity (50)
/// items are held and returns `Ok`; otherwise leaves the vector as it was and
/// hands `item` back in `Err`. It never panics: the length test guards the
/// store, so the call does not unwind.
#[verifier::external_body]
fn telemetry_buffer_push(buf: &mut TelemetryBuffer, item: TelemetryData<14>) -> (r: Result<(), TelemetryData<14>>)
    ensures
        telemetry_buffer_contents(*old(buf)).len() < 50 ==> r is Ok
            && telemetry_buffer_contents(*final(buf)) == telemetry_buffer_contents(*old(buf)).push(item),
        telemetry_buffer_contents(*old(buf)).len() >= 50 ==> (r matches Err(back) && back == item)
            && telemetry_buffer_contents(*final(buf)) == telemetry_buffer_contents(*old(buf)),
    no_unwind
{
    buf.push(item)
}

/// `heapless::Vec::as_slice`: the held items, in order.
#[verifier::external_body]
pub(crate) fn telemetry_buffer_as_slice(buf: &TelemetryBuffer) -> (s: &[TelemetryData<14>])
    ensures
        s@ == telemetry_buffer_contents(*buf),
{
    buf.as_slice()
}

/// The number of records a capture takes: `frequency · duration_us / 10⁶`
/// samples, at most `buffer_len`.
pub open spec fn capture_len(frequency: u32, duration_us: u64, buffer_len: usize) -> int {
    let wanted = (frequency * duration_us) / 1_000_000;
    if wanted < buffer_len { wanted } else { buffer_len as int }
}

/// The number of records a capture at `frequency` Hz over `duration_us` µs
/// takes into a buffer of `buffer_len` records.
pub fn telemetry_buffer_len(frequency: u32, duration_us: u64, buffer_len: usize) -> (n: u64)
    requires
        frequency * duration_us <= u64::MAX,
    ensures
        n == capture_len(frequency, duration_us, buffer_len),
{
    ((frequency as u64) * duration_us / 1_000_000).min(buffer_len as u64)
}

/// A telemetry capture in progress: the records taken so far and the number
/// to take.
pub struct TelemetryCapture {
    buffer: TelemetryBuffer,
    target_len: u64,
}

impl TelemetryCapture {
    /// A capture never holds more records than it takes, nor takes more than
    /// its buffer holds.
    #[verifier::type_invariant]
    spec fn inv(self) -> bool {
        telemetry_buffer_contents(self.buffer).len() <= self.target_len <= TELEMETRY_BUFFER_LEN
    }

    /// The records taken so far, oldest first.
    pub closed spec fn records(self) -> Seq<TelemetryData<14>> {
        telemetry_buffer_contents(self.buffer)
    }

    /// The number of records the capture takes in all.
    pub closed spec fn target(self) -> nat {
        self.target_len as nat
    }

    /// Starts a capture at `frequency` Hz lasting `duration_us` µs.
    pub fn new(frequency: u32, duration_us: u64) -> (c: Self)
        requires
            frequency * duration_us <= u64::MAX,
        ensures
            c.records() == Seq::<TelemetryData<14>>::empty(),
            c.target() == capture_len(frequency, duration_us, TELEMETRY_BUFFER_LEN),
    {
        let target_len = telemetry_buffer_len(frequency, duration_us, TELEMETRY_BUFFER_LEN);
        TelemetryCapture { buffer: telemetry_buffer_new(), target_len }
    }

    /// Whether the capture has taken all its records.
    pub fn is_done(&self) -> (b: bool)
        ensures
            b == (self.records().len() >= self.target()),
    {
        telemetry_buffer_as_slice(&self.buffer).len() as u64 >= self.target_len
    }

    /// Takes one record; returns whether it was stored (the capture goes on
    /// ticking only then). A capture never takes more records than its buffer
    /// holds, so a record is always stored.
    pub fn record(&mut self, data: TelemetryData<14>) -> (stored: bool)
        requires
            old(self).records().len() < old(self).target(),
        ensures
            stored,
            final(self).records() == old(self).records().push(data),
            final(self).target() == old(self).target(),
    {
        proof { use_type_invariant(&*self); }
        match telemetry_buffer_push(&mut self.buffer, data) {
            Ok(()) => true,
            Err(_) => false,
        }
    }

    /// Ends the capture, handing over its buffer of records.
    pub fn into_buffer(self) -> (b: TelemetryBuffer)
        ensures
            telemetry_buffer_contents(b) == self.records(),
    {
        self.buffer
    }
}

} // verus!
