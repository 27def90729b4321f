//! Audio-frame primitives: the frame constants, the linear transition ramps
//! inserted around silence boundaries, the conversion between 16-bit samples
//! and their little-endian byte layout, and the integer energy measure used
//! for silence detection.

use vstd::prelude::*;

verus! {

/// Samples in one frame: 10 ms of mono audio at 48 kHz.
pub const FRAME_SIZE: usize = 480;

/// Samples over which a transition ramp rises or falls.
pub const TRANSITION_LENGTH: usize = 96;

/// The value of one ramp sample: `k` steps of `sample / length`, computed
/// with truncating (toward-zero) division as the executable code does.
pub open spec fn ramp_step(sample: i16, length: int, k: int) -> int {
    if sample >= 0 {
        (sample as int / length) * k
    } else {
        -(((-(sample as int)) / length) * k)
    }
}

/// The quotient times the step count stays within the ramp's peak magnitude.
proof fn lemma_ramp_bound(mag: int, l: int, k: int)
    requires
        1 <= l,
        0 <= k <= l,
        0 <= mag,
    ensures
        0 <= (mag / l) * k <= mag,
{
    vstd::arithmetic::div_mod::lemma_fundamental_div_mod(mag, l);
    vstd::arithmetic::mul::lemma_mul_inequality(k, l, mag / l);
    assert((mag / l) * k == k * (mag / l)) by (nonlinear_arith);
    assert((mag / l) * l == l * (mag / l)) by (nonlinear_arith);
    assert(0 <= (mag / l) * k) by (nonlinear_arith)
        requires
            0 <= mag / l,
            0 <= k,
    ;
}

/// One ramp sample; `k` counts multiplier steps away from zero.
fn ramp_value(sample: i16, length: usize, k: usize) -> (r: i16)
    requires
        1 <= length <= FRAME_SIZE,
        k <= length,
    ensures
        r as int == ramp_step(sample, length as int, k as int),
{
    let l = length as u32;
    let kk = k as u32;
    if sample >= 0 {
        let mag = sample as u32;
        let f = mag / l;
        proof {
            lemma_ramp_bound(mag as int, l as int, kk as int);
        }
        let value = f * kk;
        value as i16
    } else {
        let mag = (-(sample as i32)) as u32;
        let f = mag / l;
        proof {
            lemma_ramp_bound(mag as int, l as int, kk as int);
        }
        let value = f * kk;
        (-(value as i32)) as i16
    }
}

/// The frame that ramps the signal down from `sample` to zero: the first
/// `length` samples fall linearly from (almost) `sample` toward zero and the
/// rest of the frame is silent.
pub fn make_transition_down(length: usize, sample: i16) -> (r: Vec<i16>)
    requires
        1 <= length <= FRAME_SIZE,
    ensures
        r@.len() == FRAME_SIZE,
        forall|i: int|
            0 <= i < length ==> r@[i] as int == ramp_step(
                sample,
                length as int,
                length - i,
            ),
        forall|i: int| length <= i < FRAME_SIZE ==> r@[i] == 0i16,
{
    let mut buf: Vec<i16> = Vec::new();
    let mut i: usize = 0;
    while i < length
        invariant
            i <= length,
            1 <= length <= FRAME_SIZE,
            buf@.len() == i,
            forall|j: int|
                0 <= j < i ==> buf@[j] as int == ramp_step(sample, length as int, length - j),
        decreases length - i,
    {
        buf.push(ramp_value(sample, length, length - i));
        i = i + 1;
    }
    while i < FRAME_SIZE
        invariant
            length <= i <= FRAME_SIZE,
            1 <= length <= FRAME_SIZE,
            buf@.len() == i,
            forall|j: int|
                0 <= j < length ==> buf@[j] as int == ramp_step(sample, length as int, length - j),
            forall|j: int| length <= j < i ==> buf@[j] == 0i16,
        decreases FRAME_SIZE - i,
    {
        buf.push(0i16);
        i = i + 1;
    }
    buf
}

/// The frame that ramps the signal up from zero to `sample`: the frame is
/// silent until its last `length` samples, which rise linearly to `sample`.
pub fn make_transition_up(length: usize, sample: i16) -> (r: Vec<i16>)
    requires
        1 <= length <= FRAME_SIZE,
    ensures
        r@.len() == FRAME_SIZE,
        forall|i: int| 0 <= i < FRAME_SIZE - length ==> r@[i] == 0i16,
        forall|i: int|
            FRAME_SIZE - length <= i < FRAME_SIZE ==> r@[i] as int == ramp_step(
                sample,
                length as int,
                i - (FRAME_SIZE - length) + 1,
            ),
{
    let start = FRAME_SIZE - length;
    let mut buf: Vec<i16> = Vec::new();
    let mut i: usize = 0;
    while i < start
        invariant
            i <= start,
            start == FRAME_SIZE - length,
            1 <= length <= FRAME_SIZE,
            buf@.len() == i,
            forall|j: int| 0 <= j < i ==> buf@[j] == 0i16,
        decreases start - i,
    {
        buf.push(0i16);
        i = i + 1;
    }
    while i < FRAME_SIZE
        invariant
            start <= i <= FRAME_SIZE,
            start == FRAME_SIZE - length,
            1 <= length <= FRAME_SIZE,
            buf@.len() == i,
            forall|j: int| 0 <= j < start ==> buf@[j] == 0i16,
            forall|j: int|
                start <= j < i ==> buf@[j] as int == ramp_step(
                    sample,
                    length as int,
                    j - start + 1,
                ),
        decreases FRAME_SIZE - i,
    {
        buf.push(ramp_value(sample, length, i - start + 1));
        i = i + 1;
    }
    buf
}

} // verus!

verus! {

/// One hand-off between pipeline stages: decoded samples, or bytes as they
/// travel on the wire (raw little-endian PCM when the codec is off, encoded
/// frames when it is on).
#[derive(Clone, Debug, PartialEq)]
pub enum ProcessorMessage {
    Samples(Vec<i16>),
    Data(Vec<u8>),
}

/// Mathematical image of a [`ProcessorMessage`].
pub ghost enum ProcessorMessageModel {
    Samples(Seq<i16>),
    Data(Seq<u8>),
}

impl View for ProcessorMessage {
    type V = ProcessorMessageModel;

    open spec fn view(&self) -> ProcessorMessageModel {
        match *self {
            ProcessorMessage::Samples(s) => ProcessorMessageModel::Samples(s@),
            ProcessorMessage::Data(d) => ProcessorMessageModel::Data(d@),
        }
    }
}

pub open spec fn msgs_model(v: Seq<ProcessorMessage>) -> Seq<ProcessorMessageModel> {
    v.map_values(|m: ProcessorMessage| m@)
}

// ---------------------------------------------------------------------------
// 16-bit PCM and its little-endian byte layout.
// ---------------------------------------------------------------------------

pub open spec fn sample_low(v: i16) -> u8 {
    (v as u16 & 0xff) as u8
}

pub open spec fn sample_high(v: i16) -> u8 {
    ((v as u16 >> 8) & 0xff) as u8
}

pub open spec fn sample_from_bytes(b0: u8, b1: u8) -> i16 {
    ((b0 as u16) | (b1 as u16) << 8) as i16
}

/// The little-endian byte layout of a block of 16-bit samples.
pub open spec fn pcm_bytes(s: Seq<i16>) -> Seq<u8> {
    Seq::new(
        2 * s.len(),
        |i: int|
            if i % 2 == 0 {
                sample_low(s[i / 2])
            } else {
                sample_high(s[i / 2])
            },
    )
}

/// The samples stored in a little-endian byte block; a trailing odd byte is
/// ignored.
pub open spec fn pcm_samples(b: Seq<u8>) -> Seq<i16> {
    Seq::new(b.len() / 2, |i: int| sample_from_bytes(b[2 * i], b[2 * i + 1]))
}

/// Reading back the byte layout restores every sample bit-exactly.
pub proof fn lemma_pcm_round_trip(s: Seq<i16>)
    ensures
        pcm_samples(pcm_bytes(s)) == s,
{
    assert forall|i: int| 0 <= i < s.len() implies pcm_samples(pcm_bytes(s))[i] == s[i] by {
        let v = s[i];
        assert(pcm_bytes(s)[2 * i] == sample_low(v));
        assert(pcm_bytes(s)[2 * i + 1] == sample_high(v));
        assert(((((v as u16) & 0xff) as u8) as u16 | ((((v as u16) >> 8) & 0xff) as u8 as u16)
            << 8) as i16 == v) by (bit_vector);
    }
    assert(pcm_samples(pcm_bytes(s)) =~= s);
}

/// Serializes samples into their little-endian wire bytes.
pub fn samples_to_bytes(frame: &Vec<i16>) -> (r: Vec<u8>)
    requires
        frame@.len() <= FRAME_SIZE,
    ensures
        r@ == pcm_bytes(frame@),
{
    let mut out: Vec<u8> = Vec::new();
    let mut i: usize = 0;
    while i < frame.len()
        invariant
            i <= frame@.len() <= FRAME_SIZE,
            out@.len() == 2 * i,
            forall|j: int|
                0 <= j < i ==> out@[2 * j] == sample_low(#[trigger] frame@[j]) && out@[2 * j + 1]
                    == sample_high(frame@[j]),
        decreases frame@.len() - i,
    {
        let v = frame[i];
        out.push((v as u16 & 0xff) as u8);
        out.push(((v as u16 >> 8) & 0xff) as u8);
        i = i + 1;
    }
    proof {
        assert forall|k: int| 0 <= k < out@.len() implies out@[k] == pcm_bytes(frame@)[k] by {
            if k % 2 == 0 {
                assert(out@[2 * (k / 2)] == sample_low(frame@[k / 2]));
            } else {
                assert(out@[2 * (k / 2) + 1] == sample_high(frame@[k / 2]));
            }
        }
        assert(out@ =~= pcm_bytes(frame@));
    }
    out
}

/// Reads little-endian wire bytes back into samples, ignoring a trailing odd
/// byte as the reinterpreting receiver does.
pub fn bytes_to_samples(bytes: &Vec<u8>) -> (r: Vec<i16>)
    ensures
        r@ == pcm_samples(bytes@),
{
    let n = bytes.len() / 2;
    let mut out: Vec<i16> = Vec::new();
    let mut i: usize = 0;
    while i < n
        invariant
            i <= n,
            n == bytes@.len() / 2,
            bytes@.len() <= usize::MAX,
            out@.len() == i,
            forall|j: int|
                0 <= j < i ==> out@[j] == sample_from_bytes(
                    bytes@[2 * j],
                    #[trigger] bytes@[2 * j + 1],
                ),
        decreases n - i,
    {
        proof {
            vstd::arithmetic::div_mod::lemma_fundamental_div_mod(bytes@.len() as int, 2);
            assert(2 * (i as int) + 1 < bytes@.len() as int);
        }
        let b0 = bytes[2 * i];
        let b1 = bytes[2 * i + 1];
        out.push(((b0 as u16) | (b1 as u16) << 8) as i16);
        i = i + 1;
    }
    proof {
        assert(out@ =~= pcm_samples(bytes@));
    }
    out
}

// ---------------------------------------------------------------------------
// Frame energy, the integer measure behind silence detection.
// ---------------------------------------------------------------------------

/// Sum of squared samples.
pub open spec fn energy_of(s: Seq<i16>) -> int
    decreases s.len(),
{
    if s.len() == 0 {
        0
    } else {
        s[0] * s[0] + energy_of(s.drop_first())
    }
}

proof fn lemma_energy_snoc(s: Seq<i16>, i: int)
    requires
        0 <= i < s.len(),
    ensures
        energy_of(s.take(i + 1)) == energy_of(s.take(i)) + s[i] * s[i],
    decreases i,
{
    if i == 0 {
        assert(s.take(1).drop_first() =~= s.take(0));
        assert(s.take(1)[0] == s[0]);
    } else {
        let d = s.drop_first();
        lemma_energy_snoc(d, i - 1);
        assert(s.take(i + 1).drop_first() =~= d.take(i));
        assert(s.take(i).drop_first() =~= d.take(i - 1));
        assert(s.take(i + 1)[0] == s[0]);
        assert(s.take(i)[0] == s[0]);
    }
}

proof fn lemma_energy_bound(s: Seq<i16>)
    ensures
        0 <= energy_of(s) <= s.len() * 0x4000_0000,
    decreases s.len(),
{
    if s.len() == 0 {
    } else {
        lemma_energy_bound(s.drop_first());
        assert(s[0] * s[0] <= 0x4000_0000) by (nonlinear_arith)
            requires
                -0x8000 <= s[0] <= 0x7fff,
        ;
        assert(s[0] * s[0] >= 0) by (nonlinear_arith);
    }
}

/// The sum of squared samples of one frame.
pub fn frame_energy(frame: &Vec<i16>) -> (r: u64)
    requires
        frame@.len() <= FRAME_SIZE,
    ensures
        r as int == energy_of(frame@),
{
    let mut acc: u64 = 0;
    let mut i: usize = 0;
    proof {
        assert(frame@.take(0) =~= Seq::<i16>::empty());
    }
    while i < frame.len()
        invariant
            i <= frame@.len() <= FRAME_SIZE,
            acc as int == energy_of(frame@.take(i as int)),
            acc <= (i as u64) * 0x4000_0000,
        decreases frame@.len() - i,
    {
        let v = frame[i] as i32;
        proof {
            assert(0 <= v * v <= 0x4000_0000) by (nonlinear_arith)
                requires
                    -0x8000 <= v <= 0x7fff,
            ;
            lemma_energy_snoc(frame@, i as int);
        }
        let sq = (v * v) as u64;
        acc = acc + sq;
        i = i + 1;
    }
    proof {
        assert(frame@.take(frame@.len() as int) =~= frame@);
    }
    acc
}

/// Whether a frame counts as silent for a root-mean-square threshold given
/// in sample units: the RMS is below the threshold exactly when the energy
/// is below the squared threshold times the frame length.
pub open spec fn silent_frame(s: Seq<i16>, threshold: u16) -> bool {
    energy_of(s) < threshold * threshold * s.len()
}

pub fn is_below_threshold(frame: &Vec<i16>, threshold: u16) -> (r: bool)
    requires
        frame@.len() <= FRAME_SIZE,
    ensures
        r == silent_frame(frame@, threshold),
{
    let energy = frame_energy(frame);
    let t = threshold as u64;
    let n = frame.len() as u64;
    proof {
        assert(0 <= t * t <= 0xffff * 0xffff && t * t * n <= 0xffff * 0xffff * 480)
            by (nonlinear_arith)
            requires
                t <= 0xffff,
                0 <= n <= 480,
        ;
    }
    let bound = t * t * n;
    energy < bound
}

} // verus!

verus! {

// ---------------------------------------------------------------------------
// Frame-level models of the transition ramps and pipeline payloads.
// ---------------------------------------------------------------------------

/// Every ramp sample stays within the 16-bit sample range.
pub proof fn ramp_step_in_i16_range(sample: i16, l: int, k: int)
    requires
        1 <= l,
        0 <= k <= l,
    ensures
        -0x8000 <= ramp_step(sample, l, k) <= 0x7fff,
{
    if sample >= 0 {
        lemma_ramp_bound(sample as int, l, k);
    } else {
        lemma_ramp_bound(-(sample as int), l, k);
    }
}

/// The whole down-transition frame: a ramp from `sample` toward zero over
/// the first `length` samples, silence after.
pub open spec fn transition_down_model(sample: i16, length: int) -> Seq<i16> {
    Seq::new(
        FRAME_SIZE as nat,
        |i: int|
            if i < length {
                ramp_step(sample, length, length - i) as i16
            } else {
                0i16
            },
    )
}

/// The whole up-transition frame: silence, then a ramp from zero up to
/// `sample` over the last `length` samples.
pub open spec fn transition_up_model(sample: i16, length: int) -> Seq<i16> {
    Seq::new(
        FRAME_SIZE as nat,
        |i: int|
            if i < FRAME_SIZE - length {
                0i16
            } else {
                ramp_step(sample, length, i - (FRAME_SIZE - length) + 1) as i16
            },
    )
}

/// What `make_transition_down` builds is the model frame.
pub proof fn lemma_transition_down_is_model(r: Seq<i16>, sample: i16, length: int)
    requires
        1 <= length <= FRAME_SIZE,
        r.len() == FRAME_SIZE,
        forall|i: int| 0 <= i < length ==> #[trigger] r[i] as int == ramp_step(
            sample,
            length,
            length - i,
        ),
        forall|i: int| length <= i < FRAME_SIZE ==> #[trigger] r[i] == 0i16,
    ensures
        r == transition_down_model(sample, length),
{
    assert forall|i: int| 0 <= i < FRAME_SIZE implies r[i] == transition_down_model(
        sample,
        length,
    )[i] by {
        if i < length {
            ramp_step_in_i16_range(sample, length, length - i);
        }
    }
    assert(r =~= transition_down_model(sample, length));
}

/// What `make_transition_up` builds is the model frame.
pub proof fn lemma_transition_up_is_model(r: Seq<i16>, sample: i16, length: int)
    requires
        1 <= length <= FRAME_SIZE,
        r.len() == FRAME_SIZE,
        forall|i: int| 0 <= i < FRAME_SIZE - length ==> #[trigger] r[i] == 0i16,
        forall|i: int|
            FRAME_SIZE - length <= i < FRAME_SIZE ==> #[trigger] r[i] as int == ramp_step(
                sample,
                length,
                i - (FRAME_SIZE - length) + 1,
            ),
    ensures
        r == transition_up_model(sample, length),
{
    assert forall|i: int| 0 <= i < FRAME_SIZE implies r[i] == transition_up_model(
        sample,
        length,
    )[i] by {
        if i >= FRAME_SIZE - length {
            ramp_step_in_i16_range(sample, length, i - (FRAME_SIZE - length) + 1);
        }
    }
    assert(r =~= transition_up_model(sample, length));
}

/// How a block of samples leaves the input pipeline: as samples for the
/// encoder when the codec is on, as raw little-endian bytes otherwise.
pub open spec fn payload_model(codec: bool, s: Seq<i16>) -> ProcessorMessageModel {
    if codec {
        ProcessorMessageModel::Samples(s)
    } else {
        ProcessorMessageModel::Data(pcm_bytes(s))
    }
}

} // verus!
