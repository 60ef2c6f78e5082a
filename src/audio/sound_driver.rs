use crate::audio::mixer::{MixerInternal, DEVICE_RATE};
use crate::audio::model::{mix, mixer_wf, MixerView};
use vstd::prelude::*;

verus! {

/// The value of [`crate::audio::mixer::MixerInternal::next_value`] that stands
/// for a signal of 1.0: a full-scale sample at full sound and master volume.
pub const SIGNAL_UNIT: i128 = 32767_000000_000000;

/// The divisor from the mixed signal to 16-bit sample units.
pub const VOLUME_SCALE: i128 = 1_000000_000000;

/// How the device wants its samples.
#[derive(Clone, Copy, Debug, PartialEq, Eq, Structural)]
pub enum SampleFormat {
    I16,
    U16,
    F32,
}

/// A stream format the device is opened with.
#[derive(Clone, Copy, Debug, PartialEq, Eq, Structural)]
pub struct StreamFormat {
    pub channels: u16,
    pub sample_rate: u32,
    pub data_type: SampleFormat,
}

/// A range of stream formats the device supports.
#[derive(Clone, Copy, Debug, PartialEq, Eq, Structural)]
pub struct FormatRange {
    pub channels: u16,
    pub min_sample_rate: u32,
    pub max_sample_rate: u32,
    pub data_type: SampleFormat,
}

/// The format the mixer prefers: stereo floats at the device rate.
pub open spec fn preferred_format() -> StreamFormat {
    StreamFormat { channels: 2, sample_rate: DEVICE_RATE, data_type: SampleFormat::F32 }
}

pub open spec fn offers_preferred(f: FormatRange) -> bool {
    &&& f.channels == 2
    &&& f.data_type == SampleFormat::F32
    &&& f.min_sample_rate <= DEVICE_RATE <= f.max_sample_rate
}

/// Picks the output format: the preferred one where some supported range
/// holds it, else the device's default.
pub fn negotiate_format(default_format: StreamFormat, available: &Vec<FormatRange>) -> (r: StreamFormat)
    ensures
        r == if exists|i: int| 0 <= i < available@.len() && offers_preferred(#[trigger] available@[i]) {
            preferred_format()
        } else {
            default_format
        },
{
    let mut output_format = default_format;
    let mut i: usize = 0;
    while i < available.len()
        invariant
            i <= available@.len(),
            output_format == if exists|j: int| 0 <= j < i && offers_preferred(#[trigger] available@[j]) {
                preferred_format()
            } else {
                default_format
            },
        decreases available.len() - i,
    {
        let f = available[i];
        if f.channels == 2 && f.data_type == SampleFormat::F32 && f.min_sample_rate <= DEVICE_RATE
            && f.max_sample_rate >= DEVICE_RATE {
            output_format = StreamFormat { channels: 2, sample_rate: DEVICE_RATE, data_type: SampleFormat::F32 };
        }
        i = i + 1;
        assert(forall|j: int| 0 <= j < i - 1 ==> available@[j] == #[trigger] available@.subrange(0, i as int)[j]);
    }
    output_format
}

/// The rate the engine is started with: the stream's, or 1 without a stream.
pub fn device_sample_rate(format: Option<StreamFormat>) -> (r: u32)
    ensures
        r == match format {
            Some(f) => f.sample_rate,
            None => 1,
        },
{
    match format {
        Some(f) => f.sample_rate,
        None => 1,
    }
}

/// Division that rounds toward zero.
pub open spec fn div_toward_zero(a: int, d: int) -> int {
    if a >= 0 { a / d } else { -((-a) / d) }
}

pub open spec fn clamp(x: int, lo: int, hi: int) -> int {
    if x < lo { lo } else if x > hi { hi } else { x }
}

/// A mixed value as a signed 16-bit sample: the signal times `i16::MAX`,
/// rounded toward zero and held to the type's range.
pub open spec fn i16_of_signal(value: int) -> int {
    clamp(div_toward_zero(value, VOLUME_SCALE as int), i16::MIN as int, i16::MAX as int)
}

/// A mixed value as an unsigned 16-bit sample: the signal moved from
/// [-1, 1] to [0, 1], times `u16::MAX`, rounded toward zero and held to the
/// type's range.
pub open spec fn u16_of_signal(value: int) -> int {
    clamp(div_toward_zero((value + SIGNAL_UNIT) * 65535, 2 * SIGNAL_UNIT), 0, u16::MAX as int)
}

pub fn signal_to_i16(value: i128) -> (r: i16)
    ensures
        r == i16_of_signal(value as int),
{
    if value >= 32767 * VOLUME_SCALE {
        i16::MAX
    } else if value <= -32768 * VOLUME_SCALE {
        i16::MIN
    } else if value >= 0 {
        (value / VOLUME_SCALE) as i16
    } else {
        -((-value) / VOLUME_SCALE) as i16
    }
}

pub fn signal_to_u16(value: i128) -> (r: u16)
    ensures
        r == u16_of_signal(value as int),
{
    if value >= SIGNAL_UNIT {
        u16::MAX
    } else if value <= -SIGNAL_UNIT {
        0
    } else {
        ((value + SIGNAL_UNIT) * 65535 / (2 * SIGNAL_UNIT)) as u16
    }
}


/// The engine after `n` output slots, and the values of those slots in order.
pub open spec fn mix_run(m: MixerView, n: nat) -> (MixerView, Seq<int>)
    decreases n,
{
    if n == 0 {
        (m, Seq::empty())
    } else {
        let (before, values) = mix_run(m, (n - 1) as nat);
        (mix(before).0, values.push(mix(before).1))
    }
}

/// Fills a device buffer of signed 16-bit samples, one output slot per element.
pub fn fill_i16(engine: &mut MixerInternal, buffer: &mut [i16])
    requires
        mixer_wf(old(engine)@),
    ensures
        mixer_wf(final(engine)@),
        final(engine)@ == mix_run(old(engine)@, old(buffer)@.len()).0,
        final(buffer)@.len() == old(buffer)@.len(),
        forall|k: int|
            0 <= k < old(buffer)@.len() ==> final(buffer)@[k] == i16_of_signal(
                #[trigger] mix_run(old(engine)@, old(buffer)@.len()).1[k],
            ),
{
    let ghost start = engine@;
    let n = buffer.len();
    let mut i: usize = 0;
    while i < n
        invariant
            i <= n,
            n == buffer@.len(),
            mixer_wf(engine@),
            engine@ == mix_run(start, i as nat).0,
            mix_run(start, i as nat).1.len() == i,
            forall|k: int| 0 <= k < i ==> buffer@[k] == i16_of_signal(#[trigger] mix_run(start, i as nat).1[k]),
        decreases n - i,
    {
        let value = engine.next_value();
        buffer[i] = signal_to_i16(value);
        proof {
            let prev = mix_run(start, i as nat).1;
            assert(mix_run(start, (i + 1) as nat).1 == prev.push(value as int));
            assert forall|k: int| 0 <= k < i + 1 implies buffer@[k] == i16_of_signal(
                #[trigger] mix_run(start, (i + 1) as nat).1[k],
            ) by {
                if k < i {
                    assert(mix_run(start, (i + 1) as nat).1[k] == prev[k]);
                }
            }
        }
        i = i + 1;
    }
}

/// Fills a device buffer of unsigned 16-bit samples, one output slot per element.
pub fn fill_u16(engine: &mut MixerInternal, buffer: &mut [u16])
    requires
        mixer_wf(old(engine)@),
    ensures
        mixer_wf(final(engine)@),
        final(engine)@ == mix_run(old(engine)@, old(buffer)@.len()).0,
        final(buffer)@.len() == old(buffer)@.len(),
        forall|k: int|
            0 <= k < old(buffer)@.len() ==> final(buffer)@[k] == u16_of_signal(
                #[trigger] mix_run(old(engine)@, old(buffer)@.len()).1[k],
            ),
{
    let ghost start = engine@;
    let n = buffer.len();
    let mut i: usize = 0;
    while i < n
        invariant
            i <= n,
            n == buffer@.len(),
            mixer_wf(engine@),
            engine@ == mix_run(start, i as nat).0,
            mix_run(start, i as nat).1.len() == i,
            forall|k: int| 0 <= k < i ==> buffer@[k] == u16_of_signal(#[trigger] mix_run(start, i as nat).1[k]),
        decreases n - i,
    {
        let value = engine.next_value();
        buffer[i] = signal_to_u16(value);
        proof {
            let prev = mix_run(start, i as nat).1;
            assert(mix_run(start, (i + 1) as nat).1 == prev.push(value as int));
            assert forall|k: int| 0 <= k < i + 1 implies buffer@[k] == u16_of_signal(
                #[trigger] mix_run(start, (i + 1) as nat).1[k],
            ) by {
                if k < i {
                    assert(mix_run(start, (i + 1) as nat).1[k] == prev[k]);
                }
            }
        }
        i = i + 1;
    }
}

} // verus!
