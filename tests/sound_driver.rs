use mixdown::audio::sound_driver::{
    device_sample_rate, negotiate_format, signal_to_i16, signal_to_u16, FormatRange, SampleFormat, StreamFormat,
    SIGNAL_UNIT,
};
use mixdown::audio::SoundError;

#[test]
fn signed_conversion_scales_and_saturates() {
    assert_eq!(signal_to_i16(SIGNAL_UNIT), 32767);
    assert_eq!(signal_to_i16(-SIGNAL_UNIT), -32767);
    assert_eq!(signal_to_i16(0), 0);
    assert_eq!(signal_to_i16(SIGNAL_UNIT / 2), 16383);
    assert_eq!(signal_to_i16(-1_999_999_999_999), -1);
    assert_eq!(signal_to_i16(10 * SIGNAL_UNIT), i16::MAX);
    assert_eq!(signal_to_i16(-10 * SIGNAL_UNIT), i16::MIN);
}

#[test]
fn unsigned_conversion_biases_and_saturates() {
    assert_eq!(signal_to_u16(0), 32767);
    assert_eq!(signal_to_u16(SIGNAL_UNIT), u16::MAX);
    assert_eq!(signal_to_u16(-SIGNAL_UNIT), 0);
    assert_eq!(signal_to_u16(3 * SIGNAL_UNIT), u16::MAX);
    assert_eq!(signal_to_u16(-3 * SIGNAL_UNIT), 0);
    assert_eq!(signal_to_u16(SIGNAL_UNIT / 2), 49151);
}

#[test]
fn negotiation_prefers_stereo_float_at_device_rate() {
    let default_format = StreamFormat { channels: 1, sample_rate: 48000, data_type: SampleFormat::I16 };
    let good = FormatRange { channels: 2, min_sample_rate: 8000, max_sample_rate: 96000, data_type: SampleFormat::F32 };
    let mono = FormatRange { channels: 1, ..good };
    let ints = FormatRange { data_type: SampleFormat::U16, ..good };
    let high = FormatRange { min_sample_rate: 48000, ..good };
    let low = FormatRange { max_sample_rate: 22050, ..good };
    assert_eq!(negotiate_format(default_format, &vec![mono, ints, high, low]), default_format);
    assert_eq!(negotiate_format(default_format, &vec![]), default_format);
    assert_eq!(
        negotiate_format(default_format, &vec![mono, good, low]),
        StreamFormat { channels: 2, sample_rate: 44100, data_type: SampleFormat::F32 }
    );
}

#[test]
fn device_rate_defaults_to_one_without_stream() {
    let f = StreamFormat { channels: 2, sample_rate: 48000, data_type: SampleFormat::F32 };
    assert_eq!(device_sample_rate(Some(f)), 48000);
    assert_eq!(device_sample_rate(None), 1);
}

#[test]
fn sound_error_messages() {
    assert_eq!(SoundError::NoError.message(), "No error");
    assert_eq!(SoundError::NoDevice.message(), "No device!");
    assert_eq!(SoundError::OutputStream.message(), "Failed on output stream creation!");
    assert_eq!(SoundError::UnknownStreamFormat.message(), "Unknown stream format!");
}
