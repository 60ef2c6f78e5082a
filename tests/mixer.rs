use mixdown::audio::mixer::{
    MixerError, MixerInternal, MixerMessage, PlaybackBuilder, PlaybackStyle, Sound, SoundId, SoundMixer,
    Volume, MAX_CONTRIBUTION,
};
use mixdown::audio::sound_driver::SIGNAL_UNIT;
use std::sync::mpsc::{channel, Receiver};

fn sound(rate: u32, channels: u16, samples: Vec<i16>, style: PlaybackStyle) -> Sound {
    Sound { sample_rate: rate, channels, samples, playback_style: style }
}

fn engine(master: u16) -> MixerInternal {
    let mut e = MixerInternal::new(Volume(master));
    e.init(44100);
    e
}

fn drain(rx: &Receiver<MixerMessage>, e: &mut MixerInternal) -> Vec<Result<(), MixerError>> {
    rx.try_iter().map(|m| e.handle_event(m)).collect()
}

fn run(e: &mut MixerInternal, n: usize) -> Vec<i128> {
    (0..n).map(|_| e.next_value()).collect()
}

const U: i128 = SIGNAL_UNIT;

#[test]
fn rate_correction_table() {
    let stereo = sound(44100, 2, vec![], PlaybackStyle::Once).get_sample_rate_correction();
    assert_eq!(stereo.progress_increment_amount, 2);
    assert_eq!(stereo.ticks_pre_increment, 2);
    let mono_half = sound(22050, 1, vec![], PlaybackStyle::Once).get_sample_rate_correction();
    assert_eq!(mono_half.progress_increment_amount, 1);
    assert_eq!(mono_half.ticks_pre_increment, 4);
    let fast = sound(88200, 2, vec![], PlaybackStyle::Once).get_sample_rate_correction();
    assert_eq!(fast.progress_increment_amount, 4);
    assert_eq!(fast.ticks_pre_increment, 2);
}

#[test]
fn once_mono_sound_plays_then_leaves() {
    let (tx, rx) = channel();
    let mut mixer = SoundMixer::new(tx);
    let id = mixer
        .play(PlaybackBuilder::new().with_sound(sound(44100, 1, vec![32767, -32767], PlaybackStyle::Once)))
        .unwrap();
    let mut e = engine(1000);
    assert_eq!(drain(&rx, &mut e), vec![Ok(())]);
    assert_eq!(e.sound_len(id), Some(2));
    let out = run(&mut e, 4);
    assert_eq!(out[0], U);
    assert_eq!(out, vec![U, U, -U, -U]);
    assert_eq!(e.sound_len(id), Some(2));
    assert_eq!(e.next_value(), 0);
    assert_eq!(e.sound_len(id), None);
    assert_eq!(run(&mut e, 6), vec![0; 6]);
}

#[test]
fn once_sound_has_exactly_two_frames_of_signal() {
    let (tx, rx) = channel();
    let mut mixer = SoundMixer::new(tx);
    mixer.play(PlaybackBuilder::new().with_sound(sound(44100, 1, vec![1000, 2000], PlaybackStyle::Once)));
    let mut e = engine(1000);
    drain(&rx, &mut e);
    let out = run(&mut e, 20);
    let loud: Vec<i128> = out.iter().copied().filter(|v| *v != 0).collect();
    assert_eq!(loud.len(), 4);
    assert!(out[4..].iter().all(|v| *v == 0));
}

#[test]
fn looped_sound_repeats_with_its_period() {
    let (tx, rx) = channel();
    let mut mixer = SoundMixer::new(tx);
    let id = mixer
        .play(PlaybackBuilder::new().with_sound(sound(44100, 1, vec![100, 200, 300], PlaybackStyle::Looped)))
        .unwrap();
    let mut e = engine(1000);
    drain(&rx, &mut e);
    let out = run(&mut e, 36);
    let scale: i128 = 1_000_000_000_000;
    let period = vec![100 * scale, 100 * scale, 200 * scale, 200 * scale, 300 * scale, 300 * scale];
    for (i, v) in out.iter().enumerate() {
        assert_eq!(*v, period[i % 6]);
    }
    assert_eq!(e.sound_len(id), Some(3));
}

#[test]
fn empty_looped_sound_is_silent() {
    let (tx, rx) = channel();
    let mut mixer = SoundMixer::new(tx);
    let id = mixer.play(PlaybackBuilder::new().with_sound(sound(44100, 2, vec![], PlaybackStyle::Looped))).unwrap();
    let mut e = engine(1000);
    drain(&rx, &mut e);
    assert_eq!(run(&mut e, 8), vec![0; 8]);
    assert_eq!(e.sound_len(id), Some(0));
}

#[test]
fn stereo_sound_plays_left_then_right() {
    let (tx, rx) = channel();
    let mut mixer = SoundMixer::new(tx);
    let id = mixer
        .play(PlaybackBuilder::new().with_sound(sound(44100, 2, vec![10, -20, 30, -40], PlaybackStyle::Once)))
        .unwrap();
    let mut e = engine(1000);
    drain(&rx, &mut e);
    let scale: i128 = 1_000_000_000_000;
    assert_eq!(run(&mut e, 6), vec![10 * scale, -20 * scale, 30 * scale, -40 * scale, 0, 0]);
    assert_eq!(e.sound_len(id), None);
}

#[test]
fn streamed_sound_grows_and_waits_for_content() {
    let (tx, rx) = channel();
    let mut mixer = SoundMixer::new(tx);
    let id = mixer.play(PlaybackBuilder::new().with_sound(sound(44100, 1, vec![7], PlaybackStyle::Streamed))).unwrap();
    let mut e = engine(1000);
    drain(&rx, &mut e);
    let scale: i128 = 1_000_000_000_000;
    assert_eq!(run(&mut e, 4), vec![7 * scale, 7 * scale, 0, 0]);
    assert_eq!(e.sound_len(id), Some(1));
    mixer.stream_sound(id, vec![9, 11]);
    assert_eq!(drain(&rx, &mut e), vec![Ok(())]);
    assert_eq!(e.sound_len(id), Some(3));
    assert_eq!(run(&mut e, 6), vec![9 * scale, 9 * scale, 11 * scale, 11 * scale, 0, 0]);
    assert_eq!(e.sound_len(id), Some(3));
}

#[test]
fn streaming_into_a_once_sound_fails() {
    let (tx, rx) = channel();
    let mut mixer = SoundMixer::new(tx);
    let id = mixer.play(PlaybackBuilder::new().with_sound(sound(44100, 1, vec![1, 2], PlaybackStyle::Once))).unwrap();
    mixer.stream_sound(id, vec![3]);
    let mut e = engine(1000);
    assert_eq!(drain(&rx, &mut e), vec![Ok(()), Err(MixerError::NotStreamed)]);
    assert_eq!(e.sound_len(id), Some(2));
}

#[test]
fn half_master_volume_quarters_every_sample() {
    for per_sound in [1000u16, 700, 250] {
        let mut loud = engine(1000);
        let mut quiet = engine(500);
        let (tx, rx) = channel();
        let mut mixer = SoundMixer::new(tx);
        mixer.play(
            PlaybackBuilder::new()
                .with_volume(Volume(per_sound))
                .with_sound(sound(44100, 2, vec![32767, -1234, 77, 5], PlaybackStyle::Looped)),
        );
        let msgs: Vec<MixerMessage> = rx.try_iter().collect();
        for m in msgs {
            if let MixerMessage::Play(id, s, v) = m {
                loud.handle_event(MixerMessage::Play(id, s.clone(), v)).unwrap();
                quiet.handle_event(MixerMessage::Play(id, s, v)).unwrap();
            }
        }
        for _ in 0..12 {
            let a = loud.next_value();
            let b = quiet.next_value();
            assert_eq!(b * 4, a);
        }
    }
}

#[test]
fn master_volume_command_takes_effect() {
    let (tx, rx) = channel();
    let mut mixer = SoundMixer::new(tx);
    mixer.play(PlaybackBuilder::new().with_sound(sound(44100, 1, vec![1000], PlaybackStyle::Looped)));
    mixer.set_volume_self(Volume(500));
    let mut e = engine(1000);
    assert_eq!(drain(&rx, &mut e), vec![Ok(()), Ok(())]);
    assert_eq!(e.next_value(), 1000 * 250_000_000_000);
}

#[test]
fn stop_before_any_output_silences_the_sound() {
    let (tx, rx) = channel();
    let mut mixer = SoundMixer::new(tx);
    let id = mixer
        .play(PlaybackBuilder::new().with_sound(sound(44100, 1, vec![5000, 5000], PlaybackStyle::Looped)))
        .unwrap();
    mixer.stop(id);
    let mut e = engine(1000);
    assert_eq!(drain(&rx, &mut e), vec![Ok(()), Ok(())]);
    assert_eq!(e.sound_len(id), None);
    assert_eq!(run(&mut e, 10), vec![0; 10]);
}

#[test]
fn stop_of_an_unknown_id_is_ignored() {
    let (tx, rx) = channel();
    let mut mixer = SoundMixer::new(tx);
    let id = mixer.play(PlaybackBuilder::new().with_sound(sound(44100, 1, vec![5], PlaybackStyle::Once))).unwrap();
    let _ = rx.try_iter().count();
    let mut e = engine(1000);
    mixer.stop(id);
    mixer.set_volume(id, Volume(10));
    mixer.stream_sound(id, vec![1]);
    assert_eq!(drain(&rx, &mut e), vec![Ok(()), Ok(()), Ok(())]);
    assert_eq!(e.next_value(), 0);
}

#[test]
fn commands_with_bad_values_are_refused() {
    let mut e = engine(1000);
    let (tx, rx) = channel();
    let mut mixer = SoundMixer::new(tx);
    let loud = mixer.play(
        PlaybackBuilder::new().with_volume(Volume(1001)).with_sound(sound(44100, 1, vec![1], PlaybackStyle::Once)),
    );
    let three = mixer.play(PlaybackBuilder::new().with_sound(sound(44100, 3, vec![1, 2, 3], PlaybackStyle::Once)));
    let still = mixer.play(PlaybackBuilder::new().with_sound(sound(0, 1, vec![1], PlaybackStyle::Once)));
    let ok = mixer.play(PlaybackBuilder::new().with_sound(sound(44100, 1, vec![1], PlaybackStyle::Looped))).unwrap();
    mixer.set_volume(ok, Volume(2000));
    mixer.set_volume_self(Volume(1500));
    assert_eq!(
        drain(&rx, &mut e),
        vec![
            Err(MixerError::VolumeTooHigh),
            Err(MixerError::UnsupportedChannels),
            Err(MixerError::ZeroSampleRate),
            Ok(()),
            Err(MixerError::VolumeTooHigh),
            Err(MixerError::VolumeTooHigh),
        ]
    );
    assert_eq!(e.sound_len(loud.unwrap()), None);
    assert_eq!(e.sound_len(three.unwrap()), None);
    assert_eq!(e.sound_len(still.unwrap()), None);
    assert_eq!(e.next_value(), 1_000_000_000_000);
}

#[test]
fn play_without_a_sound_gives_no_id() {
    let (tx, rx) = channel::<MixerMessage>();
    let mut mixer = SoundMixer::new(tx);
    assert!(mixer.play(PlaybackBuilder::new()).is_none());
    assert_eq!(rx.try_iter().count(), 0);
}

#[test]
fn ids_are_never_reused() {
    let (tx, _rx) = channel();
    let mut mixer = SoundMixer::new(tx);
    let mut ids: Vec<SoundId> = Vec::new();
    for _ in 0..5 {
        ids.push(mixer.play(PlaybackBuilder::new().with_sound(sound(44100, 1, vec![1], PlaybackStyle::Once))).unwrap());
    }
    for i in 0..5 {
        for j in 0..5 {
            assert_eq!(ids[i] == ids[j], i == j);
        }
    }
}

#[test]
fn playing_an_id_again_replaces_the_sound() {
    let (tx, rx) = channel();
    let mut mixer = SoundMixer::new(tx);
    let id = mixer.play(PlaybackBuilder::new().with_sound(sound(44100, 1, vec![1, 2, 3], PlaybackStyle::Once))).unwrap();
    let mut e = engine(1000);
    let msgs: Vec<MixerMessage> = rx.try_iter().collect();
    for m in msgs {
        e.handle_event(m).unwrap();
    }
    e.handle_event(MixerMessage::Play(id, sound(44100, 1, vec![4], PlaybackStyle::Once), Volume(1000))).unwrap();
    assert_eq!(e.sound_len(id), Some(1));
}

#[test]
fn new_ext_starts_with_a_master_volume_command() {
    let (tx, rx) = channel();
    let mut mixer = SoundMixer::new_ext(tx, Volume(500));
    mixer.frame();
    let mut e = engine(1000);
    assert_eq!(drain(&rx, &mut e), vec![Ok(())]);
    mixer.play(PlaybackBuilder::new().with_sound(sound(44100, 1, vec![4], PlaybackStyle::Once)));
    drain(&rx, &mut e);
    assert_eq!(e.next_value(), 4 * 250_000_000_000);
}

#[test]
fn slow_sound_holds_each_sample_longer() {
    let (tx, rx) = channel();
    let mut mixer = SoundMixer::new(tx);
    mixer.play(PlaybackBuilder::new().with_sound(sound(22050, 1, vec![1, 2], PlaybackStyle::Once)));
    let mut e = engine(1000);
    drain(&rx, &mut e);
    let s: i128 = 1_000_000_000_000;
    assert_eq!(run(&mut e, 10), vec![s, s, s, s, 2 * s, 2 * s, 2 * s, 2 * s, 0, 0]);
}

#[test]
fn mixed_value_stays_within_bound() {
    let (tx, rx) = channel();
    let mut mixer = SoundMixer::new(tx);
    for _ in 0..3 {
        mixer.play(PlaybackBuilder::new().with_sound(sound(44100, 1, vec![i16::MIN, i16::MAX], PlaybackStyle::Looped)));
    }
    let mut e = engine(1000);
    drain(&rx, &mut e);
    for v in run(&mut e, 8) {
        assert!(v.abs() <= 3 * MAX_CONTRIBUTION);
    }
}
