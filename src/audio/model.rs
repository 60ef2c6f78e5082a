//! The engine in mathematical terms: each live sound as a [`Voice`], the
//! whole engine as a [`MixerView`], one output slot as [`mix`] and one
//! command as [`apply`].

use crate::audio::mixer::{
    EarState, MixerError, MixerMessage, PlaybackStyle, Sound, SoundId, Volume, DEVICE_RATE, FULL_VOLUME,
    MAX_CONTRIBUTION,
};
use vstd::prelude::*;

verus! {

/// The correction for a sound recorded at `rate` with `channels` channels:
/// faster sounds skip whole frames, slower ones repeat a frame.
pub open spec fn correction_of(rate: nat, channels: nat) -> (nat, nat)
    recommends
        rate > 0,
{
    let increment = if rate > DEVICE_RATE { rate / DEVICE_RATE as nat } else { 1 };
    let hold = if rate >= DEVICE_RATE { 1 } else { DEVICE_RATE as nat / rate };
    (increment * channels, hold * 2)
}

pub(crate) proof fn lemma_correction_bounds(rate: nat, channels: nat)
    requires
        0 < rate <= u32::MAX,
        channels <= 2,
    ensures
        2 <= correction_of(rate, channels).1 <= 88200,
        correction_of(rate, channels).0 <= 2 * 97391,
{
    let increment = if rate > DEVICE_RATE { rate / DEVICE_RATE as nat } else { 1 };
    let hold = if rate >= DEVICE_RATE { 1 } else { DEVICE_RATE as nat / rate };
    if rate < DEVICE_RATE {
        assert(1 <= 44100nat / rate <= 44100) by (nonlinear_arith)
            requires
                0 < rate < 44100,
        ;
    }
    if rate > DEVICE_RATE {
        assert(rate / 44100nat <= 97391) by (nonlinear_arith)
            requires
                rate <= 4294967295,
        ;
    }
    assert(increment * channels <= 2 * 97391) by (nonlinear_arith)
        requires
            increment <= 97391,
            channels <= 2,
    ;
}

/// One live sound as the engine sees it.
pub struct Voice {
    pub id: SoundId,
    pub sample_rate: u32,
    /// Interleaved samples, a frame of `channels` at a time.
    pub samples: Seq<i16>,
    pub channels: u16,
    pub style: PlaybackStyle,
    /// The first sample of the frame it plays next.
    pub progress: usize,
    /// Per-mille of full volume.
    pub volume: u16,
    /// The channel of the next slot it plays in.
    pub ear: EarState,
    /// How far `progress` moves when it advances.
    pub increment: usize,
    /// How many slots it plays from one position.
    pub hold: usize,
    /// Slots left at the current position.
    pub ticks: usize,
}

pub open spec fn voice_wf(v: Voice) -> bool {
    &&& 1 <= v.channels <= 2
    &&& v.volume <= FULL_VOLUME
    &&& 1 <= v.ticks <= v.hold
}

/// No complete frame is left at the sound's position. For a stereo sound
/// with an odd number of samples the lone last sample is never played.
pub open spec fn at_end(v: Voice) -> bool {
    v.progress + v.channels > v.samples.len()
}

/// The effective gain: the product of sound and master volume, squared.
pub open spec fn gain(volume: u16, master: u16) -> int {
    (volume * master) * (volume * master)
}

/// The sample a sound plays in a slot: the right one of a stereo frame on
/// the right channel, else the first.
pub open spec fn sample_index(v: Voice) -> int {
    if v.channels == 2 && v.ear == EarState::Right {
        v.progress + 1
    } else {
        v.progress as int
    }
}

pub open spec fn saturating_add(a: usize, b: usize) -> usize {
    if a + b > usize::MAX { usize::MAX } else { (a + b) as usize }
}

pub open spec fn with_progress(v: Voice, progress: usize) -> Voice {
    Voice { progress, ..v }
}

/// One output slot for one sound: the sound afterwards, whether it stays in
/// the table, and what it adds to the slot.
pub open spec fn voice_step(v: Voice, ear: EarState, master: u16) -> (Voice, bool, int) {
    if v.ear != ear {
        (v, true, 0)
    } else if at_end(v) && v.style == PlaybackStyle::Once {
        (v, false, 0)
    } else {
        let w = if at_end(v) && v.style == PlaybackStyle::Looped { with_progress(v, 0) } else { v };
        if at_end(w) {
            (w, true, 0)
        } else {
            let advanced = w.ticks == 1;
            let next = Voice {
                progress: if advanced { saturating_add(w.progress, w.increment) } else { w.progress },
                ticks: if advanced { w.hold } else { (w.ticks - 1) as usize },
                ear: w.ear.flip(),
                ..w
            };
            (next, true, w.samples[sample_index(w)] * gain(w.volume, master))
        }
    }
}

pub(crate) proof fn lemma_contribution_bound(sample: i16, volume: u16, master: u16)
    requires
        volume <= FULL_VOLUME,
        master <= FULL_VOLUME,
    ensures
        -MAX_CONTRIBUTION <= sample * gain(volume, master) <= MAX_CONTRIBUTION,
{
    let level = volume * master;
    assert(0 <= level <= 1000000) by (nonlinear_arith)
        requires
            level == volume * master,
            volume <= 1000,
            master <= 1000,
    ;
    assert(0 <= level * level <= 1000000000000) by (nonlinear_arith)
        requires
            0 <= level <= 1000000,
    ;
    assert(-MAX_CONTRIBUTION <= sample * (level * level) <= MAX_CONTRIBUTION) by (nonlinear_arith)
        requires
            0 <= level * level <= 1000000000000,
            -32768 <= sample <= 32767,
    ;
}

/// One output slot over a whole table: the table afterwards, in the same
/// order and without the sounds that ended, and the sum of what each adds.
pub open spec fn mix_voices(s: Seq<Voice>, ear: EarState, master: u16) -> (Seq<Voice>, int)
    decreases s.len(),
{
    if s.len() == 0 {
        (Seq::empty(), 0)
    } else {
        let (v, keep, c) = voice_step(s[0], ear, master);
        let (rest, total) = mix_voices(s.drop_first(), ear, master);
        (if keep { seq![v] + rest } else { rest }, c + total)
    }
}

/// The table holds a sound with this id.
pub open spec fn holds_id(s: Seq<Voice>, id: SoundId) -> bool {
    exists|i: int| 0 <= i < s.len() && s[i].id == id
}

pub open spec fn ids_unique(s: Seq<Voice>) -> bool {
    forall|i: int, j: int| 0 <= i < j < s.len() ==> s[i].id != s[j].id
}

pub open spec fn voices_wf(s: Seq<Voice>) -> bool {
    &&& ids_unique(s)
    &&& forall|i: int| 0 <= i < s.len() ==> voice_wf(#[trigger] s[i])
}

/// Where the sound with this id stands in the table, or -1.
pub open spec fn slot(s: Seq<Voice>, id: SoundId) -> int {
    if holds_id(s, id) {
        choose|i: int| 0 <= i < s.len() && s[i].id == id
    } else {
        -1
    }
}

/// The engine's whole state.
pub struct MixerView {
    pub sample_rate: u32,
    pub sounds: Seq<Voice>,
    pub volume: u16,
    pub ear: EarState,
}

pub open spec fn mixer_wf(m: MixerView) -> bool {
    &&& m.volume <= FULL_VOLUME
    &&& voices_wf(m.sounds)
}

/// One call of [`MixerInternal::next_value`]: the state afterwards and the
/// value returned.
pub open spec fn mix(m: MixerView) -> (MixerView, int) {
    let (sounds, value) = mix_voices(m.sounds, m.ear, m.volume);
    (MixerView { sounds, ear: m.ear.flip(), ..m }, value)
}

/// Every sound that stays keeps its id and its well-formedness, and the sum
/// is bounded by the table's size.
pub proof fn lemma_mix_voices(s: Seq<Voice>, ear: EarState, master: u16)
    requires
        voices_wf(s),
        master <= FULL_VOLUME,
    ensures
        voices_wf(mix_voices(s, ear, master).0),
        mix_voices(s, ear, master).0.len() <= s.len(),
        forall|j: int|
            0 <= j < mix_voices(s, ear, master).0.len() ==> holds_id(
                s,
                #[trigger] mix_voices(s, ear, master).0[j].id,
            ),
        -MAX_CONTRIBUTION * s.len() <= mix_voices(s, ear, master).1 <= MAX_CONTRIBUTION * s.len(),
    decreases s.len(),
{
    if s.len() > 0 {
        let t = s.drop_first();
        assert(voices_wf(t)) by {
            assert forall|i: int| 0 <= i < t.len() implies voice_wf(#[trigger] t[i]) by {
                assert(t[i] == s[i + 1]);
            }
        }
        lemma_mix_voices(t, ear, master);
        let (v, keep, c) = voice_step(s[0], ear, master);
        let (rest, total) = mix_voices(t, ear, master);
        assert(voice_wf(s[0]));
        if s[0].ear == ear && !at_end(s[0]) || (s[0].ear == ear && s[0].style == PlaybackStyle::Looped
            && !at_end(with_progress(s[0], 0))) {
            let w = if at_end(s[0]) { with_progress(s[0], 0) } else { s[0] };
            if !at_end(w) {
                lemma_contribution_bound(w.samples[sample_index(w)], w.volume, master);
            }
        }
        assert(-MAX_CONTRIBUTION <= c <= MAX_CONTRIBUTION);
        assert forall|j: int| 0 <= j < rest.len() implies holds_id(s, #[trigger] rest[j].id) by {
            let k = choose|k: int| 0 <= k < t.len() && t[k].id == rest[j].id;
            assert(s[k + 1] == t[k]);
        }
        assert forall|j: int| 0 <= j < rest.len() implies #[trigger] rest[j].id != s[0].id by {
            let k = choose|k: int| 0 <= k < t.len() && t[k].id == rest[j].id;
            assert(s[k + 1] == t[k]);
        }
        if keep {
            let out = seq![v] + rest;
            assert(out[0].id == s[0].id);
            assert forall|j: int| 0 <= j < out.len() implies holds_id(s, #[trigger] out[j].id) by {
                if j == 0 {
                    assert(s[0].id == out[0].id);
                } else {
                    assert(out[j] == rest[j - 1]);
                }
            }
            assert forall|i: int, j: int| 0 <= i < j < out.len() implies out[i].id != out[j].id by {
                assert(out[j] == rest[j - 1]);
                if i > 0 {
                    assert(out[i] == rest[i - 1]);
                }
            }
            assert forall|i: int| 0 <= i < out.len() implies voice_wf(#[trigger] out[i]) by {
                if i > 0 {
                    assert(out[i] == rest[i - 1]);
                }
            }
        }
    }
}

/// The sound that `Play` starts: at its first sample, on the left channel.
pub open spec fn fresh_voice(id: SoundId, sound: Sound, volume: Volume) -> Voice {
    let (increment, hold) = correction_of(sound.sample_rate as nat, sound.channels as nat);
    Voice {
        id,
        sample_rate: sound.sample_rate,
        samples: sound.samples@,
        channels: sound.channels,
        style: sound.playback_style,
        progress: 0,
        volume: volume.0,
        ear: EarState::Left,
        increment: increment as usize,
        hold: hold as usize,
        ticks: hold as usize,
    }
}

pub open spec fn with_sounds(m: MixerView, sounds: Seq<Voice>) -> MixerView {
    MixerView { sounds, ..m }
}

/// What one command does to the engine, and what it answers.
pub open spec fn apply(m: MixerView, msg: MixerMessage) -> (MixerView, Result<(), MixerError>) {
    match msg {
        MixerMessage::Play(id, sound, volume) => {
            if volume.0 > FULL_VOLUME {
                (m, Err(MixerError::VolumeTooHigh))
            } else if !(1 <= sound.channels <= 2) {
                (m, Err(MixerError::UnsupportedChannels))
            } else if sound.sample_rate == 0 {
                (m, Err(MixerError::ZeroSampleRate))
            } else {
                let v = fresh_voice(id, sound, volume);
                let i = slot(m.sounds, id);
                (with_sounds(m, if i >= 0 { m.sounds.update(i, v) } else { m.sounds.push(v) }), Ok(()))
            }
        },
        MixerMessage::StreamContent(id, content) => {
            let i = slot(m.sounds, id);
            if i < 0 {
                (m, Ok(()))
            } else if m.sounds[i].style != PlaybackStyle::Streamed {
                (m, Err(MixerError::NotStreamed))
            } else {
                let v = m.sounds[i];
                (with_sounds(m, m.sounds.update(i, Voice { samples: v.samples + content@, ..v })), Ok(()))
            }
        },
        MixerMessage::SetVolume(id, volume) => {
            let i = slot(m.sounds, id);
            if i < 0 {
                (m, Ok(()))
            } else if volume.0 > FULL_VOLUME {
                (m, Err(MixerError::VolumeTooHigh))
            } else {
                let v = m.sounds[i];
                (with_sounds(m, m.sounds.update(i, Voice { volume: volume.0, ..v })), Ok(()))
            }
        },
        MixerMessage::SetVolumeSelf(volume) => {
            if volume.0 > FULL_VOLUME {
                (m, Err(MixerError::VolumeTooHigh))
            } else {
                (MixerView { volume: volume.0, ..m }, Ok(()))
            }
        },
        MixerMessage::Stop(id) => {
            let i = slot(m.sounds, id);
            (if i < 0 { m } else { with_sounds(m, m.sounds.remove(i)) }, Ok(()))
        },
    }
}

pub(crate) proof fn lemma_wf_write(s: Seq<Voice>, t: Seq<Voice>, i: int)
    requires
        voices_wf(s),
        0 <= i <= s.len(),
        t.len() == if i == s.len() { s.len() + 1 } else { s.len() },
        forall|j: int| 0 <= j < s.len() && j != i ==> t[j] == s[j],
        voice_wf(t[i]),
        i < s.len() ==> t[i].id == s[i].id,
        i == s.len() ==> !holds_id(s, t[i].id),
    ensures
        voices_wf(t),
{
    assert forall|a: int, b: int| 0 <= a < b < t.len() implies t[a].id != t[b].id by {
        if a != i && b != i {
            assert(t[a] == s[a] && t[b] == s[b]);
        } else if a == i {
            assert(t[b] == s[b]);
        } else {
            assert(t[a] == s[a]);
        }
    }
    assert forall|j: int| 0 <= j < t.len() implies voice_wf(#[trigger] t[j]) by {
        if j != i {
            assert(t[j] == s[j]);
        }
    }
}

pub(crate) proof fn lemma_wf_remove(s: Seq<Voice>, i: int)
    requires
        voices_wf(s),
        0 <= i < s.len(),
    ensures
        voices_wf(s.remove(i)),
{
    let t = s.remove(i);
    assert forall|a: int, b: int| 0 <= a < b < t.len() implies t[a].id != t[b].id by {
        let a2 = if a < i { a } else { a + 1 };
        let b2 = if b < i { b } else { b + 1 };
        assert(t[a] == s[a2] && t[b] == s[b2]);
    }
    assert forall|j: int| 0 <= j < t.len() implies voice_wf(#[trigger] t[j]) by {
        let j2 = if j < i { j } else { j + 1 };
        assert(t[j] == s[j2]);
    }
}

/// Every command leaves a well-formed engine well-formed, whether it is
/// accepted or refused.
pub proof fn lemma_apply_wf(m: MixerView, msg: MixerMessage)
    requires
        mixer_wf(m),
    ensures
        mixer_wf(apply(m, msg).0),
{
    let (after, r) = apply(m, msg);
    match msg {
        MixerMessage::Play(id, sound, volume) => {
            if r is Ok {
                lemma_correction_bounds(sound.sample_rate as nat, sound.channels as nat);
                let i = slot(m.sounds, id);
                if i >= 0 {
                    lemma_wf_write(m.sounds, after.sounds, i);
                } else {
                    lemma_wf_write(m.sounds, after.sounds, m.sounds.len() as int);
                }
            }
        },
        MixerMessage::StreamContent(id, content) => {
            let i = slot(m.sounds, id);
            if i >= 0 && m.sounds[i].style == PlaybackStyle::Streamed {
                lemma_wf_write(m.sounds, after.sounds, i);
            }
        },
        MixerMessage::SetVolume(id, volume) => {
            let i = slot(m.sounds, id);
            if i >= 0 && volume.0 <= FULL_VOLUME {
                lemma_wf_write(m.sounds, after.sounds, i);
            }
        },
        MixerMessage::SetVolumeSelf(_) => {},
        MixerMessage::Stop(id) => {
            let i = slot(m.sounds, id);
            if i >= 0 {
                lemma_wf_remove(m.sounds, i);
            }
        },
    }
}

} // verus!
