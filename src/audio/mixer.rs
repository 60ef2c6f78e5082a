use crate::audio::model::{
    apply, correction_of, fresh_voice, holds_id, lemma_contribution_bound, lemma_mix_voices, lemma_wf_remove,
    lemma_wf_write, mix, mix_voices, mixer_wf, slot, voice_step, voice_wf, voices_wf, MixerView, Voice,
};
use std::sync::mpsc::Sender;
use vstd::prelude::*;

verus! {

/// The rate the output device is asked for, in frames per second.
pub const DEVICE_RATE: u32 = 44100;

/// How a sound advances through its samples, relative to the device rate.
#[derive(Clone, Copy, Debug, PartialEq, Eq)]
pub struct SampleRateCorrection {
    /// Samples skipped each time the sound advances.
    pub progress_increment_amount: usize,
    /// Contributions made from one position before it advances.
    pub ticks_pre_increment: usize,
}

/// Per-mille volume that stands for full loudness.
pub const FULL_VOLUME: u16 = 1000;

/// The largest magnitude one sound can add to one output slot:
/// a full-scale sample at full sound and master volume.
pub const MAX_CONTRIBUTION: i128 = 32768_000000_000000;

/// Handle of one playing instance, minted by [`SoundMixer::play`].
#[derive(Clone, Copy, Debug, Hash, PartialEq, Eq, Structural)]
pub struct SoundId(usize);

/// A loudness level in per-mille of full volume; above [`FULL_VOLUME`] is an error.
#[derive(Clone, Copy, Debug, PartialEq, Eq, Structural)]
pub struct Volume(pub u16);

/// What happens when a sound reaches the end of its samples.
#[derive(Clone, Copy, Debug, PartialEq, Eq, Structural)]
pub enum PlaybackStyle {
    /// The sound is removed.
    Once,
    /// The sound starts over.
    Looped,
    /// The sound stays silent until more samples are streamed in.
    Streamed,
}

/// A playable asset: interleaved 16-bit samples (full scale is `i16::MAX`).
#[derive(Clone, Debug)]
pub struct Sound {
    pub sample_rate: u32,
    pub channels: u16,
    pub samples: Vec<i16>,
    pub playback_style: PlaybackStyle,
}

impl Sound {
    /// How this sound advances relative to the device rate.
    pub fn get_sample_rate_correction(&self) -> (r: SampleRateCorrection)
        requires
            self.sample_rate > 0,
            1 <= self.channels <= 2,
        ensures
            (r.progress_increment_amount as nat, r.ticks_pre_increment as nat)
                == correction_of(self.sample_rate as nat, self.channels as nat),
            r.ticks_pre_increment >= 2,
    {
        let sample_rate = self.sample_rate;
        let increment: u32 = if sample_rate > DEVICE_RATE { sample_rate / DEVICE_RATE } else { 1 };
        let hold: u32 = if sample_rate >= DEVICE_RATE { 1 } else { DEVICE_RATE / sample_rate };
        assert(increment <= 97391 && hold >= 1 && hold <= 44100) by (nonlinear_arith)
            requires
                increment == (if sample_rate > 44100 { sample_rate / 44100u32 } else { 1 }),
                hold == (if sample_rate >= 44100 { 1 } else { 44100u32 / sample_rate }),
                0 < sample_rate <= u32::MAX,
        ;
        assert(increment * self.channels <= 2 * 97391) by (nonlinear_arith)
            requires
                increment <= 97391,
                self.channels <= 2,
        ;
        SampleRateCorrection {
            progress_increment_amount: (increment as usize) * (self.channels as usize),
            ticks_pre_increment: (hold as usize) * 2,
        }
    }
}

/// The output channel a slot belongs to; slots alternate, left first.
#[derive(Clone, Copy, Debug, PartialEq, Eq, Structural)]
pub enum EarState {
    Left,
    Right,
}

impl EarState {
    pub open spec fn flip(self) -> EarState {
        match self {
            EarState::Left => EarState::Right,
            EarState::Right => EarState::Left,
        }
    }

    pub fn switch(&mut self)
        ensures
            *final(self) == old(self).flip(),
    {
        *self = match self {
            EarState::Left => EarState::Right,
            EarState::Right => EarState::Left,
        };
    }
}

/// Why the engine refused a command.
#[derive(Clone, Copy, Debug, PartialEq, Eq, Structural)]
pub enum MixerError {
    /// A volume above [`FULL_VOLUME`].
    VolumeTooHigh,
    /// Samples streamed into a sound that is not [`PlaybackStyle::Streamed`].
    NotStreamed,
    /// A sound with other than one or two channels.
    UnsupportedChannels,
    /// A sound recorded at a rate of zero.
    ZeroSampleRate,
}

/// A command from the control plane to the engine.
pub enum MixerMessage {
    Play(SoundId, Sound, Volume),
    SetVolume(SoundId, Volume),
    StreamContent(SoundId, Vec<i16>),
    SetVolumeSelf(Volume),
    Stop(SoundId),
}

/// A live instance of a sound, owned by the engine.
pub struct SoundInternal {
    id: SoundId,
    data: Sound,
    progress: usize,
    volume: Volume,
    ear: EarState,
    sample_rate_correction: SampleRateCorrection,
    ticks: usize,
}

impl View for SoundInternal {
    type V = Voice;

    closed spec fn view(&self) -> Voice {
        Voice {
            id: self.id,
            sample_rate: self.data.sample_rate,
            samples: self.data.samples@,
            channels: self.data.channels,
            style: self.data.playback_style,
            progress: self.progress,
            volume: self.volume.0,
            ear: self.ear,
            increment: self.sample_rate_correction.progress_increment_amount,
            hold: self.sample_rate_correction.ticks_pre_increment,
            ticks: self.ticks,
        }
    }
}

impl SoundInternal {
    /// Plays this sound in one output slot of channel `ear`; returns what it
    /// adds and whether it stays in the table.
    fn advance(&mut self, ear: EarState, master: u16) -> (r: (i128, bool))
        requires
            voice_wf(old(self)@),
            master <= FULL_VOLUME,
        ensures
            (final(self)@, r.1, r.0 as int) == voice_step(old(self)@, ear, master),
            voice_wf(final(self)@),
            -MAX_CONTRIBUTION <= r.0 <= MAX_CONTRIBUTION,
    {
        if self.ear != ear {
            return (0, true);
        }
        let len = self.data.samples.len();
        let channels = self.data.channels as usize;
        if self.progress >= len || len - self.progress < channels {
            match self.data.playback_style {
                PlaybackStyle::Once => {
                    return (0, false);
                },
                PlaybackStyle::Looped => {
                    self.progress = 0;
                },
                PlaybackStyle::Streamed => {
                    return (0, true);
                },
            }
            if len < channels {
                return (0, true);
            }
        }
        let index = if channels == 2 && self.ear == EarState::Right {
            self.progress + 1
        } else {
            self.progress
        };
        let volume = self.volume.0 as u64;
        assert(volume * (master as u64) <= 1000000) by (nonlinear_arith)
            requires
                volume <= 1000,
                master <= 1000,
        ;
        let level = volume * (master as u64);
        assert(level * level <= 1000000000000) by (nonlinear_arith)
            requires
                level <= 1000000,
        ;
        let gain = level * level;
        let sample = self.data.samples[index];
        proof {
            lemma_contribution_bound(sample, self.volume.0, master);
        }
        self.ticks = self.ticks - 1;
        if self.ticks == 0 {
            let increment = self.sample_rate_correction.progress_increment_amount;
            self.progress = if increment > usize::MAX - self.progress {
                usize::MAX
            } else {
                self.progress + increment
            };
            self.ticks = self.sample_rate_correction.ticks_pre_increment;
        }
        self.ear.switch();
        ((sample as i128) * (gain as i128), true)
    }
}

pub open spec fn voices_of(v: Seq<SoundInternal>) -> Seq<Voice> {
    v.map_values(|s: SoundInternal| s@)
}

/// The synthesis engine: owns every live sound and produces the mixed signal.
pub struct MixerInternal {
    sample_rate: u32,
    sounds: Vec<SoundInternal>,
    volume: Volume,
    ear: EarState,
}

impl View for MixerInternal {
    type V = MixerView;

    closed spec fn view(&self) -> MixerView {
        MixerView {
            sample_rate: self.sample_rate,
            sounds: voices_of(self.sounds@),
            volume: self.volume.0,
            ear: self.ear,
        }
    }
}

impl MixerInternal {
    /// An engine with no sounds, at the given master volume, before the
    /// device rate is known.
    pub fn new(volume: Volume) -> (r: MixerInternal)
        requires
            volume.0 <= FULL_VOLUME,
        ensures
            r@ == (MixerView { sample_rate: 0, sounds: Seq::empty(), volume: volume.0, ear: EarState::Left }),
            mixer_wf(r@),
    {
        let r = MixerInternal { sample_rate: 0, sounds: Vec::new(), volume, ear: EarState::Left };
        assert(voices_of(r.sounds@) =~= Seq::empty());
        r
    }

    /// Records the rate the device was opened at.
    pub fn init(&mut self, sample_rate: u32)
        ensures
            final(self)@ == (MixerView { sample_rate, ..old(self)@ }),
    {
        self.sample_rate = sample_rate;
    }

    /// Where the sound with this id stands in the table.
    fn find(&self, id: SoundId) -> (r: Option<usize>)
        requires
            voices_wf(self@.sounds),
        ensures
            match r {
                Some(i) => slot(self@.sounds, id) == i && i < self@.sounds.len(),
                None => slot(self@.sounds, id) == -1,
            },
    {
        let ghost s = self@.sounds;
        let mut i: usize = 0;
        while i < self.sounds.len()
            invariant
                s == self@.sounds,
                voices_wf(s),
                s.len() == self.sounds@.len(),
                i <= s.len(),
                forall|j: int| 0 <= j < i ==> s[j].id != id,
            decreases self.sounds.len() - i,
        {
            assert(s[i as int] == self.sounds@[i as int]@);
            if self.sounds[i].id == id {
                proof {
                    assert(s[i as int].id == id);
                    assert(holds_id(s, id));
                    let k = choose|k: int| 0 <= k < s.len() && s[k].id == id;
                    if k < i {
                        assert(s[k].id != s[i as int].id);
                    } else if k > i {
                        assert(s[i as int].id != s[k].id);
                    }
                }
                return Some(i);
            }
            i = i + 1;
        }
        None
    }

    /// How many samples the sound with this id holds, if it is in the table.
    pub fn sound_len(&self, sound_id: SoundId) -> (r: Option<usize>)
        requires
            mixer_wf(self@),
        ensures
            match r {
                Some(n) => holds_id(self@.sounds, sound_id) && n == self@.sounds[slot(self@.sounds, sound_id)].samples.len(),
                None => !holds_id(self@.sounds, sound_id),
            },
    {
        match self.find(sound_id) {
            Some(i) => {
                assert(self@.sounds[i as int] == self.sounds@[i as int]@);
                Some(self.sounds[i].data.samples.len())
            },
            None => None,
        }
    }

    /// Applies one command from the control plane.
    pub fn handle_event(&mut self, evt: MixerMessage) -> (r: Result<(), MixerError>)
        requires
            mixer_wf(old(self)@),
        ensures
            (final(self)@, r) == apply(old(self)@, evt),
            mixer_wf(final(self)@),
    {
        let ghost m = self@;
        let ghost msg = evt;
        match evt {
            MixerMessage::Play(id, sound, volume) => {
                if volume.0 > FULL_VOLUME {
                    return Err(MixerError::VolumeTooHigh);
                }
                if sound.channels < 1 || sound.channels > 2 {
                    return Err(MixerError::UnsupportedChannels);
                }
                if sound.sample_rate == 0 {
                    return Err(MixerError::ZeroSampleRate);
                }
                let sample_rate_correction = sound.get_sample_rate_correction();
                let entry = SoundInternal {
                    id,
                    data: sound,
                    progress: 0,
                    volume,
                    ear: EarState::Left,
                    sample_rate_correction,
                    ticks: sample_rate_correction.ticks_pre_increment,
                };
                assert(entry@ == fresh_voice(id, sound, volume));
                match self.find(id) {
                    Some(i) => {
                        self.sounds.set(i, entry);
                        proof {
                            assert(voices_of(self.sounds@) =~= m.sounds.update(i as int, entry@));
                            lemma_wf_write(m.sounds, voices_of(self.sounds@), i as int);
                        }
                    },
                    None => {
                        self.sounds.push(entry);
                        proof {
                            assert(voices_of(self.sounds@) =~= m.sounds.push(entry@));
                            lemma_wf_write(m.sounds, voices_of(self.sounds@), m.sounds.len() as int);
                        }
                    },
                }
                Ok(())
            },
            MixerMessage::StreamContent(id, content) => {
                match self.find(id) {
                    Some(i) => {
                        if self.sounds[i].data.playback_style != PlaybackStyle::Streamed {
                            return Err(MixerError::NotStreamed);
                        }
                        let mut content = content;
                        self.sounds[i].data.samples.append(&mut content);
                        proof {
                            assert(voices_of(self.sounds@) =~= apply(m, msg).0.sounds);
                            lemma_wf_write(m.sounds, voices_of(self.sounds@), i as int);
                        }
                        Ok(())
                    },
                    None => Ok(()),
                }
            },
            MixerMessage::SetVolume(id, volume) => {
                match self.find(id) {
                    Some(i) => {
                        if volume.0 > FULL_VOLUME {
                            return Err(MixerError::VolumeTooHigh);
                        }
                        self.sounds[i].volume = volume;
                        proof {
                            assert(voices_of(self.sounds@) =~= apply(m, msg).0.sounds);
                            lemma_wf_write(m.sounds, voices_of(self.sounds@), i as int);
                        }
                        Ok(())
                    },
                    None => Ok(()),
                }
            },
            MixerMessage::SetVolumeSelf(volume) => {
                if volume.0 > FULL_VOLUME {
                    return Err(MixerError::VolumeTooHigh);
                }
                self.volume = volume;
                Ok(())
            },
            MixerMessage::Stop(id) => {
                match self.find(id) {
                    Some(i) => {
                        self.sounds.remove(i);
                        proof {
                            assert(voices_of(self.sounds@) =~= m.sounds.remove(i as int));
                            lemma_wf_remove(m.sounds, i as int);
                        }
                    },
                    None => {},
                }
                Ok(())
            },
        }
    }

    /// Produces the value of the next output slot and moves every sound on.
    /// Slots alternate between the left and the right channel.
    pub fn next_value(&mut self) -> (r: i128)
        requires
            mixer_wf(old(self)@),
        ensures
            (final(self)@, r as int) == mix(old(self)@),
            mixer_wf(final(self)@),
            -MAX_CONTRIBUTION * old(self)@.sounds.len() <= r <= MAX_CONTRIBUTION * old(self)@.sounds.len(),
    {
        let ghost start = voices_of(self.sounds@);
        let ghost n = start.len();
        assert(n == self.sounds@.len());
        let ear = self.ear;
        let master = self.volume.0;
        let mut value: i128 = 0;
        let mut i: usize = self.sounds.len();
        proof {
            assert(start.subrange(i as int, n as int) =~= Seq::empty());
            assert(start.subrange(0, i as int) =~= start);
            assert(voices_of(self.sounds@) =~= start.subrange(0, i as int) + mix_voices(start.subrange(i as int, n as int), ear, master).0);
        }
        while i > 0
            invariant
                i <= n,
                n == start.len(),
                n <= usize::MAX,
                mixer_wf(old(self)@),
                start == old(self)@.sounds,
                ear == old(self)@.ear,
                master == old(self)@.volume,
                self.ear == ear,
                self.volume == old(self).volume,
                self.sample_rate == old(self).sample_rate,
                voices_of(self.sounds@) == start.subrange(0, i as int) + mix_voices(start.subrange(i as int, n as int), ear, master).0,
                value == mix_voices(start.subrange(i as int, n as int), ear, master).1,
                -MAX_CONTRIBUTION * (n - i) <= value <= MAX_CONTRIBUTION * (n - i),
            decreases i,
        {
            let idx = i - 1;
            let ghost before = voices_of(self.sounds@);
            let ghost tail = mix_voices(start.subrange(i as int, n as int), ear, master).0;
            assert(self.sounds@.len() == before.len());
            assert(before[idx as int] == start[idx as int]);
            assert(voice_wf(start[idx as int]));
            let (c, keep) = self.sounds[idx].advance(ear, master);
            assert(-MAX_CONTRIBUTION * (n - i + 1) <= value + c <= MAX_CONTRIBUTION * (n - i + 1)
                && -MAX_CONTRIBUTION * 18446744073709551616 <= value + c <= MAX_CONTRIBUTION * 18446744073709551616) by (nonlinear_arith)
                requires
                    n <= 18446744073709551615,
                    1 <= i <= n,
                    -MAX_CONTRIBUTION * (n - i) <= value <= MAX_CONTRIBUTION * (n - i),
                    -MAX_CONTRIBUTION <= c <= MAX_CONTRIBUTION,
            ;
            assert(MAX_CONTRIBUTION * 18446744073709551616 <= i128::MAX);
            value = value + c;
            let ghost stepped = voices_of(self.sounds@);
            if !keep {
                self.sounds.remove(idx);
            }
            proof {
                let suffix = start.subrange(idx as int, n as int);
                assert(suffix.drop_first() =~= start.subrange(i as int, n as int));
                assert(suffix[0] == start[idx as int]);
                let now = voices_of(self.sounds@);
                if keep {
                    let want = start.subrange(0, idx as int) + (seq![now[idx as int]] + tail);
                    assert(now.len() == want.len());
                    assert forall|j: int| 0 <= j < now.len() implies now[j] == want[j] by {
                        if j < idx {
                            assert(now[j] == before[j]);
                        } else if j > idx {
                            assert(now[j] == before[j]);
                            assert(before[j] == tail[j - i]);
                        }
                    }
                    assert(now =~= want);
                } else {
                    let want = start.subrange(0, idx as int) + tail;
                    assert(stepped.len() == before.len());
                    assert(now.len() == want.len());
                    assert forall|j: int| 0 <= j < now.len() implies now[j] == want[j] by {
                        if j < idx {
                            assert(now[j] == stepped[j]);
                            assert(stepped[j] == before[j]);
                        } else {
                            assert(now[j] == stepped[j + 1]);
                            assert(stepped[j + 1] == before[j + 1]);
                        }
                    }
                    assert(now =~= want);
                }
            }
            i = idx;
        }
        proof {
            assert(start.subrange(0, n as int) =~= start);
            assert(voices_of(self.sounds@) =~= mix_voices(start, ear, master).0);
            lemma_mix_voices(start, ear, master);
        }
        self.ear.switch();
        value
    }
}

#[verifier::external_type_specification]
#[verifier::external_body]
#[verifier::reject_recursive_types(T)]
pub struct ExSender<T>(Sender<T>);

/// Relies on `std::sync::mpsc::Sender::send`: queues the command for the
/// engine without blocking. It fails only once the engine's side has hung
/// up; the command is then dropped, as a fire-and-forget command may be.
#[verifier::external_body]
fn post(sender: &Sender<MixerMessage>, message: MixerMessage) {
    let _ = sender.send(message);
}

/// What to play, and how loud.
pub struct PlaybackBuilder {
    sound: Option<Sound>,
    volume: Volume,
}

impl PlaybackBuilder {
    pub closed spec fn spec_sound(&self) -> Option<Sound> {
        self.sound
    }

    pub closed spec fn spec_volume(&self) -> Volume {
        self.volume
    }

    /// No sound yet, at full volume.
    pub fn new() -> (r: PlaybackBuilder)
        ensures
            r.spec_sound() is None,
            r.spec_volume() == Volume(FULL_VOLUME),
    {
        PlaybackBuilder { sound: None, volume: Volume(FULL_VOLUME) }
    }

    pub fn with_volume(self, volume: Volume) -> (r: PlaybackBuilder)
        ensures
            r.spec_sound() == self.spec_sound(),
            r.spec_volume() == volume,
    {
        PlaybackBuilder { volume, ..self }
    }

    pub fn with_sound(self, sound: Sound) -> (r: PlaybackBuilder)
        ensures
            r.spec_sound() == Some(sound),
            r.spec_volume() == self.spec_volume(),
    {
        PlaybackBuilder { sound: Some(sound), ..self }
    }
}

/// The control-plane handle: mints sound ids and forwards commands to the
/// engine, which applies them in the order they were sent. Nothing here
/// blocks or waits for the engine.
pub struct SoundMixer {
    sender: Sender<MixerMessage>,
    uid: usize,
    sent: Ghost<Seq<MixerMessage>>,
}

impl SoundMixer {
    /// The id the next accepted `play` hands out.
    pub closed spec fn next_id(&self) -> usize {
        self.uid
    }

    /// Every command handed to the engine so far, oldest first.
    pub closed spec fn sent(&self) -> Seq<MixerMessage> {
        self.sent@
    }

    /// The id minted as the `n`-th one, counting from zero.
    pub closed spec fn id_of(n: usize) -> SoundId {
        SoundId(n)
    }

    /// Ids minted at different counts differ, so an id never names two sounds.
    pub proof fn lemma_ids_distinct(a: usize, b: usize)
        ensures
            a != b ==> SoundMixer::id_of(a) != SoundMixer::id_of(b),
    {
    }

    /// A handle that sends its commands through `sender`.
    pub fn new(sender: Sender<MixerMessage>) -> (r: SoundMixer)
        ensures
            r.next_id() == 0,
            r.sent() == Seq::<MixerMessage>::empty(),
    {
        SoundMixer { sender, uid: 0, sent: Ghost(Seq::empty()) }
    }

    /// A handle whose engine starts at the given master volume.
    pub fn new_ext(sender: Sender<MixerMessage>, initial_volume: Volume) -> (r: SoundMixer)
        ensures
            r.next_id() == 0,
            r.sent() == seq![MixerMessage::SetVolumeSelf(initial_volume)],
    {
        let mut r = SoundMixer::new(sender);
        r.send(MixerMessage::SetVolumeSelf(initial_volume));
        r
    }

    fn send(&mut self, message: MixerMessage)
        ensures
            final(self).next_id() == old(self).next_id(),
            final(self).sent() == old(self).sent().push(message),
    {
        self.sent = Ghost(self.sent@.push(message));
        post(&self.sender, message);
    }

    /// Starts the builder's sound under a fresh id; without a sound, nothing
    /// is sent and there is no id. The sound starts no earlier than the
    /// engine's next buffer.
    pub fn play(&mut self, playback_builder: PlaybackBuilder) -> (r: Option<SoundId>)
        requires
            old(self).next_id() < usize::MAX,
        ensures
            match playback_builder.spec_sound() {
                None => {
                    &&& r is None
                    &&& final(self).next_id() == old(self).next_id()
                    &&& final(self).sent() == old(self).sent()
                },
                Some(sound) => {
                    &&& r == Some(SoundMixer::id_of(old(self).next_id()))
                    &&& final(self).next_id() == old(self).next_id() + 1
                    &&& final(self).sent() == old(self).sent().push(
                        MixerMessage::Play(SoundMixer::id_of(old(self).next_id()), sound, playback_builder.spec_volume()),
                    )
                },
            },
    {
        match playback_builder.sound {
            None => None,
            Some(sound) => {
                let sound_id = SoundId(self.uid);
                self.uid = self.uid + 1;
                self.send(MixerMessage::Play(sound_id, sound, playback_builder.volume));
                Some(sound_id)
            },
        }
    }

    /// Appends samples to a streamed sound.
    pub fn stream_sound(&mut self, sound_id: SoundId, content: Vec<i16>)
        ensures
            final(self).next_id() == old(self).next_id(),
            final(self).sent() == old(self).sent().push(MixerMessage::StreamContent(sound_id, content)),
    {
        self.send(MixerMessage::StreamContent(sound_id, content));
    }

    /// Sets the volume of one sound.
    pub fn set_volume(&mut self, sound_id: SoundId, volume: Volume)
        ensures
            final(self).next_id() == old(self).next_id(),
            final(self).sent() == old(self).sent().push(MixerMessage::SetVolume(sound_id, volume)),
    {
        self.send(MixerMessage::SetVolume(sound_id, volume));
    }

    /// Sets the master volume.
    pub fn set_volume_self(&mut self, volume: Volume)
        ensures
            final(self).next_id() == old(self).next_id(),
            final(self).sent() == old(self).sent().push(MixerMessage::SetVolumeSelf(volume)),
    {
        self.send(MixerMessage::SetVolumeSelf(volume));
    }

    /// Stops one sound at once; an unknown id is ignored by the engine.
    pub fn stop(&mut self, sound_id: SoundId)
        ensures
            final(self).next_id() == old(self).next_id(),
            final(self).sent() == old(self).sent().push(MixerMessage::Stop(sound_id)),
    {
        self.send(MixerMessage::Stop(sound_id));
    }

    /// A hook for a backend that fills the device from the caller's thread;
    /// with the engine on its own thread there is nothing to do.
    pub fn frame(&mut self)
        ensures
            final(self).next_id() == old(self).next_id(),
            final(self).sent() == old(self).sent(),
    {
    }
}

} // verus!
