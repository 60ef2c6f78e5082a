//! What holds of the engine over whole runs of commands and output slots.

use crate::audio::mixer::{
    EarState, MixerError, MixerMessage, PlaybackStyle, Sound, SoundId, Volume, FULL_VOLUME, MAX_CONTRIBUTION,
};
use crate::audio::model::{
    apply, at_end, fresh_voice, gain, holds_id, lemma_apply_wf, lemma_correction_bounds, lemma_mix_voices,
    lemma_wf_write, mix, mix_voices, mixer_wf, sample_index, slot, voice_step, voice_wf, voices_wf, with_progress,
    MixerView, Voice,
};
use vstd::prelude::*;

verus! {

/// A sound stays in the table through a slot exactly when its own step keeps
/// it, and no sound comes back once it is gone.
pub proof fn lemma_mix_membership(s: Seq<Voice>, ear: EarState, master: u16, id: SoundId)
    requires
        voices_wf(s),
        master <= FULL_VOLUME,
    ensures
        !holds_id(s, id) ==> !holds_id(mix_voices(s, ear, master).0, id),
        holds_id(s, id) ==> (holds_id(mix_voices(s, ear, master).0, id) <==> voice_step(
            s[slot(s, id)],
            ear,
            master,
        ).1),
    decreases s.len(),
{
    lemma_mix_voices(s, ear, master);
    let out = mix_voices(s, ear, master).0;
    if !holds_id(s, id) {
        if holds_id(out, id) {
            let j = choose|j: int| 0 <= j < out.len() && out[j].id == id;
            assert(holds_id(s, out[j].id));
        }
    }
    if s.len() > 0 && holds_id(s, id) {
        let t = s.drop_first();
        let k = slot(s, id);
        assert(voices_wf(t)) by {
            assert forall|i: int| 0 <= i < t.len() implies voice_wf(#[trigger] t[i]) by {
                assert(t[i] == s[i + 1]);
            }
        }
        lemma_mix_voices(t, ear, master);
        let (v, keep, c) = voice_step(s[0], ear, master);
        let rest = mix_voices(t, ear, master).0;
        assert forall|j: int| 0 <= j < rest.len() implies #[trigger] rest[j].id != s[0].id by {
            let q = choose|q: int| 0 <= q < t.len() && t[q].id == rest[j].id;
            assert(s[q + 1] == t[q]);
        }
        if k == 0 {
            if keep {
                assert((seq![v] + rest)[0].id == id);
            } else if holds_id(rest, id) {
                let j = choose|j: int| 0 <= j < rest.len() && rest[j].id == id;
                assert(rest[j].id != s[0].id);
            }
        } else {
            assert(t[k - 1] == s[k]);
            assert(holds_id(t, id));
            let k2 = slot(t, id);
            assert(s[k2 + 1] == t[k2]);
            assert(k2 + 1 == k) by {
                if k2 + 1 != k {
                    if k2 + 1 < k {
                        assert(s[k2 + 1].id != s[k].id);
                    } else {
                        assert(s[k].id != s[k2 + 1].id);
                    }
                }
            }
            lemma_mix_membership(t, ear, master, id);
            if keep {
                let o = seq![v] + rest;
                assert(o[0].id != id);
                if holds_id(rest, id) {
                    let j = choose|j: int| 0 <= j < rest.len() && rest[j].id == id;
                    assert(o[j + 1] == rest[j]);
                }
                if holds_id(o, id) {
                    let j = choose|j: int| 0 <= j < o.len() && o[j].id == id;
                    assert(o[j] == rest[j - 1]);
                }
            }
        }
    }
}

/// A sound played once is still in the table after a slot unless that slot
/// was its own and found it at the end of its samples; once gone, it stays gone.
pub proof fn lemma_once_sound_lifetime(m: MixerView, id: SoundId)
    requires
        mixer_wf(m),
    ensures
        !holds_id(m.sounds, id) ==> !holds_id(mix(m).0.sounds, id),
        holds_id(m.sounds, id) && m.sounds[slot(m.sounds, id)].style == PlaybackStyle::Once
            ==> (holds_id(mix(m).0.sounds, id) <==> !(m.sounds[slot(m.sounds, id)].ear == m.ear
            && at_end(m.sounds[slot(m.sounds, id)]))),
{
    lemma_mix_membership(m.sounds, m.ear, m.volume, id);
}

/// A looped sound never leaves the table on its own.
pub proof fn lemma_looped_sound_stays(m: MixerView, id: SoundId)
    requires
        mixer_wf(m),
        holds_id(m.sounds, id),
        m.sounds[slot(m.sounds, id)].style == PlaybackStyle::Looped,
    ensures
        holds_id(mix(m).0.sounds, id),
{
    lemma_mix_membership(m.sounds, m.ear, m.volume, id);
}

/// A looped sound that its own slot finds at the end of its samples starts
/// over: it stays, the slot plays its first frame, and its position restarts
/// from the first sample.
pub proof fn lemma_looped_sound_wraps(v: Voice, master: u16)
    requires
        v.style == PlaybackStyle::Looped,
        at_end(v),
        v.channels <= v.samples.len(),
    ensures
        ({
            let (next, keep, c) = voice_step(v, v.ear, master);
            let first = with_progress(v, 0);
            &&& keep
            &&& c == v.samples[sample_index(first)] * gain(v.volume, master)
            &&& next.progress == if v.ticks == 1 { v.increment } else { 0 }
        }),
{
}

/// Streaming into a streamed sound lengthens its samples by exactly the
/// content appended; streaming into any other sound fails and changes nothing.
pub proof fn lemma_stream_content(m: MixerView, id: SoundId, content: Vec<i16>)
    requires
        mixer_wf(m),
        holds_id(m.sounds, id),
    ensures
        ({
            let (after, r) = apply(m, MixerMessage::StreamContent(id, content));
            let i = slot(m.sounds, id);
            if m.sounds[i].style == PlaybackStyle::Streamed {
                &&& r is Ok
                &&& after.sounds.len() == m.sounds.len()
                &&& after.sounds[i].id == id
                &&& after.sounds[i].samples == m.sounds[i].samples + content@
                &&& after.sounds[i].samples.len() == m.sounds[i].samples.len() + content@.len()
            } else {
                &&& r == Err::<(), MixerError>(MixerError::NotStreamed)
                &&& after == m
            }
        }),
{
}

/// Each sound adds in proportion to the square of the master volume: the
/// table afterwards is the same at any two master volumes, and the values
/// are in the ratio of their squares.
pub proof fn lemma_master_volume_scaling(s: Seq<Voice>, ear: EarState, a: u16, b: u16)
    ensures
        mix_voices(s, ear, a).0 == mix_voices(s, ear, b).0,
        mix_voices(s, ear, a).1 * (b * b) == mix_voices(s, ear, b).1 * (a * a),
    decreases s.len(),
{
    if s.len() > 0 {
        lemma_master_volume_scaling(s.drop_first(), ear, a, b);
        let v = s[0];
        let ca = voice_step(v, ear, a).2;
        let cb = voice_step(v, ear, b).2;
        let w = if at_end(v) && v.style == PlaybackStyle::Looped { with_progress(v, 0) } else { v };
        if v.ear == ear && !(at_end(v) && v.style == PlaybackStyle::Once) && !at_end(w) {
            let x = w.samples[sample_index(w)] as int;
            let vol = w.volume as int;
            assert(ca == x * gain(w.volume, a));
            assert(cb == x * gain(w.volume, b));
            assert(x * ((vol * a) * (vol * a)) * (b * b) == x * ((vol * b) * (vol * b)) * (a * a))
                by (nonlinear_arith);
        } else {
            assert(ca == 0 && cb == 0);
        }
        assert(ca * (b * b) == cb * (a * a));
        let ta = mix_voices(s.drop_first(), ear, a).1;
        let tb = mix_voices(s.drop_first(), ear, b).1;
        assert((ca + ta) * (b * b) == ca * (b * b) + ta * (b * b)) by (nonlinear_arith);
        assert((cb + tb) * (a * a) == cb * (a * a) + tb * (a * a)) by (nonlinear_arith);
        assert(mix_voices(s, ear, a).1 == ca + ta);
        assert(mix_voices(s, ear, b).1 == cb + tb);
        assert(ta * (b * b) == tb * (a * a));
        assert((ca + ta) * (b * b) == (cb + tb) * (a * a));
    } else {
        assert(mix_voices(s, ear, a).1 == 0);
        assert(mix_voices(s, ear, b).1 == 0);
    }
}

pub open spec fn with_master(m: MixerView, volume: u16) -> MixerView {
    MixerView { volume, ..m }
}

/// Halving the master volume quarters the mixed value and changes nothing else.
pub proof fn lemma_half_master_volume(m: MixerView)
    requires
        m.volume == FULL_VOLUME,
    ensures
        mix(with_master(m, FULL_VOLUME / 2)).0 == with_master(mix(m).0, FULL_VOLUME / 2),
        mix(with_master(m, FULL_VOLUME / 2)).1 * 4 == mix(m).1,
{
    lemma_master_volume_scaling(m.sounds, m.ear, 500, 1000);
}

/// After `Stop`, no sound with that id is left, whether or not one was there;
/// a sound stopped right after it was started never reaches the mix.
pub proof fn lemma_stop_removes(m: MixerView, id: SoundId, sound: Sound, volume: Volume)
    requires
        mixer_wf(m),
    ensures
        !holds_id(apply(m, MixerMessage::Stop(id)).0.sounds, id),
        !holds_id(m.sounds, id) ==> apply(m, MixerMessage::Stop(id)) == (m, Ok::<(), MixerError>(())),
        !holds_id(
            apply(apply(m, MixerMessage::Play(id, sound, volume)).0, MixerMessage::Stop(id)).0.sounds,
            id,
        ),
{
    lemma_stop_clears(m.sounds, id);
    let (m1, r) = apply(m, MixerMessage::Play(id, sound, volume));
    if r is Ok {
        lemma_correction_bounds(sound.sample_rate as nat, sound.channels as nat);
        let v = fresh_voice(id, sound, volume);
        let i = slot(m.sounds, id);
        if i >= 0 {
            lemma_wf_write(m.sounds, m1.sounds, i);
        } else {
            lemma_wf_write(m.sounds, m1.sounds, m.sounds.len() as int);
        }
    }
    lemma_stop_clears(m1.sounds, id);
}

proof fn lemma_stop_clears(s: Seq<Voice>, id: SoundId)
    requires
        voices_wf(s),
    ensures
        !holds_id(if slot(s, id) < 0 { s } else { s.remove(slot(s, id)) }, id),
{
    let i = slot(s, id);
    if i >= 0 {
        let t = s.remove(i);
        if holds_id(t, id) {
            let j = choose|j: int| 0 <= j < t.len() && t[j].id == id;
            if j < i {
                assert(t[j] == s[j]);
            } else {
                assert(t[j] == s[j + 1]);
            }
        }
    }
}

/// One event on the audio thread: a command applied, or one output slot produced.
pub enum MixerEvent {
    Command(MixerMessage),
    Tick,
}

/// The engine after a run of events, in order.
pub open spec fn run_events(m: MixerView, events: Seq<MixerEvent>) -> MixerView
    decreases events.len(),
{
    if events.len() == 0 {
        m
    } else {
        let before = run_events(m, events.drop_last());
        match events.last() {
            MixerEvent::Command(msg) => apply(before, msg).0,
            MixerEvent::Tick => mix(before).0,
        }
    }
}

/// Whatever commands and output slots come, in whatever order, the engine
/// stays well-formed and the next value it produces is bounded by the number
/// of sounds it holds.
pub proof fn lemma_any_interleaving(m: MixerView, events: Seq<MixerEvent>)
    requires
        mixer_wf(m),
    ensures
        mixer_wf(run_events(m, events)),
        -MAX_CONTRIBUTION * run_events(m, events).sounds.len() <= mix(run_events(m, events)).1
            <= MAX_CONTRIBUTION * run_events(m, events).sounds.len(),
    decreases events.len(),
{
    if events.len() > 0 {
        lemma_any_interleaving(m, events.drop_last());
        let before = run_events(m, events.drop_last());
        match events.last() {
            MixerEvent::Command(msg) => lemma_apply_wf(before, msg),
            MixerEvent::Tick => lemma_mix_voices(before.sounds, before.ear, before.volume),
        }
    }
    let now = run_events(m, events);
    lemma_mix_voices(now.sounds, now.ear, now.volume);
}

} // verus!
