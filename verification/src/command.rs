use vstd::prelude::*;

verus! {

/// The number of voices of the synthesizer.
pub const NUM_VOICES: usize = 5;

/// Commands passed from the control threads to the audio thread. `V` is the
/// type of a parameter value (the audio engine uses `f32`).
#[derive(Debug, Clone)]
pub enum AudioCommand<V> {
    /// The frequency of every voice at once.
    UpdateFrequency(V),
    UpdateVolume(V),
    UpdateFMIndex(V),
    /// Voice index and frequency of a note that starts.
    NoteOn(u8, V),
    /// Voice index of a note that is let go.
    NoteOff(u8),
    UpdateAttack(V),
    UpdateDecay(V),
    UpdateSustain(V),
    UpdateRelease(V),
    UpdateWaveform(V),
    UpdateLFORate(V),
}

/// A parameter of the engine that all voices share.
#[derive(PartialEq, Eq, Structural, Clone, Copy, Debug)]
pub enum Param {
    Volume,
    FmIndex,
    Attack,
    Decay,
    Sustain,
    Release,
    Waveform,
    LfoRate,
}

/// What the audio thread does with a command: which of its parameters it
/// sets to which value.
#[derive(Debug)]
pub enum Route<V> {
    /// Set the frequency of every voice.
    AllVoiceFrequencies(V),
    /// Set a shared parameter.
    Shared(Param, V),
    /// Set the frequency of a voice, then raise its gate.
    VoiceOn { voice: usize, freq: V },
    /// Lower a voice's gate.
    VoiceOff { voice: usize },
    /// The command names a voice that does not exist: nothing is set.
    Discard,
}

/// The route of a command: parameter updates go to their parameter with
/// their value, the frequency update to every voice, and note commands to
/// their voice when it exists.
pub open spec fn spec_route<V>(cmd: AudioCommand<V>) -> Route<V> {
    match cmd {
        AudioCommand::UpdateFrequency(f) => Route::AllVoiceFrequencies(f),
        AudioCommand::UpdateVolume(v) => Route::Shared(Param::Volume, v),
        AudioCommand::UpdateFMIndex(v) => Route::Shared(Param::FmIndex, v),
        AudioCommand::NoteOn(idx, f) => if (idx as usize) < NUM_VOICES {
            Route::VoiceOn { voice: idx as usize, freq: f }
        } else {
            Route::Discard
        },
        AudioCommand::NoteOff(idx) => if (idx as usize) < NUM_VOICES {
            Route::VoiceOff { voice: idx as usize }
        } else {
            Route::Discard
        },
        AudioCommand::UpdateAttack(v) => Route::Shared(Param::Attack, v),
        AudioCommand::UpdateDecay(v) => Route::Shared(Param::Decay, v),
        AudioCommand::UpdateSustain(v) => Route::Shared(Param::Sustain, v),
        AudioCommand::UpdateRelease(v) => Route::Shared(Param::Release, v),
        AudioCommand::UpdateWaveform(v) => Route::Shared(Param::Waveform, v),
        AudioCommand::UpdateLFORate(v) => Route::Shared(Param::LfoRate, v),
    }
}

/// The value that a parameter update carries, if the command is one.
pub open spec fn update_value<V>(cmd: AudioCommand<V>) -> Option<V> {
    match cmd {
        AudioCommand::NoteOn(..) | AudioCommand::NoteOff(..) => None,
        AudioCommand::UpdateFrequency(v) | AudioCommand::UpdateVolume(v)
        | AudioCommand::UpdateFMIndex(v) | AudioCommand::UpdateAttack(v)
        | AudioCommand::UpdateDecay(v) | AudioCommand::UpdateSustain(v)
        | AudioCommand::UpdateRelease(v) | AudioCommand::UpdateWaveform(v)
        | AudioCommand::UpdateLFORate(v) => Some(v),
    }
}

/// Law: note commands reach their voice, with their frequency, exactly when
/// the voice exists, and are discarded otherwise; a parameter update is
/// never discarded and carries its value unchanged.
pub proof fn lemma_routing<V>(cmd: AudioCommand<V>)
    ensures
        cmd matches AudioCommand::NoteOn(idx, f) ==> if (idx as int) < NUM_VOICES {
            spec_route(cmd) == Route::VoiceOn { voice: idx as usize, freq: f }
        } else {
            spec_route(cmd) is Discard
        },
        cmd matches AudioCommand::NoteOff(idx) ==> if (idx as int) < NUM_VOICES {
            spec_route(cmd) == Route::<V>::VoiceOff { voice: idx as usize }
        } else {
            spec_route(cmd) is Discard
        },
        update_value(cmd) matches Some(v) ==> (spec_route(cmd) == Route::AllVoiceFrequencies(v)
            || exists|p: Param| spec_route(cmd) == Route::Shared(p, v)),
{
}

/// Law: the nine parameter updates reach nine different targets.
pub proof fn lemma_updates_reach_distinct_targets<V>(v: V)
    ensures
        ({
            let r = seq![
                spec_route(AudioCommand::UpdateFrequency(v)),
                spec_route(AudioCommand::UpdateVolume(v)),
                spec_route(AudioCommand::UpdateFMIndex(v)),
                spec_route(AudioCommand::UpdateAttack(v)),
                spec_route(AudioCommand::UpdateDecay(v)),
                spec_route(AudioCommand::UpdateSustain(v)),
                spec_route(AudioCommand::UpdateRelease(v)),
                spec_route(AudioCommand::UpdateWaveform(v)),
                spec_route(AudioCommand::UpdateLFORate(v)),
            ];
            forall|i: int, j: int| 0 <= i < j < 9 ==> r[i] != r[j]
        }),
{
}

/// Routes a command to the parameters it sets. Commands for a voice index
/// outside the voices are discarded.
pub fn route_command<V>(cmd: AudioCommand<V>) -> (route: Route<V>)
    ensures
        route == spec_route(cmd),
        match cmd {
            AudioCommand::UpdateFrequency(f) => route == Route::AllVoiceFrequencies(f),
            AudioCommand::UpdateVolume(v) => route == Route::Shared(Param::Volume, v),
            AudioCommand::UpdateFMIndex(v) => route == Route::Shared(Param::FmIndex, v),
            AudioCommand::NoteOn(idx, f) => if (idx as usize) < NUM_VOICES {
                route == Route::VoiceOn { voice: idx as usize, freq: f }
            } else {
                route == Route::<V>::Discard
            },
            AudioCommand::NoteOff(idx) => if (idx as usize) < NUM_VOICES {
                route == Route::<V>::VoiceOff { voice: idx as usize }
            } else {
                route == Route::<V>::Discard
            },
            AudioCommand::UpdateAttack(v) => route == Route::Shared(Param::Attack, v),
            AudioCommand::UpdateDecay(v) => route == Route::Shared(Param::Decay, v),
            AudioCommand::UpdateSustain(v) => route == Route::Shared(Param::Sustain, v),
            AudioCommand::UpdateRelease(v) => route == Route::Shared(Param::Release, v),
            AudioCommand::UpdateWaveform(v) => route == Route::Shared(Param::Waveform, v),
            AudioCommand::UpdateLFORate(v) => route == Route::Shared(Param::LfoRate, v),
        },
{
    match cmd {
        AudioCommand::UpdateFrequency(f) => Route::AllVoiceFrequencies(f),
        AudioCommand::UpdateVolume(v) => Route::Shared(Param::Volume, v),
        AudioCommand::UpdateFMIndex(v) => Route::Shared(Param::FmIndex, v),
        AudioCommand::NoteOn(idx, f) => {
            if (idx as usize) < NUM_VOICES {
                Route::VoiceOn { voice: idx as usize, freq: f }
            } else {
                Route::Discard
            }
        },
        AudioCommand::NoteOff(idx) => {
            if (idx as usize) < NUM_VOICES {
                Route::VoiceOff { voice: idx as usize }
            } else {
                Route::Discard
            }
        },
        AudioCommand::UpdateAttack(v) => Route::Shared(Param::Attack, v),
        AudioCommand::UpdateDecay(v) => Route::Shared(Param::Decay, v),
        AudioCommand::UpdateSustain(v) => Route::Shared(Param::Sustain, v),
        AudioCommand::UpdateRelease(v) => Route::Shared(Param::Release, v),
        AudioCommand::UpdateWaveform(v) => Route::Shared(Param::Waveform, v),
        AudioCommand::UpdateLFORate(v) => Route::Shared(Param::LfoRate, v),
    }
}

} // verus!
