use synthy::command::{route_command, AudioCommand, Param, Route, NUM_VOICES};

fn route_f(cmd: AudioCommand<f32>) -> String {
    format!("{:?}", route_command(cmd))
}

#[test]
fn shared_parameters_are_routed_by_name() {
    assert_eq!(route_f(AudioCommand::UpdateVolume(0.5)), format!("{:?}", Route::Shared(Param::Volume, 0.5f32)));
    assert_eq!(route_f(AudioCommand::UpdateFMIndex(3.0)), format!("{:?}", Route::Shared(Param::FmIndex, 3.0f32)));
    assert_eq!(route_f(AudioCommand::UpdateAttack(0.1)), format!("{:?}", Route::Shared(Param::Attack, 0.1f32)));
    assert_eq!(route_f(AudioCommand::UpdateDecay(0.2)), format!("{:?}", Route::Shared(Param::Decay, 0.2f32)));
    assert_eq!(route_f(AudioCommand::UpdateSustain(0.7)), format!("{:?}", Route::Shared(Param::Sustain, 0.7f32)));
    assert_eq!(route_f(AudioCommand::UpdateRelease(0.3)), format!("{:?}", Route::Shared(Param::Release, 0.3f32)));
    assert_eq!(route_f(AudioCommand::UpdateWaveform(2.0)), format!("{:?}", Route::Shared(Param::Waveform, 2.0f32)));
    assert_eq!(route_f(AudioCommand::UpdateLFORate(0.9)), format!("{:?}", Route::Shared(Param::LfoRate, 0.9f32)));
}

#[test]
fn frequency_update_addresses_all_voices() {
    match route_command(AudioCommand::UpdateFrequency(220.0f32)) {
        Route::AllVoiceFrequencies(f) => assert_eq!(f, 220.0),
        other => panic!("unexpected route {:?}", other),
    }
}

#[test]
fn note_commands_for_existing_voices() {
    match route_command(AudioCommand::NoteOn(4, 330.0f32)) {
        Route::VoiceOn { voice, freq } => {
            assert_eq!(voice, 4);
            assert_eq!(freq, 330.0);
        }
        other => panic!("unexpected route {:?}", other),
    }
    match route_command(AudioCommand::<f32>::NoteOff(0)) {
        Route::VoiceOff { voice } => assert_eq!(voice, 0),
        other => panic!("unexpected route {:?}", other),
    }
}

#[test]
fn note_commands_for_missing_voices_are_discarded() {
    assert_eq!(NUM_VOICES, 5);
    assert!(matches!(route_command(AudioCommand::NoteOn(5, 440.0f32)), Route::Discard));
    assert!(matches!(route_command(AudioCommand::NoteOn(255, 440.0f32)), Route::Discard));
    assert!(matches!(route_command(AudioCommand::<f32>::NoteOff(5)), Route::Discard));
    assert!(matches!(route_command(AudioCommand::<f32>::NoteOff(200)), Route::Discard));
}
