use synthy::dsp::{gate_edge, waveform_from_code, Edge, EnvelopeState, Stage, Waveform};

#[test]
fn gate_edge_classifies_each_step() {
    assert_eq!(gate_edge(false, true), Edge::Rising);
    assert_eq!(gate_edge(true, false), Edge::Falling);
    assert_eq!(gate_edge(true, true), Edge::Steady);
    assert_eq!(gate_edge(false, false), Edge::Steady);
}

#[test]
fn new_envelope_is_idle_with_low_gate() {
    let env = EnvelopeState::new();
    assert_eq!(env.stage(), Stage::Idle);
    assert!(!env.gate_is_high());
}

#[test]
fn envelope_runs_through_a_whole_note() {
    let mut env = EnvelopeState::new();
    // Note on: attack starts and the parameters are latched.
    assert!(env.gate(true));
    assert_eq!(env.stage(), Stage::Attack);
    // Attack still ramping.
    assert!(!env.gate(true));
    env.ramp(false);
    assert_eq!(env.stage(), Stage::Attack);
    // Attack reaches full level.
    env.ramp(true);
    assert_eq!(env.stage(), Stage::Decay);
    assert!(!env.gate(true));
    env.ramp(true);
    assert_eq!(env.stage(), Stage::Sustain);
    // Sustain holds.
    assert!(!env.gate(true));
    env.ramp(true);
    assert_eq!(env.stage(), Stage::Sustain);
    // Note off: release.
    assert!(!env.gate(false));
    assert_eq!(env.stage(), Stage::Release);
    env.ramp(false);
    assert_eq!(env.stage(), Stage::Release);
    env.ramp(true);
    assert_eq!(env.stage(), Stage::Idle);
    // Idle stays idle.
    assert!(!env.gate(false));
    env.ramp(true);
    assert_eq!(env.stage(), Stage::Idle);
}

#[test]
fn release_during_attack_goes_to_release() {
    let mut env = EnvelopeState::new();
    assert!(env.gate(true));
    assert!(!env.gate(false));
    assert_eq!(env.stage(), Stage::Release);
    assert!(!env.gate_is_high());
}

#[test]
fn new_note_during_release_restarts_attack() {
    let mut env = EnvelopeState::new();
    env.gate(true);
    env.gate(false);
    assert_eq!(env.stage(), Stage::Release);
    assert!(env.gate(true));
    assert_eq!(env.stage(), Stage::Attack);
}

#[test]
fn envelope_reset_returns_to_idle() {
    let mut env = EnvelopeState::new();
    env.gate(true);
    env.ramp(true);
    env.reset();
    assert_eq!(env.stage(), Stage::Idle);
    assert!(!env.gate_is_high());
    // After a reset a high gate is a new note again.
    assert!(env.gate(true));
}

#[test]
fn held_stages_match_the_gate() {
    let mut env = EnvelopeState::new();
    let gates = [true, true, false, false, true, false, true, true, true, false];
    let ramps = [false, true, true, false, true, true, true, true, false, true];
    for (g, r) in gates.iter().zip(ramps.iter()) {
        env.gate(*g);
        env.ramp(*r);
        let held = matches!(env.stage(), Stage::Attack | Stage::Decay | Stage::Sustain);
        assert_eq!(held, env.gate_is_high());
    }
}

#[test]
fn waveform_codes() {
    assert_eq!(waveform_from_code(0), Waveform::Sine);
    assert_eq!(waveform_from_code(1), Waveform::Triangle);
    assert_eq!(waveform_from_code(2), Waveform::Saw);
    assert_eq!(waveform_from_code(3), Waveform::Square);
    assert_eq!(waveform_from_code(4), Waveform::Sine);
    assert_eq!(waveform_from_code(-1), Waveform::Sine);
    assert_eq!(waveform_from_code(i32::MAX), Waveform::Sine);
}
