use vstd::prelude::*;

verus! {

/// The change of a gate signal from one sample to the next.
#[derive(PartialEq, Eq, Structural, Clone, Copy, Debug)]
pub enum Edge {
    /// Its level went from low to high: a note starts.
    Rising,
    /// Its level went from high to low: a note is let go.
    Falling,
    /// Its level stayed.
    Steady,
}

/// The edge between a gate that `was_high` and one that `is_high` now.
pub open spec fn spec_edge(was_high: bool, is_high: bool) -> Edge {
    if is_high && !was_high {
        Edge::Rising
    } else if !is_high && was_high {
        Edge::Falling
    } else {
        Edge::Steady
    }
}

/// Classifies the step of a gate from its last level to its current one.
pub fn gate_edge(was_high: bool, is_high: bool) -> (edge: Edge)
    ensures
        edge == spec_edge(was_high, is_high),
{
    if is_high && !was_high {
        Edge::Rising
    } else if !is_high && was_high {
        Edge::Falling
    } else {
        Edge::Steady
    }
}

/// The stage of an ADSR envelope.
#[derive(PartialEq, Eq, Structural, Clone, Copy, Debug)]
pub enum Stage {
    /// Silent, waiting for a note.
    Idle,
    /// Rising linearly from the current level to full level.
    Attack,
    /// Falling linearly from full level to the sustain level.
    Decay,
    /// Holding the sustain level while its gate stays high.
    Sustain,
    /// Falling linearly to silence after its gate fell.
    Release,
}

impl Stage {
    /// The stages that belong to a held note.
    pub open spec fn is_held(self) -> bool {
        self is Attack || self is Decay || self is Sustain
    }
}

/// The stage that follows `stage` once its ramp has (`reached`) or has not
/// arrived at its target level. Attack leads to decay, decay to sustain and
/// release to idle; sustain and idle have no ramp and stay.
pub open spec fn spec_after_ramp(stage: Stage, reached: bool) -> Stage {
    if !reached {
        stage
    } else {
        match stage {
            Stage::Attack => Stage::Decay,
            Stage::Decay => Stage::Sustain,
            Stage::Release => Stage::Idle,
            _ => stage,
        }
    }
}

/// The stage and gate level of an envelope after a sample whose gate is
/// `is_high`: a rising edge starts the attack, a falling edge the release,
/// and a steady level keeps the stage.
pub open spec fn after_gate(state: (Stage, bool), is_high: bool) -> (Stage, bool) {
    let stage = match spec_edge(state.1, is_high) {
        Edge::Rising => Stage::Attack,
        Edge::Falling => Stage::Release,
        Edge::Steady => state.0,
    };
    (stage, is_high)
}

/// Law: from every reachable state of an envelope, a sample with a high
/// gate followed by a sample with a low one leaves it releasing; and a
/// sample with a high gate after a low one starts an attack.
pub proof fn lemma_note_on_then_off_releases(state: (Stage, bool))
    requires
        state.0.is_held() == state.1,
    ensures
        after_gate(after_gate(state, true), false) == (Stage::Release, false),
        !state.1 ==> after_gate(state, true) == (Stage::Attack, true),
{
}

/// Law: a gate edge is rising exactly when a low level turns high, falling
/// exactly when a high level turns low, and steady when the level stays.
pub proof fn lemma_edge_classes(was_high: bool, is_high: bool)
    ensures
        (spec_edge(was_high, is_high) == Edge::Rising) == (!was_high && is_high),
        (spec_edge(was_high, is_high) == Edge::Falling) == (was_high && !is_high),
        (spec_edge(was_high, is_high) == Edge::Steady) == (was_high == is_high),
{
}

/// Law: a gate signal moves the stage only at its edges. A steady level
/// keeps the stage; a level that turns high starts the attack; a level that
/// turns low starts the release. The recorded level is always the new one.
pub proof fn lemma_gate_steps(state: (Stage, bool))
    ensures
        forall|is_high: bool| #[trigger] after_gate(state, is_high).1 == is_high,
        after_gate(state, state.1) == state,
        !state.1 ==> after_gate(state, true).0 == Stage::Attack,
        state.1 ==> after_gate(state, false).0 == Stage::Release,
{
}

/// Law: a ramp moves the envelope on only when it reached its target, and
/// then by exactly one stage: attack to decay, decay to sustain, release to
/// idle. Sustain and idle have no ramp and never move.
pub proof fn lemma_ramp_steps(stage: Stage)
    ensures
        spec_after_ramp(stage, false) == stage,
        stage == Stage::Attack ==> spec_after_ramp(stage, true) == Stage::Decay,
        stage == Stage::Decay ==> spec_after_ramp(stage, true) == Stage::Sustain,
        stage == Stage::Release ==> spec_after_ramp(stage, true) == Stage::Idle,
        stage == Stage::Sustain ==> spec_after_ramp(stage, true) == Stage::Sustain,
        stage == Stage::Idle ==> spec_after_ramp(stage, true) == Stage::Idle,
{
}

/// The discrete state of an ADSR envelope: its stage and the level of the
/// gate at the last sample. The continuous level of the envelope, and the
/// parameters latched at the start of a note, are kept beside it by the
/// audio node that owns it.
#[derive(Clone, Copy, Debug)]
pub struct EnvelopeState {
    stage: Stage,
    gate_high: bool,
}

impl View for EnvelopeState {
    type V = (Stage, bool);

    /// The stage, and whether its gate was high at the last sample.
    closed spec fn view(&self) -> (Stage, bool) {
        (self.stage, self.gate_high)
    }
}

impl EnvelopeState {
    /// A note is held exactly while the envelope is in attack, decay or
    /// sustain.
    #[verifier::type_invariant]
    closed spec fn held_matches_gate(self) -> bool {
        self.stage.is_held() == self.gate_high
    }

    /// An idle envelope whose gate is low.
    pub fn new() -> (env: Self)
        ensures
            env@ == (Stage::Idle, false),
    {
        EnvelopeState { stage: Stage::Idle, gate_high: false }
    }

    /// Returns the envelope to idle with its gate low.
    pub fn reset(&mut self)
        ensures
            final(self)@ == (Stage::Idle, false),
    {
        *self = EnvelopeState { stage: Stage::Idle, gate_high: false };
    }

    /// The current stage.
    pub fn stage(&self) -> (stage: Stage)
        ensures
            stage == self@.0,
            stage.is_held() == self@.1,
    {
        proof {
            use_type_invariant(self);
        }
        self.stage
    }

    /// Whether its gate was high at the last sample.
    pub fn gate_is_high(&self) -> (high: bool)
        ensures
            high == self@.1,
    {
        self.gate_high
    }

    /// Takes its gate level at a new sample. A rising edge starts the attack
    /// of a new note and returns `true`: the caller then latches the
    /// envelope parameters for that note. A falling edge starts the release.
    /// Otherwise the stage is kept.
    pub fn gate(&mut self, is_high: bool) -> (note_started: bool)
        ensures
            note_started == (spec_edge(old(self)@.1, is_high) == Edge::Rising),
            final(self)@ == after_gate(old(self)@, is_high),
            final(self)@.0.is_held() == is_high,
            note_started == (!old(self)@.1 && is_high),
            is_high == old(self)@.1 ==> final(self)@ == old(self)@,
    {
        proof {
            lemma_gate_steps(old(self)@);
        }
        proof {
            use_type_invariant(&*self);
        }
        let edge = gate_edge(self.gate_high, is_high);
        match edge {
            Edge::Rising => {
                *self = EnvelopeState { stage: Stage::Attack, gate_high: true };
                true
            },
            Edge::Falling => {
                *self = EnvelopeState { stage: Stage::Release, gate_high: false };
                false
            },
            Edge::Steady => {
                false
            },
        }
    }

    /// Records whether the ramp of the current stage has arrived at its
    /// target level at this sample, and moves on to the next stage if so.
    pub fn ramp(&mut self, reached: bool)
        ensures
            final(self)@ == (spec_after_ramp(old(self)@.0, reached), old(self)@.1),
            final(self)@.0.is_held() == final(self)@.1,
            !reached ==> final(self)@ == old(self)@,
    {
        proof {
            lemma_ramp_steps(old(self)@.0);
        }
        proof {
            use_type_invariant(&*self);
        }
        if reached {
            match self.stage {
                Stage::Attack => {
                    self.stage = Stage::Decay;
                },
                Stage::Decay => {
                    self.stage = Stage::Sustain;
                },
                Stage::Release => {
                    self.stage = Stage::Idle;
                },
                _ => {},
            }
        }
    }
}


/// The waveform of the carrier oscillator.
#[derive(PartialEq, Eq, Structural, Clone, Copy, Debug)]
pub enum Waveform {
    Sine,
    Triangle,
    Saw,
    Square,
}

/// The waveform that a selector value (truncated to an integer) stands
/// for: 0 sine, 1 triangle, 2 saw, 3 square; any other value gives a sine.
pub open spec fn spec_waveform(code: i32) -> Waveform {
    if code == 1 {
        Waveform::Triangle
    } else if code == 2 {
        Waveform::Saw
    } else if code == 3 {
        Waveform::Square
    } else {
        Waveform::Sine
    }
}

/// Law: the selector values 0 to 3 pick four different waveforms, 0 the
/// sine, and every other value falls back to the sine.
pub proof fn lemma_waveform_codes(code: i32)
    ensures
        spec_waveform(0) == Waveform::Sine,
        forall|a: i32, b: i32|
            0 <= a < b <= 3 ==> #[trigger] spec_waveform(a) != #[trigger] spec_waveform(b),
        (code < 0 || code > 3) ==> spec_waveform(code) == Waveform::Sine,
{
}

/// The waveform that a selector value stands for.
pub fn waveform_from_code(code: i32) -> (w: Waveform)
    ensures
        w == spec_waveform(code),
{
    match code {
        1 => Waveform::Triangle,
        2 => Waveform::Saw,
        3 => Waveform::Square,
        _ => Waveform::Sine,
    }
}

} // verus!
