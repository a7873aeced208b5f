//! Control logic of a five-voice FM synthesizer: the command routing of the
//! audio engine, gate-edge and envelope state machines of its voices, the
//! serial protocol of its hardware panel, and the voice allocation of its
//! computer keyboard.

pub mod dsp;
pub mod command;
pub mod keyboard;
pub mod text;
pub mod serial;
