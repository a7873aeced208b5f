# synthy

Control logic of Synthy, a five-voice FM synthesizer driven by a computer
keyboard and a serial hardware panel.

- `src/` is the verified library:
  - `command.rs`: the commands of the audio engine and how they are routed to
    its parameters;
  - `dsp.rs`: gate edges, the ADSR stage machine, and the waveform selector;
  - `text.rs`: whitespace trimming and decimal `u8`/`u16` reading, as `str::trim`
    and `str::parse` do them;
  - `serial.rs`: the line protocol of the hardware panel, its buttons and
    potentiometers;
  - `keyboard.rs`: the round-robin voice allocation of the computer keyboard.
- `app/` is the program: audio output (cpal), the synthesis graph and its
  sample-level arithmetic (fundsp), the serial port, and the egui interface.
- `tests/` exercises the library.
