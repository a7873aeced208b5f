use synthy::command::AudioCommand;
use synthy::serial::{
    button_interval, decode_serial_line, is_readable_line, pot_command, pot_target, ButtonPanel,
    Interval, PanelEvent, PotTarget, SerialMessage,
};
use synthy::text::{char_is_white_space, parse_u16_from, parse_u8_from, trim_whitespace};

#[test]
fn trim_matches_std_trim() {
    let samples = [
        "",
        "   ",
        "B1:1\r\n",
        "  W:2  ",
        "\tP3:512\n",
        "\u{3000}B0:0\u{00A0}",
        "\u{2003}\u{2028}x y\u{205F}\u{85}",
        "no-space",
        "é W:1 é",
        "\u{200B}B1:1",
    ];
    for s in samples.iter() {
        assert_eq!(trim_whitespace(s), s.trim(), "trimming {:?}", s);
    }
}

#[test]
fn white_space_matches_std() {
    for u in 0u32..0x3100 {
        if let Some(c) = char::from_u32(u) {
            assert_eq!(char_is_white_space(c), c.is_whitespace(), "char {:#x}", u);
        }
    }
}

#[test]
fn parse_u8_matches_std() {
    let samples = [
        "", "+", "-", "-1", "+5", "0", "7", "007", "255", "256", "+255", "1000", "12a", "a12",
        "++1", " 1", "1 ", "٣", "00000000000000000000000000042", "99999999999",
    ];
    for s in samples.iter() {
        assert_eq!(parse_u8_from(s, 0), s.parse::<u8>().ok(), "parsing {:?}", s);
    }
    assert_eq!(parse_u8_from("W:17", 2), Some(17));
    assert_eq!(parse_u8_from("W:", 2), None);
}

#[test]
fn decode_button_lines() {
    assert_eq!(decode_serial_line("B3:1"), SerialMessage::Button { id: 3, state: 1 });
    assert_eq!(decode_serial_line("B0:0"), SerialMessage::Button { id: 0, state: 0 });
    assert_eq!(decode_serial_line("B+4:+1"), SerialMessage::Button { id: 4, state: 1 });
    assert_eq!(decode_serial_line("B9:7"), SerialMessage::Button { id: 9, state: 7 });
    assert_eq!(decode_serial_line("B3:1:2"), SerialMessage::Ignored);
    assert_eq!(decode_serial_line("B3"), SerialMessage::Ignored);
    assert_eq!(decode_serial_line("B:1"), SerialMessage::Ignored);
    assert_eq!(decode_serial_line("B1:"), SerialMessage::Ignored);
    assert_eq!(decode_serial_line("B256:1"), SerialMessage::Ignored);
    assert_eq!(decode_serial_line("Bx:1"), SerialMessage::Ignored);
    assert_eq!(decode_serial_line("B"), SerialMessage::Ignored);
}

#[test]
fn decode_waveform_lines() {
    assert_eq!(decode_serial_line("W:2"), SerialMessage::Waveform(2));
    assert_eq!(decode_serial_line("W22"), SerialMessage::Waveform(2));
    assert_eq!(decode_serial_line("Wa7"), SerialMessage::Waveform(7));
    assert_eq!(decode_serial_line("W:"), SerialMessage::Ignored);
    assert_eq!(decode_serial_line("W:x"), SerialMessage::Ignored);
    assert_eq!(decode_serial_line("W:300"), SerialMessage::Ignored);
}

#[test]
fn decode_other_lines() {
    assert_eq!(decode_serial_line(""), SerialMessage::Ignored);
    assert_eq!(decode_serial_line("hello"), SerialMessage::Ignored);
    assert_eq!(decode_serial_line("b1:1"), SerialMessage::Ignored);
}

#[test]
fn readable_lines() {
    assert!(is_readable_line(""));
    assert!(is_readable_line("B1:1"));
    assert!(is_readable_line("W:1"));
    assert!(is_readable_line("WW"));
    assert!(!is_readable_line("W"));
    assert!(!is_readable_line("Wé1"));
    // A line is readable exactly when its third byte starts a character.
    for s in ["W", "Wé1", "W:1", "Wx", "W\u{3000}3"].iter() {
        assert_eq!(is_readable_line(s), s.is_char_boundary(2), "line {:?}", s);
    }
}

#[test]
fn button_intervals() {
    assert_eq!(button_interval(0), Interval { num: 1, den: 2 });
    assert_eq!(button_interval(1), Interval { num: 3, den: 4 });
    assert_eq!(button_interval(2), Interval { num: 1, den: 1 });
    assert_eq!(button_interval(3), Interval { num: 5, den: 4 });
    assert_eq!(button_interval(4), Interval { num: 3, den: 2 });
}

#[test]
fn button_press_retriggers_once() {
    let mut panel = ButtonPanel::new();
    let ev = panel.handle(SerialMessage::Button { id: 1, state: 1 });
    assert_eq!(ev, vec![PanelEvent::NoteOff(1), PanelEvent::NoteOn(1, Interval { num: 3, den: 4 })]);
    assert!(panel.is_down(1));
    // A repeated press does nothing.
    let ev = panel.handle(SerialMessage::Button { id: 1, state: 1 });
    assert!(ev.is_empty());
    // Release lets the note go.
    let ev = panel.handle(SerialMessage::Button { id: 1, state: 0 });
    assert_eq!(ev, vec![PanelEvent::NoteOff(1)]);
    assert!(!panel.is_down(1));
    // Pressing again plays again.
    let ev = panel.handle(SerialMessage::Button { id: 1, state: 1 });
    assert_eq!(ev.len(), 2);
}

#[test]
fn button_release_of_an_up_button_still_lets_go() {
    let mut panel = ButtonPanel::new();
    let ev = panel.handle(SerialMessage::Button { id: 4, state: 0 });
    assert_eq!(ev, vec![PanelEvent::NoteOff(4)]);
    assert!(!panel.is_down(4));
}

#[test]
fn unknown_buttons_and_states_are_ignored() {
    let mut panel = ButtonPanel::new();
    assert!(panel.handle(SerialMessage::Button { id: 5, state: 1 }).is_empty());
    assert!(panel.handle(SerialMessage::Button { id: 2, state: 2 }).is_empty());
    assert!(panel.handle(SerialMessage::Ignored).is_empty());
    for id in 0..5 {
        assert!(!panel.is_down(id));
    }
}

#[test]
fn waveform_messages_pass_through() {
    let mut panel = ButtonPanel::new();
    assert_eq!(panel.handle(SerialMessage::Waveform(3)), vec![PanelEvent::Waveform(3)]);
}

#[test]
fn parse_u16_matches_std() {
    let samples = [
        "", "+", "0", "4095", "+4095", "65535", "65536", "100000", "00065535", "12x", "-3",
    ];
    for s in samples.iter() {
        assert_eq!(parse_u16_from(s, 0), s.parse::<u16>().ok(), "parsing {:?}", s);
    }
}

#[test]
fn decode_pot_lines() {
    assert_eq!(decode_serial_line("P2:1023"), SerialMessage::Pot { id: 2, value: 1023 });
    assert_eq!(decode_serial_line("P0:0"), SerialMessage::Pot { id: 0, value: 0 });
    assert_eq!(decode_serial_line("P7:4095"), SerialMessage::Pot { id: 7, value: 4095 });
    assert_eq!(decode_serial_line("P9:65535"), SerialMessage::Pot { id: 9, value: 65535 });
    assert_eq!(decode_serial_line("P1:65536"), SerialMessage::Ignored);
    assert_eq!(decode_serial_line("P1"), SerialMessage::Ignored);
    assert_eq!(decode_serial_line("P1:2:3"), SerialMessage::Ignored);
    assert_eq!(decode_serial_line("P:5"), SerialMessage::Ignored);
    assert_eq!(decode_serial_line("P256:5"), SerialMessage::Ignored);
}

#[test]
fn pots_set_their_parameters() {
    let expected = [
        PotTarget::Frequency,
        PotTarget::FmIndex,
        PotTarget::Volume,
        PotTarget::Attack,
        PotTarget::Decay,
        PotTarget::Sustain,
        PotTarget::Release,
        PotTarget::LfoRate,
    ];
    let mut panel = ButtonPanel::new();
    for id in 0..8u8 {
        assert_eq!(pot_target(id), Some(expected[id as usize]));
        let ev = panel.handle(SerialMessage::Pot { id, value: 2000 });
        assert_eq!(ev, vec![PanelEvent::Pot(expected[id as usize], 2000)]);
    }
    assert_eq!(pot_target(8), None);
    assert!(panel.handle(SerialMessage::Pot { id: 8, value: 1 }).is_empty());
    for id in 0..5 {
        assert!(!panel.is_down(id));
    }
}

#[test]
fn pot_commands_name_their_parameters() {
    let show = |c: AudioCommand<u16>| format!("{:?}", c);
    assert_eq!(show(pot_command(PotTarget::Frequency, 1)), show(AudioCommand::UpdateFrequency(1)));
    assert_eq!(show(pot_command(PotTarget::FmIndex, 2)), show(AudioCommand::UpdateFMIndex(2)));
    assert_eq!(show(pot_command(PotTarget::Volume, 3)), show(AudioCommand::UpdateVolume(3)));
    assert_eq!(show(pot_command(PotTarget::Attack, 4)), show(AudioCommand::UpdateAttack(4)));
    assert_eq!(show(pot_command(PotTarget::Decay, 5)), show(AudioCommand::UpdateDecay(5)));
    assert_eq!(show(pot_command(PotTarget::Sustain, 6)), show(AudioCommand::UpdateSustain(6)));
    assert_eq!(show(pot_command(PotTarget::Release, 7)), show(AudioCommand::UpdateRelease(7)));
    assert_eq!(show(pot_command(PotTarget::LfoRate, 8)), show(AudioCommand::UpdateLFORate(8)));
}
