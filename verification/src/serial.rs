use vstd::prelude::*;
use crate::command::{spec_route, update_value, AudioCommand, Route};
use crate::text::{parse_decimal, parse_decimal_from, parse_u16, parse_u8, parse_u8_from};

verus! {

/// A message of the hardware control panel, sent as one line of text:
/// `B<id>:<state>` for a button, `P<id>:<value>` for a potentiometer and
/// `W:<index>` for the waveform encoder.
#[derive(PartialEq, Eq, Structural, Clone, Copy, Debug)]
pub enum SerialMessage {
    /// Button `id` went down (`state` 1) or up (`state` 0).
    Button { id: u8, state: u8 },
    /// Potentiometer `id` stands at the raw reading `value`.
    Pot { id: u8, value: u16 },
    /// The waveform encoder selected the waveform with this index.
    Waveform(u8),
    /// A line that is not understood: nothing to do.
    Ignored,
}

/// `c` is the position of the one and only `:` in `s`.
pub open spec fn single_colon_at(s: Seq<char>, c: int) -> bool {
    &&& 0 <= c < s.len()
    &&& s[c] == ':'
    &&& forall|j: int| 0 <= j < s.len() && j != c ==> s[j] != ':'
}

/// The two numbers of `<id>:<number>`: `s` splits at its only colon into a
/// `u8` and a number of at most `max`.
pub open spec fn spec_number_pair(s: Seq<char>, max: int) -> Option<(u8, int)> {
    if exists|c: int| single_colon_at(s, c) {
        let c = choose|c: int| single_colon_at(s, c);
        match (parse_u8(s.subrange(0, c)), parse_decimal(s.subrange(c + 1, s.len() as int), max)) {
            (Some(id), Some(n)) => Some((id, n)),
            _ => None,
        }
    } else {
        None
    }
}

/// The message that a trimmed line carries. After a `B` or a `P`, the rest
/// of the line must split at its only colon into two numbers (a state is a
/// `u8`, a potentiometer reading a `u16`); after a `W`, the line from its
/// third character on must be a number.
pub open spec fn spec_serial_message(t: Seq<char>) -> SerialMessage {
    if t.len() > 0 && t[0] == 'B' {
        match spec_number_pair(t.drop_first(), 255) {
            Some((id, state)) => SerialMessage::Button { id, state: state as u8 },
            None => SerialMessage::Ignored,
        }
    } else if t.len() > 0 && t[0] == 'P' {
        match spec_number_pair(t.drop_first(), 65535) {
            Some((id, value)) => SerialMessage::Pot { id, value: value as u16 },
            None => SerialMessage::Ignored,
        }
    } else if t.len() > 0 && t[0] == 'W' {
        match parse_u8(t.subrange(2, t.len() as int)) {
            Some(idx) => SerialMessage::Waveform(idx),
            None => SerialMessage::Ignored,
        }
    } else {
        SerialMessage::Ignored
    }
}

/// The lines whose message is defined: a `W` line reads its number from the
/// third byte on, so its second character must be a single byte (ASCII).
pub open spec fn serial_line_readable(t: Seq<char>) -> bool {
    t.len() > 0 && t[0] == 'W' ==> t.len() >= 2 && (t[1] as u32) < 0x80
}

/// Whether the message of a trimmed line is defined.
pub fn is_readable_line(t: &str) -> (r: bool)
    ensures
        r == serial_line_readable(t@),
{
    let n: usize = t.unicode_len();
    if n > 0 && t.get_char(0) == 'W' {
        n >= 2 && (t.get_char(1) as u32) < 0x80
    } else {
        true
    }
}

/// Reads the `<id>:<number>` that follows the first character of `t`.
fn decode_number_pair(t: &str, max: u32) -> (r: Option<(u8, u32)>)
    requires
        t@.len() > 0,
        max <= 65535,
    ensures
        match r {
            Some((id, n)) => spec_number_pair(t@.drop_first(), max as int) == Some((id, n as int)),
            None => spec_number_pair(t@.drop_first(), max as int) is None,
        },
{
    let n: usize = t.unicode_len();
    let ghost rest = t@.drop_first();
    // Find the colons of the line after its first character.
    let mut colon: usize = 0;
    let mut colons: usize = 0;
    let mut i: usize = 1;
    while i < n
        invariant
            n == t@.len(),
            1 <= i <= n,
            rest == t@.drop_first(),
            colons <= 1,
            colons == 0 ==> forall|j: int| 0 <= j < i - 1 ==> rest[j] != ':',
            colons == 1 ==> 1 <= colon < i && t@[colon as int] == ':' && forall|j: int|
                0 <= j < i - 1 && j != colon - 1 ==> rest[j] != ':',
        decreases n - i,
    {
        if t.get_char(i) == ':' {
            if colons == 1 {
                proof {
                    assert forall|c: int| !single_colon_at(rest, c) by {
                        if single_colon_at(rest, c) {
                            assert(rest[colon - 1] == ':');
                            assert(rest[i - 1] == ':');
                        }
                    }
                }
                return None;
            }
            colons = 1;
            colon = i;
        }
        i += 1;
    }
    if colons == 0 {
        return None;
    }
    proof {
        assert(single_colon_at(rest, colon - 1));
        let c: int = choose|c: int| single_colon_at(rest, c);
        assert(c == colon - 1);
    }
    let head = t.substring_char(1, colon);
    let id = parse_u8_from(head, 0);
    let number = parse_decimal_from(t, colon + 1, max);
    proof {
        assert(head@.subrange(0, head@.len() as int) =~= rest.subrange(0, colon - 1));
        assert(t@.subrange(colon + 1, n as int) =~= rest.subrange(colon as int, rest.len() as int));
    }
    match (id, number) {
        (Some(id), Some(number)) => Some((id, number)),
        _ => None,
    }
}

/// Reads the message of a line that has been trimmed of whitespace.
pub fn decode_serial_line(t: &str) -> (msg: SerialMessage)
    requires
        serial_line_readable(t@),
    ensures
        msg == spec_serial_message(t@),
{
    let n: usize = t.unicode_len();
    if n == 0 {
        return SerialMessage::Ignored;
    }
    let first = t.get_char(0);
    if first == 'B' {
        match decode_number_pair(t, 255) {
            Some((id, state)) => SerialMessage::Button { id, state: state as u8 },
            None => SerialMessage::Ignored,
        }
    } else if first == 'P' {
        match decode_number_pair(t, 65535) {
            Some((id, value)) => SerialMessage::Pot { id, value: value as u16 },
            None => SerialMessage::Ignored,
        }
    } else if first == 'W' {
        match parse_u8_from(t, 2) {
            Some(idx) => SerialMessage::Waveform(idx),
            None => SerialMessage::Ignored,
        }
    } else {
        SerialMessage::Ignored
    }
}

/// `s` has no colon.
pub open spec fn colon_free(s: Seq<char>) -> bool {
    forall|j: int| 0 <= j < s.len() ==> s[j] != ':'
}

/// The numbers of `x:y`, where neither `x` nor `y` holds a colon, are those
/// of `x` and of `y`.
proof fn lemma_number_pair_of(x: Seq<char>, y: Seq<char>, max: int)
    requires
        colon_free(x),
        colon_free(y),
    ensures
        spec_number_pair(x + seq![':'] + y, max) == match (parse_u8(x), parse_decimal(y, max)) {
            (Some(id), Some(n)) => Some((id, n)),
            _ => None,
        },
{
    let s = x + seq![':'] + y;
    let c = x.len() as int;
    assert(s[c] == ':');
    assert forall|j: int| 0 <= j < s.len() && j != c implies s[j] != ':' by {
        if j < c {
            assert(s[j] == x[j]);
        } else {
            assert(s[j] == y[j - c - 1]);
        }
    }
    assert(single_colon_at(s, c));
    let d = choose|d: int| single_colon_at(s, d);
    assert(d == c);
    assert(s.subrange(0, c) =~= x);
    assert(s.subrange(c + 1, s.len() as int) =~= y);
}

/// Law: a button line `B<x>:<y>` (with no other colon) is the message of
/// button `x` in state `y` when both read as `u8` numbers, and nothing to do
/// otherwise.
pub proof fn lemma_button_line(x: Seq<char>, y: Seq<char>)
    requires
        colon_free(x),
        colon_free(y),
    ensures
        ({
            let t = seq!['B'] + x + seq![':'] + y;
            &&& serial_line_readable(t)
            &&& spec_serial_message(t) == match (parse_u8(x), parse_u8(y)) {
                (Some(id), Some(state)) => SerialMessage::Button { id, state },
                _ => SerialMessage::Ignored,
            }
        }),
{
    let t = seq!['B'] + x + seq![':'] + y;
    assert(t.drop_first() =~= x + seq![':'] + y);
    lemma_number_pair_of(x, y, 255);
}

/// Law: a potentiometer line `P<x>:<y>` (with no other colon) is the reading
/// `y` of potentiometer `x` when `x` reads as a `u8` and `y` as a `u16`, and
/// nothing to do otherwise.
pub proof fn lemma_pot_line(x: Seq<char>, y: Seq<char>)
    requires
        colon_free(x),
        colon_free(y),
    ensures
        ({
            let t = seq!['P'] + x + seq![':'] + y;
            &&& serial_line_readable(t)
            &&& spec_serial_message(t) == match (parse_u8(x), parse_u16(y)) {
                (Some(id), Some(value)) => SerialMessage::Pot { id, value },
                _ => SerialMessage::Ignored,
            }
        }),
{
    let t = seq!['P'] + x + seq![':'] + y;
    assert(t.drop_first() =~= x + seq![':'] + y);
    lemma_number_pair_of(x, y, 65535);
}

/// Law: a waveform line selects the waveform whose index is written from its
/// third character on, whatever that index is (0 included), and is nothing
/// to do when no index is written there.
pub proof fn lemma_waveform_line(t: Seq<char>)
    requires
        t.len() >= 2,
        t[0] == 'W',
    ensures
        parse_u8(t.subrange(2, t.len() as int)) matches Some(i) ==> spec_serial_message(t)
            == SerialMessage::Waveform(i),
        parse_u8(t.subrange(2, t.len() as int)) is None ==> spec_serial_message(t)
            == SerialMessage::Ignored,
{
}

/// Law: a line that does not start with `B`, `P` or `W` is nothing to do.
pub proof fn lemma_other_line(t: Seq<char>)
    requires
        t.len() == 0 || (t[0] != 'B' && t[0] != 'P' && t[0] != 'W'),
    ensures
        spec_serial_message(t) == SerialMessage::Ignored,
{
}

/// The number of note buttons on the panel.
pub const NUM_BUTTONS: usize = 5;

/// A frequency ratio `num / den` to the panel's base frequency.
#[derive(PartialEq, Eq, Structural, Clone, Copy, Debug)]
pub struct Interval {
    pub num: u8,
    pub den: u8,
}

/// The interval that each button plays over the base note: an octave
/// below, a fourth below, the base note, a major third and a fifth above.
pub open spec fn spec_button_interval(id: int) -> Interval {
    if id == 0 {
        Interval { num: 1, den: 2 }
    } else if id == 1 {
        Interval { num: 3, den: 4 }
    } else if id == 2 {
        Interval { num: 1, den: 1 }
    } else if id == 3 {
        Interval { num: 5, den: 4 }
    } else {
        Interval { num: 3, den: 2 }
    }
}

/// The interval that a button plays.
pub fn button_interval(id: u8) -> (i: Interval)
    requires
        (id as usize) < NUM_BUTTONS,
    ensures
        i == spec_button_interval(id as int),
{
    match id {
        0 => Interval { num: 1, den: 2 },
        1 => Interval { num: 3, den: 4 },
        2 => Interval { num: 1, den: 1 },
        3 => Interval { num: 5, den: 4 },
        _ => Interval { num: 3, den: 2 },
    }
}

/// The number of potentiometers on the panel.
pub const NUM_POTS: usize = 8;

/// The parameter that a potentiometer sets.
#[derive(PartialEq, Eq, Structural, Clone, Copy, Debug)]
pub enum PotTarget {
    /// The frequency of every voice.
    Frequency,
    FmIndex,
    Volume,
    Attack,
    Decay,
    Sustain,
    Release,
    LfoRate,
}

/// The parameter of potentiometer `id`: P0 frequency, P1 FM index,
/// P2 volume, P3 to P6 attack, decay, sustain and release, P7 LFO rate.
pub open spec fn spec_pot_target(id: int) -> Option<PotTarget> {
    if id == 0 {
        Some(PotTarget::Frequency)
    } else if id == 1 {
        Some(PotTarget::FmIndex)
    } else if id == 2 {
        Some(PotTarget::Volume)
    } else if id == 3 {
        Some(PotTarget::Attack)
    } else if id == 4 {
        Some(PotTarget::Decay)
    } else if id == 5 {
        Some(PotTarget::Sustain)
    } else if id == 6 {
        Some(PotTarget::Release)
    } else if id == 7 {
        Some(PotTarget::LfoRate)
    } else {
        None
    }
}

/// The parameter that a potentiometer sets, if the panel has it.
pub fn pot_target(id: u8) -> (t: Option<PotTarget>)
    ensures
        t == spec_pot_target(id as int),
{
    match id {
        0 => Some(PotTarget::Frequency),
        1 => Some(PotTarget::FmIndex),
        2 => Some(PotTarget::Volume),
        3 => Some(PotTarget::Attack),
        4 => Some(PotTarget::Decay),
        5 => Some(PotTarget::Sustain),
        6 => Some(PotTarget::Release),
        7 => Some(PotTarget::LfoRate),
        _ => None,
    }
}

/// The engine command that sets a potentiometer's parameter to `value`.
pub open spec fn spec_pot_command<V>(target: PotTarget, value: V) -> AudioCommand<V> {
    match target {
        PotTarget::Frequency => AudioCommand::UpdateFrequency(value),
        PotTarget::FmIndex => AudioCommand::UpdateFMIndex(value),
        PotTarget::Volume => AudioCommand::UpdateVolume(value),
        PotTarget::Attack => AudioCommand::UpdateAttack(value),
        PotTarget::Decay => AudioCommand::UpdateDecay(value),
        PotTarget::Sustain => AudioCommand::UpdateSustain(value),
        PotTarget::Release => AudioCommand::UpdateRelease(value),
        PotTarget::LfoRate => AudioCommand::UpdateLFORate(value),
    }
}

/// Law: the panel has eight potentiometers, each with its own parameter, and
/// the command of each carries the value unchanged to a target of its own
/// in the engine (the frequency pot to every voice).
pub proof fn lemma_pots<V>(id: int, other: int, value: V)
    ensures
        spec_pot_target(id) is Some <==> 0 <= id < NUM_POTS,
        (spec_pot_target(id) is Some && spec_pot_target(id) == spec_pot_target(other)) ==> id == other,
        spec_pot_target(id) matches Some(t) ==> {
            &&& update_value(spec_pot_command(t, value)) == Some(value)
            &&& (t == PotTarget::Frequency) == (spec_route(spec_pot_command(t, value))
                == Route::AllVoiceFrequencies(value))
        },
        spec_pot_target(id) matches Some(t) ==> spec_pot_target(other) matches Some(u) ==> t != u
            ==> spec_route(spec_pot_command(t, value)) != spec_route(spec_pot_command(u, value)),
{
}

/// The engine command that sets a potentiometer's parameter to `value`.
pub fn pot_command<V>(target: PotTarget, value: V) -> (cmd: AudioCommand<V>)
    ensures
        cmd == spec_pot_command(target, value),
        cmd == match target {
            PotTarget::Frequency => AudioCommand::UpdateFrequency(value),
            PotTarget::FmIndex => AudioCommand::UpdateFMIndex(value),
            PotTarget::Volume => AudioCommand::UpdateVolume(value),
            PotTarget::Attack => AudioCommand::UpdateAttack(value),
            PotTarget::Decay => AudioCommand::UpdateDecay(value),
            PotTarget::Sustain => AudioCommand::UpdateSustain(value),
            PotTarget::Release => AudioCommand::UpdateRelease(value),
            PotTarget::LfoRate => AudioCommand::UpdateLFORate(value),
        },
{
    match target {
        PotTarget::Frequency => AudioCommand::UpdateFrequency(value),
        PotTarget::FmIndex => AudioCommand::UpdateFMIndex(value),
        PotTarget::Volume => AudioCommand::UpdateVolume(value),
        PotTarget::Attack => AudioCommand::UpdateAttack(value),
        PotTarget::Decay => AudioCommand::UpdateDecay(value),
        PotTarget::Sustain => AudioCommand::UpdateSustain(value),
        PotTarget::Release => AudioCommand::UpdateRelease(value),
        PotTarget::LfoRate => AudioCommand::UpdateLFORate(value),
    }
}

/// What the panel asks of the synthesizer.
#[derive(PartialEq, Eq, Structural, Clone, Copy, Debug)]
pub enum PanelEvent {
    /// Let the voice go.
    NoteOff(u8),
    /// Play the voice at the interval over the base frequency.
    NoteOn(u8, Interval),
    /// Set a parameter from a potentiometer's raw reading. The protocol
    /// gives the reading only; its scale onto the parameter is the
    /// receiver's.
    Pot(PotTarget, u16),
    /// Select the waveform with this index.
    Waveform(u8),
}

/// The panel's step on a message: the buttons that are down afterwards and
/// the events, in order. A button that goes down while it is up restarts
/// its voice (a note-off, then a note-on, so that the envelope sees a fresh
/// edge); a button that goes down while already down does nothing; a button
/// that goes up lets its voice go. A potentiometer sets its parameter, and
/// the waveform encoder selects the waveform. Unknown buttons, states and
/// potentiometers are ignored.
pub open spec fn panel_step(down: Seq<bool>, msg: SerialMessage) -> (Seq<bool>, Seq<PanelEvent>) {
    match msg {
        SerialMessage::Button { id, state } => {
            if (id as int) < NUM_BUTTONS && state == 1 {
                if down[id as int] {
                    (down, seq![])
                } else {
                    (
                        down.update(id as int, true),
                        seq![PanelEvent::NoteOff(id), PanelEvent::NoteOn(id, spec_button_interval(id as int))],
                    )
                }
            } else if (id as int) < NUM_BUTTONS && state == 0 {
                (down.update(id as int, false), seq![PanelEvent::NoteOff(id)])
            } else {
                (down, seq![])
            }
        },
        SerialMessage::Pot { id, value } => match spec_pot_target(id as int) {
            Some(target) => (down, seq![PanelEvent::Pot(target, value)]),
            None => (down, seq![]),
        },
        SerialMessage::Waveform(idx) => (down, seq![PanelEvent::Waveform(idx)]),
        SerialMessage::Ignored => (down, seq![]),
    }
}

/// Law: a potentiometer line for one of the eight potentiometers asks for
/// exactly one change, of that potentiometer's parameter to its reading,
/// and leaves the buttons as they are.
pub proof fn lemma_pot_sets_its_parameter(down: Seq<bool>, id: u8, value: u16)
    requires
        (id as int) < NUM_POTS,
    ensures
        spec_pot_target(id as int) is Some,
        panel_step(down, SerialMessage::Pot { id, value }) == (
            down,
            seq![PanelEvent::Pot(spec_pot_target(id as int)->0, value)],
        ),
{
}

/// The note buttons of the hardware panel, and which of them are down.
pub struct ButtonPanel {
    down: [bool; 5],
}

impl View for ButtonPanel {
    type V = Seq<bool>;

    closed spec fn view(&self) -> Seq<bool> {
        self.down@
    }
}

impl ButtonPanel {
    /// A panel with every button up.
    pub fn new() -> (panel: Self)
        ensures
            panel@ == Seq::new(NUM_BUTTONS as nat, |i: int| false),
    {
        let panel = ButtonPanel { down: [false, false, false, false, false] };
        assert(panel@ =~= Seq::new(NUM_BUTTONS as nat, |i: int| false));
        panel
    }

    /// Whether button `id` is down.
    pub fn is_down(&self, id: usize) -> (r: bool)
        requires
            id < NUM_BUTTONS,
        ensures
            r == self@[id as int],
    {
        self.down[id]
    }

    /// Takes a message of the panel and gives the events it causes.
    pub fn handle(&mut self, msg: SerialMessage) -> (events: Vec<PanelEvent>)
        ensures
            (final(self)@, events@) == panel_step(old(self)@, msg),
            final(self)@.len() == NUM_BUTTONS,
    {
        let mut events: Vec<PanelEvent> = Vec::new();
        match msg {
            SerialMessage::Button { id, state } => {
                if (id as usize) < NUM_BUTTONS && state == 1 {
                    if !self.down[id as usize] {
                        events.push(PanelEvent::NoteOff(id));
                        events.push(PanelEvent::NoteOn(id, button_interval(id)));
                        self.down[id as usize] = true;
                    }
                } else if (id as usize) < NUM_BUTTONS && state == 0 {
                    events.push(PanelEvent::NoteOff(id));
                    self.down[id as usize] = false;
                }
            },
            SerialMessage::Pot { id, value } => {
                if let Some(target) = pot_target(id) {
                    events.push(PanelEvent::Pot(target, value));
                }
            },
            SerialMessage::Waveform(idx) => {
                events.push(PanelEvent::Waveform(idx));
            },
            SerialMessage::Ignored => {},
        }
        assert(events@ =~= panel_step(old(self)@, msg).1);
        assert(self@ =~= panel_step(old(self)@, msg).0);
        events
    }
}

/// Law: the intervals of the buttons go up in quarter steps from half the
/// base frequency: button `id` plays `(id + 2) / 4` of it.
pub proof fn lemma_button_intervals(id: int)
    requires
        0 <= id < NUM_BUTTONS,
    ensures
        spec_button_interval(id).den > 0,
        spec_button_interval(id).num * 4 == (id + 2) * spec_button_interval(id).den,
{
    let i = spec_button_interval(id);
    let n: int = i.num as int;
    let d: int = i.den as int;
    assert(n * 4 == (id + 2) * d) by (nonlinear_arith)
        requires
            0 <= id < 5,
            id == 0 ==> n == 1 && d == 2,
            id == 1 ==> n == 3 && d == 4,
            id == 2 ==> n == 1 && d == 1,
            id == 3 ==> n == 5 && d == 4,
            id == 4 ==> n == 3 && d == 2,
    ;
}

/// Law: what the panel does with each kind of message. A waveform message
/// passes its index on unchanged; a button going up lets its voice go and
/// marks the button up; a button going down while up restarts its voice
/// (note-off, then note-on at its interval) and marks it down; a
/// potentiometer sets its parameter to its reading; and the buttons not
/// named by the message keep their state.
pub proof fn lemma_panel_effect(down: Seq<bool>, msg: SerialMessage)
    requires
        down.len() == NUM_BUTTONS,
    ensures
        ({
            let (after, events) = panel_step(down, msg);
            &&& after.len() == NUM_BUTTONS
            &&& msg matches SerialMessage::Waveform(i) ==> after == down && events == seq![
                PanelEvent::Waveform(i),
            ]
            &&& msg matches SerialMessage::Pot { id, value } ==> after == down && (
            spec_pot_target(id as int) matches Some(t) ==> events == seq![PanelEvent::Pot(t, value)])
            &&& msg is Ignored ==> after == down && events.len() == 0
            &&& msg matches SerialMessage::Button { id, state } ==> {
                &&& forall|b: int| 0 <= b < NUM_BUTTONS && b != id ==> #[trigger] after[b] == down[b]
                &&& (id as int) < NUM_BUTTONS && state == 0 ==> !after[id as int] && events == seq![
                    PanelEvent::NoteOff(id),
                ]
                &&& (id as int) < NUM_BUTTONS && state == 1 && !down[id as int] ==> after[id as int]
                    && events == seq![
                    PanelEvent::NoteOff(id),
                    PanelEvent::NoteOn(id, spec_button_interval(id as int)),
                ]
                &&& (id as int) < NUM_BUTTONS && state == 1 && down[id as int] ==> after == down
                    && events.len() == 0
                &&& ((id as int) >= NUM_BUTTONS || state > 1) ==> after == down && events.len() == 0
            }
        }),
{
}

/// Law: a button held down does not retrigger. A second press of a button
/// that is already down leaves the panel as it is and causes no event.
pub proof fn lemma_press_is_idempotent(down: Seq<bool>, id: u8)
    requires
        down.len() == NUM_BUTTONS,
        (id as int) < NUM_BUTTONS,
    ensures
        ({
            let first = panel_step(down, SerialMessage::Button { id, state: 1 });
            let second = panel_step(first.0, SerialMessage::Button { id, state: 1 });
            second.0 == first.0 && second.1 == Seq::<PanelEvent>::empty()
        }),
{
}

/// Law: pressing and then releasing a button that was up plays its note and
/// lets it go, and leaves the buttons as they were.
pub proof fn lemma_press_release(down: Seq<bool>, id: u8)
    requires
        down.len() == NUM_BUTTONS,
        (id as int) < NUM_BUTTONS,
        !down[id as int],
    ensures
        ({
            let first = panel_step(down, SerialMessage::Button { id, state: 1 });
            let second = panel_step(first.0, SerialMessage::Button { id, state: 0 });
            &&& first.1 == seq![PanelEvent::NoteOff(id), PanelEvent::NoteOn(id, spec_button_interval(id as int))]
            &&& second.1 == seq![PanelEvent::NoteOff(id)]
            &&& second.0 == down
        }),
{
    let first = panel_step(down, SerialMessage::Button { id, state: 1 });
    let second = panel_step(first.0, SerialMessage::Button { id, state: 0 });
    assert(second.0 =~= down);
}

} // verus!
