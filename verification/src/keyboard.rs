use vstd::prelude::*;
use crate::command::NUM_VOICES;

verus! {

/// The number of note keys of the computer keyboard (the digit keys 1 to 0).
pub const NUM_KEYS: usize = 10;

/// The semitone above the octave's C that the key at `key` plays:
/// C D E F G A B C D E over the digit keys 1 to 0.
pub open spec fn spec_key_semitone(key: int) -> int {
    seq![0int, 2, 4, 5, 7, 9, 11, 12, 14, 16][key]
}

/// The pitch, in semitones above the C of octave 0, that the key at `key`
/// plays in `octave`.
pub open spec fn spec_note_pitch(octave: int, key: int) -> int {
    12 * octave + spec_key_semitone(key)
}

/// The semitones of the major scale on C.
pub open spec fn in_major_scale(semitone: int) -> bool {
    semitone == 0 || semitone == 2 || semitone == 4 || semitone == 5 || semitone == 7
        || semitone == 9 || semitone == 11
}

/// Law: the keys play a rising C major scale. The first key plays C, each
/// key plays a higher note than the one before it, the first seven keys
/// stay within one octave on notes of the scale, and the last three repeat
/// the first three an octave up.
pub proof fn lemma_keys_play_c_major()
    ensures
        spec_key_semitone(0) == 0,
        forall|k: int| 0 <= k < NUM_KEYS - 1 ==> #[trigger] spec_key_semitone(k) < spec_key_semitone(k + 1),
        forall|k: int| 0 <= k < 7 ==> #[trigger] in_major_scale(spec_key_semitone(k)),
        spec_key_semitone(6) < 12,
        forall|k: int| 0 <= k < 3 ==> #[trigger] spec_key_semitone(k + 7) == spec_key_semitone(k) + 12,
{
}

/// Law: a key plays the same note as the key seven places before it one
/// octave higher, and every key plays twelve semitones higher one octave up.
pub proof fn lemma_pitch_octaves(octave: int, key: int)
    requires
        0 <= key < NUM_KEYS,
    ensures
        spec_note_pitch(octave + 1, key) == spec_note_pitch(octave, key) + 12,
        key < 3 ==> spec_note_pitch(octave + 1, key) == spec_note_pitch(octave, key + 7),
{
    lemma_keys_play_c_major();
}

/// The semitone above the octave's C that a key plays.
pub fn key_semitone(key: usize) -> (semitone: i32)
    requires
        key < NUM_KEYS,
    ensures
        semitone == spec_key_semitone(key as int),
{
    let table: [i32; 10] = [0, 2, 4, 5, 7, 9, 11, 12, 14, 16];
    table[key]
}

/// The pitch that a key plays in an octave, in semitones above the C of
/// octave 0. Two keys sound the same note exactly when their pitches are
/// equal.
pub fn note_pitch(octave: i32, key: usize) -> (pitch: i64)
    requires
        key < NUM_KEYS,
    ensures
        pitch == spec_note_pitch(octave as int, key as int),
{
    12 * (octave as i64) + (key_semitone(key) as i64)
}

/// A note held on a voice: its pitch, by which notes are told apart, and
/// the value (a frequency) that the voice was given for it. The keyboard
/// derives each frequency from the pitch, and the frequencies of distinct
/// pitches in its octaves lie more than a hertz apart, so two notes sound
/// the same exactly when their pitches are equal.
#[derive(Clone, Copy)]
pub struct Note<F> {
    pub pitch: i64,
    pub freq: F,
}

/// What a key press did: the voices that were let go first because they
/// were playing the same pitch (in increasing order), and the voice that
/// now plays the key's note.
pub struct KeyPress {
    pub silenced: Vec<u8>,
    pub voice: u8,
}

/// The state of the voice allocation: the voice where the round-robin
/// search starts, the voice that each key holds, and the note that each
/// voice plays.
pub struct Allocation<F> {
    pub next: u8,
    pub keys: Seq<Option<u8>>,
    pub voices: Seq<Option<Note<F>>>,
}

/// Some key holds voice `v`.
pub open spec fn held(keys: Seq<Option<u8>>, v: int) -> bool {
    exists|k: int| 0 <= k < keys.len() && keys[k] == Some(v as u8)
}

/// The slot plays a note of the given pitch.
pub open spec fn plays_pitch<F>(slot: Option<Note<F>>, pitch: i64) -> bool {
    slot matches Some(n) && n.pitch == pitch
}

/// The first voice that no key holds, searching round-robin from voice
/// `next + offset` up to voice `next + 4` (modulo the number of voices).
pub open spec fn first_free_from(keys: Seq<Option<u8>>, next: int, offset: int) -> Option<int>
    decreases 5 - offset,
{
    if offset >= 5 {
        None
    } else if !held(keys, (next + offset) % 5) {
        Some((next + offset) % 5)
    } else {
        first_free_from(keys, next, offset + 1)
    }
}

/// The voice that a new note gets: the first free voice from `next` on,
/// or, when every voice is held, voice `next` itself, taken from its keys.
pub open spec fn chosen_voice(keys: Seq<Option<u8>>, next: int) -> int {
    match first_free_from(keys, next, 0) {
        Some(v) => v,
        None => next,
    }
}

/// The voices among the first `n` that play `pitch`, in increasing order.
pub open spec fn voices_playing<F>(voices: Seq<Option<Note<F>>>, pitch: i64, n: int) -> Seq<u8>
    decreases n,
{
    if n <= 0 {
        seq![]
    } else {
        voices_playing(voices, pitch, n - 1) + if plays_pitch(voices[n - 1], pitch) {
            seq![(n - 1) as u8]
        } else {
            seq![]
        }
    }
}

/// The allocation after the idle key `key` is pressed to play `note`: the
/// voices playing the same pitch are let go, the chosen voice is taken from
/// any key that held it and given to `key` and `note`, and the round-robin
/// search moves past it.
pub open spec fn after_press<F>(a: Allocation<F>, key: int, note: Note<F>) -> Allocation<F> {
    let v = chosen_voice(a.keys, a.next as int);
    Allocation {
        next: ((v + 1) % 5) as u8,
        keys: Seq::new(
            a.keys.len(),
            |k: int|
                if k == key {
                    Some(v as u8)
                } else if a.keys[k] == Some(v as u8) {
                    None
                } else {
                    a.keys[k]
                },
        ),
        voices: Seq::new(
            a.voices.len(),
            |u: int|
                if u == v {
                    Some(note)
                } else if plays_pitch(a.voices[u], note.pitch) {
                    None
                } else {
                    a.voices[u]
                },
        ),
    }
}

/// The allocation after `key` is let go: the voice it held, if any, falls
/// silent and is no longer held.
pub open spec fn after_release<F>(a: Allocation<F>, key: int) -> Allocation<F> {
    match a.keys[key] {
        Some(v) => Allocation {
            next: a.next,
            keys: a.keys.update(key, None),
            voices: a.voices.update(v as int, None),
        },
        None => a,
    }
}

/// The allocation is sound: there is a key slot for each key and a voice
/// slot for each voice, every key holds an existing voice, no two keys hold
/// the same voice, and every voice that plays a note is held by a key.
pub open spec fn keys_own_voices<F>(a: Allocation<F>) -> bool {
    &&& a.next < 5
    &&& a.keys.len() == NUM_KEYS
    &&& a.voices.len() == NUM_VOICES
    &&& forall|k: int| #![trigger a.keys[k]] 0 <= k < a.keys.len() ==> (a.keys[k] matches Some(v) ==> v < 5)
    &&& forall|k1: int, k2: int|
        #![trigger a.keys[k1], a.keys[k2]]
        0 <= k1 < a.keys.len() && 0 <= k2 < a.keys.len() && k1 != k2 && a.keys[k1] is Some
            ==> a.keys[k1] != a.keys[k2]
    &&& forall|v: int| #![trigger a.voices[v]] 0 <= v < a.voices.len() && a.voices[v] is Some ==> held(a.keys, v)
}

/// The voices of the synthesizer as the keyboard hands them out: each
/// pressed key holds one voice, handed out round-robin.
pub struct VoiceAllocator<F> {
    next_voice: u8,
    active_keys: [Option<u8>; 10],
    active_voices: [Option<Note<F>>; 5],
}

impl<F> View for VoiceAllocator<F> {
    type V = Allocation<F>;

    closed spec fn view(&self) -> Allocation<F> {
        Allocation { next: self.next_voice, keys: self.active_keys@, voices: self.active_voices@ }
    }
}


/// When no voice is free from `offset` on, every voice from there on is
/// held.
proof fn lemma_no_free_from(keys: Seq<Option<u8>>, next: int, offset: int)
    requires
        0 <= offset,
        first_free_from(keys, next, offset) is None,
    ensures
        forall|p: int| offset <= p < 5 ==> held(keys, #[trigger] ((next + p) % 5)),
    decreases 5 - offset,
{
    if offset < 5 {
        lemma_no_free_from(keys, next, offset + 1);
    }
}

/// A voice found free is a voice that no key holds.
proof fn lemma_found_free(keys: Seq<Option<u8>>, next: int, offset: int)
    requires
        0 <= next < 5,
        0 <= offset,
        first_free_from(keys, next, offset) is Some,
    ensures
        0 <= first_free_from(keys, next, offset)->0 < 5,
        !held(keys, first_free_from(keys, next, offset)->0),
    decreases 5 - offset,
{
    if offset < 5 && held(keys, (next + offset) % 5) {
        lemma_found_free(keys, next, offset + 1);
    }
}

/// Law: a voice is taken from a key only when every voice is held. While
/// some voice is free, the voice handed to a new note is a free one.
pub proof fn lemma_free_voice_preferred(keys: Seq<Option<u8>>, next: int, free: int)
    requires
        0 <= next < 5,
        0 <= free < 5,
        !held(keys, free),
    ensures
        !held(keys, chosen_voice(keys, next)),
        0 <= chosen_voice(keys, next) < 5,
{
    if first_free_from(keys, next, 0) is None {
        lemma_no_free_from(keys, next, 0);
        let p: int = if free >= next { free - next } else { free + 5 - next };
        assert((next + p) % 5 == free);
        assert(held(keys, (next + p) % 5));
    } else {
        lemma_found_free(keys, next, 0);
    }
}

/// Law: the voices go round in turn. When the voice where the search
/// starts is free, a new note gets that voice, and the search then starts at
/// the voice after it.
pub proof fn lemma_round_robin<F>(a: Allocation<F>, key: int, note: Note<F>)
    requires
        keys_own_voices(a),
        !held(a.keys, a.next as int),
    ensures
        chosen_voice(a.keys, a.next as int) == a.next as int,
        after_press(a, key, note).next == (a.next + 1) % 5,
{
    assert((a.next + 0) % 5 == a.next);
}

/// Law: pressing an idle key keeps the allocation sound.
pub proof fn lemma_press_keeps_ownership<F>(a: Allocation<F>, key: int, note: Note<F>)
    requires
        keys_own_voices(a),
        0 <= key < NUM_KEYS,
        a.keys[key] is None,
    ensures
        keys_own_voices(after_press(a, key, note)),
        0 <= chosen_voice(a.keys, a.next as int) < NUM_VOICES,
        after_press(a, key, note).keys[key] == Some(chosen_voice(a.keys, a.next as int) as u8),
        after_press(a, key, note).voices[chosen_voice(a.keys, a.next as int)] == Some(note),
{
    let v: int = chosen_voice(a.keys, a.next as int);
    let b = after_press(a, key, note);
    if first_free_from(a.keys, a.next as int, 0) is Some {
        lemma_found_free(a.keys, a.next as int, 0);
    }
    assert(0 <= v < 5);
    assert forall|u: int| #![trigger b.voices[u]] 0 <= u < b.voices.len() && b.voices[u] is Some implies held(b.keys, u) by {
        if u == v {
            assert(b.keys[key] == Some(v as u8));
        } else {
            assert(a.voices[u] is Some);
            assert(held(a.keys, u));
            let k = choose|k: int| 0 <= k < a.keys.len() && a.keys[k] == Some(u as u8);
            assert(k != key);
            assert(a.keys[k] != Some(v as u8));
            assert(b.keys[k] == Some(u as u8));
        }
    }
}

/// Law: letting a key go keeps the allocation sound.
pub proof fn lemma_release_keeps_ownership<F>(a: Allocation<F>, key: int)
    requires
        keys_own_voices(a),
        0 <= key < NUM_KEYS,
    ensures
        keys_own_voices(after_release(a, key)),
{
    let b = after_release(a, key);
    if let Some(v) = a.keys[key] {
        assert forall|u: int| #![trigger b.voices[u]] 0 <= u < b.voices.len() && b.voices[u] is Some implies held(b.keys, u) by {
            assert(u != v);
            assert(held(a.keys, u));
            let k = choose|k: int| 0 <= k < a.keys.len() && a.keys[k] == Some(u as u8);
            assert(k != key);
            assert(b.keys[k] == Some(u as u8));
        }
    }
}

/// A voice found from `offset` on is the voice at some later offset of the
/// search, every voice before it from `offset` on is held, and it is free.
proof fn lemma_found_at(keys: Seq<Option<u8>>, next: int, offset: int) -> (o: int)
    requires
        0 <= next < 5,
        0 <= offset,
        first_free_from(keys, next, offset) is Some,
    ensures
        offset <= o < 5,
        first_free_from(keys, next, offset) == Some((next + o) % 5),
        !held(keys, (next + o) % 5),
        forall|p: int| offset <= p < o ==> held(keys, #[trigger] ((next + p) % 5)),
    decreases 5 - offset,
{
    if held(keys, (next + offset) % 5) {
        lemma_found_at(keys, next, offset + 1)
    } else {
        offset
    }
}

/// Law: the search goes round-robin. While some voice is free, the voice
/// handed to a new note is free, and every voice that the search meets
/// before it, starting from voice `next`, is held; when every voice is held
/// the voice is `next` itself.
pub proof fn lemma_round_robin_search(keys: Seq<Option<u8>>, next: int)
    requires
        0 <= next < 5,
    ensures
        0 <= chosen_voice(keys, next) < 5,
        (exists|u: int| 0 <= u < 5 && !held(keys, u)) ==> {
            &&& !held(keys, chosen_voice(keys, next))
            &&& forall|p: int|
                0 <= p < (chosen_voice(keys, next) - next + 5) % 5 ==> held(
                    keys,
                    #[trigger] ((next + p) % 5),
                )
        },
        (forall|u: int| 0 <= u < 5 ==> held(keys, u)) ==> chosen_voice(keys, next) == next,
{
    if first_free_from(keys, next, 0) is Some {
        let o = lemma_found_at(keys, next, 0);
        let v = (next + o) % 5;
        assert(v == if next + o < 5 { next + o } else { next + o - 5 });
        assert((v - next + 5) % 5 == o);
    } else {
        if exists|u: int| 0 <= u < 5 && !held(keys, u) {
            let u = choose|u: int| 0 <= u < 5 && !held(keys, u);
            lemma_free_voice_preferred(keys, next, u);
        }
    }
}

/// The voices playing `pitch` among the first `n` are listed in increasing
/// order, and each voice below `n` that plays it is listed.
proof fn lemma_voices_playing<F>(voices: Seq<Option<Note<F>>>, pitch: i64, n: int)
    requires
        0 <= n <= voices.len(),
        n <= 256,
    ensures
        forall|i: int|
            0 <= i < voices_playing(voices, pitch, n).len() ==> {
                &&& 0 <= #[trigger] voices_playing(voices, pitch, n)[i] < n
                &&& plays_pitch(voices[voices_playing(voices, pitch, n)[i] as int], pitch)
            },
        forall|i: int, j: int|
            0 <= i < j < voices_playing(voices, pitch, n).len() ==> #[trigger] voices_playing(
                voices,
                pitch,
                n,
            )[i] < #[trigger] voices_playing(voices, pitch, n)[j],
        forall|u: int|
            0 <= u < n && plays_pitch(voices[u], pitch) ==> voices_playing(
                voices,
                pitch,
                n,
            ).contains(u as u8),
    decreases n,
{
    if n > 0 {
        lemma_voices_playing(voices, pitch, n - 1);
        let prev = voices_playing(voices, pitch, n - 1);
        let cur = voices_playing(voices, pitch, n);
        if plays_pitch(voices[n - 1], pitch) {
            assert(cur == prev.push((n - 1) as u8));
            assert(cur[prev.len() as int] == (n - 1) as u8);
            assert forall|u: int| 0 <= u < n && plays_pitch(voices[u], pitch) implies cur.contains(
                u as u8,
            ) by {
                if u < n - 1 {
                    let i = choose|i: int| 0 <= i < prev.len() && prev[i] == u as u8;
                    assert(cur[i] == u as u8);
                } else {
                    assert(cur[prev.len() as int] == u as u8);
                }
            }
        } else {
            assert(cur =~= prev);
        }
    }
}

/// Law: the voices let go before a new note are exactly the voices that
/// play its pitch, each once, in increasing order.
pub proof fn lemma_silenced_voices<F>(voices: Seq<Option<Note<F>>>, pitch: i64)
    requires
        voices.len() == NUM_VOICES,
    ensures
        forall|i: int|
            0 <= i < voices_playing(voices, pitch, NUM_VOICES as int).len() ==> {
                &&& 0 <= #[trigger] voices_playing(voices, pitch, NUM_VOICES as int)[i] < NUM_VOICES
                &&& plays_pitch(
                    voices[voices_playing(voices, pitch, NUM_VOICES as int)[i] as int],
                    pitch,
                )
            },
        forall|i: int, j: int|
            0 <= i < j < voices_playing(voices, pitch, NUM_VOICES as int).len()
                ==> #[trigger] voices_playing(voices, pitch, NUM_VOICES as int)[i]
                < #[trigger] voices_playing(voices, pitch, NUM_VOICES as int)[j],
        forall|u: int|
            0 <= u < NUM_VOICES && plays_pitch(voices[u], pitch) ==> voices_playing(
                voices,
                pitch,
                NUM_VOICES as int,
            ).contains(u as u8),
{
    lemma_voices_playing(voices, pitch, NUM_VOICES as int);
}

/// Law: what a press of an idle key does. The key gets a voice `v`, found
/// round-robin from `next` (a free voice whenever there is one, with every
/// voice met before it held; `next` itself when all are held); `v` plays the
/// note; the keys that held `v` lose it and the other keys keep theirs; the
/// other voices that played the note's pitch fall silent and the rest keep
/// their notes; and the next search starts at the voice after `v`.
pub proof fn lemma_press_effect<F>(a: Allocation<F>, key: int, note: Note<F>)
    requires
        keys_own_voices(a),
        0 <= key < NUM_KEYS,
        a.keys[key] is None,
    ensures
        ({
            let b = after_press(a, key, note);
            let v = b.keys[key]->0 as int;
            &&& b.keys[key] is Some
            &&& 0 <= v < NUM_VOICES
            &&& b.next as int == (v + 1) % 5
            &&& b.voices[v] == Some(note)
            &&& b.keys.len() == NUM_KEYS
            &&& b.voices.len() == NUM_VOICES
            &&& (exists|u: int| 0 <= u < 5 && !held(a.keys, u)) ==> {
                &&& !held(a.keys, v)
                &&& forall|p: int|
                    0 <= p < (v - a.next + 5) % 5 ==> held(a.keys, #[trigger] ((a.next + p) % 5))
            }
            &&& (forall|u: int| 0 <= u < 5 ==> held(a.keys, u)) ==> v == a.next
            &&& forall|k: int|
                0 <= k < NUM_KEYS && k != key ==> #[trigger] b.keys[k] == if a.keys[k] == Some(
                    v as u8,
                ) {
                    None
                } else {
                    a.keys[k]
                }
            &&& forall|u: int|
                0 <= u < NUM_VOICES && u != v ==> #[trigger] b.voices[u] == if plays_pitch(
                    a.voices[u],
                    note.pitch,
                ) {
                    None
                } else {
                    a.voices[u]
                }
        }),
{
    lemma_press_keeps_ownership(a, key, note);
    lemma_round_robin_search(a.keys, a.next as int);
}

/// Law: what letting a key go does. A key that holds voice `v` becomes idle
/// and `v` falls silent, while every other key and voice, and the start of
/// the next search, stay as they were; a key that holds nothing changes
/// nothing.
pub proof fn lemma_release_effect<F>(a: Allocation<F>, key: int)
    requires
        keys_own_voices(a),
        0 <= key < NUM_KEYS,
    ensures
        ({
            let b = after_release(a, key);
            &&& b.next == a.next
            &&& b.keys.len() == NUM_KEYS
            &&& b.voices.len() == NUM_VOICES
            &&& b.keys[key] is None
            &&& forall|k: int| 0 <= k < NUM_KEYS && k != key ==> #[trigger] b.keys[k] == a.keys[k]
            &&& a.keys[key] is None ==> b == a
            &&& a.keys[key] matches Some(v) ==> {
                &&& b.voices[v as int] is None
                &&& forall|u: int|
                    0 <= u < NUM_VOICES && u != v ==> #[trigger] b.voices[u] == a.voices[u]
            }
        }),
{
}

/// Law: letting go of the key that was just pressed leaves it idle and
/// silences the voice it was given, and changes no other key.
pub proof fn lemma_release_after_press<F>(a: Allocation<F>, key: int, note: Note<F>)
    requires
        keys_own_voices(a),
        0 <= key < NUM_KEYS,
        a.keys[key] is None,
    ensures
        ({
            let b = after_press(a, key, note);
            let c = after_release(b, key);
            &&& c.keys[key] is None
            &&& c.voices[chosen_voice(a.keys, a.next as int)] is None
            &&& forall|k: int| 0 <= k < NUM_KEYS && k != key ==> c.keys[k] == b.keys[k]
        }),
{
    lemma_press_keeps_ownership(a, key, note);
}

impl<F> VoiceAllocator<F> {
    #[verifier::type_invariant]
    closed spec fn sound(self) -> bool {
        keys_own_voices(self@)
    }
}

impl<F: Copy> VoiceAllocator<F> {
    /// No key pressed, no voice playing, and the search starting at voice 0.
    pub fn new() -> (alloc: Self)
        ensures
            alloc@.next == 0,
            alloc@.keys == Seq::new(NUM_KEYS as nat, |k: int| None::<u8>),
            alloc@.voices == Seq::new(NUM_VOICES as nat, |v: int| None::<Note<F>>),
            keys_own_voices(alloc@),
    {
        let alloc = VoiceAllocator {
            next_voice: 0,
            active_keys: [None, None, None, None, None, None, None, None, None, None],
            active_voices: [None, None, None, None, None],
        };
        assert(alloc@.keys =~= Seq::new(NUM_KEYS as nat, |k: int| None::<u8>));
        assert(alloc@.voices =~= Seq::new(NUM_VOICES as nat, |v: int| None::<Note<F>>));
        alloc
    }

    /// The voice that `key` holds, if it is pressed.
    pub fn key_voice(&self, key: usize) -> (voice: Option<u8>)
        requires
            key < NUM_KEYS,
        ensures
            voice == self@.keys[key as int],
    {
        proof {
            use_type_invariant(self);
        }
        self.active_keys[key]
    }

    /// The note that `voice` plays, if any.
    pub fn voice_note(&self, voice: usize) -> (note: Option<Note<F>>)
        requires
            voice < NUM_VOICES,
        ensures
            note == self@.voices[voice as int],
    {
        proof {
            use_type_invariant(self);
        }
        self.active_voices[voice]
    }

    /// Whether some key holds `voice`.
    fn is_held(&self, voice: u8) -> (r: bool)
        ensures
            r == held(self@.keys, voice as int),
    {
        proof {
            use_type_invariant(self);
        }
        let mut k: usize = 0;
        while k < NUM_KEYS
            invariant
                self@.keys.len() == NUM_KEYS,
                0 <= k <= NUM_KEYS,
                forall|j: int| 0 <= j < k ==> self@.keys[j] != Some(voice),
            decreases NUM_KEYS - k,
        {
            match self.active_keys[k] {
                Some(w) => {
                    if w == voice {
                        assert(self@.keys[k as int] == Some(voice));
                        return true;
                    }
                },
                None => {},
            }
            k += 1;
        }
        false
    }

    /// The first voice that no key holds, searching round-robin from the
    /// voice after the one last handed out.
    fn first_free_voice(&self) -> (r: Option<u8>)
        ensures
            r matches Some(v) ==> first_free_from(self@.keys, self@.next as int, 0) == Some(v as int),
            r is None ==> first_free_from(self@.keys, self@.next as int, 0) is None,
    {
        proof {
            use_type_invariant(self);
        }
        let mut offset: u8 = 0;
        while offset < 5
            invariant
                self@.next < 5,
                0 <= offset <= 5,
                first_free_from(self@.keys, self@.next as int, 0)
                    == first_free_from(self@.keys, self@.next as int, offset as int),
            decreases 5 - offset,
        {
            let v: u8 = (self.next_voice + offset) % 5;
            if !self.is_held(v) {
                return Some(v);
            }
            offset += 1;
        }
        None
    }

    /// Presses `key` to play `note`. A key that is already pressed changes
    /// nothing and gives `None`. Otherwise every voice that plays the same
    /// pitch is let go, the key gets the first voice that no key holds,
    /// searching round-robin from the voice after the one last handed out,
    /// or, when all voices are held, the voice where the search starts,
    /// which its keys lose; that voice then plays `note`.
    pub fn press(&mut self, key: usize, note: Note<F>) -> (res: Option<KeyPress>)
        requires
            key < NUM_KEYS,
        ensures
            old(self)@.keys[key as int] is Some ==> res is None && final(self)@ == old(self)@,
            old(self)@.keys[key as int] is None ==> (res matches Some(p) && {
                &&& p.voice == chosen_voice(old(self)@.keys, old(self)@.next as int)
                &&& p.silenced@ == voices_playing(old(self)@.voices, note.pitch, NUM_VOICES as int)
                &&& final(self)@ == after_press(old(self)@, key as int, note)
                &&& final(self)@.keys[key as int] == Some(p.voice)
                &&& final(self)@.voices[p.voice as int] == Some(note)
                &&& final(self)@.next as int == (p.voice as int + 1) % 5
            }),
            keys_own_voices(final(self)@),
    {
        proof {
            use_type_invariant(&*self);
        }
        if self.active_keys[key].is_some() {
            return None;
        }
        let ghost a = self@;
        // Let go of the voices that already play this pitch.
        let mut voices = self.active_voices;
        let mut silenced: Vec<u8> = Vec::new();
        let mut u: usize = 0;
        while u < NUM_VOICES
            invariant
                a.voices == self.active_voices@,
                a.voices.len() == NUM_VOICES,
                0 <= u <= NUM_VOICES,
                silenced@ == voices_playing(a.voices, note.pitch, u as int),
                forall|w: int|
                    #![trigger voices@[w]]
                    0 <= w < NUM_VOICES ==> voices@[w] == if w < u && plays_pitch(a.voices[w], note.pitch) {
                        None
                    } else {
                        a.voices[w]
                    },
            decreases NUM_VOICES - u,
        {
            match voices[u] {
                Some(n) => {
                    if n.pitch == note.pitch {
                        silenced.push(u as u8);
                        voices[u] = None;
                    }
                },
                None => {},
            }
            u += 1;
        }
        // Hand out a voice.
        let free = self.first_free_voice();
        let voice: u8 = match free {
            Some(v) => v,
            None => self.next_voice,
        };
        proof {
            if free is Some {
                lemma_found_free(a.keys, a.next as int, 0);
            }
        }
        let mut keys = self.active_keys;
        let mut k: usize = 0;
        while k < NUM_KEYS
            invariant
                a.keys == self.active_keys@,
                a.keys.len() == NUM_KEYS,
                0 <= k <= NUM_KEYS,
                forall|j: int|
                    #![trigger keys@[j]]
                    0 <= j < NUM_KEYS ==> keys@[j] == if j < k && a.keys[j] == Some(voice) {
                        None
                    } else {
                        a.keys[j]
                    },
            decreases NUM_KEYS - k,
        {
            match keys[k] {
                Some(w) => {
                    if w == voice {
                        keys[k] = None;
                    }
                },
                None => {},
            }
            k += 1;
        }
        keys[key] = Some(voice);
        voices[voice as usize] = Some(note);
        proof {
            lemma_press_keeps_ownership(a, key as int, note);
            lemma_press_effect(a, key as int, note);
            assert(keys@ =~= after_press(a, key as int, note).keys);
            assert(voices@ =~= after_press(a, key as int, note).voices);
        }
        *self = VoiceAllocator { next_voice: (voice + 1) % 5, active_keys: keys, active_voices: voices };
        Some(KeyPress { silenced, voice })
    }

    /// Lets `key` go, and gives the voice it held, which falls silent.
    pub fn release(&mut self, key: usize) -> (voice: Option<u8>)
        requires
            key < NUM_KEYS,
        ensures
            voice == old(self)@.keys[key as int],
            final(self)@ == after_release(old(self)@, key as int),
            keys_own_voices(final(self)@),
    {
        proof {
            use_type_invariant(&*self);
            lemma_release_keeps_ownership(self@, key as int);
        }
        match self.active_keys[key] {
            Some(v) => {
                let mut keys = self.active_keys;
                let mut voices = self.active_voices;
                keys[key] = None;
                voices[v as usize] = None;
                *self = VoiceAllocator { next_voice: self.next_voice, active_keys: keys, active_voices: voices };
                Some(v)
            },
            None => None,
        }
    }
}

} // verus!
