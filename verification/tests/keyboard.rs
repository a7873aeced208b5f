use synthy::keyboard::{key_semitone, note_pitch, Note, VoiceAllocator, NUM_KEYS};

fn note(pitch: i64) -> Note<f32> {
    Note { pitch, freq: pitch as f32 }
}

#[test]
fn key_semitones_and_pitches() {
    let expected = [0, 2, 4, 5, 7, 9, 11, 12, 14, 16];
    for k in 0..NUM_KEYS {
        assert_eq!(key_semitone(k), expected[k]);
    }
    assert_eq!(note_pitch(4, 0), 48);
    assert_eq!(note_pitch(4, 9), 64);
    assert_eq!(note_pitch(5, 0), note_pitch(4, 7));
    assert_eq!(note_pitch(-1, 2), -8);
    assert_eq!(note_pitch(i32::MAX, 9), 12 * (i32::MAX as i64) + 16);
}

#[test]
fn voices_are_handed_out_round_robin() {
    let mut alloc: VoiceAllocator<f32> = VoiceAllocator::new();
    for k in 0..5 {
        let p = alloc.press(k, note(60 + k as i64)).unwrap();
        assert!(p.silenced.is_empty());
        assert_eq!(p.voice as usize, k);
        assert_eq!(alloc.key_voice(k), Some(k as u8));
    }
    // A released voice is reused only once the search reaches it.
    assert_eq!(alloc.release(2), Some(2));
    assert!(alloc.voice_note(2).is_none());
    let p = alloc.press(5, note(70)).unwrap();
    assert_eq!(p.voice, 2);
}

#[test]
fn free_voice_found_after_next() {
    let mut alloc: VoiceAllocator<f32> = VoiceAllocator::new();
    alloc.press(0, note(60)).unwrap(); // voice 0
    alloc.press(1, note(62)).unwrap(); // voice 1
    alloc.release(0);
    // The search starts at voice 2.
    let p = alloc.press(2, note(64)).unwrap();
    assert_eq!(p.voice, 2);
    let p = alloc.press(3, note(65)).unwrap();
    assert_eq!(p.voice, 3);
    let p = alloc.press(4, note(67)).unwrap();
    assert_eq!(p.voice, 4);
    // Voice 0 is the first free one from voice 0 on.
    let p = alloc.press(5, note(69)).unwrap();
    assert_eq!(p.voice, 0);
}

#[test]
fn all_voices_held_steals_next() {
    let mut alloc: VoiceAllocator<f32> = VoiceAllocator::new();
    for k in 0..5 {
        alloc.press(k, note(60 + k as i64)).unwrap();
    }
    let p = alloc.press(7, note(80)).unwrap();
    assert_eq!(p.voice, 0);
    assert!(p.silenced.is_empty());
    assert_eq!(alloc.key_voice(0), None);
    assert_eq!(alloc.key_voice(7), Some(0));
    assert_eq!(alloc.voice_note(0).unwrap().pitch, 80);
    // Releasing the robbed key does nothing.
    assert_eq!(alloc.release(0), None);
    assert_eq!(alloc.voice_note(0).unwrap().pitch, 80);
    // The next steal takes voice 1.
    let p = alloc.press(8, note(81)).unwrap();
    assert_eq!(p.voice, 1);
}

#[test]
fn same_pitch_is_let_go_first() {
    let mut alloc: VoiceAllocator<f32> = VoiceAllocator::new();
    alloc.press(7, note(60)).unwrap(); // voice 0
    // Another key of the same pitch: voice 0 is silenced, but stays held.
    let p = alloc.press(0, note(60)).unwrap();
    assert_eq!(p.silenced, vec![0]);
    assert_eq!(p.voice, 1);
    assert!(alloc.voice_note(0).is_none());
    assert_eq!(alloc.key_voice(7), Some(0));
    assert_eq!(alloc.voice_note(1).unwrap().pitch, 60);
}

#[test]
fn pressed_key_press_is_ignored() {
    let mut alloc: VoiceAllocator<f32> = VoiceAllocator::new();
    alloc.press(3, note(50)).unwrap();
    assert!(alloc.press(3, note(50)).is_none());
    assert_eq!(alloc.key_voice(3), Some(0));
    // The next voice is still voice 1.
    assert_eq!(alloc.press(4, note(52)).unwrap().voice, 1);
}

#[test]
fn press_then_release_frees_the_key() {
    let mut alloc: VoiceAllocator<f32> = VoiceAllocator::new();
    let p = alloc.press(9, note(64)).unwrap();
    assert_eq!(alloc.voice_note(p.voice as usize).unwrap().freq, 64.0);
    assert_eq!(alloc.release(9), Some(p.voice));
    assert_eq!(alloc.key_voice(9), None);
    assert!(alloc.voice_note(p.voice as usize).is_none());
    assert_eq!(alloc.release(9), None);
}

#[test]
fn no_two_keys_share_a_voice() {
    let mut alloc: VoiceAllocator<f32> = VoiceAllocator::new();
    let script: [(bool, usize, i64); 16] = [
        (true, 0, 48), (true, 1, 50), (true, 2, 52), (false, 1, 0), (true, 3, 53),
        (true, 4, 55), (true, 5, 57), (true, 6, 59), (true, 7, 60), (false, 0, 0),
        (true, 8, 62), (true, 9, 64), (true, 1, 50), (false, 5, 0), (true, 0, 60),
        (false, 9, 0),
    ];
    for (press, key, pitch) in script.iter() {
        if *press {
            alloc.press(*key, note(*pitch));
        } else {
            alloc.release(*key);
        }
        let mut owners = [0usize; 5];
        for k in 0..NUM_KEYS {
            if let Some(v) = alloc.key_voice(k) {
                assert!((v as usize) < 5);
                owners[v as usize] += 1;
            }
        }
        for v in 0..5 {
            assert!(owners[v] <= 1);
            if alloc.voice_note(v).is_some() {
                assert_eq!(owners[v], 1);
            }
        }
    }
}

#[test]
fn idle_keyboard_cycles_through_voices() {
    let mut alloc: VoiceAllocator<f32> = VoiceAllocator::new();
    for round in 0..12usize {
        let p = alloc.press(round % NUM_KEYS, note(40 + round as i64)).unwrap();
        assert_eq!(p.voice as usize, round % 5);
        alloc.release(round % NUM_KEYS);
    }
}
