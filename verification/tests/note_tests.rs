use modulator::note::{Note, NoteStats, Scale};

#[test]
fn last_note_is_zero_if_no_note_yet_played() {
    assert_eq!(NoteStats::new().last().0, 0);
}

#[test]
fn records_last_note_on_received() {
    let mut stats = NoteStats::new();

    stats.sending_note_on(1, 0);

    assert_eq!(stats.last().0, 1);
}

#[test]
fn can_construct_from_tonic_and_mode() {
    let scale = Scale::from(60, &[2, 2, 1, 2, 2, 2]);

    assert_eq!(scale.notes, [60, 62, 64, 65, 67, 69, 71, 72]);
    assert_eq!(scale.at(0), 60);
}

#[test]
fn can_access_scale_element_beyond_octave() {
    let scale = Scale::from(60, &[2, 2, 1, 2, 2, 2]);

    assert_eq!(scale.at(0), 60);
    assert_eq!(scale.at(7), 72);
    assert_eq!(scale.at(8), 74);
    assert_eq!(scale.at(9), 76);
    assert_eq!(scale.at(10), 77);
}

#[test]
fn can_calculate_base_ordinal_from_note_within_scale() {
    let scale = Scale::from(60, &[2, 2, 1, 2, 2, 2]);

    assert_eq!(scale.at(0), 60);
    assert_eq!(scale.ordinal_of(60), 0);
    assert_eq!(scale.ordinal_of(62), 1);
    assert_eq!(scale.ordinal_of(72), 7);
    assert_eq!(scale.ordinal_of(74), 1);
    assert_eq!(scale.ordinal_of(76), 2);
    assert_eq!(scale.ordinal_of(88), 2);
    assert_eq!(scale.ordinal_of(59), 6);
    assert_eq!(scale.ordinal_of(47), 6);
}

#[test]
fn notes_outside_the_scale_have_no_ordinal() {
    let scale = Scale::from(60, &[2, 2, 1, 2, 2, 2]);
    assert_eq!(scale.find_ordinal(61), None);
    assert_eq!(scale.find_ordinal(73), None);
    assert_eq!(scale.find_ordinal(1), None);
    assert_eq!(scale.find_ordinal(255), None);
    assert_eq!(scale.find_ordinal(0), Some(0));
    assert_eq!(scale.find_ordinal(252), Some(7));
    assert_eq!(scale.find_ordinal(251), Some(6));
    assert_eq!(scale.position(72), Some(7));
    assert_eq!(scale.position(74), None);
    let broken = Scale { notes: [60, 62, 64, 65, 67, 69, 71, 73] };
    assert_eq!(broken.find_ordinal(60), None);
}

#[test]
fn scale_reaches_until_the_highest_note() {
    let scale = Scale::from(60, &[2, 2, 1, 2, 2, 2]);
    assert_eq!(scale.reach(0), Some(60));
    assert_eq!(scale.reach(10), Some(77));
    // Seven degrees make an octave: degree 113 is 60 + 16 * 12 + 2 = 254.
    assert_eq!(scale.reach(113), Some(254));
    assert_eq!(scale.reach(114), None);
    assert_eq!(scale.reach(255), None);
}

#[test]
fn note_is_second_and_third_byte() {
    let n = Note::from_midi_message(&[0x90, 61, 99]);
    assert_eq!((n.note, n.velocity), (61, 99));
    let n = Note::from_midi_message(&[0x90, 1, 2, 3, 4]);
    assert_eq!((n.note, n.velocity), (1, 2));
}

#[test]
fn history_keeps_the_last_eight_notes() {
    let mut stats = NoteStats::new();
    for n in 1..=10u8 {
        stats.sending_note_on(n, n % 3);
    }
    for b in 1..=8u8 {
        let p = stats.look_back(b);
        assert_eq!((p.0, p.1), (11 - b, (11 - b) % 3));
    }
    assert_eq!(stats.last().0, 10);
    assert_eq!(stats.last_dropped.0, 0);
    stats.drop(77);
    assert_eq!((stats.last_dropped.0, stats.last_dropped.1), (77, 1));
    assert_eq!(stats.last().0, 10);
}

#[test]
fn other_modes() {
    let aeolian = Scale::from(48, &[2, 1, 2, 2, 1, 2]);
    assert_eq!(aeolian.notes, [48, 50, 51, 53, 55, 56, 58, 60]);
    let high = Scale::from(243, &[2, 2, 1, 2, 2, 2]);
    assert_eq!(high.notes, [243, 245, 247, 248, 250, 252, 254, 255]);
}
