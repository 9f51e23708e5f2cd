use modulator::korg::{osc_spec, program_spec, KorgProgramSysEx};
use modulator::modulation::{ConfigurationError, PairedUpdater, Selector, Updater};
use modulator::session::LoopAction::{Abort, Compose, Exit, Rest, Sleep};
use modulator::session::LoopEvent::{Sent, Start, Tick, WriteFailed};
use modulator::session::LoopState::{Idle, Running, Stopping, Terminated};
use modulator::session::{
    d110_init_frames, korg_frame, step, update_d110, KorgSession, LoopAction, LoopEvent,
    LoopState, TICK_INTERVAL_MS,
};
use modulator::korg::{KorgEffectSelector, KorgOscSelector};
use modulator::wave::Waveform;

fn cosine(samples: usize) -> Waveform {
    let mut levels = Vec::new();
    for i in 0..samples {
        let angle = 2.0 * std::f64::consts::PI * (i as f64) / (samples as f64);
        let level = 0.5 * (1.0 + angle.cos()) * 65535.0;
        levels.push(level.round() as u16);
    }
    Waveform::new(levels).unwrap()
}

fn value_of(list: &[(String, i8)], key: &str) -> i8 {
    list.iter().find(|(k, _)| k == key).unwrap().1
}

#[test]
fn ticks_are_a_tenth_of_a_second_apart() {
    assert_eq!(TICK_INTERVAL_MS, 100);
}

#[test]
fn loop_walks_its_states() {
    assert_eq!(step(Idle, Start), (Running, Rest));
    assert_eq!(step(Idle, Tick { stop: false }), (Idle, Rest));
    assert_eq!(step(Idle, Tick { stop: true }), (Idle, Rest));
    assert_eq!(step(Idle, Sent), (Idle, Rest));
    assert_eq!(step(Idle, WriteFailed), (Idle, Rest));
    assert_eq!(step(Running, Start), (Running, Rest));
    assert_eq!(step(Running, Tick { stop: false }), (Running, Compose));
    assert_eq!(step(Running, Tick { stop: true }), (Stopping, Compose));
    assert_eq!(step(Running, Sent), (Running, Sleep));
    assert_eq!(step(Running, WriteFailed), (Terminated, Abort));
    assert_eq!(step(Stopping, Start), (Stopping, Rest));
    assert_eq!(step(Stopping, Tick { stop: false }), (Stopping, Rest));
    assert_eq!(step(Stopping, Sent), (Terminated, Exit));
    assert_eq!(step(Stopping, WriteFailed), (Terminated, Abort));
    for e in [Start, Tick { stop: false }, Tick { stop: true }, Sent, WriteFailed] {
        assert_eq!(step(Terminated, e), (Terminated, Exit));
    }
}

#[test]
fn korg_frame_holds_name_and_fields() {
    let wave = cosine(4096);
    let mut updater = PairedUpdater::new();
    let mut osc = KorgOscSelector::new();
    let mut eff = KorgEffectSelector::new();
    let tables = (eff.eff1, eff.eff2);
    let frame = korg_frame(&mut updater, &mut osc, &mut eff, "2024-05-17", 0, &wave).unwrap();
    assert_eq!(frame.remaining(), 171 - 164);
    let values = KorgProgramSysEx::unpack(&frame.data, 164);
    assert_eq!(&values[0..10], b"2024-05-17");
    // The program's own fields: mode, note mode, two oscillator numbers.
    assert_eq!(&values[10..12], &[1, 0]);
    assert_eq!(values[12] as u16 + 256 * values[13] as u16, osc.val(1));
    assert_eq!(values[15] as u16 + 256 * values[16] as u16, osc.val(2));
    // At time zero every swept field stands at its upper bound.
    assert_eq!(values[19], 17);
    // Oscillator 1 drives the pair, oscillator 2 follows it.
    assert_eq!(values[40 + 25], 99);
    assert_eq!(values[87 + 25], 0);
    assert_eq!(values[40 + 42], 0);
    assert_eq!(values[87 + 42], 0x99);
    // The effect section names the effects that were held before the tick.
    assert_eq!(values[134], 0);
    assert_eq!(values[135] as i8, tables.0.number);
    assert_eq!(values[136] as i8, tables.1.number);
    assert_eq!(values[143], 31);
    assert_eq!(frame.data[0], 0xF0);
    assert_eq!(frame.data[201], 0xF7);
    assert_eq!(updater.get("vol").unwrap().val, 99);
    assert_eq!(updater.get("osc2_vol").unwrap().val, 0);
    assert_eq!(updater.get("detune").unwrap().val, 17);
    assert_eq!(updater.get("osc1_filterQ").unwrap().val, 99);
}

#[test]
fn korg_frame_needs_room_for_the_fields() {
    let wave = cosine(16);
    let mut updater = PairedUpdater::new();
    let mut osc = KorgOscSelector::new();
    let mut eff = KorgEffectSelector::new();
    assert_eq!(program_spec().len() + 2 + 2 * osc_spec().len() + 30, 154);
    assert!(korg_frame(&mut updater, &mut osc, &mut eff, "seventeen letters", 0, &wave).is_some());
    let mut updater = PairedUpdater::new();
    assert!(korg_frame(&mut updater, &mut osc, &mut eff, "eighteen letters !", 0, &wave).is_none());
    assert!(updater.snapshot().is_empty());
    assert!(korg_frame(&mut updater, &mut osc, &mut eff, "", 0, &wave).is_some());
}

#[test]
fn session_rejects_a_long_name() {
    assert!(matches!(KorgSession::new("eighteen letters !"), Err(ConfigurationError::NameTooLong)));
    assert!(KorgSession::new("2024-05-17").is_ok());
}

#[test]
fn session_composes_only_while_running() {
    let wave = cosine(1024);
    let mut s = KorgSession::new("2024-05-17").ok().unwrap();
    assert_eq!(s.current(), LoopState::Idle);
    let t = s.tick(0, &wave, false, false);
    assert_eq!(t.action, LoopAction::Rest);
    assert!(t.frame.is_none());
    assert!(t.snapshot.is_none());
    s.start();
    assert_eq!(s.current(), LoopState::Running);
    let t = s.tick(0, &wave, false, false);
    assert_eq!(t.action, LoopAction::Compose);
    assert!(t.frame.is_some());
    assert_eq!(s.sent(true), LoopAction::Sleep);
    let t = s.tick(100, &wave, false, true);
    assert_eq!(t.action, LoopAction::Compose);
    assert!(t.frame.is_some());
    assert_eq!(s.current(), LoopState::Stopping);
    let t = s.tick(200, &wave, false, false);
    assert!(t.frame.is_none());
    assert_eq!(s.sent(true), LoopAction::Exit);
    assert_eq!(s.current(), LoopState::Terminated);
    let t = s.tick(300, &wave, true, false);
    assert_eq!(t.action, LoopAction::Exit);
    assert!(t.frame.is_none());
    assert!(t.snapshot.is_some());
}

#[test]
fn failed_write_ends_the_session() {
    let wave = cosine(1024);
    let mut s = KorgSession::new("x").ok().unwrap();
    s.start();
    let _ = s.tick(0, &wave, false, false);
    assert_eq!(s.sent(false), LoopAction::Abort);
    assert_eq!(s.current(), LoopState::Terminated);
    s.start();
    assert_eq!(s.current(), LoopState::Terminated);
}

#[test]
fn dump_shows_what_the_frame_was_built_from() {
    let wave = cosine(4096);
    let mut s = KorgSession::new("2024-05-17").ok().unwrap();
    s.start();
    for k in 0..300u64 {
        let t = s.tick(k * 100, &wave, k % 7 == 0, false);
        let frame = t.frame.unwrap();
        let values = KorgProgramSysEx::unpack(&frame.data, 164);
        if k % 7 == 0 {
            let list = t.snapshot.unwrap();
            assert_eq!(value_of(&list, "detune"), values[19] as i8);
            assert_eq!(value_of(&list, "vol"), values[40 + 25] as i8);
            assert_eq!(value_of(&list, "osc2_vol"), values[87 + 25] as i8);
            assert_eq!(value_of(&list, "osc1_filterQ"), values[40 + 43] as i8);
            assert_eq!(value_of(&list, "osc2_filterQ"), values[87 + 43] as i8);
            assert_eq!(value_of(&list, "modIntensity"), values[32] as i8);
            assert_eq!(values[40 + 25] as i32 + values[87 + 25] as i32, 99);
        } else {
            assert!(t.snapshot.is_none());
        }
        assert_eq!(s.sent(true), LoopAction::Sleep);
    }
}

#[test]
fn d110_init_sequence() {
    let frames = d110_init_frames("2024-05-17");
    assert_eq!(frames.len(), 17);
    assert_eq!(&frames[0][5..8], &[0x10, 0x00, 0x01]);
    assert_eq!(&frames[0][30..40], b"2024-05-17");
    for t in 1..=8usize {
        assert_eq!(&frames[t][5..8], &[0x03, 0x00, (0x02 + 0x10 * (t - 1)) as u8]);
        assert_eq!(frames[8 + t][12], 0x30 + t as u8);
    }
    assert_eq!(&frames[9][8..12], b"part");
    assert_eq!(&frames[10][8..12], b"mute");
    for f in &frames {
        assert_eq!(f[0], 0xF0);
        assert_eq!(f[f.len() - 1], 0xF7);
        let sum: u32 = f[5..f.len() - 1].iter().map(|b| *b as u32).sum();
        assert_eq!(sum % 128, 0);
    }
}

#[test]
fn d110_tick_composes_both_tones() {
    let wave = cosine(4096);
    let mut updater = PairedUpdater::new();
    for count in 1..40u64 {
        let frames = update_d110(&mut updater, 1000 * count, &wave);
        assert_eq!(frames.len(), 2);
        for (t, f) in frames.iter().enumerate() {
            assert_eq!(f.len(), 5 + 17 + 4 * 58 + 2);
            assert_eq!(&f[0..5], &[0xF0, 0x41, 0x10, 0x16, 0x12]);
            assert_eq!(f[12], 0x31 + t as u8);
            let sum: u32 = f[5..f.len() - 1].iter().map(|b| *b as u32).sum();
            assert_eq!(sum % 128, 0);
            let fields = &f[22..f.len() - 2];
            for p in 0..4 {
                assert_eq!(fields[58 * p], 36);
                let fine = fields[58 * p + 1];
                assert!(40 <= fine && fine <= 60);
            }
            // Partials 1 and 3 drive the pair, 2 and 4 follow it.
            let vol = fields[41];
            assert_eq!(fields[58 + 41], vol);
            assert_eq!(fields[2 * 58 + 41], 99 - vol);
            assert_eq!(fields[3 * 58 + 41], 99 - vol);
        }
        assert_eq!(updater.get("tone1_partialA_1_pitchFine").unwrap().val as u8, frames[0][23]);
        assert!(updater.get("tone2_partialD_4_vol").is_some());
        assert!(updater.get("tone2_partialA_1_vol").is_none());
    }
}

#[test]
fn tables_match_the_lengths_the_frame_counts() {
    let double = program_spec()
        .iter()
        .filter(|u| matches!(u, Updater::SelectOnZero(_, _, true)))
        .count();
    assert_eq!(double, 2);
    assert!(osc_spec().iter().all(|u| !matches!(u, Updater::SelectOnZero(_, _, _))));
}

#[test]
fn session_time_follows_the_readings_forwards_only() {
    let wave = Waveform::new(vec![65535, 0]).unwrap();
    let mut s = KorgSession::new("x").ok().unwrap();
    s.start();
    // Every swept field stands at its top at time zero.
    let t = s.tick(0, &wave, true, false);
    let first = t.snapshot.unwrap();
    assert_eq!(value_of(&first, "detune"), 17);
    s.sent(true);
    // Half an hour later the oscillators, each on its own frequency, have
    // moved apart: some field has left its top.
    let t = s.tick(1_800_000, &wave, true, false);
    let later = t.snapshot.unwrap();
    assert!(later.iter().any(|(k, v)| *v != value_of(&first, k)));
    s.sent(true);
    // A reading that lies behind the clock evaluates at the clock's time:
    // nothing moves.
    let t = s.tick(5, &wave, true, false);
    let mut again = t.snapshot.unwrap();
    let mut before = later.clone();
    again.sort();
    before.sort();
    assert_eq!(again, before);
}

#[test]
fn starting_again_changes_nothing() {
    let wave = Waveform::new(vec![65535, 0]).unwrap();
    let mut s = KorgSession::new("x").ok().unwrap();
    s.start();
    let t = s.tick(0, &wave, true, false);
    let mut first = t.snapshot.unwrap();
    s.start();
    assert_eq!(s.current(), Running);
    let t = s.tick(0, &wave, true, false);
    let mut second = t.snapshot.unwrap();
    first.sort();
    second.sort();
    assert_eq!(first, second);
}
