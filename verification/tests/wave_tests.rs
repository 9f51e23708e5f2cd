use modulator::wave::{next_val_from, SweepClock, Waveform, CYCLE, LEVEL_MAX};

fn cosine(samples: usize) -> Waveform {
    let mut levels = Vec::new();
    for i in 0..samples {
        let angle = 2.0 * std::f64::consts::PI * (i as f64) / (samples as f64);
        let level = 0.5 * (1.0 + angle.cos()) * 65535.0;
        levels.push(level.round() as u16);
    }
    Waveform::new(levels).unwrap()
}

#[test]
fn level_scale_is_sixteen_bits() {
    assert_eq!(LEVEL_MAX, 65535);
    assert_eq!(CYCLE, 1_000_000_000);
}

#[test]
fn top_level_gives_upper_bound() {
    assert_eq!(next_val_from(-17, 17, 65535), 17);
    assert_eq!(next_val_from(0, 99, 65535), 99);
    assert_eq!(next_val_from(-128, 127, 65535), 127);
}

#[test]
fn bottom_level_gives_lower_bound() {
    assert_eq!(next_val_from(-17, 17, 0), -17);
    assert_eq!(next_val_from(0, 99, 0), 0);
    assert_eq!(next_val_from(-128, 127, 0), -128);
}

#[test]
fn middle_levels_round_to_nearest() {
    // 99 * 32768 / 65535 = 49.5007...
    assert_eq!(next_val_from(0, 99, 32768), 50);
    // 99 * 32767 / 65535 = 49.4992...
    assert_eq!(next_val_from(0, 99, 32767), 49);
    // -17 + 34 * 16384 / 65535 = -8.4998...
    assert_eq!(next_val_from(-17, 17, 16384), -8);
    assert_eq!(next_val_from(1, 4, 40000), 3);
}

#[test]
fn reversed_bounds_swing_downwards() {
    assert_eq!(next_val_from(10, 0, 0), 10);
    assert_eq!(next_val_from(10, 0, 65535), 0);
    assert_eq!(next_val_from(10, 0, 32768), 5);
}

#[test]
fn equal_bounds_give_the_bound() {
    for level in [0u16, 1, 1000, 65535] {
        assert_eq!(next_val_from(5, 5, level), 5);
    }
}

#[test]
fn swept_value_stays_within_bounds_at_every_level() {
    let mut level: u32 = 0;
    while level <= 65535 {
        let v = next_val_from(-17, 17, level as u16);
        assert!(-17 <= v && v <= 17);
        let w = next_val_from(-128, 127, level as u16);
        let _ = w;
        level += 257;
    }
}

#[test]
fn swept_value_rises_with_level() {
    let mut last = next_val_from(20, 99, 0);
    let mut level: u32 = 0;
    while level <= 65535 {
        let v = next_val_from(20, 99, level as u16);
        assert!(v >= last);
        last = v;
        level += 255;
    }
    assert_eq!(last, 99);
}

#[test]
fn upper_bound_is_reached_near_the_top_as_well() {
    // Rounding takes the last half step up to the bound.
    assert_eq!(next_val_from(0, 1, 49152), 1);
    assert_eq!(next_val_from(0, 1, 32767), 0);
}

#[test]
fn waveform_needs_a_sample() {
    assert!(Waveform::new(Vec::new()).is_none());
    assert!(Waveform::new(vec![0]).is_some());
}

#[test]
fn level_at_start_is_first_sample() {
    let wave = Waveform::new(vec![65535, 100, 0, 100]).unwrap();
    assert_eq!(wave.level_at(0, 0), 65535);
    assert_eq!(wave.level_at(15_000, 0), 65535);
    assert_eq!(wave.level_at(0, 123_456), 65535);
}

#[test]
fn level_follows_the_cycle() {
    let wave = Waveform::new(vec![65535, 100, 0, 200]).unwrap();
    // 10 mHz is one cycle in 100 s.
    assert_eq!(wave.level_at(10_000, 24_999), 65535);
    assert_eq!(wave.level_at(10_000, 25_000), 100);
    assert_eq!(wave.level_at(10_000, 50_000), 0);
    assert_eq!(wave.level_at(10_000, 75_000), 200);
    assert_eq!(wave.level_at(10_000, 99_999), 200);
    assert_eq!(wave.level_at(10_000, 100_000), 65535);
    assert_eq!(wave.level_at(10_000, 125_000), 100);
}

#[test]
fn level_survives_large_times() {
    let wave = Waveform::new(vec![1, 2, 3, 4, 5, 6, 7, 8, 9, 10]).unwrap();
    let level = wave.level_at(u32::MAX, u64::MAX);
    assert!(1 <= level && level <= 10);
    // (2^32 - 1) * (2^64 - 1) mod 10^9 = 539431425: sample 5 of 10.
    assert_eq!(level, 6);
}

#[test]
fn cosine_wave_peaks_at_start_and_dips_at_half() {
    let wave = cosine(4096);
    assert_eq!(wave.level_at(12_345, 0), 65535);
    // 20 mHz: half a cycle after 25 s.
    assert_eq!(wave.level_at(20_000, 25_000), 0);
    let quarter = wave.level_at(20_000, 12_500);
    assert!(32700 <= quarter && quarter <= 32800);
}

#[test]
fn clock_never_runs_backwards() {
    let mut clock = SweepClock::new();
    assert_eq!(clock.elapsed(), 0);
    assert_eq!(clock.advance(100), 100);
    assert_eq!(clock.advance(250), 250);
    assert_eq!(clock.advance(200), 250);
    assert_eq!(clock.elapsed(), 250);
    assert_eq!(clock.advance(250), 250);
    assert_eq!(clock.advance(u64::MAX), u64::MAX);
    assert_eq!(clock.advance(0), u64::MAX);
}

#[test]
fn clock_turns_time_into_phase() {
    let mut clock = SweepClock::new();
    assert_eq!(clock.phase(15_000), 0);
    clock.advance(25_000);
    // 10 mHz for 25 s: a quarter of a cycle.
    assert_eq!(clock.phase(10_000), 250_000_000);
    assert_eq!(clock.phase(20_000), 500_000_000);
    assert_eq!(clock.phase(40_000), 0);
    assert_eq!(clock.phase(0), 0);
    clock.advance(u64::MAX);
    assert_eq!(clock.phase(u32::MAX), 539_431_425);
}
