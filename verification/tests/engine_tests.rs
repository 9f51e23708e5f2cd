use modulator::d110::D110SysEx;
use modulator::korg::{KorgEffectSelector, KorgOscSelector, KorgProgramSysEx};
use modulator::modulation::{
    byte_from, complement_of, encoded_len, key_of, random_frequency, role_of, signed_from,
    signed_low_from, trailing_digit_of, ConfigurationError, DummySelector, PairRole,
    PairedUpdater, Selector, SweepState, Updater, FREQ_LIMIT_UHZ, FREQ_MIN_UHZ,
};
use modulator::wave::Waveform;

fn cosine(samples: usize) -> Waveform {
    let mut levels = Vec::new();
    for i in 0..samples {
        let angle = 2.0 * std::f64::consts::PI * (i as f64) / (samples as f64);
        let level = 0.5 * (1.0 + angle.cos()) * 65535.0;
        levels.push(level.round() as u16);
    }
    Waveform::new(levels).unwrap()
}

fn payload(sys_ex: &D110SysEx) -> Vec<u8> {
    let frame = sys_ex.to_send();
    frame[5..frame.len() - 2].to_vec()
}

#[test]
fn detune_at_time_zero_is_its_upper_bound() {
    let wave = cosine(4096);
    let mut updater = PairedUpdater::new();
    let v = updater.sweep("detune".to_string(), -17, 17, 0, 0, &wave);
    assert_eq!(v, 17);
    let state = updater.get("detune").unwrap();
    assert_eq!(state.val, 17);
    assert_eq!(state.prev_val, 17);
    assert_eq!(state.freq_uhz, 0);

    let mut sys_ex = D110SysEx::new();
    let mut a = DummySelector::new();
    let mut b = DummySelector::new();
    let mut fresh = PairedUpdater::new();
    fresh.update(
        &mut sys_ex,
        &mut a,
        &mut b,
        &[Updater::Sweep("detune", -17, 17)],
        None,
        0,
        &wave,
    );
    assert_eq!(payload(&sys_ex), vec![17]);
    assert_eq!(fresh.get("detune").unwrap().val, 17);
}

#[test]
fn constant_fields_emit_their_value() {
    let wave = cosine(64);
    let mut updater = PairedUpdater::new();
    let mut sys_ex = D110SysEx::new();
    let mut a = DummySelector::new();
    let mut b = DummySelector::new();
    updater.update(
        &mut sys_ex,
        &mut a,
        &mut b,
        &[Updater::Const("a", 36), Updater::Const("b", -5), Updater::Const("c", 0)],
        Some("osc1"),
        123,
        &wave,
    );
    assert_eq!(payload(&sys_ex), vec![36, 0xFB, 0]);
    assert!(updater.snapshot().is_empty());
}

#[test]
fn paired_constant_is_sent_in_the_inverse_slot_only() {
    let wave = cosine(64);
    let table = [Updater::PairedInverseConst("cdSend", -103)];
    for (prefix, expected) in [
        (Some("osc1"), 0u8),
        (Some("osc2"), 0x99),
        (Some("osc3"), 0),
        (Some("osc4"), 0x99),
        (Some("osc"), 0),
        (Some(""), 0),
        (None, 0),
    ] {
        let mut updater = PairedUpdater::new();
        let mut sys_ex = D110SysEx::new();
        let mut a = DummySelector::new();
        let mut b = DummySelector::new();
        updater.update(&mut sys_ex, &mut a, &mut b, &table, prefix, 0, &wave);
        assert_eq!(payload(&sys_ex), vec![expected]);
    }
}

#[test]
fn sweep_stays_in_range_on_every_tick() {
    let wave = cosine(4096);
    let mut updater = PairedUpdater::new();
    let table = [
        Updater::Sweep("detune", -17, 17),
        Updater::Sweep("modFreq", 20, 99),
        Updater::Sweep("deep", -99, 99),
    ];
    let mut seen_low = false;
    let mut seen_high = false;
    for tick in 0..1500u64 {
        let mut sys_ex = D110SysEx::new();
        let mut a = DummySelector::new();
        let mut b = DummySelector::new();
        updater.update(&mut sys_ex, &mut a, &mut b, &table, Some("osc1"), tick * 100, &wave);
        let out = payload(&sys_ex);
        assert_eq!(out.len(), 3);
        let detune = out[0] as i8;
        let freq = out[1] as i8;
        let deep = out[2] as i8;
        assert!(-17 <= detune && detune <= 17);
        assert!(20 <= freq && freq <= 99);
        assert!(-99 <= deep && deep <= 99);
        seen_low |= detune == -17;
        seen_high |= detune == 17;
        assert_eq!(updater.get("osc1_detune").unwrap().val, detune);
    }
    // 150 s cover more than one cycle of the slowest oscillator.
    assert!(seen_low && seen_high);
}

#[test]
fn frequency_of_a_key_never_changes() {
    let wave = cosine(256);
    let mut updater = PairedUpdater::new();
    let table = [Updater::Sweep("a", 0, 10), Updater::Sweep("b", 0, 10)];
    let mut first: Option<(u32, u32)> = None;
    for tick in 0..50u64 {
        let mut sys_ex = D110SysEx::new();
        let mut a = DummySelector::new();
        let mut b = DummySelector::new();
        updater.update(&mut sys_ex, &mut a, &mut b, &table, None, tick * 100, &wave);
        let fa = updater.get("a").unwrap().freq_uhz;
        let fb = updater.get("b").unwrap().freq_uhz;
        assert!(FREQ_MIN_UHZ <= fa && fa < FREQ_LIMIT_UHZ);
        assert!(FREQ_MIN_UHZ <= fb && fb < FREQ_LIMIT_UHZ);
        match first {
            None => first = Some((fa, fb)),
            Some(f) => assert_eq!(f, (fa, fb)),
        }
    }
}

#[test]
fn previous_value_follows_the_value() {
    let wave = Waveform::new(vec![65535, 0]).unwrap();
    let mut updater = PairedUpdater::new();
    // 500 mHz: half a cycle per second.
    assert_eq!(updater.sweep("k".to_string(), 0, 40, 500_000, 0, &wave), 40);
    assert_eq!(updater.sweep("k".to_string(), 0, 40, 7, 1000, &wave), 0);
    let s = updater.get("k").unwrap();
    assert_eq!((s.val, s.prev_val, s.freq_uhz), (0, 40, 500_000));
    assert!(s.crossed_zero());
    assert_eq!(updater.sweep("k".to_string(), 0, 40, 7, 1100, &wave), 0);
    let s = updater.get("k").unwrap();
    assert_eq!((s.val, s.prev_val, s.freq_uhz), (0, 0, 500_000));
    assert!(!s.crossed_zero());
}

#[test]
fn paired_sweep_halves_are_complements() {
    let wave = cosine(4096);
    let mut updater = PairedUpdater::new();
    let table = [Updater::Const("x", 1), Updater::PairedInverseSweep("vol", 99)];
    for tick in 0..1200u64 {
        let mut sys_ex = D110SysEx::new();
        let mut a = DummySelector::new();
        let mut b = DummySelector::new();
        updater.update(&mut sys_ex, &mut a, &mut b, &table, Some("osc1"), tick * 100, &wave);
        updater.update(&mut sys_ex, &mut a, &mut b, &table, Some("osc2"), tick * 100, &wave);
        let out = payload(&sys_ex);
        assert_eq!(out.len(), 4);
        let normal = out[1] as i8;
        let inverse = out[3] as i8;
        assert!(0 <= normal && normal <= 99);
        assert_eq!(normal as i32 + inverse as i32, 99);
        assert_eq!(updater.get("vol").unwrap().val, normal);
        assert_eq!(updater.get("osc2_vol").unwrap().val, inverse);
        assert!(updater.get("osc1_vol").is_none());
    }
}

#[test]
fn first_paired_tick_starts_at_the_maximum() {
    let wave = cosine(16);
    let mut updater = PairedUpdater::new();
    let table = [Updater::PairedInverseSweep("vol", 99)];
    let mut sys_ex = D110SysEx::new();
    let mut a = DummySelector::new();
    let mut b = DummySelector::new();
    updater.update(&mut sys_ex, &mut a, &mut b, &table, Some("eff1"), 0, &wave);
    updater.update(&mut sys_ex, &mut a, &mut b, &table, Some("eff2"), 0, &wave);
    assert_eq!(payload(&sys_ex), vec![99, 0]);
    let derived = updater.get("eff2_vol").unwrap();
    assert_eq!((derived.val, derived.prev_val, derived.freq_uhz), (0, 0, 0));
}

#[test]
fn selector_is_kept_without_a_zero_crossing() {
    let wave = cosine(16);
    let table = [Updater::SelectOnZero("osc1", "vol", true)];
    let mut updater = PairedUpdater::new();
    let mut osc = KorgOscSelector::new();
    let mut eff = KorgEffectSelector::new();
    let first = osc.val(1);
    let second = osc.val(2);
    let effects = (eff.eff1.number, eff.eff2.number);
    let expected = vec![(first % 256) as u8, (first / 256) as u8];
    let states = [
        None,
        Some(SweepState { val: 3, prev_val: 5, freq_uhz: 1 }),
        Some(SweepState { val: 0, prev_val: 0, freq_uhz: 1 }),
        Some(SweepState { val: 2, prev_val: 0, freq_uhz: 1 }),
        Some(SweepState { val: -1, prev_val: 0, freq_uhz: 1 }),
    ];
    for state in states {
        if let Some(s) = state {
            updater.put("vol".to_string(), s);
        }
        for _ in 0..3 {
            let mut sys_ex = D110SysEx::new();
            updater.update(&mut sys_ex, &mut osc, &mut eff, &table, None, 0, &wave);
            assert_eq!(payload(&sys_ex), expected);
            assert_eq!((osc.val(1), osc.val(2)), (first, second));
            assert_eq!((eff.eff1.number, eff.eff2.number), effects);
        }
    }
}

#[test]
fn selector_is_redrawn_on_a_zero_crossing() {
    let wave = cosine(16);
    let table = [Updater::SelectOnZero("osc1", "vol", true)];
    let mut updater = PairedUpdater::new();
    let mut osc = KorgOscSelector::new();
    let mut eff = KorgEffectSelector::new();
    let second = osc.val(2);
    let second_effect = eff.eff2.number;
    let mut changes = 0;
    for _ in 0..40 {
        let before = osc.val(1);
        updater.put("vol".to_string(), SweepState { val: 0, prev_val: 3, freq_uhz: 1 });
        let mut sys_ex = D110SysEx::new();
        updater.update(&mut sys_ex, &mut osc, &mut eff, &table, None, 0, &wave);
        let now = osc.val(1);
        assert_eq!(payload(&sys_ex), vec![(now % 256) as u8, (now / 256) as u8]);
        if now != before {
            changes += 1;
        }
        // The other slot is never touched.
        assert_eq!(osc.val(2), second);
        assert_eq!(eff.eff2.number, second_effect);
    }
    // Forty draws from 188 oscillators do not all repeat the last one.
    assert!(changes > 0);
}

#[test]
fn second_slot_is_redrawn_for_other_digits() {
    let wave = cosine(16);
    let mut updater = PairedUpdater::new();
    let mut osc = KorgOscSelector::new();
    let mut eff = KorgEffectSelector::new();
    let first = osc.val(1);
    let first_effect = eff.eff1.number;
    let mut changes = 0;
    for _ in 0..40 {
        let before = osc.val(2);
        updater.put("osc2_vol".to_string(), SweepState { val: 0, prev_val: 9, freq_uhz: 0 });
        let mut sys_ex = D110SysEx::new();
        updater.update(
            &mut sys_ex,
            &mut osc,
            &mut eff,
            &[
                Updater::SelectOnZero("osc2", "osc2_vol", false),
                Updater::SelectOnZero("slot1", "missing", false),
            ],
            Some("whatever"),
            0,
            &wave,
        );
        let now = osc.val(2);
        assert_eq!(payload(&sys_ex), vec![(now % 256) as u8, (first % 256) as u8]);
        if now != before {
            changes += 1;
        }
        assert_eq!(osc.val(1), first);
        assert_eq!(eff.eff1.number, first_effect);
    }
    assert!(changes > 0);
}

#[test]
fn selector_value_is_sent_low_byte_first() {
    let wave = cosine(16);
    let mut updater = PairedUpdater::new();
    let mut osc = KorgOscSelector::new();
    let mut eff = KorgEffectSelector::new();
    let mut sys_ex = KorgProgramSysEx::new();
    updater.update(
        &mut sys_ex,
        &mut osc,
        &mut eff,
        &[
            Updater::SelectOnZero("osc1", "vol", true),
            Updater::SelectOnZero("osc2", "vol", true),
            Updater::SelectOnZero("osc1", "vol", false),
        ],
        None,
        0,
        &wave,
    );
    let (a, b) = (osc.val(1), osc.val(2));
    assert_eq!(
        KorgProgramSysEx::unpack(&sys_ex.data, 5),
        vec![(a % 256) as u8, (a / 256) as u8, (b % 256) as u8, (b / 256) as u8, (a % 256) as u8]
    );
}

#[test]
fn check_names_each_fault() {
    let updater = PairedUpdater::new();
    let paired = [Updater::Const("a", 1), Updater::PairedInverseSweep("vol", 99)];
    assert_eq!(updater.check(&paired, None), Err(ConfigurationError::UnpairedField));
    assert_eq!(updater.check(&paired, Some("osc")), Err(ConfigurationError::UnpairedField));
    assert_eq!(updater.check(&paired, Some("osc1")), Ok(()));
    assert_eq!(updater.check(&paired, Some("osc2")), Err(ConfigurationError::InverseBeforeNormal));
    let select = [Updater::SelectOnZero("osc", "vol", true)];
    assert_eq!(updater.check(&select, Some("osc1")), Err(ConfigurationError::UnnumberedSelect));
    assert_eq!(updater.check(&[Updater::SelectOnZero("osc7", "vol", true)], None), Ok(()));
    let both = [Updater::SelectOnZero("", "vol", true), Updater::PairedInverseSweep("vol", 9)];
    assert_eq!(updater.check(&both, Some("osc2")), Err(ConfigurationError::UnnumberedSelect));
    assert_eq!(updater.check(&both, None), Err(ConfigurationError::UnpairedField));
    assert_eq!(updater.check(&[], None), Ok(()));
}

#[test]
fn try_update_changes_nothing_on_a_fault() {
    let wave = cosine(16);
    let mut updater = PairedUpdater::new();
    let mut sys_ex = D110SysEx::new();
    let mut osc = DummySelector::new();
    let mut eff = DummySelector::new();
    let table = [Updater::Sweep("a", 0, 9), Updater::PairedInverseSweep("vol", 99)];
    let r = updater.try_update(&mut sys_ex, &mut osc, &mut eff, &table, Some("u2"), 0, &wave);
    assert_eq!(r, Err(ConfigurationError::InverseBeforeNormal));
    assert!(payload(&sys_ex).is_empty());
    assert!(updater.snapshot().is_empty());
    let r = updater.try_update(&mut sys_ex, &mut osc, &mut eff, &table, Some("u1"), 0, &wave);
    assert_eq!(r, Ok(()));
    let r = updater.try_update(&mut sys_ex, &mut osc, &mut eff, &table, Some("u2"), 0, &wave);
    assert_eq!(r, Ok(()));
    assert_eq!(payload(&sys_ex), vec![9, 99, 9, 0]);
}

#[test]
fn snapshot_lists_every_key_once() {
    let wave = cosine(16);
    let mut updater = PairedUpdater::new();
    updater.sweep("b".to_string(), 0, 50, 1, 0, &wave);
    updater.sweep("a".to_string(), -5, 5, 1, 0, &wave);
    updater.sweep("b".to_string(), 0, 50, 1, 0, &wave);
    updater.derive("c".to_string(), -7);
    let mut list = updater.snapshot();
    list.sort();
    assert_eq!(
        list,
        vec![("a".to_string(), 5), ("b".to_string(), 50), ("c".to_string(), -7)]
    );
}

#[test]
fn derive_keeps_the_frequency_of_a_known_key() {
    let mut updater = PairedUpdater::new();
    updater.put("k".to_string(), SweepState { val: 4, prev_val: 1, freq_uhz: 77 });
    updater.derive("k".to_string(), 9);
    let s = updater.get("k").unwrap();
    assert_eq!((s.val, s.prev_val, s.freq_uhz), (9, 4, 77));
    assert!(updater.get("K").is_none());
    assert!(updater.get("").is_none());
}

#[test]
fn keys_join_prefix_and_name() {
    assert_eq!(key_of(None, "detune"), "detune");
    assert_eq!(key_of(Some("osc1"), "detune"), "osc1_detune");
    assert_eq!(key_of(Some(""), "x"), "_x");
}

#[test]
fn roles_follow_the_trailing_digit() {
    assert_eq!(role_of(Some("osc1")), Some(PairRole::Normal));
    assert_eq!(role_of(Some("osc2")), Some(PairRole::Inverse));
    assert_eq!(role_of(Some("tone1_partialB_3")), Some(PairRole::Normal));
    assert_eq!(role_of(Some("tone1_partialD_4")), Some(PairRole::Inverse));
    assert_eq!(role_of(Some("x0")), Some(PairRole::Inverse));
    assert_eq!(role_of(Some("x9")), Some(PairRole::Normal));
    assert_eq!(role_of(Some("osc")), None);
    assert_eq!(role_of(Some("")), None);
    assert_eq!(role_of(None), None);
    assert_eq!(trailing_digit_of("abc7"), Some(7));
    assert_eq!(trailing_digit_of("7abc"), None);
    assert_eq!(trailing_digit_of("x\u{0661}"), None);
}

#[test]
fn bytes_follow_twos_complement() {
    assert_eq!(byte_from(0), 0);
    assert_eq!(byte_from(127), 127);
    assert_eq!(byte_from(-1), 255);
    assert_eq!(byte_from(-128), 128);
    assert_eq!(signed_from(337), 337);
    assert_eq!(signed_from(0xFFFE), -2);
    assert_eq!(signed_from(0x8000), -32768);
    assert_eq!(signed_low_from(0x0151), 0x51);
    assert_eq!(signed_low_from(0x01FE), -2);
    assert_eq!(complement_of(99, 0), 99);
    assert_eq!(complement_of(99, 99), 0);
    assert_eq!(complement_of(99, 42), 57);
    assert_eq!(complement_of(-10, -4), -6);
    assert_eq!(complement_of(127, -128), -1);
    assert_eq!(complement_of(-128, 127), 1);
}

#[test]
fn encoded_length_counts_double_bytes() {
    assert_eq!(encoded_len(&[]), 0);
    assert_eq!(
        encoded_len(&[
            Updater::Const("a", 1),
            Updater::SelectOnZero("osc1", "vol", true),
            Updater::SelectOnZero("osc1", "vol", false),
            Updater::Sweep("b", 0, 1),
            Updater::PairedInverseSweep("c", 1),
            Updater::PairedInverseConst("d", 1),
        ]),
        7
    );
}

#[test]
fn fresh_frequencies_lie_in_their_band() {
    let mut distinct = std::collections::HashSet::new();
    for _ in 0..200 {
        let f = random_frequency();
        assert!(10_000 <= f && f < 20_000);
        distinct.insert(f);
    }
    assert!(distinct.len() > 1);
}

#[test]
fn sweep_state_constructors() {
    let s = SweepState::from(7, 123);
    assert_eq!((s.val, s.prev_val, s.freq_uhz), (7, 7, 123));
    let t = SweepState::updated_from(&s, -3);
    assert_eq!((t.val, t.prev_val, t.freq_uhz), (-3, 7, 123));
}
