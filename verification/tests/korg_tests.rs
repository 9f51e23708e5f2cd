use modulator::korg::{
    distortion, osc_spec, phaser, program_spec, tremolo, KorgEffectSelector, KorgInitSysEx,
    KorgOscSelector, KorgProgramSysEx, KorgSingleParamSysEx, CHANNEL, ENV_TIME_HIGH, ENV_TIME_LOW,
    PROGRAM_CAPACITY, PROGRAM_FRAME_LEN,
};
use modulator::modulation::{Selector, SysExComposer, Updater};

#[test]
fn fresh_program_frame_has_header_and_terminator() {
    let s = KorgProgramSysEx::new();
    assert_eq!(s.data.len(), 202);
    assert_eq!(PROGRAM_FRAME_LEN, 202);
    assert_eq!(&s.data[0..5], &[0xF0, 0x42, 0x30 | CHANNEL, 0x36, 0x40]);
    assert_eq!(s.data[201], 0xF7);
    assert!(s.data[5..201].iter().all(|b| *b == 0));
    assert_eq!(s.remaining(), 171);
    assert_eq!(PROGRAM_CAPACITY, 171);
}

#[test]
fn eight_values_fill_one_block_and_open_the_next() {
    let mut s = KorgProgramSysEx::new();
    let values: [u8; 8] = [0x12, 0x34, 0x56, 0x78, 0x9A, 0xBC, 0xDE, 0xF0];
    for v in values {
        s.put(v);
    }
    // Top bits of the first seven values: 0, 0, 0, 0, 1, 1, 1.
    assert_eq!(s.data[5], 0b0111_0000);
    assert_eq!(&s.data[6..13], &[0x12, 0x34, 0x56, 0x78, 0x1A, 0x3C, 0x5E]);
    // The eighth value heads the second block.
    assert_eq!(s.data[13], 0b0000_0001);
    assert_eq!(s.data[14], 0x70);
    assert_eq!(s.data[15], 0);
    assert_eq!(s.data[201], 0xF7);
    assert_eq!(s.remaining(), 163);
}

#[test]
fn carry_bits_match_each_high_bit_at_its_position() {
    let values: [u8; 7] = [0x80, 0x01, 0xFF, 0x00, 0x7F, 0x81, 0x40];
    let mut s = KorgProgramSysEx::new();
    let mut expected: u8 = 0;
    for (k, v) in values.iter().enumerate() {
        s.put(*v);
        expected |= (*v >> 7) << k;
        assert_eq!(s.data[5], expected);
    }
    assert_eq!(s.data[5], 0b0010_0101);
}

#[test]
fn signed_values_are_packed_by_their_bit_pattern() {
    let mut s = KorgProgramSysEx::new();
    s.data(-1);
    s.data(-103);
    s.data(17);
    assert_eq!(s.data[5], 0b0000_0011);
    assert_eq!(&s.data[6..9], &[0x7F, 0x19, 17]);
}

#[test]
fn double_byte_is_low_then_high() {
    let mut s = KorgProgramSysEx::new();
    s.data_double_byte(337);
    s.data_double_byte(-2);
    assert_eq!(KorgProgramSysEx::unpack(&s.data, 4), vec![0x51, 0x01, 0xFE, 0xFF]);
    assert_eq!(s.remaining(), 167);
}

#[test]
fn name_appends_each_character() {
    let mut s = KorgProgramSysEx::new();
    s.name("2024-05-17");
    assert_eq!(KorgProgramSysEx::unpack(&s.data, 10), b"2024-05-17".to_vec());
    assert_eq!(s.remaining(), 161);
}

#[test]
fn unpacking_recovers_every_value() {
    let mut s = KorgProgramSysEx::new();
    let mut values = Vec::new();
    for i in 0..171u32 {
        let v = ((i * 37 + 200) % 256) as u8;
        values.push(v);
        s.put(v);
    }
    assert_eq!(s.remaining(), 0);
    assert_eq!(s.data[201], 0xF7);
    assert_eq!(&s.data[0..5], &[0xF0, 0x42, 0x30, 0x36, 0x40]);
    assert_eq!(KorgProgramSysEx::unpack(&s.data, 171), values);
    assert!(s.data[5..201].iter().all(|b| *b < 128));
}

#[test]
fn unpacking_counts_up() {
    for n in [0usize, 1, 6, 7, 8, 13, 14, 15, 100] {
        let mut s = KorgProgramSysEx::new();
        let values: Vec<u8> = (0..n).map(|i| (i as u8).wrapping_mul(3).wrapping_add(125)).collect();
        for v in &values {
            s.put(*v);
        }
        assert_eq!(KorgProgramSysEx::unpack(s.bytes(), n), values);
    }
}

#[test]
fn init_frame_carries_the_mode() {
    assert_eq!(KorgInitSysEx::new(0x02).data, [0xF0, 0x42, 0x30, 0x36, 0x4E, 0x02, 0x00, 0xF7]);
    assert_eq!(KorgInitSysEx::new(0x03).data, [0xF0, 0x42, 0x30, 0x36, 0x4E, 0x03, 0x00, 0xF7]);
}

#[test]
fn single_param_frame_splits_into_seven_bits() {
    assert_eq!(
        KorgSingleParamSysEx::new(0, 1).data,
        [0xF0, 0x42, 0x30, 0x36, 0x41, 0, 0, 1, 0, 0xF7]
    );
    assert_eq!(
        KorgSingleParamSysEx::new(200, 129).data,
        [0xF0, 0x42, 0x30, 0x36, 0x41, 72, 1, 1, 1, 0xF7]
    );
}

#[test]
fn ranges_expand_to_every_oscillator() {
    assert_eq!(KorgOscSelector::expand(&[(0, 3), (61, 0), (5, 6)]), vec![0, 1, 2, 3, 61, 5, 6]);
    assert_eq!(KorgOscSelector::expand(&[]), Vec::<u16>::new());
    assert_eq!(KorgOscSelector::expand(&[(9, 4)]), Vec::<u16>::new());
    assert_eq!(KorgOscSelector::expand(&[(7, 7)]), vec![7]);
    let all = KorgOscSelector::expand(&KorgOscSelector::ranges());
    assert_eq!(all.len(), 188);
    assert_eq!(all[0], 0);
    assert_eq!(all[187], 337);
    assert!(!all.contains(&60));
    assert!(all.contains(&256));
}

#[test]
fn oscillator_selector_draws_from_the_ranges() {
    let all = KorgOscSelector::expand(&KorgOscSelector::ranges());
    for _ in 0..50 {
        let mut s = KorgOscSelector::new();
        assert!(all.contains(&s.val(1)));
        assert!(all.contains(&s.val(2)));
        let second = s.val(2);
        s.next1();
        assert!(all.contains(&s.val(1)));
        assert_eq!(s.val(2), second);
        assert_eq!(s.val(0), second);
        let first = s.val(1);
        s.next2();
        assert!(all.contains(&s.val(2)));
        assert_eq!(s.val(1), first);
    }
}

#[test]
fn effect_selector_draws_available_effects() {
    let numbers = [phaser().number, tremolo().number, distortion().number];
    assert_eq!(numbers, [32, 36, 30]);
    for _ in 0..50 {
        let mut s = KorgEffectSelector::new();
        assert!(numbers.contains(&s.eff1.number));
        assert!(numbers.contains(&s.eff2.number));
        assert_eq!(s.val(1), 0);
        assert_eq!(s.val(2), 0);
        let kept = s.eff2.number;
        s.next1();
        assert_eq!(s.eff2.number, kept);
        assert!(numbers.contains(&s.eff1.number));
        let kept = s.eff1.number;
        s.next2();
        assert_eq!(s.eff1.number, kept);
    }
}

#[test]
fn effects_have_their_mix() {
    assert_eq!(phaser().mix, 50);
    assert_eq!(tremolo().mix, 99);
    assert_eq!(distortion().mix, 50);
    assert!(matches!(phaser().updater[0], Updater::Sweep("phaserDepth", 50, 99)));
    assert!(matches!(tremolo().updater[1], Updater::Sweep("tremoloSpeed", 64, 127)));
    assert!(matches!(distortion().updater[3], Updater::Const("distOut", 50)));
}

#[test]
fn pre_eff_names_both_effects() {
    let s = KorgEffectSelector { eff1: tremolo(), eff2: distortion() };
    let t = s.pre_eff();
    assert!(matches!(t[0], Updater::Const("", 0)));
    assert!(matches!(t[1], Updater::Const("eff1_number", 36)));
    assert!(matches!(t[2], Updater::Const("eff2_number", 30)));
    assert!(matches!(t[3], Updater::Const("eff1_level_A", 99)));
    assert!(matches!(t[4], Updater::Const("eff1_level_B", 99)));
    assert!(matches!(t[5], Updater::Const("eff2_level_C", 50)));
    assert!(matches!(t[6], Updater::Const("eff2_level_D", 50)));
    assert!(matches!(t[7], Updater::Const("pan3", 101)));
    assert!(matches!(t[8], Updater::Const("pan4", 1)));
    assert!(matches!(t[9], Updater::Const("eff_routing", 31)));
}

#[test]
fn program_tables_have_their_shape() {
    let program = program_spec();
    let osc = osc_spec();
    assert_eq!(program.len(), 28);
    assert_eq!(osc.len(), 47);
    assert!(matches!(program[2], Updater::SelectOnZero("osc1", "vol", true)));
    assert!(matches!(program[4], Updater::SelectOnZero("osc2", "osc2_vol", true)));
    assert!(matches!(program[7], Updater::Sweep("detune", -17, 17)));
    assert!(matches!(program[12], Updater::Sweep("env_pitch_decayTime", 1, 10)));
    assert!(matches!(osc[25], Updater::PairedInverseSweep("vol", 99)));
    assert!(matches!(osc[42], Updater::PairedInverseConst("cdSend", -103)));
    assert!(matches!(osc[46], Updater::Const("panCentre", 15)));
    assert_eq!(ENV_TIME_LOW, 1);
    assert_eq!(ENV_TIME_HIGH, 10);
}
