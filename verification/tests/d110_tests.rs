use modulator::d110::{
    address_of, init_d110, init_d110_dated, init_timbre, partial_spec, set_up_part, D110SysEx,
};
use modulator::modulation::{SysExComposer, Updater};
use modulator::utils::today;

fn check(frame: &[u8]) {
    assert_eq!(frame[0], 0xF0);
    assert_eq!(&frame[0..5], &[0xF0, 0x41, 0x10, 0x16, 0x12]);
    assert_eq!(frame[frame.len() - 1], 0xF7);
    let sum: u32 = frame[5..frame.len() - 1].iter().map(|b| *b as u32).sum();
    assert_eq!(sum % 128, 0);
}

#[test]
fn empty_payload_frame() {
    let s = D110SysEx::new();
    assert_eq!(s.checksum(), 128);
    assert_eq!(s.to_send(), vec![0xF0, 0x41, 0x10, 0x16, 0x12, 128, 0xF7]);
}

#[test]
fn checksum_completes_the_sum_to_a_multiple_of_128() {
    let mut s = D110SysEx::new();
    s.data_u8(0x03);
    s.data_u8(0x00);
    s.data_u8(0x02);
    s.data_u8(24);
    assert_eq!(s.checksum(), 128 - 29);
    assert_eq!(s.to_send(), vec![0xF0, 0x41, 0x10, 0x16, 0x12, 3, 0, 2, 24, 99, 0xF7]);
    check(&s.to_send());
}

#[test]
fn checksum_is_128_where_the_sum_is_a_multiple() {
    let mut s = D110SysEx::new();
    s.data_vec_u8(vec![100, 28]);
    assert_eq!(s.checksum(), 128);
    s.data_u8(255);
    s.data_u8(1);
    assert_eq!(s.checksum(), 128);
    s.data_u8(1);
    assert_eq!(s.checksum(), 127);
    check(&s.to_send());
}

#[test]
fn checksum_holds_for_long_payloads() {
    let mut s = D110SysEx::new();
    let mut sum: u64 = 0;
    for i in 0..5000u32 {
        let v = ((i * 97 + 13) % 256) as u8;
        s.data_u8(v);
        sum += v as u64;
    }
    assert_eq!(s.checksum() as u64, 128 - sum % 128);
    let frame = s.to_send();
    assert_eq!(frame.len(), 5007);
    check(&frame);
}

#[test]
fn composer_appends_bytes_in_order() {
    let mut s = D110SysEx::new();
    s.data(-1);
    s.data(5);
    s.data_double_byte(0x1234);
    s.data_double_byte(-2);
    s.name("ab");
    s.data_str("é");
    let frame = s.to_send();
    assert_eq!(
        &frame[5..frame.len() - 2],
        &[0xFF, 5, 0x34, 0x12, 0xFE, 0xFF, b'a', b'b', 0xE9]
    );
    check(&frame);
}

#[test]
fn init_message_layout() {
    let frame = init_d110_dated("2024-05-17").to_send();
    assert_eq!(
        &frame[5..30],
        &[
            0x10, 0x00, 0x01, 9, 1, 0, 32, 0, 0, 0, 0, 0, 0, 0, 0, 0, 8, 8, 8, 8, 8, 8, 8, 9, 0
        ]
    );
    assert_eq!(&frame[30..40], b"2024-05-17");
    assert_eq!(frame.len(), 42);
    check(&frame);
}

#[test]
fn init_message_is_named_by_today() {
    let date = today();
    let frame = init_d110().to_send();
    assert_eq!(&frame[5..8], &[0x10, 0x00, 0x01]);
    assert!(frame.len() >= 32);
    check(&frame);
    // Unless midnight fell between the two calls, the name is today's date.
    if today() == date {
        assert_eq!(&frame[30..frame.len() - 2], date.as_bytes());
    }
    assert_eq!(date.len(), 10);
    assert_eq!(date.as_bytes()[4], b'-');
    assert_eq!(date.as_bytes()[7], b'-');
}

#[test]
fn timbre_messages() {
    let first = init_timbre(1).to_send();
    assert_eq!(
        &first[5..22],
        &[0x03, 0x00, 0x02, 24, 50, 12, 2, 7, 0, 98, 7, 0, 0x7F, 0, 0, 0, 0]
    );
    assert_eq!(first.len(), 24);
    check(&first);
    let third = init_timbre(3).to_send();
    assert_eq!(
        &third[5..22],
        &[0x03, 0x00, 0x22, 24, 50, 12, 2, 7, 0, 0, 7, 0x7F, 0x7F, 0, 0, 0, 0]
    );
    check(&third);
    let last = init_timbre(16).to_send();
    assert_eq!(last[7], 0xF2);
    check(&last);
}

#[test]
fn part_addresses() {
    assert_eq!(address_of(1), 0x040000);
    assert_eq!(address_of(2), 0x040176);
    assert_eq!(address_of(3), 0x040176 + 502);
    assert_eq!(address_of(255), 0x040176 + 502 * 253);
}

#[test]
fn part_messages() {
    let first = set_up_part(1).to_send();
    assert_eq!(
        &first[5..22],
        &[0x04, 0x00, 0x00, b'p', b'a', b'r', b't', 0x31, 0x20, 0x20, 0x20, 0x20, 0x20, 0, 0, 0xF, 0]
    );
    assert_eq!(first.len(), 24);
    check(&first);
    let second = set_up_part(2).to_send();
    assert_eq!(
        &second[5..22],
        &[0x04, 0x01, 0x76, b'm', b'u', b't', b'e', 0x32, 0x20, 0x20, 0x20, 0x20, 0x20, 0, 0, 0, 0]
    );
    check(&second);
    let third = set_up_part(3).to_send();
    assert_eq!(&third[5..8], &[0x04, 0x03, 0x6C]);
    check(&third);
}

#[test]
fn partial_table_shape() {
    let t = partial_spec();
    assert_eq!(t.len(), 58);
    assert!(matches!(t[0], Updater::Const("pitchCoarse", 36)));
    assert!(matches!(t[1], Updater::Sweep("pitchFine", 40, 60)));
    assert!(matches!(t[41], Updater::PairedInverseSweep("vol", 99)));
    assert!(matches!(t[57], Updater::Sweep("env_amplitude_sustainLevel", 45, 55)));
}
