//! Roland D-110 frames: payload bytes in the order appended, closed by a
//! checksum, and the messages that set the device up.

use crate::modulation::{byte_from, double_byte, name_bytes, SysExComposer, Updater};
use crate::utils::today;
use vstd::prelude::*;
use vstd::string::*;

verus! {

/// The sum of the bytes.
pub open spec fn byte_sum(bytes: Seq<u8>) -> int
    decreases bytes.len(),
{
    if bytes.len() == 0 {
        0
    } else {
        byte_sum(bytes.drop_last()) + bytes.last() as int
    }
}

/// The byte that closes a payload: what the sum of the payload lacks to the
/// next multiple of 128, and 128 where it lacks nothing.
pub open spec fn checksum_of(payload: Seq<u8>) -> u8 {
    (128 - byte_sum(payload) % 128) as u8
}

/// The bytes that every frame starts with: start of exclusive, Roland,
/// device, model, command.
pub open spec fn frame_header() -> Seq<u8> {
    seq![0xF0u8, 0x41u8, 0x10u8, 0x16u8, 0x12u8]
}

/// The frame that carries `payload`: header, payload, checksum, end of
/// exclusive.
pub open spec fn d110_frame(payload: Seq<u8>) -> Seq<u8> {
    frame_header() + payload + seq![checksum_of(payload), 0xF7u8]
}

/// Payload and checksum together sum to a multiple of 128, and the frame
/// opens and closes with the bytes that mark a system-exclusive message.
pub proof fn law_frame_checksum(payload: Seq<u8>)
    ensures
        (byte_sum(payload) + checksum_of(payload)) % 128 == 0,
        1 <= checksum_of(payload) <= 128,
        d110_frame(payload).len() == payload.len() + 7,
        d110_frame(payload).first() == 0xF0,
        d110_frame(payload).last() == 0xF7,
        d110_frame(payload).subrange(5, 5 + payload.len() as int) == payload,
        d110_frame(payload)[5 + payload.len() as int] == checksum_of(payload),
{
    lemma_byte_sum_nonnegative(payload);
    assert(d110_frame(payload).subrange(5, 5 + payload.len() as int) =~= payload);
}

/// A sum of bytes is never negative.
pub proof fn lemma_byte_sum_nonnegative(bytes: Seq<u8>)
    ensures
        byte_sum(bytes) >= 0,
    decreases bytes.len(),
{
    if bytes.len() > 0 {
        lemma_byte_sum_nonnegative(bytes.drop_last());
    }
}

/// A D-110 message under construction.
pub struct D110SysEx {
    sum: u32,
    data: Vec<u8>,
}

impl View for D110SysEx {
    type V = Seq<u8>;

    /// The payload so far.
    closed spec fn view(&self) -> Seq<u8> {
        self.data@
    }
}

impl D110SysEx {
    /// A message without payload.
    pub fn new() -> (s: D110SysEx)
        ensures
            s.wf(),
            s@ == Seq::<u8>::empty(),
    {
        D110SysEx { sum: 0, data: Vec::new() }
    }

    /// Appends one byte to the payload.
    pub fn data_u8(&mut self, v: u8)
        requires
            old(self).wf(),
        ensures
            final(self).wf(),
            final(self)@ == old(self)@.push(v),
    {
        proof {
            assert(self.data@.push(v).drop_last() =~= self.data@);
            lemma_byte_sum_nonnegative(self.data@);
        }
        self.data.push(v);
        self.sum = (self.sum + v as u32) % 128;
    }

    /// Appends the bytes to the payload, in order.
    pub fn data_vec_u8(&mut self, values: Vec<u8>)
        requires
            old(self).wf(),
        ensures
            final(self).wf(),
            final(self)@ == old(self)@ + values@,
    {
        let ghost start = self@;
        let mut i: usize = 0;
        while i < values.len()
            invariant
                i <= values@.len(),
                self.wf(),
                self@ == start + values@.take(i as int),
            decreases values@.len() - i,
        {
            self.data_u8(values[i]);
            assert(self@ =~= start + values@.take(i as int + 1));
            i += 1;
        }
        assert(values@.take(values@.len() as int) =~= values@);
    }

    /// Appends the characters of the text to the payload, one byte each.
    pub fn data_str(&mut self, st: &str)
        requires
            old(self).wf(),
        ensures
            final(self).wf(),
            final(self)@ == old(self)@ + name_bytes(st@),
    {
        let len = st.unicode_len();
        let ghost start = self@;
        let mut i: usize = 0;
        while i < len
            invariant
                i <= len,
                len == st@.len(),
                self.wf(),
                self@ == start + name_bytes(st@).take(i as int),
            decreases len - i,
        {
            let c = st.get_char(i);
            self.data_u8(((c as u32) % 256) as u8);
            assert(self@ =~= start + name_bytes(st@).take(i as int + 1));
            i += 1;
        }
        assert(name_bytes(st@).take(len as int) =~= name_bytes(st@));
    }

    /// The byte that closes the payload.
    pub fn checksum(&self) -> (r: u32)
        requires
            self.wf(),
        ensures
            r == checksum_of(self@),
    {
        128 - (self.sum % 128)
    }

    /// The frame to send: header, payload, checksum, end of exclusive.
    pub fn to_send(&self) -> (msg: Vec<u8>)
        requires
            self.wf(),
        ensures
            msg@ == d110_frame(self@),
    {
        let mut msg: Vec<u8> = Vec::new();
        msg.push(0xF0);
        msg.push(0x41);
        msg.push(0x10);
        msg.push(0x16);
        msg.push(0x12);
        let mut i: usize = 0;
        while i < self.data.len()
            invariant
                i <= self.data@.len(),
                msg@ == frame_header() + self.data@.take(i as int),
            decreases self.data@.len() - i,
        {
            msg.push(self.data[i]);
            assert(msg@ =~= frame_header() + self.data@.take(i as int + 1));
            i += 1;
        }
        assert(self.data@.take(self.data@.len() as int) =~= self.data@);
        msg.push(self.checksum() as u8);
        msg.push(0xF7);
        assert(msg@ =~= d110_frame(self@));
        msg
    }
}

impl SysExComposer for D110SysEx {
    /// The running sum matches the payload.
    closed spec fn wf(&self) -> bool {
        self.sum == byte_sum(self.data@) % 128
    }

    open spec fn payload(&self) -> Seq<u8> {
        self@
    }

    /// A payload is held in memory, which bounds its length.
    open spec fn room(&self) -> nat {
        if self@.len() <= usize::MAX {
            (usize::MAX - self@.len()) as nat
        } else {
            0
        }
    }

    fn data(&mut self, d: i8) {
        self.data_u8(byte_from(d));
    }

    fn data_double_byte(&mut self, d: i16) {
        let u: u16 = if d >= 0 {
            d as u16
        } else {
            (d as i32 + 65536) as u16
        };
        let ghost start = self@;
        self.data_u8((u % 256) as u8);
        self.data_u8((u / 256) as u8);
        assert(self@ =~= start + double_byte(d));
    }

    fn name(&mut self, n: &str) {
        self.data_str(n);
    }
}

/// The payload that configures the device: the address of the system area,
/// reverb off, all partials reserved for the first part, the parts' MIDI
/// channels, and the date as the patch name.
pub open spec fn init_payload(date: Seq<char>) -> Seq<u8> {
    seq![
        0x10u8,
        0x00u8,
        0x01u8,
        9u8,
        1u8,
        0u8,
        32u8,
        0u8,
        0u8,
        0u8,
        0u8,
        0u8,
        0u8,
        0u8,
        0u8,
        0u8,
        8u8,
        8u8,
        8u8,
        8u8,
        8u8,
        8u8,
        8u8,
        9u8,
        0u8,
    ] + name_bytes(date)
}

/// The message that configures the device, named by the given date.
pub fn init_d110_dated(date: &str) -> (sys_ex: D110SysEx)
    ensures
        sys_ex.wf(),
        sys_ex@ == init_payload(date@),
{
    let mut sys_ex = D110SysEx::new();
    sys_ex.data_vec_u8(vec![0x10, 0x00, 0x01]);
    sys_ex.data_u8(9);
    sys_ex.data_u8(1);
    sys_ex.data_u8(0);
    sys_ex.data_vec_u8(vec![32, 0, 0, 0, 0, 0, 0, 0, 0]);
    let channels: Vec<u8> = vec![1, 9, 9, 9, 9, 9, 9, 9, 10];
    let mut i: usize = 0;
    let ghost start = sys_ex@;
    while i < channels.len()
        invariant
            i <= 9,
            channels@ == seq![1u8, 9u8, 9u8, 9u8, 9u8, 9u8, 9u8, 9u8, 10u8],
            sys_ex.wf(),
            sys_ex@ == start + seq![0u8, 8u8, 8u8, 8u8, 8u8, 8u8, 8u8, 8u8, 9u8].take(i as int),
        decreases 9 - i,
    {
        sys_ex.data_u8(channels[i] - 1);
        assert(sys_ex@ =~= start + seq![0u8, 8u8, 8u8, 8u8, 8u8, 8u8, 8u8, 8u8, 9u8].take(
            i as int + 1,
        ));
        i += 1;
    }
    sys_ex.data_u8(0);
    let ghost head = sys_ex@;
    sys_ex.data_str(date);
    assert(head =~= init_payload(Seq::empty()));
    assert(sys_ex@ =~= init_payload(date@));
    sys_ex
}

/// The message that configures the device, named by today's date.
pub fn init_d110() -> (sys_ex: D110SysEx)
    ensures
        sys_ex.wf(),
        exists|date: Seq<char>| sys_ex@ == #[trigger] init_payload(date),
{
    let date = today();
    init_d110_dated(date.as_str())
}

/// The payload that sets up timbre `number`: its address, then key shift,
/// fine tune, bender range, note priority, output assignment, reverb, level,
/// pan and key range. Only the first timbre sounds and takes keys.
pub open spec fn timbre_payload(number: u8) -> Seq<u8> {
    seq![
        0x03u8,
        0x00u8,
        (0x02 + 0x10 * (number - 1)) as u8,
        24u8,
        50u8,
        12u8,
        2u8,
        7u8,
        0u8,
        if number == 1 {
            98u8
        } else {
            0u8
        },
        7u8,
        if number == 1 {
            0u8
        } else {
            0x7Fu8
        },
        0x7Fu8,
        0u8,
        0u8,
        0u8,
        0u8,
    ]
}

/// The message that sets up timbre `number`, counted from 1.
pub fn init_timbre(number: u8) -> (sys_ex: D110SysEx)
    requires
        1 <= number <= 16,
    ensures
        sys_ex.wf(),
        sys_ex@ == timbre_payload(number),
{
    let mut sys_ex = D110SysEx::new();
    sys_ex.data_vec_u8(vec![0x03, 0x00, 0x02 + (0x10 * (number - 1))]);
    sys_ex.data_u8(24);
    sys_ex.data_u8(50);
    sys_ex.data_u8(12);
    sys_ex.data_u8(2);
    sys_ex.data_u8(7);
    sys_ex.data_u8(0);
    sys_ex.data_u8(if number == 1 {
        98
    } else {
        0
    });
    sys_ex.data_u8(7);
    sys_ex.data_u8(if number == 1 {
        0
    } else {
        0x7F
    });
    sys_ex.data_u8(0x7F);
    sys_ex.data_u8(0);
    sys_ex.data_u8(0);
    sys_ex.data_u8(0);
    sys_ex.data_u8(0);
    assert(sys_ex@ =~= timbre_payload(number));
    sys_ex
}

/// Where the tone of part `part_number` lies in the device's memory.
pub open spec fn part_address(part_number: u8) -> int {
    if part_number == 1 {
        0x040000
    } else {
        0x040176 + 502 * (part_number - 2)
    }
}

/// Computes `part_address`.
pub fn address_of(part_number: u8) -> (a: u32)
    requires
        part_number >= 1,
    ensures
        a == part_address(part_number),
{
    if part_number == 1 {
        0x040000
    } else {
        0x040176 + (502 * (part_number as u32 - 2))
    }
}

/// The payload that sets up the tone of part `number`: its address high byte
/// first, its name, and the structure of its partials. The first part is
/// named "part" and has all four partials on; every other is named "mute" and
/// has none.
pub open spec fn part_payload(number: u8) -> Seq<u8> {
    seq![
        (part_address(number) / 65536) as u8,
        ((part_address(number) / 256) % 256) as u8,
        (part_address(number) % 256) as u8,
    ] + name_bytes(
        if number == 1 {
            "part"@
        } else {
            "mute"@
        },
    ) + seq![
        (number + 0x30) as u8,
        0x20u8,
        0x20u8,
        0x20u8,
        0x20u8,
        0x20u8,
        0u8,
        0u8,
        if number == 1 {
            0xFu8
        } else {
            0u8
        },
        0u8,
    ]
}

/// The message that sets up the tone of part `number`, counted from 1.
pub fn set_up_part(number: u8) -> (sys_ex: D110SysEx)
    requires
        1 <= number <= 207,
    ensures
        sys_ex.wf(),
        sys_ex@ == part_payload(number),
{
    let mut sys_ex = D110SysEx::new();
    let a = address_of(number);
    let a_vec = vec![(a / 65536) as u8, ((a / 256) % 256) as u8, (a % 256) as u8];
    sys_ex.data_vec_u8(a_vec);
    sys_ex.data_str(if number == 1 {
        "part"
    } else {
        "mute"
    });
    sys_ex.data_u8(number + 0x30);
    sys_ex.data_vec_u8(vec![0x20, 0x20, 0x20, 0x20, 0x20]);
    sys_ex.data_u8(0);
    sys_ex.data_u8(0);
    sys_ex.data_u8(if number == 1 {
        0xF
    } else {
        0
    });
    sys_ex.data_u8(0);
    assert(sys_ex@ =~= part_payload(number));
    sys_ex
}

/// The fields of one partial of a tone.
#[verifier::opaque]
pub open spec fn partial_table() -> Seq<Updater> {
    seq![
        Updater::Const("pitchCoarse", 36),
        Updater::Sweep("pitchFine", 40, 60),
        Updater::Const("keyFollowPitch", 11),
        Updater::Const("allowPitchBend", 1),
        Updater::Const("waveSource", 0),
        Updater::Const("pcmSource", 77),
        Updater::Sweep("wavePulseWidth", 20, 80),
        Updater::Const("wavePulseWidthVelocityMod", 11),
        Updater::Sweep("pitchEnvelopeDepth", 1, 5),
        Updater::Const("pitchEnvelopeVelocityMod", 2),
        Updater::Const("pitchEnvelopeTimeKeyFollow", 0),
        Updater::Sweep("env_pitch_attackTime", 1, 5),
        Updater::Sweep("env_pitch_decayTime", 1, 6),
        Updater::Sweep("env_pitch_slopeTime", 5, 99),
        Updater::Sweep("env_pitch_releaseTime", 5, 99),
        Updater::Sweep("env_pitch_startLevel", 10, 90),
        Updater::Sweep("env_pitch_attackLevel", 40, 60),
        Updater::Sweep("env_pitch_breakPoint", 43, 57),
        Updater::Sweep("env_pitch_sustainLevel", 45, 55),
        Updater::Sweep("env_pitch_releaseLevel", 45, 50),
        Updater::Sweep("pitchLfoRate", 10, 70),
        Updater::Sweep("pitchLfoDepth", 30, 70),
        Updater::Const("pitchLfoModSens", 50),
        Updater::Sweep("envFilterFreq", 10, 95),
        Updater::Sweep("envFilterReso", 5, 30),
        Updater::Const("envFilterFreqKeyFollow", 11),
        Updater::Const("envFilterBiasPoint", 0),
        Updater::Const("envFilterBiasLevel", 7),
        Updater::Sweep("envFilterDepth", 30, 100),
        Updater::Const("envFilterVelocityMod", 50),
        Updater::Const("envFilterDepthKeyFollow", 0),
        Updater::Const("envFilterTimeKeyFollow", 0),
        Updater::Sweep("env_filter_attackTime", 1, 10),
        Updater::Sweep("env_filter_decayTime", 4, 10),
        Updater::Sweep("env_filter_attack2Time", 1, 10),
        Updater::Sweep("env_filter_slopeTime", 5, 99),
        Updater::Sweep("env_filter_releaseTime", 5, 99),
        Updater::Sweep("env_filter_attackLevel", 10, 90),
        Updater::Sweep("env_filter_breakPoint", 43, 57),
        Updater::Sweep("env_filter_attack2Level", 10, 90),
        Updater::Sweep("env_filter_sustainLevel", 45, 55),
        Updater::PairedInverseSweep("vol", 99),
        Updater::Const("amplEnvVelocityMod", 50),
        Updater::Const("amplEnvLowerBiasPoint", 0),
        Updater::Const("amplEnvLowerBiasLevel", 12),
        Updater::Const("amplEnvUpperBiasPoint", 0),
        Updater::Const("amplEnvUpperBiasLevel", 12),
        Updater::Const("amplEnvTimeKeyFollow", 0),
        Updater::Const("amplEnvAttackTimeKeyFollow", 0),
        Updater::Sweep("env_amplitude_attackTime", 1, 10),
        Updater::Sweep("env_amplitude_decayTime", 4, 10),
        Updater::Sweep("env_amplitude_attack2Time", 1, 10),
        Updater::Sweep("env_amplitude_slopeTime", 5, 99),
        Updater::Const("env_amplitude_releaseTime", 0),
        Updater::Sweep("env_amplitude_attackLevel", 70, 99),
        Updater::Sweep("env_amplitude_breakPoint", 43, 57),
        Updater::Sweep("env_amplitude_attack2Level", 10, 90),
        Updater::Sweep("env_amplitude_sustainLevel", 45, 55),
    ]
}

/// The fields of one partial of a tone.
pub fn partial_spec() -> (r: Vec<Updater>)
    ensures
        r@ == partial_table(),
{
    let r = vec![
        Updater::Const("pitchCoarse", 36),
        Updater::Sweep("pitchFine", 40, 60),
        Updater::Const("keyFollowPitch", 11),
        Updater::Const("allowPitchBend", 1),
        Updater::Const("waveSource", 0),
        Updater::Const("pcmSource", 77),
        Updater::Sweep("wavePulseWidth", 20, 80),
        Updater::Const("wavePulseWidthVelocityMod", 11),
        Updater::Sweep("pitchEnvelopeDepth", 1, 5),
        Updater::Const("pitchEnvelopeVelocityMod", 2),
        Updater::Const("pitchEnvelopeTimeKeyFollow", 0),
        Updater::Sweep("env_pitch_attackTime", 1, 5),
        Updater::Sweep("env_pitch_decayTime", 1, 6),
        Updater::Sweep("env_pitch_slopeTime", 5, 99),
        Updater::Sweep("env_pitch_releaseTime", 5, 99),
        Updater::Sweep("env_pitch_startLevel", 10, 90),
        Updater::Sweep("env_pitch_attackLevel", 40, 60),
        Updater::Sweep("env_pitch_breakPoint", 43, 57),
        Updater::Sweep("env_pitch_sustainLevel", 45, 55),
        Updater::Sweep("env_pitch_releaseLevel", 45, 50),
        Updater::Sweep("pitchLfoRate", 10, 70),
        Updater::Sweep("pitchLfoDepth", 30, 70),
        Updater::Const("pitchLfoModSens", 50),
        Updater::Sweep("envFilterFreq", 10, 95),
        Updater::Sweep("envFilterReso", 5, 30),
        Updater::Const("envFilterFreqKeyFollow", 11),
        Updater::Const("envFilterBiasPoint", 0),
        Updater::Const("envFilterBiasLevel", 7),
        Updater::Sweep("envFilterDepth", 30, 100),
        Updater::Const("envFilterVelocityMod", 50),
        Updater::Const("envFilterDepthKeyFollow", 0),
        Updater::Const("envFilterTimeKeyFollow", 0),
        Updater::Sweep("env_filter_attackTime", 1, 10),
        Updater::Sweep("env_filter_decayTime", 4, 10),
        Updater::Sweep("env_filter_attack2Time", 1, 10),
        Updater::Sweep("env_filter_slopeTime", 5, 99),
        Updater::Sweep("env_filter_releaseTime", 5, 99),
        Updater::Sweep("env_filter_attackLevel", 10, 90),
        Updater::Sweep("env_filter_breakPoint", 43, 57),
        Updater::Sweep("env_filter_attack2Level", 10, 90),
        Updater::Sweep("env_filter_sustainLevel", 45, 55),
        Updater::PairedInverseSweep("vol", 99),
        Updater::Const("amplEnvVelocityMod", 50),
        Updater::Const("amplEnvLowerBiasPoint", 0),
        Updater::Const("amplEnvLowerBiasLevel", 12),
        Updater::Const("amplEnvUpperBiasPoint", 0),
        Updater::Const("amplEnvUpperBiasLevel", 12),
        Updater::Const("amplEnvTimeKeyFollow", 0),
        Updater::Const("amplEnvAttackTimeKeyFollow", 0),
        Updater::Sweep("env_amplitude_attackTime", 1, 10),
        Updater::Sweep("env_amplitude_decayTime", 4, 10),
        Updater::Sweep("env_amplitude_attack2Time", 1, 10),
        Updater::Sweep("env_amplitude_slopeTime", 5, 99),
        Updater::Const("env_amplitude_releaseTime", 0),
        Updater::Sweep("env_amplitude_attackLevel", 70, 99),
        Updater::Sweep("env_amplitude_breakPoint", 43, 57),
        Updater::Sweep("env_amplitude_attack2Level", 10, 90),
        Updater::Sweep("env_amplitude_sustainLevel", 45, 55),
    ];
    proof {
        reveal(partial_table);
    }
    assert(r@ =~= partial_table());
    r
}

} // verus!
