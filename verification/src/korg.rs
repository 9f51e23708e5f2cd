//! Korg 05R/W frames: the program dump with its seven-bit packing, the two
//! short messages, and the field tables of a program.

use crate::modulation::{byte_from, double_byte, name_bytes, Selector, SysExComposer, Updater};
use crate::rng::choose_one;
use vstd::prelude::*;
use vstd::string::*;

verus! {

/// The MIDI channel that every frame addresses.
pub const CHANNEL: u8 = 0;

/// Bytes in a program frame: header, payload area and terminator.
pub const PROGRAM_FRAME_LEN: usize = 202;

/// Values that fit in the payload area of a program frame.
pub const PROGRAM_CAPACITY: usize = 171;

/// The top bit of the value at `i`, as 0 or 1; 0 where there is no value.
pub open spec fn high_bit(values: Seq<u8>, i: int) -> u8 {
    if 0 <= i < values.len() {
        values[i] >> 7
    } else {
        0
    }
}

/// The low seven bits of the value at `i`; 0 where there is no value.
pub open spec fn low_bits(values: Seq<u8>, i: int) -> u8 {
    if 0 <= i < values.len() {
        values[i] & 0x7f
    } else {
        0
    }
}

/// The byte that heads a block of seven values: bit `k` is the top bit of the
/// block's value `k`.
pub open spec fn carry_byte(values: Seq<u8>, block: int) -> u8 {
    high_bit(values, 7 * block) | high_bit(values, 7 * block + 1) << 1 | high_bit(
        values,
        7 * block + 2,
    ) << 2 | high_bit(values, 7 * block + 3) << 3 | high_bit(values, 7 * block + 4) << 4
        | high_bit(values, 7 * block + 5) << 5 | high_bit(values, 7 * block + 6) << 6
}

/// Byte `i` of the program frame that holds `values`: five header bytes, then
/// blocks of a carry byte and seven low-bit bytes, zero where no value stands,
/// and the terminator.
pub open spec fn program_frame_byte(values: Seq<u8>, i: int) -> u8 {
    if i == 0 {
        0xF0
    } else if i == 1 {
        0x42
    } else if i == 2 {
        0x30
    } else if i == 3 {
        0x36
    } else if i == 4 {
        0x40
    } else if i == 201 {
        0xF7
    } else if (i - 5) % 8 == 0 {
        carry_byte(values, (i - 5) / 8)
    } else {
        low_bits(values, 7 * ((i - 5) / 8) + (i - 5) % 8 - 1)
    }
}

/// The program frame that holds `values`.
pub open spec fn program_frame(values: Seq<u8>) -> Seq<u8> {
    Seq::new(202, |i: int| program_frame_byte(values, i))
}

/// Value `i` read back from a frame: its low bits from its own byte, its top
/// bit from bit `i % 7` of its block's carry byte.
pub open spec fn unpacked_byte(frame: Seq<u8>, i: int) -> u8 {
    frame[5 + 8 * (i / 7) + i % 7 + 1] | ((frame[5 + 8 * (i / 7)] >> ((i % 7) as u8)) & 1) << 7
}

/// The first `n` values read back from a frame.
pub open spec fn program_unpack(frame: Seq<u8>, n: int) -> Seq<u8> {
    Seq::new(n as nat, |i: int| unpacked_byte(frame, i))
}

proof fn lemma_carry_set(h0: u8, h1: u8, h2: u8, h3: u8, h4: u8, h5: u8, h6: u8, b: u8)
    by (bit_vector)
    ensures
        (0u8 | h1 << 1 | h2 << 2 | h3 << 3 | h4 << 4 | h5 << 5 | h6 << 6) | ((b & 0x80) >> 7usize)
            == ((b >> 7) | h1 << 1 | h2 << 2 | h3 << 3 | h4 << 4 | h5 << 5 | h6 << 6),
        (h0 | 0u8 << 1 | h2 << 2 | h3 << 3 | h4 << 4 | h5 << 5 | h6 << 6) | ((b & 0x80) >> 6usize)
            == (h0 | (b >> 7) << 1 | h2 << 2 | h3 << 3 | h4 << 4 | h5 << 5 | h6 << 6),
        (h0 | h1 << 1 | 0u8 << 2 | h3 << 3 | h4 << 4 | h5 << 5 | h6 << 6) | ((b & 0x80) >> 5usize)
            == (h0 | h1 << 1 | (b >> 7) << 2 | h3 << 3 | h4 << 4 | h5 << 5 | h6 << 6),
        (h0 | h1 << 1 | h2 << 2 | 0u8 << 3 | h4 << 4 | h5 << 5 | h6 << 6) | ((b & 0x80) >> 4usize)
            == (h0 | h1 << 1 | h2 << 2 | (b >> 7) << 3 | h4 << 4 | h5 << 5 | h6 << 6),
        (h0 | h1 << 1 | h2 << 2 | h3 << 3 | 0u8 << 4 | h5 << 5 | h6 << 6) | ((b & 0x80) >> 3usize)
            == (h0 | h1 << 1 | h2 << 2 | h3 << 3 | (b >> 7) << 4 | h5 << 5 | h6 << 6),
        (h0 | h1 << 1 | h2 << 2 | h3 << 3 | h4 << 4 | 0u8 << 5 | h6 << 6) | ((b & 0x80) >> 2usize)
            == (h0 | h1 << 1 | h2 << 2 | h3 << 3 | h4 << 4 | (b >> 7) << 5 | h6 << 6),
        (h0 | h1 << 1 | h2 << 2 | h3 << 3 | h4 << 4 | h5 << 5 | 0u8 << 6) | ((b & 0x80) >> 1usize)
            == (h0 | h1 << 1 | h2 << 2 | h3 << 3 | h4 << 4 | h5 << 5 | (b >> 7) << 6),
{
}

proof fn lemma_carry_get(h0: u8, h1: u8, h2: u8, h3: u8, h4: u8, h5: u8, h6: u8)
    by (bit_vector)
    requires
        h0 <= 1,
        h1 <= 1,
        h2 <= 1,
        h3 <= 1,
        h4 <= 1,
        h5 <= 1,
        h6 <= 1,
    ensures
        ((h0 | h1 << 1 | h2 << 2 | h3 << 3 | h4 << 4 | h5 << 5 | h6 << 6) >> 0u8) & 1 == h0,
        ((h0 | h1 << 1 | h2 << 2 | h3 << 3 | h4 << 4 | h5 << 5 | h6 << 6) >> 1u8) & 1 == h1,
        ((h0 | h1 << 1 | h2 << 2 | h3 << 3 | h4 << 4 | h5 << 5 | h6 << 6) >> 2u8) & 1 == h2,
        ((h0 | h1 << 1 | h2 << 2 | h3 << 3 | h4 << 4 | h5 << 5 | h6 << 6) >> 3u8) & 1 == h3,
        ((h0 | h1 << 1 | h2 << 2 | h3 << 3 | h4 << 4 | h5 << 5 | h6 << 6) >> 4u8) & 1 == h4,
        ((h0 | h1 << 1 | h2 << 2 | h3 << 3 | h4 << 4 | h5 << 5 | h6 << 6) >> 5u8) & 1 == h5,
        ((h0 | h1 << 1 | h2 << 2 | h3 << 3 | h4 << 4 | h5 << 5 | h6 << 6) >> 6u8) & 1 == h6,
{
}

proof fn lemma_byte_parts(v: u8)
    by (bit_vector)
    ensures
        v >> 7 <= 1,
        (v & 0x7f) | (v >> 7) << 7 == v,
        v & 0x7f < 128,
{
}

proof fn lemma_carry_none()
    by (bit_vector)
    ensures
        (0u8 | 0u8 << 1 | 0u8 << 2 | 0u8 << 3 | 0u8 << 4 | 0u8 << 5 | 0u8 << 6) == 0u8,
        0x30u8 | 0u8 == 0x30u8,
{
}

proof fn lemma_slot(i: int)
    requires
        0 <= i < PROGRAM_CAPACITY,
    ensures
        0 <= i / 7 <= 24,
        0 <= i % 7 <= 6,
        i == 7 * (i / 7) + i % 7,
        (8 * (i / 7)) % 8 == 0,
        (8 * (i / 7)) / 8 == i / 7,
        (8 * (i / 7) + i % 7 + 1) % 8 == i % 7 + 1,
        (8 * (i / 7) + i % 7 + 1) / 8 == i / 7,
        5 + 8 * (i / 7) + i % 7 + 1 < 201,
{
}

proof fn lemma_frame_slots(values: Seq<u8>, i: int)
    requires
        0 <= i < PROGRAM_CAPACITY,
    ensures
        program_frame(values)[5 + 8 * (i / 7)] == carry_byte(values, i / 7),
        program_frame(values)[5 + 8 * (i / 7) + i % 7 + 1] == low_bits(values, i),
{
    lemma_slot(i);
    let c = 5 + 8 * (i / 7);
    let s = c + i % 7 + 1;
    assert(program_frame(values)[c] == program_frame_byte(values, c));
    assert(program_frame(values)[s] == program_frame_byte(values, s));
    assert((c - 5) % 8 == 0);
    assert((c - 5) / 8 == i / 7);
    assert((s - 5) % 8 == i % 7 + 1);
    assert((s - 5) / 8 == i / 7);
}

proof fn lemma_carry_bit(values: Seq<u8>, block: int, k: int)
    requires
        0 <= k < 7,
    ensures
        (carry_byte(values, block) >> (k as u8)) & 1 == high_bit(values, 7 * block + k),
{
    let h0 = high_bit(values, 7 * block);
    let h1 = high_bit(values, 7 * block + 1);
    let h2 = high_bit(values, 7 * block + 2);
    let h3 = high_bit(values, 7 * block + 3);
    let h4 = high_bit(values, 7 * block + 4);
    let h5 = high_bit(values, 7 * block + 5);
    let h6 = high_bit(values, 7 * block + 6);
    lemma_high_bit_small(values, 7 * block);
    lemma_high_bit_small(values, 7 * block + 1);
    lemma_high_bit_small(values, 7 * block + 2);
    lemma_high_bit_small(values, 7 * block + 3);
    lemma_high_bit_small(values, 7 * block + 4);
    lemma_high_bit_small(values, 7 * block + 5);
    lemma_high_bit_small(values, 7 * block + 6);
    lemma_carry_get(h0, h1, h2, h3, h4, h5, h6);
    assert(carry_byte(values, block) == (h0 | h1 << 1 | h2 << 2 | h3 << 3 | h4 << 4 | h5 << 5 | h6
        << 6));
    if k == 0 {
        assert(k as u8 == 0u8);
    } else if k == 1 {
        assert(k as u8 == 1u8);
    } else if k == 2 {
        assert(k as u8 == 2u8);
    } else if k == 3 {
        assert(k as u8 == 3u8);
    } else if k == 4 {
        assert(k as u8 == 4u8);
    } else if k == 5 {
        assert(k as u8 == 5u8);
    } else {
        assert(k as u8 == 6u8);
    }
}

/// Reading a frame back gives the values it was packed from, top bits
/// included.
pub proof fn law_program_roundtrip(values: Seq<u8>)
    requires
        values.len() <= PROGRAM_CAPACITY,
    ensures
        program_unpack(program_frame(values), values.len() as int) == values,
{
    let frame = program_frame(values);
    assert forall|i: int| 0 <= i < values.len() implies unpacked_byte(frame, i) == values[i] by {
        lemma_slot(i);
        lemma_frame_slots(values, i);
        lemma_carry_bit(values, i / 7, i % 7);
        lemma_byte_parts(values[i]);
    }
    assert(program_unpack(frame, values.len() as int) =~= values);
}

proof fn lemma_high_bit_small(values: Seq<u8>, i: int)
    ensures
        high_bit(values, i) <= 1,
{
    if 0 <= i < values.len() {
        lemma_byte_parts(values[i]);
    }
}


proof fn lemma_push_bits(values: Seq<u8>, b: u8, i: int)
    ensures
        i != values.len() ==> high_bit(values.push(b), i) == high_bit(values, i),
        i != values.len() ==> low_bits(values.push(b), i) == low_bits(values, i),
        i >= values.len() ==> high_bit(values, i) == 0,
        high_bit(values.push(b), values.len() as int) == b >> 7,
        low_bits(values.push(b), values.len() as int) == b & 0x7f,
{
}

proof fn lemma_push_other_carry(values: Seq<u8>, b: u8, block: int)
    requires
        block != values.len() / 7,
    ensures
        carry_byte(values.push(b), block) == carry_byte(values, block),
{
    let n = values.len() as int;
    lemma_push_bits(values, b, 7 * block);
    lemma_push_bits(values, b, 7 * block + 1);
    lemma_push_bits(values, b, 7 * block + 2);
    lemma_push_bits(values, b, 7 * block + 3);
    lemma_push_bits(values, b, 7 * block + 4);
    lemma_push_bits(values, b, 7 * block + 5);
    lemma_push_bits(values, b, 7 * block + 6);
}

proof fn lemma_push_own_carry(values: Seq<u8>, b: u8)
    ensures
        carry_byte(values.push(b), values.len() as int / 7) == carry_byte(
            values,
            values.len() as int / 7,
        ) | ((b & 0x80) >> ((7 - values.len() % 7) as usize)),
{
    let n = values.len() as int;
    let block = n / 7;
    let k = n % 7;
    lemma_push_bits(values, b, 7 * block);
    lemma_push_bits(values, b, 7 * block + 1);
    lemma_push_bits(values, b, 7 * block + 2);
    lemma_push_bits(values, b, 7 * block + 3);
    lemma_push_bits(values, b, 7 * block + 4);
    lemma_push_bits(values, b, 7 * block + 5);
    lemma_push_bits(values, b, 7 * block + 6);
    let h0 = high_bit(values, 7 * block);
    let h1 = high_bit(values, 7 * block + 1);
    let h2 = high_bit(values, 7 * block + 2);
    let h3 = high_bit(values, 7 * block + 3);
    let h4 = high_bit(values, 7 * block + 4);
    let h5 = high_bit(values, 7 * block + 5);
    let h6 = high_bit(values, 7 * block + 6);
    lemma_carry_set(h0, h1, h2, h3, h4, h5, h6, b);
    if k == 0 {
        assert((7 - k) as usize == 7usize);
    } else if k == 1 {
        assert((7 - k) as usize == 6usize);
    } else if k == 2 {
        assert((7 - k) as usize == 5usize);
    } else if k == 3 {
        assert((7 - k) as usize == 4usize);
    } else if k == 4 {
        assert((7 - k) as usize == 3usize);
    } else if k == 5 {
        assert((7 - k) as usize == 2usize);
    } else {
        assert((7 - k) as usize == 1usize);
    }
}

proof fn lemma_push_frame_byte(values: Seq<u8>, b: u8, i: int)
    requires
        values.len() < PROGRAM_CAPACITY,
        0 <= i < PROGRAM_FRAME_LEN,
    ensures
        program_frame_byte(values.push(b), i) == (if i == 5 + 8 * (values.len() / 7) + values.len()
            % 7 + 1 {
            b & 0x7f
        } else if i == 5 + 8 * (values.len() / 7) {
            carry_byte(values, values.len() as int / 7) | ((b & 0x80) >> ((7 - values.len()
                % 7) as usize))
        } else {
            program_frame_byte(values, i)
        }),
{
    let n = values.len() as int;
    lemma_slot(n);
    if 5 <= i < 201 {
        let off = i - 5;
        let block = off / 8;
        let r = off % 8;
        if r == 0 {
            if block == n / 7 {
                lemma_push_own_carry(values, b);
            } else {
                lemma_push_other_carry(values, b, block);
            }
        } else {
            lemma_push_bits(values, b, 7 * block + r - 1);
        }
    }
}

/// A program dump under construction: the frame, and where the next value
/// goes.
pub struct KorgProgramSysEx {
    pos: usize,
    /// The frame as it stands.
    pub data: [u8; 202],
    values: Ghost<Seq<u8>>,
}

impl View for KorgProgramSysEx {
    type V = Seq<u8>;

    /// The values appended so far.
    closed spec fn view(&self) -> Seq<u8> {
        self.values@
    }
}

impl KorgProgramSysEx {
    /// The write cursor stands behind the last value, one step further for
    /// every carry byte passed.
    pub closed spec fn cursor_ok(&self) -> bool {
        self.pos == 1 + self.values@.len() + self.values@.len() / 7
    }

    /// The bytes of the frame as it stands.
    pub closed spec fn frame(&self) -> Seq<u8> {
        self.data@
    }

    /// The frame as it stands.
    pub fn bytes(&self) -> (r: &[u8; 202])
        ensures
            r@ == self.frame(),
    {
        &self.data
    }

    /// An empty program frame: header, zeroed payload area, terminator.
    pub fn new() -> (s: KorgProgramSysEx)
        ensures
            s.wf(),
            s@ == Seq::<u8>::empty(),
    {
        let mut data: [u8; 202] = [0; 202];
        data[0] = 0xF0;
        data[1] = 0x42;
        data[2] = 0x30 | CHANNEL;
        data[3] = 0x36;
        data[4] = 0x40;
        data[201] = 0xF7;
        let s = KorgProgramSysEx { pos: 1, data, values: Ghost(Seq::empty()) };
        proof {
            lemma_carry_none();
            assert(0x30u8 | CHANNEL == 0x30u8) by (bit_vector);
            assert(s.data@ =~= program_frame(s@));
        }
        s
    }

    /// How many more values the frame can take.
    pub fn remaining(&self) -> (r: usize)
        requires
            self.wf(),
        ensures
            r == self.room(),
    {
        proof {
            lemma_slot_count(self.values@.len() as int);
        }
        let n = self.pos - 1 - self.pos / 8;
        171 - n
    }

    /// Appends one byte: its low seven bits go to the next value slot, its
    /// top bit into the carry byte that heads the slot's block.
    pub fn put(&mut self, b: u8)
        requires
            old(self).wf(),
            old(self)@.len() < PROGRAM_CAPACITY,
        ensures
            final(self).wf(),
            final(self)@ == old(self)@.push(b),
    {
        let ghost values = self.values@;
        let ghost before = self.data@;
        proof {
            lemma_slot(values.len() as int);
            lemma_slot_count(values.len() as int);
        }
        let shift: usize = 7 - (self.pos - 1) % 8;
        let block_idx: usize = 8 * (self.pos / 8);
        let carry: u8 = (b & 0x80) >> shift;
        self.data[self.pos + 5] = b & 0x7F;
        let headed: u8 = self.data[block_idx + 5] | carry;
        self.data[block_idx + 5] = headed;
        self.pos = self.pos + if shift == 1 {
            2
        } else {
            1
        };
        self.values = Ghost(values.push(b));
        proof {
            assert forall|i: int| 0 <= i < 202 implies self.data@[i] == program_frame_byte(
                values.push(b),
                i,
            ) by {
                lemma_push_frame_byte(values, b, i);
                assert(before[i] == program_frame_byte(values, i));
            }
            assert(self.data@ =~= program_frame(self@));
            lemma_slot_count(values.len() as int + 1);
        }
    }

    /// The first `n` values read back from a frame.
    pub fn unpack(frame: &[u8; 202], n: usize) -> (r: Vec<u8>)
        requires
            n <= PROGRAM_CAPACITY,
        ensures
            r@ == program_unpack(frame@, n as int),
    {
        let mut r: Vec<u8> = Vec::new();
        let mut i: usize = 0;
        while i < n
            invariant
                i <= n,
                n <= PROGRAM_CAPACITY,
                r@.len() == i,
                forall|j: int| 0 <= j < i ==> r@[j] == unpacked_byte(frame@, j),
            decreases n - i,
        {
            proof {
                lemma_slot(i as int);
            }
            let head: usize = 5 + 8 * (i / 7);
            let k: u8 = (i % 7) as u8;
            let low: u8 = frame[head + i % 7 + 1];
            let top: u8 = (frame[head] >> k) & 1;
            r.push(low | top << 7);
            i += 1;
        }
        assert(r@ =~= program_unpack(frame@, n as int));
        r
    }
}

proof fn lemma_slot_count(n: int)
    requires
        0 <= n <= PROGRAM_CAPACITY,
    ensures
        (1 + n + n / 7) / 8 == n / 7,
        (n + n / 7) % 8 == n % 7,
        1 + n + n / 7 - 1 - (1 + n + n / 7) / 8 == n,
        1 + (n + 1) + (n + 1) / 7 == 1 + n + n / 7 + (if n % 7 == 6 {
            2int
        } else {
            1int
        }),
{
}

impl SysExComposer for KorgProgramSysEx {
    /// The frame holds exactly the values appended, packed.
    open spec fn wf(&self) -> bool {
        &&& self.cursor_ok()
        &&& self@.len() <= PROGRAM_CAPACITY
        &&& self.frame() == program_frame(self@)
    }

    open spec fn payload(&self) -> Seq<u8> {
        self@
    }

    open spec fn room(&self) -> nat {
        (PROGRAM_CAPACITY - self@.len()) as nat
    }

    fn data(&mut self, d: i8) {
        self.put(byte_from(d));
    }

    fn data_double_byte(&mut self, d: i16) {
        let u: u16 = if d >= 0 {
            d as u16
        } else {
            (d as i32 + 65536) as u16
        };
        let ghost start = self@;
        self.put((u % 256) as u8);
        self.put((u / 256) as u8);
        assert(self@ =~= start + double_byte(d));
    }

    fn name(&mut self, n: &str) {
        let len = n.unicode_len();
        let ghost start = self@;
        let mut i: usize = 0;
        while i < len
            invariant
                i <= len,
                len == n@.len(),
                self.wf(),
                start.len() + len <= PROGRAM_CAPACITY,
                self@ == start + name_bytes(n@).take(i as int),
            decreases len - i,
        {
            let c = n.get_char(i);
            self.put(((c as u32) % 256) as u8);
            assert(self@ =~= start + name_bytes(n@).take(i as int + 1));
            i += 1;
        }
        assert(name_bytes(n@).take(len as int) =~= name_bytes(n@));
    }
}


/// The message that switches the device's mode.
pub struct KorgInitSysEx {
    /// The whole frame.
    pub data: [u8; 8],
}

impl KorgInitSysEx {
    /// The mode-change frame for `mode`.
    pub fn new(mode: u8) -> (s: KorgInitSysEx)
        ensures
            s.data@ == seq![0xF0u8, 0x42u8, 0x30u8, 0x36u8, 0x4Eu8, mode, 0x00u8, 0xF7u8],
    {
        assert(0x30u8 | CHANNEL == 0x30u8) by (bit_vector);
        let s = KorgInitSysEx {
            data: [0xF0, 0x42, 0x30 | CHANNEL, 0x36, 0x4E, mode, 0x00, 0xF7],
        };
        assert(s.data@ =~= seq![0xF0u8, 0x42u8, 0x30u8, 0x36u8, 0x4Eu8, mode, 0x00u8, 0xF7u8]);
        s
    }
}

/// The message that sets one parameter of the program being edited.
pub struct KorgSingleParamSysEx {
    /// The whole frame.
    pub data: [u8; 10],
}

impl KorgSingleParamSysEx {
    /// The parameter-change frame that sets parameter `p` to `v`: both are
    /// sent as two seven-bit bytes, low bits first.
    pub fn new(p: u8, v: u8) -> (s: KorgSingleParamSysEx)
        ensures
            s.data@ == seq![
                0xF0u8,
                0x42u8,
                0x30u8,
                0x36u8,
                0x41u8,
                (p % 128) as u8,
                (p / 128) as u8,
                (v % 128) as u8,
                (v / 128) as u8,
                0xF7u8,
            ],
    {
        assert(0x30u8 | CHANNEL == 0x30u8) by (bit_vector);
        assert(p & 0x7F == p % 128 && (p >> 7) & 0x7F == p / 128) by (bit_vector);
        assert(v & 0x7F == v % 128 && (v >> 7) & 0x7F == v / 128) by (bit_vector);
        let s = KorgSingleParamSysEx {
            data: [
                0xF0,
                0x42,
                0x30 | CHANNEL,
                0x36,
                0x41,
                p & 0x7F,
                (p >> 7) & 0x7F,
                v & 0x7F,
                (v >> 7) & 0x7F,
                0xF7,
            ],
        };
        assert(s.data@ =~= seq![
            0xF0u8,
            0x42u8,
            0x30u8,
            0x36u8,
            0x41u8,
            (p % 128) as u8,
            (p / 128) as u8,
            (v % 128) as u8,
            (v / 128) as u8,
            0xF7u8,
        ]);
        s
    }
}

/// Lowest time of an envelope segment that the tables sweep.
pub const ENV_TIME_LOW: i8 = 1;

/// Highest time of an envelope segment that the tables sweep.
pub const ENV_TIME_HIGH: i8 = 10;

/// The numbers that a range of oscillators stands for: the first number
/// alone where the second is zero, else every number from the first to the
/// second.
pub open spec fn range_numbers(range: (u16, u16)) -> Seq<u16> {
    if range.1 == 0 {
        seq![range.0]
    } else if range.0 <= range.1 {
        Seq::new((range.1 - range.0 + 1) as nat, |i: int| (range.0 + i) as u16)
    } else {
        Seq::empty()
    }
}

/// The numbers that a list of ranges stands for, in order.
pub open spec fn expanded(ranges: Seq<(u16, u16)>) -> Seq<u16>
    decreases ranges.len(),
{
    if ranges.len() == 0 {
        Seq::empty()
    } else {
        expanded(ranges.drop_last()) + range_numbers(ranges.last())
    }
}

/// The oscillators of the device that the selector draws from.
pub open spec fn oscillator_ranges() -> Seq<(u16, u16)> {
    seq![
        (0u16, 10u16),
        (11u16, 42u16),
        (43u16, 59u16),
        (61u16, 0u16),
        (63u16, 0u16),
        (70u16, 98u16),
        (99u16, 105u16),
        (106u16, 115u16),
        (129u16, 0u16),
        (132u16, 143u16),
        (145u16, 153u16),
        (155u16, 0u16),
        (159u16, 0u16),
        (161u16, 0u16),
        (167u16, 170u16),
        (171u16, 0u16),
        (172u16, 173u16),
        (175u16, 184u16),
        (206u16, 207u16),
        (209u16, 210u16),
        (221u16, 226u16),
        (252u16, 256u16),
        (260u16, 0u16),
        (268u16, 0u16),
        (316u16, 333u16),
        (335u16, 337u16),
    ]
}

/// The oscillator numbers that the selector draws from.
pub open spec fn oscillators() -> Seq<u16> {
    expanded(oscillator_ranges())
}

/// Holds one oscillator number for each of the two oscillators of a program.
pub struct KorgOscSelector {
    osc1: u16,
    osc2: u16,
}

impl KorgOscSelector {
    /// The ranges of oscillators that the selector draws from.
    pub fn ranges() -> (r: Vec<(u16, u16)>)
        ensures
            r@ == oscillator_ranges(),
    {
        let r = vec![
            (0u16, 10u16),
            (11u16, 42u16),
            (43u16, 59u16),
            (61u16, 0u16),
            (63u16, 0u16),
            (70u16, 98u16),
            (99u16, 105u16),
            (106u16, 115u16),
            (129u16, 0u16),
            (132u16, 143u16),
            (145u16, 153u16),
            (155u16, 0u16),
            (159u16, 0u16),
            (161u16, 0u16),
            (167u16, 170u16),
            (171u16, 0u16),
            (172u16, 173u16),
            (175u16, 184u16),
            (206u16, 207u16),
            (209u16, 210u16),
            (221u16, 226u16),
            (252u16, 256u16),
            (260u16, 0u16),
            (268u16, 0u16),
            (316u16, 333u16),
            (335u16, 337u16),
        ];
        assert(r@ =~= oscillator_ranges());
        r
    }

    /// Writes out every number that the ranges stand for.
    pub fn expand(a: &[(u16, u16)]) -> (ret: Vec<u16>)
        ensures
            ret@ == expanded(a@),
    {
        let mut ret: Vec<u16> = Vec::new();
        let mut i: usize = 0;
        assert(a@.take(0) =~= Seq::<(u16, u16)>::empty());
        while i < a.len()
            invariant
                i <= a@.len(),
                ret@ == expanded(a@.take(i as int)),
            decreases a@.len() - i,
        {
            let r = a[i];
            let ghost done = ret@;
            proof {
                assert(a@.take(i as int + 1).drop_last() =~= a@.take(i as int));
                assert(a@.take(i as int + 1).last() == r);
            }
            if r.1 == 0 {
                ret.push(r.0);
                assert(ret@ =~= done + range_numbers(r));
            } else if r.0 <= r.1 {
                let mut osc: u16 = r.0;
                ret.push(osc);
                while osc < r.1
                    invariant
                        r.0 <= osc <= r.1,
                        ret@.len() == done.len() + (osc - r.0) + 1,
                        forall|j: int| 0 <= j < done.len() ==> ret@[j] == done[j],
                        forall|j: int|
                            done.len() <= j < ret@.len() ==> ret@[j] == (r.0 + (j
                                - done.len())) as u16,
                    decreases r.1 - osc,
                {
                    osc += 1;
                    ret.push(osc);
                }
                assert(ret@ =~= done + range_numbers(r));
            } else {
                assert(ret@ =~= done + range_numbers(r));
            }
            i += 1;
        }
        assert(a@.take(a@.len() as int) =~= a@);
        ret
    }

    fn random_osc() -> (r: u16)
        ensures
            oscillators().contains(r),
    {
        let ranges = Self::ranges();
        let all = Self::expand(ranges.as_slice());
        proof {
            let rs = oscillator_ranges();
            assert(rs.last() == (335u16, 337u16));
            assert(range_numbers(rs.last()).len() == 3);
            assert(expanded(rs).len() >= 3);
        }
        choose_one(all.as_slice())
    }

    /// A selector with both oscillators drawn at random.
    pub fn new() -> (s: KorgOscSelector)
        ensures
            s.wf(),
    {
        KorgOscSelector { osc1: Self::random_osc(), osc2: Self::random_osc() }
    }

    /// The oscillator number of the first oscillator.
    pub closed spec fn first(&self) -> u16 {
        self.osc1
    }

    /// The oscillator number of the second oscillator.
    pub closed spec fn second(&self) -> u16 {
        self.osc2
    }
}

impl Selector for KorgOscSelector {
    /// Both numbers are oscillators of the device.
    open spec fn wf(&self) -> bool {
        oscillators().contains(self.first()) && oscillators().contains(self.second())
    }

    open spec fn slot(&self, first: bool) -> int {
        if first {
            self.first() as int
        } else {
            self.second() as int
        }
    }

    open spec fn spec_val(&self, idx: u8) -> u16 {
        if idx == 1 {
            self.first()
        } else {
            self.second()
        }
    }

    fn next1(&mut self) {
        self.osc1 = Self::random_osc();
    }

    fn next2(&mut self) {
        self.osc2 = Self::random_osc();
    }

    fn val(&self, at: u8) -> (r: u16) {
        if at == 1 {
            self.osc1
        } else {
            self.osc2
        }
    }
}


/// An effect of the device: its number, how much of it is mixed in, and the
/// table of its ten parameters.
#[derive(Clone, Copy, Debug)]
pub struct Effect {
    /// The device's number for the effect.
    pub number: i8,
    /// The level at which the effect is mixed in.
    pub mix: i8,
    /// The table of the effect's parameters.
    pub updater: [Updater; 10],
}

/// The parameters of the phaser.
pub open spec fn phaser_table() -> Seq<Updater> {
    seq![
        Updater::Sweep("phaserDepth", 50, 99),
        Updater::Sweep("phaserSpeed", 20, 99),
        Updater::Const("phaserWaveform", 0),
        Updater::Sweep("phaserFeedback", -99i8, 99),
        Updater::Sweep("phaserManual", 5, 65),
        Updater::Const("", 0),
        Updater::Const("", 0),
        Updater::Const("", 0),
        Updater::Const("eff_modSource", 4),
        Updater::Const("eff_modAmount", 15),
    ]
}

/// The parameters of the tremolo.
pub open spec fn tremolo_table() -> Seq<Updater> {
    seq![
        Updater::Sweep("tremoloDepth", 50, 99),
        Updater::Sweep("tremoloSpeed", 64, 127),
        Updater::Const("tremoloWaveform", 0),
        Updater::Sweep("tremoloWaveShape", -99i8, 99),
        Updater::Const("", 0),
        Updater::Const("", 0),
        Updater::Const("", 0),
        Updater::Const("", 0),
        Updater::Const("eff_modSource", 0),
        Updater::Const("eff_modAmount", 0),
    ]
}

/// The parameters of the distortion.
pub open spec fn distortion_table() -> Seq<Updater> {
    seq![
        Updater::Sweep("distDrive", 1, 88),
        Updater::Sweep("distHotSpot", 2, 60),
        Updater::Sweep("distResonance", 5, 77),
        Updater::Const("distOut", 50),
        Updater::Const("", 0),
        Updater::Const("", 0),
        Updater::Const("", 0),
        Updater::Const("", 0),
        Updater::Const("eff_modSource", 4),
        Updater::Const("eff_modAmount", 15),
    ]
}

/// `e` is the phaser, the tremolo or the distortion.
pub open spec fn is_available(e: Effect) -> bool {
    ||| e.number == 32 && e.mix == 50 && e.updater@ == phaser_table()
    ||| e.number == 36 && e.mix == 99 && e.updater@ == tremolo_table()
    ||| e.number == 30 && e.mix == 50 && e.updater@ == distortion_table()
}

/// The phaser.
pub fn phaser() -> (e: Effect)
    ensures
        e.number == 32,
        e.mix == 50,
        e.updater@ == phaser_table(),
{
    let e = Effect {
        number: 32,
        mix: 50,
        updater: [
            Updater::Sweep("phaserDepth", 50, 99),
            Updater::Sweep("phaserSpeed", 20, 99),
            Updater::Const("phaserWaveform", 0),
            Updater::Sweep("phaserFeedback", -99, 99),
            Updater::Sweep("phaserManual", 5, 65),
            Updater::Const("", 0),
            Updater::Const("", 0),
            Updater::Const("", 0),
            Updater::Const("eff_modSource", 4),
            Updater::Const("eff_modAmount", 15),
        ],
    };
    assert(e.updater@ =~= phaser_table());
    e
}

/// The tremolo.
pub fn tremolo() -> (e: Effect)
    ensures
        e.number == 36,
        e.mix == 99,
        e.updater@ == tremolo_table(),
{
    let e = Effect {
        number: 36,
        mix: 99,
        updater: [
            Updater::Sweep("tremoloDepth", 50, 99),
            Updater::Sweep("tremoloSpeed", 64, 127),
            Updater::Const("tremoloWaveform", 0),
            Updater::Sweep("tremoloWaveShape", -99, 99),
            Updater::Const("", 0),
            Updater::Const("", 0),
            Updater::Const("", 0),
            Updater::Const("", 0),
            Updater::Const("eff_modSource", 0),
            Updater::Const("eff_modAmount", 0),
        ],
    };
    assert(e.updater@ =~= tremolo_table());
    e
}

/// The distortion.
pub fn distortion() -> (e: Effect)
    ensures
        e.number == 30,
        e.mix == 50,
        e.updater@ == distortion_table(),
{
    let e = Effect {
        number: 30,
        mix: 50,
        updater: [
            Updater::Sweep("distDrive", 1, 88),
            Updater::Sweep("distHotSpot", 2, 60),
            Updater::Sweep("distResonance", 5, 77),
            Updater::Const("distOut", 50),
            Updater::Const("", 0),
            Updater::Const("", 0),
            Updater::Const("", 0),
            Updater::Const("", 0),
            Updater::Const("eff_modSource", 4),
            Updater::Const("eff_modAmount", 15),
        ],
    };
    assert(e.updater@ =~= distortion_table());
    e
}

/// The table that heads the effect section of a program: which two effects
/// run, at which levels, and how they are routed.
pub open spec fn pre_eff_table(eff1: Effect, eff2: Effect) -> Seq<Updater> {
    seq![
        Updater::Const("", 0),
        Updater::Const("eff1_number", eff1.number),
        Updater::Const("eff2_number", eff2.number),
        Updater::Const("eff1_level_A", eff1.mix),
        Updater::Const("eff1_level_B", eff1.mix),
        Updater::Const("eff2_level_C", eff2.mix),
        Updater::Const("eff2_level_D", eff2.mix),
        Updater::Const("pan3", 101),
        Updater::Const("pan4", 1),
        Updater::Const("eff_routing", 31),
    ]
}

/// Holds one effect for each of the two effect units of a program.
pub struct KorgEffectSelector {
    /// The effect of the first unit.
    pub eff1: Effect,
    /// The effect of the second unit.
    pub eff2: Effect,
}

impl KorgEffectSelector {
    fn random_effect() -> (e: Effect)
        ensures
            is_available(e),
    {
        let all: [Effect; 3] = [phaser(), tremolo(), distortion()];
        let e = choose_one(all.as_slice());
        assert(exists|i: int| 0 <= i < 3 && all@[i] == e);
        e
    }

    /// A selector with both effects drawn at random.
    pub fn new() -> (s: KorgEffectSelector)
        ensures
            s.wf(),
    {
        KorgEffectSelector { eff1: Self::random_effect(), eff2: Self::random_effect() }
    }

    /// The table that heads the effect section, for the two effects held.
    pub fn pre_eff(&self) -> (r: [Updater; 10])
        ensures
            r@ == pre_eff_table(self.eff1, self.eff2),
    {
        let r = [
            Updater::Const("", 0),
            Updater::Const("eff1_number", self.eff1.number),
            Updater::Const("eff2_number", self.eff2.number),
            Updater::Const("eff1_level_A", self.eff1.mix),
            Updater::Const("eff1_level_B", self.eff1.mix),
            Updater::Const("eff2_level_C", self.eff2.mix),
            Updater::Const("eff2_level_D", self.eff2.mix),
            Updater::Const("pan3", 101),
            Updater::Const("pan4", 1),
            Updater::Const("eff_routing", 31),
        ];
        assert(r@ =~= pre_eff_table(self.eff1, self.eff2));
        r
    }
}

impl Selector for KorgEffectSelector {
    /// Both effects are effects of the device.
    open spec fn wf(&self) -> bool {
        is_available(self.eff1) && is_available(self.eff2)
    }

    open spec fn slot(&self, first: bool) -> int {
        if first {
            self.eff1.number as int
        } else {
            self.eff2.number as int
        }
    }

    /// An effect has no value of its own in a frame.
    open spec fn spec_val(&self, idx: u8) -> u16 {
        0
    }

    fn next1(&mut self)
        ensures
            final(self).eff2 == old(self).eff2,
    {
        self.eff1 = Self::random_effect();
    }

    fn next2(&mut self)
        ensures
            final(self).eff1 == old(self).eff1,
    {
        self.eff2 = Self::random_effect();
    }

    fn val(&self, idx: u8) -> (r: u16) {
        0
    }
}


/// The fields of a program that stand before its two oscillators.
#[verifier::opaque]
pub open spec fn program_table() -> Seq<Updater> {
    seq![
        Updater::Const("oscillatorMode", 1),
        Updater::Const("noteMode", 0),
        Updater::SelectOnZero("osc1", "vol", true),
        Updater::Const("osc1Register", 0),
        Updater::SelectOnZero("osc2", "osc2_vol", true),
        Updater::Const("osc2Register", 0),
        Updater::Const("octave", 0),
        Updater::Sweep("detune", -17i8, 17),
        Updater::Const("delay", 0),
        Updater::Const("env_pitch_startLevel", 0),
        Updater::Sweep("env_pitch_attackTime", 1, 4),
        Updater::Sweep("env_pitch_attackLevel", -7i8, 7),
        Updater::Sweep("env_pitch_decayTime", ENV_TIME_LOW, ENV_TIME_HIGH),
        Updater::Sweep("env_pitch_releaseTime", ENV_TIME_LOW, ENV_TIME_HIGH),
        Updater::Sweep("env_pitch_releaseLevel", -8i8, 0),
        Updater::Const("pitchEgTimeVelocitySens", 0),
        Updater::Const("pitchEgLevelVelocitySens", 0),
        Updater::Const("cutoffTypeDetails", 0),
        Updater::Sweep("modFreq", 20, 99),
        Updater::Sweep("modDelay", 1, 40),
        Updater::Sweep("modIntensity", 1, 40),
        Updater::Const("pitchBendRange", 0),
        Updater::Const("vdfCutoff", 0),
        Updater::Const("vdfModulationIntensity", 0),
        Updater::Const("vdaAmplitude", 0),
        Updater::Const("joystickPitchBendRange", 0),
        Updater::Const("joystickVdfSweepIntensity", 0),
        Updater::Const("joystickVdfModulationIntensity", 0),
    ]
}

/// The fields of a program that stand before its two oscillators.
pub fn program_spec() -> (r: Vec<Updater>)
    ensures
        r@ == program_table(),
{
    let r = vec![
        Updater::Const("oscillatorMode", 1),
        Updater::Const("noteMode", 0),
        Updater::SelectOnZero("osc1", "vol", true),
        Updater::Const("osc1Register", 0),
        Updater::SelectOnZero("osc2", "osc2_vol", true),
        Updater::Const("osc2Register", 0),
        Updater::Const("octave", 0),
        Updater::Sweep("detune", -17i8, 17),
        Updater::Const("delay", 0),
        Updater::Const("env_pitch_startLevel", 0),
        Updater::Sweep("env_pitch_attackTime", 1, 4),
        Updater::Sweep("env_pitch_attackLevel", -7i8, 7),
        Updater::Sweep("env_pitch_decayTime", ENV_TIME_LOW, ENV_TIME_HIGH),
        Updater::Sweep("env_pitch_releaseTime", ENV_TIME_LOW, ENV_TIME_HIGH),
        Updater::Sweep("env_pitch_releaseLevel", -8i8, 0),
        Updater::Const("pitchEgTimeVelocitySens", 0),
        Updater::Const("pitchEgLevelVelocitySens", 0),
        Updater::Const("cutoffTypeDetails", 0),
        Updater::Sweep("modFreq", 20, 99),
        Updater::Sweep("modDelay", 1, 40),
        Updater::Sweep("modIntensity", 1, 40),
        Updater::Const("pitchBendRange", 0),
        Updater::Const("vdfCutoff", 0),
        Updater::Const("vdfModulationIntensity", 0),
        Updater::Const("vdaAmplitude", 0),
        Updater::Const("joystickPitchBendRange", 0),
        Updater::Const("joystickVdfSweepIntensity", 0),
        Updater::Const("joystickVdfModulationIntensity", 0),
    ];
    proof {
        reveal(program_table);
    }
    assert(r@ =~= program_table());
    r
}

/// The fields of one oscillator of a program.
#[verifier::opaque]
pub open spec fn osc_table() -> Seq<Updater> {
    seq![
        Updater::Sweep("pitchEgIntensity", 1, 20),
        Updater::Const("pitchWaveform", 0),
        Updater::Sweep("pitchEgFreq", 10, 50),
        Updater::Sweep("pitchEgDelay", 5, 50),
        Updater::Sweep("pitchEgFadeIn", 3, 20),
        Updater::Sweep("pitchModulationIntensity", 1, 10),
        Updater::Const("pitchFreqModKeyTracking", -5i8),
        Updater::Const("pitchModIntensityAftertouch", 0),
        Updater::Const("pitchModIntensityJoystick", 0),
        Updater::Const("pitchFreqModAftertouchJoystick", 0),
        Updater::Sweep("vdfCutoff", 40, 80),
        Updater::Const("vdfCutoffKeybTrackKey", 64),
        Updater::Const("vdfCutoffKeybTrackIntensity", 64),
        Updater::Sweep("vdfEgIntensity", 20, 99),
        Updater::Const("vdfEgTimeKeybTrack", 50),
        Updater::Const("vdfEgTimeVelocitySens", 20),
        Updater::Const("vdfEgIntensityVelocitySens", 70),
        Updater::Sweep("env_filter_attackTime", 1, 10),
        Updater::Sweep("env_filter_attackLevel", -10i8, 90),
        Updater::Sweep("env_filter_decayTime", ENV_TIME_LOW, ENV_TIME_HIGH),
        Updater::Sweep("env_filter_breakPoint", -10i8, 90),
        Updater::Sweep("env_filter_slopeTime", ENV_TIME_LOW, ENV_TIME_HIGH),
        Updater::Sweep("env_filter_sustainLevel", -30i8, 90),
        Updater::Sweep("env_filter_releaseTime", 30, 60),
        Updater::Sweep("env_filter_releaseLevel", -90i8, 90),
        Updater::PairedInverseSweep("vol", 99),
        Updater::Const("oscKeybTrackKey", 0),
        Updater::Const("amplKeybTrackKeyIntensity", 0),
        Updater::Const("amplVelocitySens", 11),
        Updater::Const("amplEgTimeKeybTrack", 50),
        Updater::Const("amplEgTimeVelocitySens", 10),
        Updater::Sweep("env_amplitude_attackTime", 1, 10),
        Updater::Sweep("env_amplitude_attackLevel", 60, 80),
        Updater::Sweep("env_amplitude_decayTime", ENV_TIME_LOW, ENV_TIME_HIGH),
        Updater::Sweep("env_amplitude_breakPoint", 40, 90),
        Updater::Sweep("env_amplitude_slopeTime", 5, 60),
        Updater::Sweep("env_amplitude_sustainLevel", 40, 90),
        Updater::Sweep("env_amplitude_releaseTime", 5, 80),
        Updater::Const("freq_EgTimeKeybTrackSwitchPolarity", 0),
        Updater::Const("freq_EgTimeVelocitySwitchPolarity", 0),
        Updater::Const("ampl_EgTimeKeybTrackSwitchPolarity", 0),
        Updater::Const("ampl_EgTimeVelocitySwitchPolarity", 0),
        Updater::PairedInverseConst("cdSend", -103i8),
        Updater::Sweep("filterQ", 20, 99),
        Updater::Const("colourVelocitySens", 56),
        Updater::Const("vdfVdaKeyboardTrackMode", 0),
        Updater::Const("panCentre", 15),
    ]
}

/// The fields of one oscillator of a program.
pub fn osc_spec() -> (r: Vec<Updater>)
    ensures
        r@ == osc_table(),
{
    let r = vec![
        Updater::Sweep("pitchEgIntensity", 1, 20),
        Updater::Const("pitchWaveform", 0),
        Updater::Sweep("pitchEgFreq", 10, 50),
        Updater::Sweep("pitchEgDelay", 5, 50),
        Updater::Sweep("pitchEgFadeIn", 3, 20),
        Updater::Sweep("pitchModulationIntensity", 1, 10),
        Updater::Const("pitchFreqModKeyTracking", -5i8),
        Updater::Const("pitchModIntensityAftertouch", 0),
        Updater::Const("pitchModIntensityJoystick", 0),
        Updater::Const("pitchFreqModAftertouchJoystick", 0),
        Updater::Sweep("vdfCutoff", 40, 80),
        Updater::Const("vdfCutoffKeybTrackKey", 64),
        Updater::Const("vdfCutoffKeybTrackIntensity", 64),
        Updater::Sweep("vdfEgIntensity", 20, 99),
        Updater::Const("vdfEgTimeKeybTrack", 50),
        Updater::Const("vdfEgTimeVelocitySens", 20),
        Updater::Const("vdfEgIntensityVelocitySens", 70),
        Updater::Sweep("env_filter_attackTime", 1, 10),
        Updater::Sweep("env_filter_attackLevel", -10i8, 90),
        Updater::Sweep("env_filter_decayTime", ENV_TIME_LOW, ENV_TIME_HIGH),
        Updater::Sweep("env_filter_breakPoint", -10i8, 90),
        Updater::Sweep("env_filter_slopeTime", ENV_TIME_LOW, ENV_TIME_HIGH),
        Updater::Sweep("env_filter_sustainLevel", -30i8, 90),
        Updater::Sweep("env_filter_releaseTime", 30, 60),
        Updater::Sweep("env_filter_releaseLevel", -90i8, 90),
        Updater::PairedInverseSweep("vol", 99),
        Updater::Const("oscKeybTrackKey", 0),
        Updater::Const("amplKeybTrackKeyIntensity", 0),
        Updater::Const("amplVelocitySens", 11),
        Updater::Const("amplEgTimeKeybTrack", 50),
        Updater::Const("amplEgTimeVelocitySens", 10),
        Updater::Sweep("env_amplitude_attackTime", 1, 10),
        Updater::Sweep("env_amplitude_attackLevel", 60, 80),
        Updater::Sweep("env_amplitude_decayTime", ENV_TIME_LOW, ENV_TIME_HIGH),
        Updater::Sweep("env_amplitude_breakPoint", 40, 90),
        Updater::Sweep("env_amplitude_slopeTime", 5, 60),
        Updater::Sweep("env_amplitude_sustainLevel", 40, 90),
        Updater::Sweep("env_amplitude_releaseTime", 5, 80),
        Updater::Const("freq_EgTimeKeybTrackSwitchPolarity", 0),
        Updater::Const("freq_EgTimeVelocitySwitchPolarity", 0),
        Updater::Const("ampl_EgTimeKeybTrackSwitchPolarity", 0),
        Updater::Const("ampl_EgTimeVelocitySwitchPolarity", 0),
        Updater::PairedInverseConst("cdSend", -103i8),
        Updater::Sweep("filterQ", 20, 99),
        Updater::Const("colourVelocitySens", 56),
        Updater::Const("vdfVdaKeyboardTrackMode", 0),
        Updater::Const("panCentre", 15),
    ];
    proof {
        reveal(osc_table);
    }
    assert(r@ =~= osc_table());
    r
}

} // verus!
