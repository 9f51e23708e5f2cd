//! Short MIDI channel messages, and the plain data of the PortMidi interface.

use vstd::prelude::*;

verus! {

/// A short MIDI message: a status byte and up to three data bytes.
#[derive(Clone, Copy, Debug)]
pub struct MidiMessage {
    /// Kind of message in the high four bits, channel in the low four.
    pub status: u8,
    /// First data byte.
    pub data1: u8,
    /// Second data byte.
    pub data2: u8,
    /// Third data byte; no channel message uses it.
    pub data3: u8,
}

/// The four bytes as one word, the status in the lowest byte.
pub open spec fn packed(status: u8, data1: u8, data2: u8, data3: u8) -> int {
    status as int + 256 * data1 as int + 65536 * data2 as int + 16777216 * data3 as int
}

impl MidiMessage {
    /// Note on, at velocity 100.
    pub fn note_on(note: u8, channel: u8) -> (m: MidiMessage)
        ensures
            m.status == 0x90 | channel,
            channel < 16 ==> m.status == 0x90 + channel,
            m.data1 == note,
            m.data2 == 100,
            m.data3 == 0,
    {
        assert(channel < 16 ==> 0x90u8 | channel == 0x90u8 + channel) by (bit_vector);
        MidiMessage { status: 0x90 | channel, data1: note, data2: 100, data3: 0 }
    }

    /// Note off.
    pub fn note_off(note: u8, channel: u8) -> (m: MidiMessage)
        ensures
            m.status == 0x80 | channel,
            channel < 16 ==> m.status == 0x80 + channel,
            m.data1 == note,
            m.data2 == 0,
            m.data3 == 0,
    {
        assert(channel < 16 ==> 0x80u8 | channel == 0x80u8 + channel) by (bit_vector);
        MidiMessage { status: 0x80 | channel, data1: note, data2: 0, data3: 0 }
    }

    /// Program change.
    pub fn program(p: u8, channel: u8) -> (m: MidiMessage)
        ensures
            m.status == 0xC0 | channel,
            channel < 16 ==> m.status == 0xC0 + channel,
            m.data1 == p,
            m.data2 == 0,
            m.data3 == 0,
    {
        assert(channel < 16 ==> 0xC0u8 | channel == 0xC0u8 + channel) by (bit_vector);
        MidiMessage { status: 0xC0 | channel, data1: p, data2: 0, data3: 0 }
    }

    /// The message as the word that PortMidi takes.
    pub fn as_u32(&self) -> (r: u32)
        ensures
            r == packed(self.status, self.data1, self.data2, self.data3),
    {
        let s = self.status;
        let d1 = self.data1;
        let d2 = self.data2;
        let d3 = self.data3;
        assert(((d3 as u32) << 24 | (d2 as u32) << 16 | (d1 as u32) << 8 | s as u32) == s as u32
            + 256 * (d1 as u32) + 65536 * (d2 as u32) + 16777216 * (d3 as u32)) by (bit_vector);
        (d3 as u32) << 24 | (d2 as u32) << 16 | (d1 as u32) << 8 | s as u32
    }

    /// The message that the word of a received event stands for: the status
    /// in the lowest byte, two data bytes above it.
    pub fn from_word(word: u32) -> (m: MidiMessage)
        ensures
            m.status == word % 256,
            m.data1 == (word / 256) % 256,
            m.data2 == (word / 65536) % 256,
            m.data3 == 0,
    {
        MidiMessage {
            status: (word % 256) as u8,
            data1: ((word / 256) % 256) as u8,
            data2: ((word / 65536) % 256) as u8,
            data3: 0,
        }
    }
}

/// Packing a channel message and reading the word back gives the message.
pub proof fn law_word_roundtrip(status: u8, data1: u8, data2: u8)
    ensures
        packed(status, data1, data2, 0) % 256 == status,
        (packed(status, data1, data2, 0) / 256) % 256 == data1,
        (packed(status, data1, data2, 0) / 65536) % 256 == data2,
{
}

/// The results that PortMidi reports.
#[allow(non_camel_case_types)]
#[derive(Clone, Copy, Debug, PartialEq, Eq, Structural)]
pub enum PmError {
    /// Nothing went wrong; for a poll: no data.
    PmNoError,
    /// For a poll: data is waiting.
    PmGotData,
    /// The host's MIDI system failed.
    PmHostError,
    /// There is no device of that number.
    PmInvalidDeviceId,
    /// Memory ran out.
    PmInsufficientMemory,
    /// The buffer given is too small.
    PmBufferTooSmall,
    /// Events arrived faster than they were read.
    PmBufferOverflow,
    /// The stream is not open, or open the other way.
    PmBadPtr,
    /// The data is no MIDI message.
    PmBadData,
    /// PortMidi failed within.
    PmInternalError,
    /// The buffer is as large as it gets.
    PmBufferMaxSize,
}

/// The number that PortMidi uses for a result.
pub open spec fn error_code(e: PmError) -> int {
    match e {
        PmError::PmNoError => 0,
        PmError::PmGotData => 1,
        PmError::PmHostError => -10000,
        PmError::PmInvalidDeviceId => -9999,
        PmError::PmInsufficientMemory => -9998,
        PmError::PmBufferTooSmall => -9997,
        PmError::PmBufferOverflow => -9996,
        PmError::PmBadPtr => -9995,
        PmError::PmBadData => -9994,
        PmError::PmInternalError => -9993,
        PmError::PmBufferMaxSize => -9992,
    }
}

impl PmError {
    /// The number that PortMidi uses for this result.
    pub fn code(&self) -> (c: i32)
        ensures
            c == error_code(*self),
    {
        match self {
            PmError::PmNoError => 0,
            PmError::PmGotData => 1,
            PmError::PmHostError => -10000,
            PmError::PmInvalidDeviceId => -9999,
            PmError::PmInsufficientMemory => -9998,
            PmError::PmBufferTooSmall => -9997,
            PmError::PmBufferOverflow => -9996,
            PmError::PmBadPtr => -9995,
            PmError::PmBadData => -9994,
            PmError::PmInternalError => -9993,
            PmError::PmBufferMaxSize => -9992,
        }
    }

    /// The result that a number of PortMidi stands for, if it stands for
    /// one.
    pub fn from_code(c: i32) -> (r: Option<PmError>)
        ensures
            r matches Some(e) ==> error_code(e) == c,
            r is None ==> forall|e: PmError| error_code(e) != c,
    {
        if c == 0 {
            Some(PmError::PmNoError)
        } else if c == 1 {
            Some(PmError::PmGotData)
        } else if c == -10000 {
            Some(PmError::PmHostError)
        } else if c == -9999 {
            Some(PmError::PmInvalidDeviceId)
        } else if c == -9998 {
            Some(PmError::PmInsufficientMemory)
        } else if c == -9997 {
            Some(PmError::PmBufferTooSmall)
        } else if c == -9996 {
            Some(PmError::PmBufferOverflow)
        } else if c == -9995 {
            Some(PmError::PmBadPtr)
        } else if c == -9994 {
            Some(PmError::PmBadData)
        } else if c == -9993 {
            Some(PmError::PmInternalError)
        } else if c == -9992 {
            Some(PmError::PmBufferMaxSize)
        } else {
            None
        }
    }
}

/// An event as PortMidi hands it over.
#[allow(non_camel_case_types)]
#[derive(Clone, Copy, Debug)]
pub struct C_PmEvent {
    /// The message, packed into a word.
    pub message: i32,
    /// When the event arrived, in PortMidi's time.
    pub timestamp: u32,
}

impl C_PmEvent {
    /// The bits of the packed message as an unsigned word.
    pub open spec fn spec_word(&self) -> int {
        if self.message >= 0 {
            self.message as int
        } else {
            self.message as int + 0x1_0000_0000
        }
    }

    /// The bits of the packed message as an unsigned word.
    pub fn word(&self) -> (w: u32)
        ensures
            w == self.spec_word(),
    {
        if self.message >= 0 {
            self.message as u32
        } else {
            (self.message as i64 + 0x1_0000_0000) as u32
        }
    }

    /// The message that the event carries.
    pub fn midi_message(&self) -> (m: MidiMessage)
        ensures
            m.status == self.spec_word() % 256,
            m.data1 == (self.spec_word() / 256) % 256,
            m.data2 == (self.spec_word() / 65536) % 256,
            m.data3 == 0,
    {
        MidiMessage::from_word(self.word())
    }
}

/// Takes the messages that an input hands out.
pub trait MidiCallback {
    /// Takes one message.
    fn receive(&mut self, message: &MidiMessage);
}

} // verus!
