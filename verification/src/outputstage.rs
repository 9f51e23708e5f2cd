//! The end of a route: which MIDI messages a note causes, given the notes that
//! were sent before it.

use crate::note::{Note, NoteStats, PlayedNote};
use crate::notesink::MidiNoteSink;
use vstd::prelude::*;

verus! {

/// What the driver of a route is to do, in order.
#[derive(Clone, Copy, Debug, PartialEq, Eq, Structural)]
pub enum Command {
    /// Send a three-byte message to the MIDI output.
    Send(u8, u8, u8),
    /// Wait for so many milliseconds.
    Pause(u64),
    /// Tell the recorder that the note was switched on.
    RecordOn(u8),
    /// Tell the recorder that a note was switched off.
    RecordOff,
    /// Tell the modulator that the note was dropped.
    Notify(u8),
}

/// How long a note sounds that is not held, in milliseconds.
pub const NOTE_LENGTH_MS: u64 = 40;

/// The messages that silence every channel: all notes off, on each of the
/// sixteen channels.
pub fn send_all_note_off() -> (r: Vec<Command>)
    ensures
        r@.len() == 16,
        forall|c: int| 0 <= c < 16 ==> #[trigger] r@[c] == Command::Send(0xB0u8 | c as u8, 0x7B, 0),
{
    let mut r: Vec<Command> = Vec::new();
    let mut c: u8 = 0;
    while c < 16
        invariant
            c <= 16,
            r@.len() == c,
            forall|j: int| 0 <= j < c ==> #[trigger] r@[j] == Command::Send(0xB0u8 | j as u8, 0x7B, 0),
        decreases 16 - c,
    {
        r.push(Command::Send(0xB0 | c, 0x7B, 0));
        c += 1;
    }
    r
}

/// The end of a route: notes are held for `hold_length` notes, go to
/// `channel_range` channels in turn, and may be reported to the recorder. The
/// history keeps eight notes: a note held for longer is never ended.
#[derive(Clone, Copy, Debug)]
pub struct OutputStage {
    /// How many notes back the note lies that a new note ends: 0 ends each
    /// note by itself, 1 ends the note before.
    pub hold_length: u8,
    /// Whether the recorder is told of notes.
    pub should_record: bool,
    /// Over how many channels the notes go in turn; 0 keeps to the first.
    pub channel_range: u8,
}

/// The channel after `last`, among `range` channels.
pub open spec fn next_channel(range: u8, last: u8) -> u8 {
    if range == 0 {
        0
    } else {
        ((last + 1) % range as int) as u8
    }
}

/// What switches a note on.
pub open spec fn on_commands(record: bool, channel: u8, note: Note) -> Seq<Command> {
    if record {
        seq![Command::Send(0x90u8 | channel, note.note, note.velocity), Command::RecordOn(note.note)]
    } else {
        seq![Command::Send(0x90u8 | channel, note.note, note.velocity)]
    }
}

/// What switches a note off.
pub open spec fn off_commands(record: bool, channel: u8, note: u8) -> Seq<Command> {
    if record {
        seq![Command::Send(0x80u8 | channel, note, 0), Command::RecordOff]
    } else {
        seq![Command::Send(0x80u8 | channel, note, 0)]
    }
}

/// Whether the stage sends the note on: a note that repeats the last is not
/// sent again by a stage that holds notes.
pub open spec fn sends(stage: OutputStage, note: Note, history: Seq<PlayedNote>) -> bool {
    stage.hold_length == 0 || note.note != history[7].0
}

/// What a note causes, given the notes sent before it.
pub open spec fn output_commands(stage: OutputStage, note: Note, history: Seq<PlayedNote>) -> Seq<
    Command,
> {
    let record = stage.should_record;
    let channel = next_channel(stage.channel_range, history[7].1);
    if stage.hold_length == 0 {
        on_commands(record, channel, note) + seq![Command::Pause(NOTE_LENGTH_MS)] + off_commands(
            record,
            next_channel(stage.channel_range, channel),
            note.note,
        )
    } else if stage.hold_length == 1 {
        off_commands(record, history[7].1, history[7].0) + (if note.note != history[7].0 {
            on_commands(record, channel, note)
        } else {
            Seq::empty()
        })
    } else if note.note == history[7].0 {
        Seq::empty()
    } else {
        (if stage.hold_length <= 8 && history[8 - stage.hold_length].0 != 0 {
            off_commands(
                record,
                history[8 - stage.hold_length].1,
                history[8 - stage.hold_length].0,
            )
        } else {
            Seq::empty()
        }) + on_commands(record, channel, note)
    }
}

/// `after` is `before` with one more note sent.
pub open spec fn sent_one(before: NoteStats, after: NoteStats, note: u8, channel: u8) -> bool {
    &&& forall|i: int| 0 <= i < 7 ==> #[trigger] after.received@[i] == before.received@[i + 1]
    &&& after.received@[7].0 == note
    &&& after.received@[7].1 == channel
    &&& after.last_dropped == before.last_dropped
}

impl OutputStage {
    /// The channel of the next note.
    pub fn channel(&self, stats: &NoteStats) -> (c: u8)
        ensures
            c == next_channel(self.channel_range, stats.received@[7].1),
    {
        if self.channel_range == 0 {
            return 0;
        }
        ((stats.last().1 as u16 + 1) % (self.channel_range as u16)) as u8
    }

    fn note_on(&self, n: &Note, stats: &mut NoteStats, out: &mut Vec<Command>)
        ensures
            final(out)@ == old(out)@ + on_commands(
                self.should_record,
                next_channel(self.channel_range, old(stats).received@[7].1),
                *n,
            ),
            sent_one(
                *old(stats),
                *final(stats),
                n.note,
                next_channel(self.channel_range, old(stats).received@[7].1),
            ),
    {
        let ghost before = out@;
        let c = self.channel(stats);
        out.push(Command::Send(0x90 | c, n.note, n.velocity));
        stats.sending_note_on(n.note, c);
        if self.should_record {
            out.push(Command::RecordOn(n.note));
        }
        assert(out@ =~= before + on_commands(self.should_record, c, *n));
    }

    fn note_off(&self, n: u8, channel: u8, out: &mut Vec<Command>)
        ensures
            final(out)@ == old(out)@ + off_commands(self.should_record, channel, n),
    {
        let ghost before = out@;
        out.push(Command::Send(0x80 | channel, n, 0));
        if self.should_record {
            out.push(Command::RecordOff);
        }
        assert(out@ =~= before + off_commands(self.should_record, channel, n));
    }

    /// Takes a note at the end of a route: appends what the driver is to do
    /// to `out`, and records the note in `stats` where it is sent.
    pub fn take(&self, n: &Note, stats: &mut NoteStats, out: &mut Vec<Command>)
        ensures
            final(out)@ == old(out)@ + output_commands(*self, *n, old(stats).received@),
            sends(*self, *n, old(stats).received@) ==> sent_one(
                *old(stats),
                *final(stats),
                n.note,
                next_channel(self.channel_range, old(stats).received@[7].1),
            ),
            !sends(*self, *n, old(stats).received@) ==> *final(stats) == *old(stats),
    {
        let ghost before = out@;
        let ghost history = stats.received@;
        if self.hold_length == 0 {
            self.note_on(n, stats, out);
            out.push(Command::Pause(NOTE_LENGTH_MS));
            let c = self.channel(stats);
            self.note_off(n.note, c, out);
            assert(out@ =~= before + output_commands(*self, *n, history));
            return;
        }
        if self.hold_length == 1 {
            let l = stats.last();
            self.note_off(l.0, l.1, out);
            if n.note != l.0 {
                self.note_on(n, stats, out);
            }
            assert(out@ =~= before + output_commands(*self, *n, history));
            return;
        }
        if n.note == stats.last().0 {
            assert(out@ =~= before + output_commands(*self, *n, history));
            return;
        }
        if self.hold_length <= 8 {
            let prev = stats.look_back(self.hold_length);
            if prev.0 != 0 {
                self.note_off(prev.0, prev.1, out);
            }
        }
        self.note_on(n, stats, out);
        assert(out@ =~= before + output_commands(*self, *n, history));
    }
}


impl MidiNoteSink for OutputStage {
    fn receive(&self, note: &Note, stats: &mut NoteStats, out: &mut Vec<Command>)
        ensures
            final(out)@ == old(out)@ + output_commands(*self, *note, old(stats).received@),
    {
        self.take(note, stats, out);
    }
}

} // verus!
