//! Notes as they come in, the short history of the notes sent, and scales.

use std::time::{Duration, Instant};
use vstd::prelude::*;

verus! {

/// `std::time::Instant`: a reading of the monotonic clock. Nothing is known
/// of what a value holds.
#[verifier::external_type_specification]
#[verifier::external_body]
pub struct ExInstant(std::time::Instant);

/// `std::time::Instant::now`. Trusted; nothing is claimed of the reading.
#[verifier::external_body]
pub(crate) fn now() -> (t: Instant) {
    Instant::now()
}

/// `std::time::Instant::elapsed`: the time since the reading. Trusted; nothing
/// is claimed of the time.
#[verifier::external_body]
pub(crate) fn elapsed(since: &Instant) -> (d: Duration) {
    since.elapsed()
}

/// `std::time::Duration::as_millis`: the whole milliseconds of a time.
/// Trusted; nothing is claimed of the number.
#[verifier::external_body]
pub(crate) fn millis_of(d: &Duration) -> (ms: u128) {
    d.as_millis()
}

/// A note of a note-on message.
#[derive(Clone, Copy, Debug)]
pub struct Note {
    /// The note number.
    pub note: u8,
    /// How hard the key was struck.
    pub velocity: u8,
}

impl Note {
    /// The note of a note message: its second and third byte.
    pub fn from_midi_message(message: &[u8]) -> (n: Note)
        requires
            message@.len() >= 3,
        ensures
            n.note == message@[1],
            n.velocity == message@[2],
    {
        Note { note: message[1], velocity: message[2] }
    }
}

/// How many notes the history keeps.
pub const NOTE_HISTORY: usize = 8;

/// A note that was sent: the note, its channel, and when.
pub type PlayedNote = (u8, u8, Instant);

/// The last notes sent, oldest first, and the last note that was dropped.
pub struct NoteStats {
    /// The last notes sent, oldest first.
    pub received: [PlayedNote; 8],
    /// The last note that was dropped.
    pub last_dropped: PlayedNote,
}

impl NoteStats {
    /// A history in which no note was sent or dropped yet: note and channel
    /// are zero throughout.
    pub fn new() -> (s: NoteStats)
        ensures
            forall|i: int| 0 <= i < 8 ==> (#[trigger] s.received@[i]).0 == 0 && s.received@[i].1 == 0,
            s.last_dropped.0 == 0,
            s.last_dropped.1 == 0,
    {
        let t = now();
        NoteStats { received: [(0u8, 0u8, t); 8], last_dropped: (0, 0, now()) }
    }

    /// The note sent last.
    pub fn last(&self) -> (r: PlayedNote)
        ensures
            r == self.received@[7],
    {
        self.received[NOTE_HISTORY - 1]
    }

    /// The note sent `b` notes ago: 1 is the last.
    pub fn look_back(&self, b: u8) -> (r: PlayedNote)
        requires
            1 <= b <= 8,
        ensures
            r == self.received@[8 - b],
    {
        self.received[NOTE_HISTORY - b as usize]
    }

    /// Records that note `n` is sent on channel `c`: the oldest note leaves
    /// the history.
    pub fn sending_note_on(&mut self, n: u8, c: u8)
        ensures
            forall|i: int|
                0 <= i < 7 ==> #[trigger] final(self).received@[i] == old(self).received@[i + 1],
            final(self).received@[7].0 == n,
            final(self).received@[7].1 == c,
            final(self).last_dropped == old(self).last_dropped,
    {
        let ghost before = self.received@;
        let mut i: usize = 1;
        while i < NOTE_HISTORY
            invariant
                1 <= i <= 8,
                forall|j: int| 0 <= j < i - 1 ==> #[trigger] self.received@[j] == before[j + 1],
                forall|j: int| i - 1 <= j < 8 ==> #[trigger] self.received@[j] == before[j],
                self.last_dropped == old(self).last_dropped,
            decreases 8 - i,
        {
            let moved = self.received[i];
            self.received[i - 1] = moved;
            i += 1;
        }
        self.received[NOTE_HISTORY - 1] = (n, c, now());
    }

    /// Records that note `n` was dropped, on the channel of the last note
    /// sent.
    pub fn drop(&mut self, n: u8)
        ensures
            final(self).last_dropped.0 == n,
            final(self).last_dropped.1 == old(self).received@[7].1,
            final(self).received == old(self).received,
    {
        let channel = self.last().1;
        self.last_dropped = (n, channel, now());
    }
}

/// The steps of a mode: the six intervals from each degree to the next, in
/// semitones.
pub type Mode = [u8; 6];

/// The notes of the scale on `tonic`: the tonic, the six degrees that the
/// steps of the mode lead to, and the octave.
pub open spec fn scale_notes(tonic: u8, mode: Seq<u8>) -> Seq<int> {
    seq![
        tonic as int,
        tonic + mode[0],
        tonic + mode[0] + mode[1],
        tonic + mode[0] + mode[1] + mode[2],
        tonic + mode[0] + mode[1] + mode[2] + mode[3],
        tonic + mode[0] + mode[1] + mode[2] + mode[3] + mode[4],
        tonic + mode[0] + mode[1] + mode[2] + mode[3] + mode[4] + mode[5],
        tonic + 12,
    ]
}

/// The note of degree `idx`: beyond the octave, the scale goes on an octave
/// higher from its second note.
pub open spec fn degree(notes: Seq<u8>, idx: int) -> int
    decreases idx,
{
    if idx < 8 {
        notes[idx] as int
    } else {
        degree(notes, idx - 7) + 12
    }
}

/// The eight notes from a tonic to its octave.
#[derive(Clone, Copy, Debug)]
pub struct Scale {
    /// The notes, lowest first.
    pub notes: [u8; 8],
}

impl Scale {
    /// The scale on `tonic` that the steps of `mode` give.
    pub fn from(tonic: u8, mode: &Mode) -> (s: Scale)
        requires
            tonic + 12 <= 255,
            tonic + mode@[0] + mode@[1] + mode@[2] + mode@[3] + mode@[4] + mode@[5] <= 255,
        ensures
            s.notes@.len() == 8,
            forall|i: int| 0 <= i < 8 ==> #[trigger] s.notes@[i] == scale_notes(tonic, mode@)[i],
    {
        let mode_len: u8 = 6;
        let mut notes: [u8; 8] = [0; 8];
        let mut octaves: u8 = 0;
        let mut base: u8 = tonic;
        let ghost want = scale_notes(tonic, mode@);
        let mut n: u8 = 0;
        while n < 8
            invariant
                n <= 8,
                mode_len == 6,
                tonic + 12 <= 255,
                tonic + mode@[0] + mode@[1] + mode@[2] + mode@[3] + mode@[4] + mode@[5] <= 255,
                want == scale_notes(tonic, mode@),
                octaves == (if n == 0 {
                    0int
                } else if n <= 7 {
                    1int
                } else {
                    2int
                }),
                n == 0 ==> base == tonic,
                n > 0 ==> base == want[n - 1],
                forall|i: int| 0 <= i < n ==> #[trigger] notes@[i] == want[i],
            decreases 8 - n,
        {
            if (n % (mode_len + 1)) == 0 {
                base = tonic + (octaves * 12);
                octaves += 1;
            } else {
                let idx = (n - octaves) % mode_len;
                base += mode[idx as usize];
            }
            notes[n as usize] = base;
            n += 1;
        }
        Scale { notes }
    }

    /// The note of degree `idx`.
    pub fn at(&self, idx: u8) -> (r: u8)
        requires
            degree(self.notes@, idx as int) <= 255,
        ensures
            r == degree(self.notes@, idx as int),
        decreases idx,
    {
        let len: u8 = 8;
        if len > idx {
            return self.notes[idx as usize];
        }
        return self.at(idx - (len - 1)) + 12;
    }
}


/// The place of the first of the eight notes that equals `note`.
pub open spec fn place_of(notes: Seq<u8>, note: int) -> Option<int> {
    if notes[0] == note {
        Some(0)
    } else if notes[1] == note {
        Some(1)
    } else if notes[2] == note {
        Some(2)
    } else if notes[3] == note {
        Some(3)
    } else if notes[4] == note {
        Some(4)
    } else if notes[5] == note {
        Some(5)
    } else if notes[6] == note {
        Some(6)
    } else if notes[7] == note {
        Some(7)
    } else {
        None
    }
}

/// How far `note` lies outside the span of the scale.
pub open spec fn distance(notes: Seq<u8>, note: int) -> int {
    if note < notes[0] {
        notes[0] - note
    } else if note > notes[7] {
        note - notes[7]
    } else {
        0
    }
}

/// The degree of `note` in a scale that spans an octave: the place of the
/// note itself, or of the note brought into the scale's span by octaves.
/// None where the note is not of the scale.
pub open spec fn ordinal(notes: Seq<u8>, note: int) -> Option<int>
    decreases distance(notes, note),
{
    if notes[7] != notes[0] + 12 {
        None
    } else if place_of(notes, note) is Some {
        place_of(notes, note)
    } else if note < notes[0] {
        ordinal(notes, note + 12)
    } else if note > notes[7] {
        ordinal(notes, note - 12)
    } else {
        None
    }
}

impl Scale {
    /// The last note is the octave of the first.
    pub open spec fn spans_octave(&self) -> bool {
        self.notes@[7] == self.notes@[0] + 12
    }

    /// The place of the first note of the scale that equals `note`.
    pub fn position(&self, note: u8) -> (r: Option<u8>)
        ensures
            r is Some <==> place_of(self.notes@, note as int) is Some,
            r matches Some(i) ==> place_of(self.notes@, note as int) == Some(i as int),
    {
        let mut i: u8 = 0;
        while i < 8
            invariant
                i <= 8,
                forall|j: int| 0 <= j < i ==> self.notes@[j] != note,
            decreases 8 - i,
        {
            if self.notes[i as usize] == note {
                return Some(i);
            }
            i += 1;
        }
        None
    }

    fn ordinal_within(&self, note: u8) -> (r: Option<u8>)
        requires
            self.spans_octave(),
        ensures
            r is Some <==> ordinal(self.notes@, note as int) is Some,
            r matches Some(i) ==> ordinal(self.notes@, note as int) == Some(i as int) && i < 8,
        decreases distance(self.notes@, note as int),
    {
        match self.position(note) {
            Some(i) => Some(i),
            None => {
                if note < self.notes[0] {
                    self.ordinal_within(note + 12)
                } else if note > self.notes[7] {
                    self.ordinal_within(note - 12)
                } else {
                    None
                }
            },
        }
    }

    /// The degree of `note`, if the scale spans an octave and the note is a
    /// note of the scale in some octave.
    pub fn find_ordinal(&self, note: u8) -> (r: Option<u8>)
        ensures
            r is Some <==> ordinal(self.notes@, note as int) is Some,
            r matches Some(i) ==> ordinal(self.notes@, note as int) == Some(i as int) && i < 8,
    {
        if self.notes[7] as u16 != self.notes[0] as u16 + 12 {
            None
        } else {
            self.ordinal_within(note)
        }
    }

    /// The degree of a note of the scale.
    pub fn ordinal_of(&self, note: u8) -> (r: u8)
        requires
            ordinal(self.notes@, note as int) is Some,
        ensures
            ordinal(self.notes@, note as int) == Some(r as int),
            r < 8,
    {
        self.find_ordinal(note).unwrap()
    }

    /// The note of degree `idx`, if the scale reaches that far below 256.
    pub fn reach(&self, idx: u8) -> (r: Option<u8>)
        ensures
            r is Some <==> degree(self.notes@, idx as int) <= 255,
            r matches Some(n) ==> n == degree(self.notes@, idx as int),
        decreases idx,
    {
        if idx < 8 {
            Some(self.notes[idx as usize])
        } else {
            match self.reach(idx - 7) {
                Some(n) => if n <= 243 {
                    Some(n + 12)
                } else {
                    None
                },
                None => {
                    proof {
                        lemma_degree_grows(self.notes@, idx as int - 7);
                    }
                    None
                },
            }
        }
    }
}

/// A degree is never negative.
pub proof fn lemma_degree_grows(notes: Seq<u8>, idx: int)
    requires
        0 <= idx,
    ensures
        degree(notes, idx) >= 0,
    decreases idx,
{
    if idx >= 8 {
        lemma_degree_grows(notes, idx - 7);
    }
}

} // verus!
