//! The stages that a note passes on its way to an output: mapped onto a
//! scale, moved by octaves, replaced or dropped.

use crate::note::{degree, elapsed, millis_of, ordinal, Note, NoteStats, Scale};
use crate::outputstage::{output_commands, sends, sent_one, next_channel, Command, OutputStage};
use crate::rng::random_below;
use vstd::prelude::*;
use vstd::string::*;

verus! {

/// Takes notes, and says what the driver is to do about each.
pub trait MidiNoteSink {
    /// Takes one note.
    fn receive(&self, note: &Note, stats: &mut NoteStats, out: &mut Vec<Command>);
}

/// Replaces a note by the note of the scale whose degree is the note's
/// number.
#[derive(Clone, Copy, Debug)]
pub struct NoteMap {
    /// The scale that notes are mapped onto.
    pub scale: Scale,
}

/// The note that a value stands for, if it is one of the 256 notes.
pub open spec fn in_byte(v: Option<int>) -> Option<u8> {
    match v {
        Some(x) => if 0 <= x <= 255 {
            Some(x as u8)
        } else {
            None
        },
        None => None,
    }
}

impl NoteMap {
    /// The note that `n` is replaced by, if the scale reaches it.
    pub fn map(&self, n: &Note) -> (r: Option<Note>)
        ensures
            r == mapped(self.scale.notes@, *n),
    {
        proof {
            crate::note::lemma_degree_grows(self.scale.notes@, n.note as int);
        }
        match self.scale.reach(n.note) {
            Some(note) => Some(Note { note, velocity: n.velocity }),
            None => None,
        }
    }
}

/// What a note is mapped to on a scale: the note of its degree, and nothing
/// where that lies above the highest note.
pub open spec fn mapped(notes: Seq<u8>, n: Note) -> Option<Note> {
    match in_byte(Some(degree(notes, n.note as int))) {
        Some(note) => Some(Note { note, velocity: n.velocity }),
        None => None,
    }
}

/// The note that a strategy picks: `l` repeats the last note, brought within
/// an octave of the tonic by two octaves; `r` takes the degree that the draw
/// stands for; `u` and `d` take the degree above and below the last note's;
/// any other strategy takes the tonic.
pub open spec fn selected(strategy: u8, notes: Seq<u8>, last: u8, draw: int) -> Option<int> {
    if strategy == 108 {
        Some(
            if last > notes[0] + 12 {
                last - 24
            } else if last < notes[0] - 12 {
                last + 24
            } else {
                last as int
            },
        )
    } else if strategy == 114 {
        Some(degree(notes, (draw + 1) / 2))
    } else if strategy == 117 {
        match ordinal(notes, last as int) {
            Some(o) => Some(degree(notes, o + 1)),
            None => None,
        }
    } else if strategy == 100 {
        match ordinal(notes, last as int) {
            Some(o) => Some(
                degree(
                    notes,
                    if o == 0 {
                        7
                    } else {
                        o - 1
                    },
                ),
            ),
            None => None,
        }
    } else {
        Some(notes[0] as int)
    }
}

/// What a strategy is called.
pub open spec fn strategy_name(strategy: u8) -> Seq<char> {
    if strategy == 108 {
        "Playing last note"@
    } else if strategy == 114 {
        "Playing random note"@
    } else if strategy == 117 {
        "Cycling up scale"@
    } else if strategy == 100 {
        "Cycling down scale"@
    } else {
        "Playing tonic"@
    }
}

/// Picks the note that replaces an incoming note, by a strategy that can be
/// changed while notes come in.
#[derive(Clone, Copy, Debug)]
pub struct NoteSelector {
    strategy: u8,
    scale: Scale,
}

impl NoteSelector {
    /// The letter of the strategy.
    pub closed spec fn strategy(&self) -> u8 {
        self.strategy
    }

    /// The notes of the selector's scale.
    pub closed spec fn notes(&self) -> Seq<u8> {
        self.scale.notes@
    }

    /// A selector on `scale` that plays the tonic.
    pub fn new(scale: Scale) -> (s: NoteSelector)
        ensures
            s.strategy() == 116,
            s.notes() == scale.notes@,
    {
        NoteSelector { strategy: 116, scale }
    }

    /// Takes the strategy of letter `s`, and says what it is called.
    pub fn set_strategy_from(&mut self, s: u8) -> (name: &'static str)
        ensures
            final(self).strategy() == s,
            final(self).notes() == old(self).notes(),
            name@ == strategy_name(s),
    {
        self.strategy = s;
        if s == 108 {
            "Playing last note"
        } else if s == 114 {
            "Playing random note"
        } else if s == 117 {
            "Cycling up scale"
        } else if s == 100 {
            "Cycling down scale"
        } else {
            "Playing tonic"
        }
    }

    /// The note that the strategy picks after the notes in `stats`, with
    /// `draw` as the random draw of sixteen; none where the pick is no note.
    pub fn next(&self, stats: &NoteStats, draw: u32) -> (r: Option<u8>)
        requires
            draw < 16,
        ensures
            r == in_byte(selected(self.strategy(), self.notes(), stats.received@[7].0, draw as int)),
    {
        let last = stats.last().0;
        let tonic = self.scale.notes[0];
        if self.strategy == 108 {
            let l: i16 = last as i16;
            let t: i16 = tonic as i16;
            let picked: i16 = if l > t + 12 {
                l - 24
            } else if l < t - 12 {
                l + 24
            } else {
                l
            };
            if 0 <= picked && picked <= 255 {
                Some(picked as u8)
            } else {
                None
            }
        } else if self.strategy == 114 {
            proof {
                crate::note::lemma_degree_grows(self.scale.notes@, (draw as int + 1) / 2);
            }
            self.scale.reach(((draw + 1) / 2) as u8)
        } else if self.strategy == 117 {
            match self.scale.find_ordinal(last) {
                Some(o) => {
                    proof {
                        crate::note::lemma_degree_grows(self.scale.notes@, o as int + 1);
                    }
                    self.scale.reach(o + 1)
                },
                None => None,
            }
        } else if self.strategy == 100 {
            match self.scale.find_ordinal(last) {
                Some(o) => Some(
                    self.scale.notes[if o == 0 {
                        7
                    } else {
                        (o - 1) as usize
                    }],
                ),
                None => None,
            }
        } else {
            Some(tonic)
        }
    }
}

/// Replaces a note by the note that the route's selector picks.
#[derive(Clone, Copy, Debug)]
pub struct RandomNoteMap {}

impl RandomNoteMap {
    /// The stage that replaces notes.
    pub fn create_from() -> (m: RandomNoteMap) {
        RandomNoteMap {  }
    }
}

/// Lets three notes in five pass.
#[derive(Clone, Copy, Debug)]
pub struct RandomNoteDropper {}

impl RandomNoteDropper {
    /// Draws whether a note passes: one draw of five decides.
    pub fn should_play() -> (play: bool)
        ensures
            exists|draw: u32| draw < 5 && play == #[trigger] Self::spec_plays(draw),
    {
        let draw = random_below(5);
        let play = Self::plays(draw);
        assert(play == Self::spec_plays(draw));
        play
    }

    /// Whether a note passes on a draw of five: the three draws from two up
    /// let it pass.
    pub open spec fn spec_plays(draw: u32) -> bool {
        draw >= 2
    }

    /// Whether a note passes on a draw of five.
    #[verifier::when_used_as_spec(spec_plays)]
    pub fn plays(draw: u32) -> (r: bool)
        ensures
            r == Self::spec_plays(draw),
    {
        draw >= 2
    }
}

/// Lets three notes in five pass, none within half a second of a dropped
/// note, and tells the modulator of each note it drops.
#[derive(Clone, Copy, Debug)]
pub struct NotifyingRandomNoteDropper {}

/// How long after a dropped note no note passes, in milliseconds.
pub const QUIET_MS: u128 = 500;

impl NotifyingRandomNoteDropper {
    /// Whether a note passes, given the draw and the time since the last
    /// dropped note.
    pub fn passes(play: bool, since_dropped_ms: u128) -> (r: bool)
        ensures
            r == (play && since_dropped_ms > QUIET_MS),
    {
        play && since_dropped_ms > QUIET_MS
    }
}

/// Moves a note by a number of octaves drawn at random.
#[derive(Clone, Copy, Debug)]
pub struct RandomOctaveStage {
    /// How many octaves there are to draw from, upwards from the base.
    pub octave_range: u8,
    /// The lowest octave, counted from the note's own.
    pub base: i8,
}

/// A note moved by `base + draw` octaves, in eight bits.
pub open spec fn transpose(note: u8, base: i8, draw: int) -> u8 {
    ((note as int + 12 * (draw + base as int)) % 256) as u8
}

/// How many draws a range of octaves allows: its size, and one where there
/// is no range.
pub open spec fn octave_draws(range: u8) -> int {
    if range == 0 {
        1
    } else {
        range as int
    }
}

impl RandomOctaveStage {
    /// A stage that draws among `octave_range` octaves from `base` up.
    pub fn to(octave_range: u8, base: i8) -> (s: RandomOctaveStage)
        ensures
            s.octave_range == octave_range,
            s.base == base,
    {
        RandomOctaveStage { octave_range, base }
    }

    /// The note moved by the octave that `draw` stands for.
    pub fn transposed(&self, n: &Note, draw: u32) -> (r: Note)
        requires
            draw < 256,
        ensures
            r.note == transpose(n.note, self.base, draw as int),
            r.velocity == n.velocity,
    {
        let v: i32 = n.note as i32 + 12 * (draw as i32 + self.base as i32);
        Note { note: ((v + 2048) % 256) as u8, velocity: n.velocity }
    }
}


/// One stage of a route.
#[derive(Clone, Copy, Debug)]
pub enum Stage {
    /// Moves the note by octaves.
    RandomOctave(RandomOctaveStage),
    /// Maps the note onto a scale.
    NoteMap(NoteMap),
    /// Replaces the note by the selector's pick.
    RandomNoteMap(RandomNoteMap),
    /// Drops some notes.
    Dropper(RandomNoteDropper),
    /// Drops some notes and tells the modulator.
    NotifyingDropper(NotifyingRandomNoteDropper),
}

/// The note that the selector's pick gives, with the velocity of the note it
/// replaces.
pub open spec fn chosen(selector: NoteSelector, last: u8, draw: int, velocity: u8) -> Option<
    Note,
> {
    match in_byte(selected(selector.strategy(), selector.notes(), last, draw)) {
        Some(note) => Some(Note { note, velocity }),
        None => None,
    }
}

/// `after` is `before` with `note` recorded as dropped.
pub open spec fn dropped_one(before: NoteStats, after: NoteStats, note: u8) -> bool {
    &&& after.received == before.received
    &&& after.last_dropped.0 == note
    &&& after.last_dropped.1 == before.received@[7].1
}

/// What a stage can do with a note: pass a note on or none, change the
/// history, and ask something of the driver.
pub open spec fn stage_step(
    stage: Stage,
    selector: NoteSelector,
    note: Note,
    stats0: NoteStats,
    passed: Option<Note>,
    stats1: NoteStats,
    cmds: Seq<Command>,
) -> bool {
    match stage {
        Stage::RandomOctave(s) => {
            &&& stats1 == stats0
            &&& cmds.len() == 0
            &&& passed matches Some(n)
            &&& n.velocity == note.velocity
            &&& exists|d: int|
                0 <= d < octave_draws(s.octave_range) && n.note == #[trigger] transpose(
                    note.note,
                    s.base,
                    d,
                )
        },
        Stage::NoteMap(m) => {
            &&& stats1 == stats0
            &&& cmds.len() == 0
            &&& passed == mapped(m.scale.notes@, note)
        },
        Stage::RandomNoteMap(_) => {
            &&& stats1 == stats0
            &&& cmds.len() == 0
            &&& exists|d: int|
                0 <= d < 16 && passed == #[trigger] chosen(
                    selector,
                    stats0.received@[7].0,
                    d,
                    note.velocity,
                )
        },
        Stage::Dropper(_) => {
            &&& stats1 == stats0
            &&& cmds.len() == 0
            &&& (passed == Some(note) || passed is None)
        },
        Stage::NotifyingDropper(_) => {
            ||| passed == Some(note) && stats1 == stats0 && cmds.len() == 0
            ||| passed is None && cmds == seq![Command::Notify(note.note)] && dropped_one(
                stats0,
                stats1,
                note.note,
            )
        },
    }
}

/// What the stage after some others does: it takes the note that they pass
/// on, if they pass one on, and its commands follow theirs.
pub open spec fn stage_link(
    stage: Stage,
    selector: NoteSelector,
    reached: Option<Note>,
    stats_mid: NoteStats,
    before: Seq<Command>,
    passed: Option<Note>,
    stats1: NoteStats,
    cmds: Seq<Command>,
) -> bool {
    &&& before.len() <= cmds.len()
    &&& cmds.take(before.len() as int) == before
    &&& match reached {
        Some(n) => stage_step(
            stage,
            selector,
            n,
            stats_mid,
            passed,
            stats1,
            cmds.skip(before.len() as int),
        ),
        None => passed is None && stats1 == stats_mid && cmds.len() == before.len(),
    }
}

/// What a sequence of stages can do with a note, each stage taking what the
/// stage before passes on.
pub open spec fn route_run(
    stages: Seq<Stage>,
    selector: NoteSelector,
    note: Note,
    stats0: NoteStats,
    passed: Option<Note>,
    stats1: NoteStats,
    cmds: Seq<Command>,
) -> bool
    decreases stages.len(),
{
    if stages.len() == 0 {
        passed == Some(note) && stats1 == stats0 && cmds.len() == 0
    } else {
        exists|reached: Option<Note>, stats_mid: NoteStats, before: Seq<Command>|
            {
                &&& route_run(
                    stages.drop_last(),
                    selector,
                    note,
                    stats0,
                    reached,
                    stats_mid,
                    before,
                )
                &&& #[trigger] stage_link(
                    stages.last(),
                    selector,
                    reached,
                    stats_mid,
                    before,
                    passed,
                    stats1,
                    cmds,
                )
            }
    }
}

/// What the output does with what the stages pass on: the commands of a
/// note that arrives follow the commands of the stages.
pub open spec fn delivered(
    out: OutputStage,
    passed: Option<Note>,
    stats_mid: NoteStats,
    stats1: NoteStats,
    before: Seq<Command>,
    cmds: Seq<Command>,
) -> bool {
    match passed {
        Some(n) => {
            &&& cmds == before + output_commands(out, n, stats_mid.received@)
            &&& sends(out, n, stats_mid.received@) ==> sent_one(
                stats_mid,
                stats1,
                n.note,
                next_channel(out.channel_range, stats_mid.received@[7].1),
            )
            &&& !sends(out, n, stats_mid.received@) ==> stats1 == stats_mid
        },
        None => cmds == before && stats1 == stats_mid,
    }
}

/// The stage that a name of a route stands for, if it stands for one.
pub open spec fn stage_named(name: Seq<char>, scale: Scale) -> Option<Stage> {
    if name == "randomOctaveTop"@ {
        Some(Stage::RandomOctave(RandomOctaveStage { octave_range: 3, base: 0 }))
    } else if name == "randomOctaveMid"@ {
        Some(Stage::RandomOctave(RandomOctaveStage { octave_range: 2, base: -1i8 }))
    } else if name == "randomOctaveBass"@ {
        Some(Stage::RandomOctave(RandomOctaveStage { octave_range: 0, base: -2i8 }))
    } else if name == "noteMap"@ {
        Some(Stage::NoteMap(NoteMap { scale }))
    } else if name == "randomNoteMap"@ {
        Some(Stage::RandomNoteMap(RandomNoteMap {  }))
    } else if name == "dropper"@ {
        Some(Stage::Dropper(RandomNoteDropper {  }))
    } else if name == "notifyingDropper"@ {
        Some(Stage::NotifyingDropper(NotifyingRandomNoteDropper {  }))
    } else {
        None
    }
}

/// The stages that the names of a route stand for, in the order of the
/// names; a name that stands for no stage is passed over.
pub open spec fn stages_named(names: Seq<Seq<char>>, scale: Scale) -> Seq<Stage>
    decreases names.len(),
{
    if names.len() == 0 {
        Seq::empty()
    } else {
        match stage_named(names.last(), scale) {
            Some(s) => stages_named(names.drop_last(), scale).push(s),
            None => stages_named(names.drop_last(), scale),
        }
    }
}

/// The names of a route as plain text.
pub open spec fn names_of(route: Seq<&str>) -> Seq<Seq<char>> {
    route.map_values(|n: &str| n@)
}

/// The way of a note: through the stages in order, then to the output.
pub struct Route {
    /// The stages, first first.
    pub stages: Vec<Stage>,
    /// What picks the notes of a stage that replaces notes.
    pub selector: NoteSelector,
    /// The end of the route.
    pub out: OutputStage,
}

fn same_text(a: &str, b: &str) -> (r: bool)
    ensures
        r == (a@ == b@),
{
    let x = String::from_str(a);
    let y = String::from_str(b);
    x == y
}

/// The stage that a name of a route stands for, if it stands for one.
pub fn stage_of(name: &str, scale: Scale) -> (r: Option<Stage>)
    ensures
        r == stage_named(name@, scale),
{
    if same_text(name, "randomOctaveTop") {
        Some(Stage::RandomOctave(RandomOctaveStage::to(3, 0)))
    } else if same_text(name, "randomOctaveMid") {
        Some(Stage::RandomOctave(RandomOctaveStage::to(2, -1)))
    } else if same_text(name, "randomOctaveBass") {
        Some(Stage::RandomOctave(RandomOctaveStage::to(0, -2)))
    } else if same_text(name, "noteMap") {
        Some(Stage::NoteMap(NoteMap { scale }))
    } else if same_text(name, "randomNoteMap") {
        Some(Stage::RandomNoteMap(RandomNoteMap::create_from()))
    } else if same_text(name, "dropper") {
        Some(Stage::Dropper(RandomNoteDropper {  }))
    } else if same_text(name, "notifyingDropper") {
        Some(Stage::NotifyingDropper(NotifyingRandomNoteDropper {  }))
    } else {
        None
    }
}

/// Builds the route that the names stand for, ending in `out`.
pub fn configure(route: &Vec<&str>, s: Scale, sel: NoteSelector, out: OutputStage) -> (r: Route)
    ensures
        r.stages@ == stages_named(names_of(route@), s),
        r.selector == sel,
        r.out == out,
{
    let mut stages: Vec<Stage> = Vec::new();
    let ghost names = names_of(route@);
    let mut i: usize = 0;
    assert(names.take(0) =~= Seq::<Seq<char>>::empty());
    while i < route.len()
        invariant
            i <= route@.len(),
            names == names_of(route@),
            stages@ == stages_named(names.take(i as int), s),
        decreases route@.len() - i,
    {
        proof {
            assert(names.take(i as int + 1).drop_last() =~= names.take(i as int));
            assert(names.take(i as int + 1).last() == route@[i as int]@);
        }
        match stage_of(route[i], s) {
            Some(stage) => {
                stages.push(stage);
            },
            None => {},
        }
        i += 1;
    }
    assert(names.take(route@.len() as int) =~= names);
    Route { stages, selector: sel, out }
}

impl Route {
    /// Passes a note through one stage.
    pub fn pass(
        stage: &Stage,
        selector: &NoteSelector,
        n: &Note,
        stats: &mut NoteStats,
        out: &mut Vec<Command>,
    ) -> (passed: Option<Note>)
        ensures
            old(out)@.len() <= final(out)@.len(),
            final(out)@.take(old(out)@.len() as int) == old(out)@,
            stage_step(
                *stage,
                *selector,
                *n,
                *old(stats),
                passed,
                *final(stats),
                final(out)@.skip(old(out)@.len() as int),
            ),
    {
        let ghost before = out@;
        assert(out@.take(before.len() as int) =~= before);
        match stage {
            Stage::RandomOctave(s) => {
                let draw = if s.octave_range == 0 {
                    0
                } else {
                    random_below(s.octave_range as u32)
                };
                let moved = s.transposed(n, draw);
                assert(moved.note == transpose(n.note, s.base, draw as int));
                Some(moved)
            },
            Stage::NoteMap(m) => m.map(n),
            Stage::RandomNoteMap(_) => {
                let draw = random_below(16);
                let picked = selector.next(stats, draw);
                let r = match picked {
                    Some(note) => Some(Note { note, velocity: n.velocity }),
                    None => None,
                };
                assert(r == chosen(*selector, stats.received@[7].0, draw as int, n.velocity));
                r
            },
            Stage::Dropper(_) => {
                if RandomNoteDropper::should_play() {
                    Some(*n)
                } else {
                    None
                }
            },
            Stage::NotifyingDropper(_) => {
                let play = RandomNoteDropper::should_play();
                let since = millis_of(&elapsed(&stats.last_dropped.2));
                if NotifyingRandomNoteDropper::passes(play, since) {
                    Some(*n)
                } else {
                    out.push(Command::Notify(n.note));
                    stats.drop(n.note);
                    assert(out@.take(before.len() as int) =~= before);
                    assert(out@.skip(before.len() as int) =~= seq![Command::Notify(n.note)]);
                    None
                }
            },
        }
    }
}

impl Route {
    /// Takes a note: passes it through the stages and, if it arrives, to the
    /// output. What the driver is to do is appended to `out`.
    pub fn run(&self, note: &Note, stats: &mut NoteStats, out: &mut Vec<Command>)
        ensures
            old(out)@.len() <= final(out)@.len(),
            final(out)@.take(old(out)@.len() as int) == old(out)@,
            exists|passed: Option<Note>, stats_mid: NoteStats, before: Seq<Command>|
                {
                    &&& route_run(
                        self.stages@,
                        self.selector,
                        *note,
                        *old(stats),
                        passed,
                        stats_mid,
                        before,
                    )
                    &&& #[trigger] delivered(
                        self.out,
                        passed,
                        stats_mid,
                        *final(stats),
                        before,
                        final(out)@.skip(old(out)@.len() as int),
                    )
                },
    {
        let selector = &self.selector;
        let ghost start = out@;
        let ghost stats0 = *stats;
        let ghost base = start.len() as int;
        let mut current: Option<Note> = Some(*note);
        let mut i: usize = 0;
        assert(self.stages@.take(0) =~= Seq::<Stage>::empty());
        assert(out@.take(base) =~= start);
        while i < self.stages.len()
            invariant
                i <= self.stages@.len(),
                base == start.len(),
                base <= out@.len(),
                out@.take(base) == start,
                route_run(
                    self.stages@.take(i as int),
                    *selector,
                    *note,
                    stats0,
                    current,
                    *stats,
                    out@.skip(base),
                ),
            decreases self.stages@.len() - i,
        {
            let ghost reached = current;
            let ghost stats_mid = *stats;
            let ghost mid = out@;
            let ghost before = out@.skip(base);
            match current {
                Some(n) => {
                    current = Route::pass(&self.stages[i], selector, &n, stats, out);
                },
                None => {},
            }
            proof {
                let next = self.stages@.take(i as int + 1);
                let cmds = out@.skip(base);
                assert(next.drop_last() =~= self.stages@.take(i as int));
                assert(next.last() == self.stages@[i as int]);
                assert(out@.take(base) =~= start) by {
                    assert forall|j: int| 0 <= j < base implies out@.take(base)[j] == start[j] by {
                        assert(out@.take(mid.len() as int)[j] == out@[j]);
                        assert(mid.take(base)[j] == mid[j]);
                    }
                }
                assert(cmds.take(before.len() as int) =~= before) by {
                    assert forall|j: int| 0 <= j < before.len() implies cmds.take(
                        before.len() as int,
                    )[j] == before[j] by {
                        assert(out@.take(mid.len() as int)[base + j] == out@[base + j]);
                    }
                }
                assert(cmds.skip(before.len() as int) =~= out@.skip(mid.len() as int));
                assert(stage_link(
                    next.last(),
                    *selector,
                    reached,
                    stats_mid,
                    before,
                    current,
                    *stats,
                    cmds,
                ));
            }
            i += 1;
        }
        proof {
            assert(self.stages@.take(self.stages@.len() as int) =~= self.stages@);
        }
        let ghost passed = current;
        let ghost stats_mid = *stats;
        let ghost mid = out@;
        match current {
            Some(n) => {
                self.out.take(&n, stats, out);
            },
            None => {},
        }
        proof {
            let before = mid.skip(base);
            let cmds = out@.skip(base);
            assert(out@.take(base) =~= start);
            match passed {
                Some(n) => {
                    assert(cmds =~= before + output_commands(self.out, n, stats_mid.received@));
                },
                None => {
                    assert(cmds =~= before);
                },
            }
            assert(delivered(self.out, passed, stats_mid, *stats, before, cmds));
        }
    }
}


impl MidiNoteSink for Route {
    /// Takes a note as `run` does: through the stages and, if it arrives, to
    /// the output.
    fn receive(&self, note: &Note, stats: &mut NoteStats, out: &mut Vec<Command>)
        ensures
            old(out)@.len() <= final(out)@.len(),
            final(out)@.take(old(out)@.len() as int) == old(out)@,
            exists|passed: Option<Note>, stats_mid: NoteStats, before: Seq<Command>|
                {
                    &&& route_run(
                        self.stages@,
                        self.selector,
                        *note,
                        *old(stats),
                        passed,
                        stats_mid,
                        before,
                    )
                    &&& #[trigger] delivered(
                        self.out,
                        passed,
                        stats_mid,
                        *final(stats),
                        before,
                        final(out)@.skip(old(out)@.len() as int),
                    )
                },
    {
        self.run(note, stats, out);
    }
}


/// The routes to choose from for the Korg, as names of stages.
pub fn routing_korg() -> (r: Vec<Vec<&'static str>>)
    ensures
        r@.len() == 3,
        r@[0]@ == seq!["noteMap", "randomOctaveTop"],
        r@[1]@ == seq!["dropper", "noteMap", "randomOctaveTop"],
        r@[2]@ == seq!["randomNoteMap", "randomOctaveTop"],
{
    vec![
        vec!["noteMap", "randomOctaveTop"],
        vec!["dropper", "noteMap", "randomOctaveTop"],
        vec!["randomNoteMap", "randomOctaveTop"],
    ]
}

/// The routes to choose from for the D-110, as names of stages.
pub fn routing_d110() -> (r: Vec<Vec<&'static str>>)
    ensures
        r@.len() == 3,
        r@[0]@ == seq!["dropper", "noteMap", "randomOctaveBass"],
        r@[1]@ == seq!["notifyingDropper", "noteMap", "randomOctaveBass"],
        r@[2]@ == seq!["notifyingDropper", "randomNoteMap", "randomOctaveMid"],
{
    vec![
        vec!["dropper", "noteMap", "randomOctaveBass"],
        vec!["notifyingDropper", "noteMap", "randomOctaveBass"],
        vec!["notifyingDropper", "randomNoteMap", "randomOctaveMid"],
    ]
}

} // verus!
