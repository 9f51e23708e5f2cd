//! The automation engine: tables of fields, the state that the swept fields
//! keep between ticks, and the evaluation of a table into a message composer.

use crate::rng::random_below;
use crate::wave::{level_of, next_val_from, sweep_value, Waveform};
use vstd::prelude::*;
use vstd::string::*;

verus! {

/// How one field of a message gets its value on each tick.
#[derive(Clone, Copy, Debug)]
pub enum Updater {
    /// Always the given value.
    Const(&'static str, i8),
    /// The given value in the inverse slot of a pair, zero in the normal slot.
    PairedInverseConst(&'static str, i8),
    /// Swings between a lower and an upper bound.
    Sweep(&'static str, i8, i8),
    /// One half of a pair on one oscillator: the normal slot swings between
    /// zero and the given maximum, the inverse slot is its complement.
    PairedInverseSweep(&'static str, i8),
    /// The selector's value for the slot that the name ends in; the slot is
    /// drawn again when the watched key falls to zero. The flag asks for two
    /// bytes.
    SelectOnZero(&'static str, &'static str, bool),
}

/// Which half of a pair a table instance is.
#[derive(Clone, Copy, Debug, PartialEq, Eq, Structural)]
pub enum PairRole {
    /// The driving half.
    Normal,
    /// The derived half.
    Inverse,
}

/// Why a table cannot be evaluated under a prefix.
#[derive(Clone, Copy, Debug, PartialEq, Eq, Structural)]
pub enum ConfigurationError {
    /// A paired sweep stands in a table whose prefix names no slot.
    UnpairedField,
    /// A selecting field has a name that names no slot.
    UnnumberedSelect,
    /// An inverse half is evaluated before its pair's oscillator exists.
    InverseBeforeNormal,
    /// The name of a program leaves too little room for the program's fields.
    NameTooLong,
}

/// The low eight bits of `v`, in two's complement.
pub open spec fn byte_of(v: int) -> u8 {
    (v % 256) as u8
}

/// The bytes that stand for a sixteen-bit value: low byte, then high byte.
pub open spec fn double_byte(d: i16) -> Seq<u8> {
    seq![byte_of(d as int), byte_of(d as int / 256)]
}

/// One byte per character: the low eight bits of its code.
pub open spec fn name_bytes(s: Seq<char>) -> Seq<u8> {
    Seq::new(s.len(), |i: int| byte_of(s[i] as int))
}

/// The decimal digit that `s` ends in.
pub open spec fn trailing_digit(s: Seq<char>) -> Option<u8> {
    if s.len() > 0 && 48 <= s.last() as int <= 57 {
        Some((s.last() as int - 48) as u8)
    } else {
        None
    }
}

/// The characters of a prefix, where there is one.
pub open spec fn prefix_view(prefix: Option<&str>) -> Option<Seq<char>> {
    match prefix {
        Some(p) => Some(p@),
        None => None,
    }
}

/// The half of a pair that a prefix stands for: an odd trailing digit is the
/// normal half, an even one the inverse half.
pub open spec fn slot_role(prefix: Option<Seq<char>>) -> Option<PairRole> {
    match prefix {
        Some(p) => match trailing_digit(p) {
            Some(d) => Some(
                if d % 2 == 0 {
                    PairRole::Inverse
                } else {
                    PairRole::Normal
                },
            ),
            None => None,
        },
        None => None,
    }
}

/// The key under which a field keeps its state: its name, or prefix,
/// underscore and name.
pub open spec fn full_key(prefix: Option<Seq<char>>, name: Seq<char>) -> Seq<char> {
    match prefix {
        Some(p) => p + "_"@ + name,
        None => name,
    }
}

/// Accumulates field values into one device-specific frame.
pub trait SysExComposer {
    /// The composer is in a state its methods keep.
    spec fn wf(&self) -> bool;

    /// The bytes appended so far, in order.
    spec fn payload(&self) -> Seq<u8>;

    /// How many more bytes the frame can take.
    spec fn room(&self) -> nat;

    /// Appends one value.
    fn data(&mut self, d: i8)
        requires
            old(self).wf(),
            old(self).room() >= 1,
        ensures
            final(self).wf(),
            final(self).payload() == old(self).payload().push(byte_of(d as int)),
            final(self).room() == old(self).room() - 1,
    ;

    /// Appends a sixteen-bit value, low byte first.
    fn data_double_byte(&mut self, d: i16)
        requires
            old(self).wf(),
            old(self).room() >= 2,
        ensures
            final(self).wf(),
            final(self).payload() == old(self).payload() + double_byte(d),
            final(self).room() == old(self).room() - 2,
    ;

    /// Appends the characters of a name, one byte each.
    fn name(&mut self, n: &str)
        requires
            old(self).wf(),
            old(self).room() >= n@.len(),
        ensures
            final(self).wf(),
            final(self).payload() == old(self).payload() + name_bytes(n@),
            final(self).room() == old(self).room() - n@.len(),
    ;
}

/// A source of discrete choices in two slots, each of which can be drawn again
/// on its own. Slot 1 is the first; every other index means the second.
pub trait Selector {
    /// Both slots hold a choice from the selector's domain.
    spec fn wf(&self) -> bool;

    /// What identifies the choice held in the first or in the second slot.
    spec fn slot(&self, first: bool) -> int;

    /// The value that stands for the choice of slot `idx`.
    spec fn spec_val(&self, idx: u8) -> u16;

    /// Draws the first slot again.
    fn next1(&mut self)
        requires
            old(self).wf(),
        ensures
            final(self).wf(),
            final(self).slot(false) == old(self).slot(false),
            forall|i: u8| i != 1 ==> final(self).spec_val(i) == old(self).spec_val(i),
    ;

    /// Draws the second slot again.
    fn next2(&mut self)
        requires
            old(self).wf(),
        ensures
            final(self).wf(),
            final(self).slot(true) == old(self).slot(true),
            final(self).spec_val(1) == old(self).spec_val(1),
    ;

    /// The value of slot `idx`.
    fn val(&self, idx: u8) -> (r: u16)
        ensures
            r == self.spec_val(idx),
    ;
}

/// What a swept key keeps between ticks.
#[derive(Clone, Copy, Debug)]
pub struct SweepState {
    /// The value of the last evaluation.
    pub val: i8,
    /// The value of the evaluation before that.
    pub prev_val: i8,
    /// The frequency of the key's oscillator, in micro-hertz.
    pub freq_uhz: u32,
}

impl SweepState {
    /// A fresh state: no earlier value differs from the first.
    pub fn from(val: i8, freq_uhz: u32) -> (r: SweepState)
        ensures
            r == (SweepState { val, prev_val: val, freq_uhz }),
    {
        SweepState { val, prev_val: val, freq_uhz }
    }

    /// The state after one more evaluation: the frequency stays.
    pub fn updated_from(previous: &SweepState, val: i8) -> (r: SweepState)
        ensures
            r == (SweepState { val, prev_val: previous.val, freq_uhz: previous.freq_uhz }),
    {
        SweepState { val, prev_val: previous.val, freq_uhz: previous.freq_uhz }
    }

    /// The value has just fallen from nonzero to exactly zero.
    pub open spec fn spec_crossed_zero(&self) -> bool {
        self.val == 0 && self.prev_val != 0
    }

    /// Whether the value has just fallen from nonzero to exactly zero.
    #[verifier::when_used_as_spec(spec_crossed_zero)]
    pub fn crossed_zero(&self) -> (r: bool)
        ensures
            r == self.spec_crossed_zero(),
    {
        self.val == 0 && self.prev_val != 0
    }
}

/// The decimal digit that `s` ends in.
pub fn trailing_digit_of(s: &str) -> (r: Option<u8>)
    ensures
        r == trailing_digit(s@),
{
    let n = s.unicode_len();
    if n == 0 {
        return None;
    }
    let c = s.get_char(n - 1);
    let code: u32 = c as u32;
    if 48 <= code && code <= 57 {
        Some((code - 48) as u8)
    } else {
        None
    }
}

/// The half of a pair that a prefix stands for.
pub fn role_of(prefix: Option<&str>) -> (r: Option<PairRole>)
    ensures
        r == slot_role(prefix_view(prefix)),
{
    match prefix {
        Some(p) => match trailing_digit_of(p) {
            Some(d) => if d % 2 == 0 {
                Some(PairRole::Inverse)
            } else {
                Some(PairRole::Normal)
            },
            None => None,
        },
        None => None,
    }
}

/// The key under which a field keeps its state.
pub fn key_of(prefix: Option<&str>, name: &str) -> (r: String)
    ensures
        r@ == full_key(prefix_view(prefix), name@),
{
    match prefix {
        Some(p) => String::from_str(p).concat("_").concat(name),
        None => String::from_str(name),
    }
}

/// The two's-complement byte of a signed value.
pub fn byte_from(d: i8) -> (r: u8)
    ensures
        r == byte_of(d as int),
{
    if d >= 0 {
        d as u8
    } else {
        (d as i16 + 256) as u8
    }
}


/// The sixteen-bit pattern of a selector's value, read as a signed number.
pub fn signed_from(v: u16) -> (r: i16)
    ensures
        double_byte(r) == seq![(v % 256) as u8, (v / 256) as u8],
        byte_of(r as int) == (v % 256) as u8,
{
    if v < 32768 {
        v as i16
    } else {
        (v as i32 - 65536) as i16
    }
}

/// The eight-bit pattern of a selector's low byte, read as a signed number.
pub fn signed_low_from(v: u16) -> (r: i8)
    ensures
        byte_of(r as int) == (v % 256) as u8,
{
    let low: u16 = v % 256;
    if low < 128 {
        low as i8
    } else {
        (low as i16 - 256) as i8
    }
}

/// Lowest frequency, in micro-hertz, that a new oscillator is given.
pub const FREQ_MIN_UHZ: u32 = 10_000;

/// The frequencies of new oscillators lie below this, in micro-hertz.
pub const FREQ_LIMIT_UHZ: u32 = 20_000;

/// Draws the frequency of a new oscillator: a hundredth to a fiftieth of a
/// hertz.
pub fn random_frequency() -> (f: u32)
    ensures
        FREQ_MIN_UHZ <= f < FREQ_LIMIT_UHZ,
{
    FREQ_MIN_UHZ + random_below(FREQ_LIMIT_UHZ - FREQ_MIN_UHZ)
}

/// `max - val` in eight bits.
pub open spec fn complement(max: i8, val: i8) -> i8 {
    let d = max as int - val as int;
    if d > 127 {
        (d - 256) as i8
    } else if d < -128 {
        (d + 256) as i8
    } else {
        d as i8
    }
}

/// Computes `complement`.
pub fn complement_of(max: i8, val: i8) -> (r: i8)
    ensures
        r == complement(max, val),
{
    let d: i16 = max as i16 - val as i16;
    if d > 127 {
        (d - 256) as i8
    } else if d < -128 {
        (d + 256) as i8
    } else {
        d as i8
    }
}

/// The state of `key` after a swinging field was evaluated on it: a key that
/// is new starts at `max` with frequency `fresh`; a known key keeps its
/// frequency.
pub open spec fn swept_entry(
    st: Map<Seq<char>, SweepState>,
    key: Seq<char>,
    min: i8,
    max: i8,
    fresh: u32,
    elapsed_ms: u64,
    wave: Seq<u16>,
) -> SweepState {
    let freq = if st.contains_key(key) {
        st[key].freq_uhz
    } else {
        fresh
    };
    let before = if st.contains_key(key) {
        st[key].val
    } else {
        max
    };
    SweepState {
        val: sweep_value(min, max, level_of(wave, freq, elapsed_ms)) as i8,
        prev_val: before,
        freq_uhz: freq,
    }
}

/// The state of `key` after a derived value was stored under it: no
/// oscillator runs on a key that is new.
pub open spec fn derived_entry(st: Map<Seq<char>, SweepState>, key: Seq<char>, val: i8)
    -> SweepState {
    if st.contains_key(key) {
        SweepState { val, prev_val: st[key].val, freq_uhz: st[key].freq_uhz }
    } else {
        SweepState { val, prev_val: val, freq_uhz: 0 }
    }
}

struct Entry {
    key: String,
    state: SweepState,
}

spec fn keys_of(entries: Seq<Entry>) -> Seq<Seq<char>> {
    entries.map_values(|e: Entry| e.key@)
}

spec fn view_of(entries: Seq<Entry>) -> Map<Seq<char>, SweepState> {
    Map::new(
        |k: Seq<char>| keys_of(entries).contains(k),
        |k: Seq<char>| entries[keys_of(entries).index_of(k)].state,
    )
}

proof fn lemma_view_at(entries: Seq<Entry>, i: int)
    requires
        keys_of(entries).no_duplicates(),
        0 <= i < entries.len(),
    ensures
        view_of(entries).contains_key(entries[i].key@),
        view_of(entries)[entries[i].key@] == entries[i].state,
{
    let keys = keys_of(entries);
    assert(keys[i] == entries[i].key@);
    assert(keys.contains(entries[i].key@));
    let j = keys.index_of(entries[i].key@);
    assert(keys[j] == keys[i]);
}

proof fn lemma_view_set(entries: Seq<Entry>, i: int, e: Entry)
    requires
        keys_of(entries).no_duplicates(),
        0 <= i < entries.len(),
        e.key@ == entries[i].key@,
    ensures
        keys_of(entries.update(i, e)) == keys_of(entries),
        view_of(entries.update(i, e)) == view_of(entries).insert(e.key@, e.state),
{
    let after = entries.update(i, e);
    assert(keys_of(after) =~= keys_of(entries));
    assert forall|k: Seq<char>| keys_of(entries).contains(k) implies #[trigger] view_of(after)[k]
        == view_of(entries).insert(e.key@, e.state)[k] by {
        let j = keys_of(entries).index_of(k);
        lemma_view_at(entries, j);
        lemma_view_at(after, j);
        if j == i {
        } else {
            assert(keys_of(entries)[j] != keys_of(entries)[i]);
        }
    }
    lemma_view_at(entries, i);
    assert(view_of(after) =~= view_of(entries).insert(e.key@, e.state));
}

proof fn lemma_view_push(entries: Seq<Entry>, e: Entry)
    requires
        keys_of(entries).no_duplicates(),
        !keys_of(entries).contains(e.key@),
    ensures
        keys_of(entries.push(e)).no_duplicates(),
        view_of(entries.push(e)) == view_of(entries).insert(e.key@, e.state),
{
    let after = entries.push(e);
    assert(keys_of(after) =~= keys_of(entries).push(e.key@));
    assert(keys_of(after).no_duplicates());
    assert forall|k: Seq<char>| #[trigger] keys_of(after).contains(k) <==> (keys_of(
        entries,
    ).contains(k) || k == e.key@) by {
        if keys_of(entries).contains(k) {
            let j = keys_of(entries).index_of(k);
            assert(keys_of(after)[j] == k);
        }
        if k == e.key@ {
            assert(keys_of(after)[entries.len() as int] == k);
        }
    }
    assert forall|k: Seq<char>| keys_of(after).contains(k) implies #[trigger] view_of(after)[k]
        == view_of(entries).insert(e.key@, e.state)[k] by {
        let j = keys_of(after).index_of(k);
        lemma_view_at(after, j);
        if j < entries.len() {
            lemma_view_at(entries, j);
        }
    }
    assert(view_of(after) =~= view_of(entries).insert(e.key@, e.state));
}

/// The store of swept keys: what each key's oscillator last gave, and the
/// frequency it runs at.
pub struct PairedUpdater {
    entries: Vec<Entry>,
}

impl View for PairedUpdater {
    type V = Map<Seq<char>, SweepState>;

    closed spec fn view(&self) -> Map<Seq<char>, SweepState> {
        view_of(self.entries@)
    }
}

impl PairedUpdater {
    /// No key occurs twice.
    #[verifier::type_invariant]
    closed spec fn inv(&self) -> bool {
        keys_of(self.entries@).no_duplicates()
    }

    /// A store without keys.
    pub fn new() -> (r: PairedUpdater)
        ensures
            r@ == Map::<Seq<char>, SweepState>::empty(),
    {
        let r = PairedUpdater { entries: Vec::new() };
        assert(keys_of(r.entries@) =~= Seq::<Seq<char>>::empty());
        assert(r@ =~= Map::<Seq<char>, SweepState>::empty());
        r
    }

    fn position(&self, key: &String) -> (r: Option<usize>)
        ensures
            match r {
                Some(i) => i < self.entries@.len() && self.entries@[i as int].key@ == key@,
                None => !keys_of(self.entries@).contains(key@),
            },
    {
        let mut i: usize = 0;
        while i < self.entries.len()
            invariant
                i <= self.entries@.len(),
                forall|j: int| 0 <= j < i ==> keys_of(self.entries@)[j] != key@,
            decreases self.entries@.len() - i,
        {
            if self.entries[i].key == *key {
                return Some(i);
            }
            i += 1;
        }
        None
    }

    /// The state kept under `key`, if the key is known.
    pub fn get(&self, key: &str) -> (r: Option<SweepState>)
        ensures
            r == (if self@.contains_key(key@) {
                Some(self@[key@])
            } else {
                None
            }),
    {
        proof {
            use_type_invariant(self);
        }
        let k = String::from_str(key);
        match self.position(&k) {
            Some(i) => {
                proof {
                    lemma_view_at(self.entries@, i as int);
                }
                Some(self.entries[i].state)
            },
            None => None,
        }
    }

    /// Stores `state` under `key`, in place of what the key held.
    pub fn put(&mut self, key: String, state: SweepState)
        ensures
            final(self)@ == old(self)@.insert(key@, state),
    {
        proof {
            use_type_invariant(&*self);
        }
        let found = self.position(&key);
        let mut taken = PairedUpdater::new();
        core::mem::swap(self, &mut taken);
        let PairedUpdater { entries } = taken;
        let mut entries = entries;
        let e = Entry { key, state };
        match found {
            Some(i) => {
                proof {
                    lemma_view_set(entries@, i as int, e);
                }
                entries.set(i, e);
            },
            None => {
                proof {
                    lemma_view_push(entries@, e);
                }
                entries.push(e);
            },
        }
        *self = PairedUpdater { entries };
    }

    /// Evaluates a swinging field on `key`, with `fresh_freq` as the
    /// frequency of the key's oscillator if the key is new, and gives the new
    /// value.
    pub fn sweep(
        &mut self,
        key: String,
        min: i8,
        max: i8,
        fresh_freq: u32,
        elapsed_ms: u64,
        wave: &Waveform,
    ) -> (r: i8)
        ensures
            final(self)@ == old(self)@.insert(
                key@,
                swept_entry(old(self)@, key@, min, max, fresh_freq, elapsed_ms, wave@),
            ),
            r == swept_entry(old(self)@, key@, min, max, fresh_freq, elapsed_ms, wave@).val,
    {
        let known = self.get(key.as_str());
        let before = match known {
            Some(s) => s,
            None => SweepState::from(max, fresh_freq),
        };
        let level = wave.level_at(before.freq_uhz, elapsed_ms);
        let new_val = next_val_from(min, max, level);
        self.put(key, SweepState::updated_from(&before, new_val));
        new_val
    }

    /// Stores a value that no oscillator of its own drives under `key`.
    pub fn derive(&mut self, key: String, val: i8)
        ensures
            final(self)@ == old(self)@.insert(key@, derived_entry(old(self)@, key@, val)),
    {
        let known = self.get(key.as_str());
        let state = match known {
            Some(s) => SweepState::updated_from(&s, val),
            None => SweepState::from(val, 0),
        };
        self.put(key, state);
    }
}


/// The number of bytes a field adds to a frame.
pub open spec fn field_len(field: Updater) -> nat {
    match field {
        Updater::SelectOnZero(_, _, double) => if double {
            2
        } else {
            1
        },
        _ => 1,
    }
}

/// The number of bytes a table adds to a frame.
pub open spec fn table_len(table: Seq<Updater>) -> nat
    decreases table.len(),
{
    if table.len() == 0 {
        0
    } else {
        table_len(table.drop_last()) + field_len(table.last())
    }
}

/// A field can be evaluated under the prefix: a paired sweep needs a prefix
/// that names a slot, a selecting field a name that does.
pub open spec fn field_valid(field: Updater, prefix: Option<Seq<char>>) -> bool {
    match field {
        Updater::PairedInverseSweep(_, _) => slot_role(prefix) is Some,
        Updater::SelectOnZero(name, _, _) => trailing_digit(name@) is Some,
        _ => true,
    }
}

/// Every field of the table can be evaluated under the prefix.
pub open spec fn table_valid(table: Seq<Updater>, prefix: Option<Seq<char>>) -> bool {
    forall|i: int| 0 <= i < table.len() ==> field_valid(#[trigger] table[i], prefix)
}

/// Under an inverse prefix, the oscillator of every pair in the table exists.
pub open spec fn pairs_ready(
    st: Map<Seq<char>, SweepState>,
    table: Seq<Updater>,
    prefix: Option<Seq<char>>,
) -> bool {
    slot_role(prefix) == Some(PairRole::Inverse) ==> forall|i: int|
        0 <= i < table.len() ==> (#[trigger] table[i] matches Updater::PairedInverseSweep(name, _)
            ==> st.contains_key(name@))
}

/// The key that evaluating a field writes, if it writes one.
pub open spec fn field_key(field: Updater, prefix: Option<Seq<char>>) -> Option<Seq<char>> {
    match field {
        Updater::Sweep(name, _, _) => Some(full_key(prefix, name@)),
        Updater::PairedInverseSweep(name, _) => match slot_role(prefix) {
            Some(PairRole::Normal) => Some(name@),
            Some(PairRole::Inverse) => Some(full_key(prefix, name@)),
            None => None,
        },
        _ => None,
    }
}

/// Every key of `before` is still there in `after`, on the same frequency.
pub open spec fn extends(before: Map<Seq<char>, SweepState>, after: Map<Seq<char>, SweepState>)
    -> bool {
    forall|k: Seq<char>| #[trigger]
        before.contains_key(k) ==> after.contains_key(k) && after[k].freq_uhz
            == before[k].freq_uhz
}

/// `after` is `before` with one slot drawn again: the other slot holds what it
/// held.
pub open spec fn redrawn<T: Selector>(before: T, after: T, first: bool) -> bool {
    &&& after.wf()
    &&& after.slot(!first) == before.slot(!first)
    &&& if first {
        forall|i: u8| i != 1 ==> #[trigger] after.spec_val(i) == before.spec_val(i)
    } else {
        after.spec_val(1) == before.spec_val(1)
    }
}

/// The bytes that a selector's value is sent as.
pub open spec fn selector_bytes(v: u16, double: bool) -> Seq<u8> {
    if double {
        seq![(v % 256) as u8, (v / 256) as u8]
    } else {
        seq![(v % 256) as u8]
    }
}

/// A swinging field was evaluated on `key`: the key's state moved on by one
/// evaluation, on the frequency it has in `st1`, which for a new key is one
/// that `random_frequency` can draw.
pub open spec fn sweep_step(
    st0: Map<Seq<char>, SweepState>,
    st1: Map<Seq<char>, SweepState>,
    key: Seq<char>,
    min: i8,
    max: i8,
    elapsed_ms: u64,
    wave: Seq<u16>,
) -> bool {
    let freq = st1[key].freq_uhz;
    &&& !st0.contains_key(key) ==> FREQ_MIN_UHZ <= freq < FREQ_LIMIT_UHZ
    &&& st1 == st0.insert(key, swept_entry(st0, key, min, max, freq, elapsed_ms, wave))
}

/// The watched key has just fallen from nonzero to exactly zero.
pub open spec fn zero_crossing(st: Map<Seq<char>, SweepState>, watched: Seq<char>) -> bool {
    st.contains_key(watched) && st[watched].spec_crossed_zero()
}

/// What evaluating one field does: the store goes from `st0` to `st1`, the
/// two selectors from `osc0` and `eff0` to `osc1` and `eff1`, and `out` is
/// appended to the frame.
pub open spec fn field_step<O: Selector, E: Selector>(
    field: Updater,
    prefix: Option<Seq<char>>,
    elapsed_ms: u64,
    wave: Seq<u16>,
    st0: Map<Seq<char>, SweepState>,
    osc0: O,
    eff0: E,
    st1: Map<Seq<char>, SweepState>,
    osc1: O,
    eff1: E,
    out: Seq<u8>,
) -> bool {
    match field {
        Updater::Const(_, c) => {
            &&& st1 == st0
            &&& osc1 == osc0
            &&& eff1 == eff0
            &&& out == seq![byte_of(c as int)]
        },
        Updater::PairedInverseConst(_, c) => {
            &&& st1 == st0
            &&& osc1 == osc0
            &&& eff1 == eff0
            &&& out == seq![
                if slot_role(prefix) == Some(PairRole::Inverse) {
                    byte_of(c as int)
                } else {
                    0u8
                },
            ]
        },
        Updater::Sweep(name, min, max) => {
            let key = full_key(prefix, name@);
            &&& sweep_step(st0, st1, key, min, max, elapsed_ms, wave)
            &&& osc1 == osc0
            &&& eff1 == eff0
            &&& out == seq![byte_of(st1[key].val as int)]
        },
        Updater::PairedInverseSweep(name, max) => {
            &&& osc1 == osc0
            &&& eff1 == eff0
            &&& match slot_role(prefix) {
                Some(PairRole::Normal) => {
                    &&& sweep_step(st0, st1, name@, 0, max, elapsed_ms, wave)
                    &&& out == seq![byte_of(st1[name@].val as int)]
                },
                Some(PairRole::Inverse) => {
                    let key = full_key(prefix, name@);
                    let v = complement(max, st0[name@].val);
                    &&& st0.contains_key(name@)
                    &&& st1 == st0.insert(key, derived_entry(st0, key, v))
                    &&& out == seq![byte_of(v as int)]
                },
                None => false,
            }
        },
        Updater::SelectOnZero(name, watched, double) => {
            &&& st1 == st0
            &&& trailing_digit(name@) matches Some(idx)
            &&& if zero_crossing(st0, watched@) {
                redrawn(osc0, osc1, idx == 1) && redrawn(eff0, eff1, idx == 1)
            } else {
                osc1 == osc0 && eff1 == eff0
            }
            &&& out == selector_bytes(osc1.spec_val(idx), double)
        },
    }
}

/// What evaluating a table does, field by field in table order: some
/// sequence of field steps leads from the first state to the last, and `out`
/// is what the steps appended, in order.
pub open spec fn table_run<O: Selector, E: Selector>(
    table: Seq<Updater>,
    prefix: Option<Seq<char>>,
    elapsed_ms: u64,
    wave: Seq<u16>,
    st0: Map<Seq<char>, SweepState>,
    osc0: O,
    eff0: E,
    st1: Map<Seq<char>, SweepState>,
    osc1: O,
    eff1: E,
    out: Seq<u8>,
) -> bool
    decreases table.len(),
{
    if table.len() == 0 {
        st1 == st0 && osc1 == osc0 && eff1 == eff0 && out.len() == 0
    } else {
        let cut = out.len() - field_len(table.last());
        &&& cut >= 0
        &&& exists|stm: Map<Seq<char>, SweepState>, oscm: O, effm: E|
            {
                &&& table_run(
                    table.drop_last(),
                    prefix,
                    elapsed_ms,
                    wave,
                    st0,
                    osc0,
                    eff0,
                    stm,
                    oscm,
                    effm,
                    out.take(cut),
                )
                &&& #[trigger] field_step(
                    table.last(),
                    prefix,
                    elapsed_ms,
                    wave,
                    stm,
                    oscm,
                    effm,
                    st1,
                    osc1,
                    eff1,
                    out.skip(cut),
                )
            }
    }
}

/// The bytes of a table's first fields are among the bytes of the table.
pub proof fn lemma_table_len_take(table: Seq<Updater>, i: int)
    requires
        0 <= i <= table.len(),
    ensures
        table_len(table.take(i)) <= table_len(table),
        i < table.len() ==> table_len(table.take(i + 1)) == table_len(table.take(i)) + field_len(
            table[i],
        ),
        table.take(table.len() as int) == table,
    decreases table.len() - i,
{
    assert(table.take(table.len() as int) =~= table);
    if i < table.len() {
        assert(table.take(i + 1).drop_last() =~= table.take(i));
        assert(table.take(i + 1).last() == table[i]);
        lemma_table_len_take(table, i + 1);
    }
}


/// A run of a table's first fields and a step of its last field make a run of
/// the table.
pub proof fn lemma_table_run_extend<O: Selector, E: Selector>(
    table: Seq<Updater>,
    prefix: Option<Seq<char>>,
    elapsed_ms: u64,
    wave: Seq<u16>,
    st0: Map<Seq<char>, SweepState>,
    osc0: O,
    eff0: E,
    stm: Map<Seq<char>, SweepState>,
    oscm: O,
    effm: E,
    st1: Map<Seq<char>, SweepState>,
    osc1: O,
    eff1: E,
    out: Seq<u8>,
)
    requires
        table.len() > 0,
        out.len() >= field_len(table.last()),
        table_run(
            table.drop_last(),
            prefix,
            elapsed_ms,
            wave,
            st0,
            osc0,
            eff0,
            stm,
            oscm,
            effm,
            out.take(out.len() - field_len(table.last())),
        ),
        field_step(
            table.last(),
            prefix,
            elapsed_ms,
            wave,
            stm,
            oscm,
            effm,
            st1,
            osc1,
            eff1,
            out.skip(out.len() - field_len(table.last())),
        ),
    ensures
        table_run(table, prefix, elapsed_ms, wave, st0, osc0, eff0, st1, osc1, eff1, out),
{
}

impl PairedUpdater {
    /// Evaluates one field under `prefix` at `elapsed_ms` and appends its
    /// value to `sys_ex`.
    pub fn evaluate<S: SysExComposer, O: Selector, E: Selector>(
        &mut self,
        sys_ex: &mut S,
        osc_selector: &mut O,
        effect_selector: &mut E,
        field: Updater,
        prefix: Option<&str>,
        elapsed_ms: u64,
        wave: &Waveform,
    )
        requires
            old(sys_ex).wf(),
            old(sys_ex).room() >= field_len(field),
            old(osc_selector).wf(),
            old(effect_selector).wf(),
            field_valid(field, prefix_view(prefix)),
            pairs_ready(old(self)@, seq![field], prefix_view(prefix)),
        ensures
            final(sys_ex).wf(),
            final(osc_selector).wf(),
            final(effect_selector).wf(),
            final(sys_ex).room() == old(sys_ex).room() - field_len(field),
            final(sys_ex).payload().len() == old(sys_ex).payload().len() + field_len(field),
            final(sys_ex).payload().take(old(sys_ex).payload().len() as int) == old(
                sys_ex,
            ).payload(),
            field_step(
                field,
                prefix_view(prefix),
                elapsed_ms,
                wave@,
                old(self)@,
                *old(osc_selector),
                *old(effect_selector),
                final(self)@,
                *final(osc_selector),
                *final(effect_selector),
                final(sys_ex).payload().skip(old(sys_ex).payload().len() as int),
            ),
            extends(old(self)@, final(self)@),
            field_key(field, prefix_view(prefix)) matches Some(k) ==> final(self)@.contains_key(k),
    {
        let ghost before = sys_ex.payload();
        let ghost n = before.len() as int;
        assert(seq![field][0] == field);
        match field {
            Updater::Const(_, c) => {
                sys_ex.data(c);
                assert(sys_ex.payload().take(n) =~= before);
                assert(sys_ex.payload().skip(n) =~= seq![byte_of(c as int)]);
            },
            Updater::PairedInverseConst(_, c) => {
                let inverse = match role_of(prefix) {
                    Some(PairRole::Inverse) => true,
                    _ => false,
                };
                if inverse {
                    sys_ex.data(c);
                    assert(sys_ex.payload().skip(n) =~= seq![byte_of(c as int)]);
                } else {
                    sys_ex.data(0);
                    assert(sys_ex.payload().skip(n) =~= seq![0u8]);
                }
                assert(sys_ex.payload().take(n) =~= before);
            },
            Updater::Sweep(name, min, max) => {
                let key = key_of(prefix, name);
                let fresh = random_frequency();
                let v = self.sweep(key, min, max, fresh, elapsed_ms, wave);
                sys_ex.data(v);
                assert(sys_ex.payload().take(n) =~= before);
                assert(sys_ex.payload().skip(n) =~= seq![byte_of(v as int)]);
            },
            Updater::PairedInverseSweep(name, max) => {
                match role_of(prefix) {
                    Some(PairRole::Inverse) => {
                        let shared = self.get(name).unwrap();
                        let v = complement_of(max, shared.val);
                        self.derive(key_of(prefix, name), v);
                        sys_ex.data(v);
                        assert(sys_ex.payload().skip(n) =~= seq![byte_of(v as int)]);
                    },
                    _ => {
                        let fresh = random_frequency();
                        let v = self.sweep(
                            String::from_str(name),
                            0,
                            max,
                            fresh,
                            elapsed_ms,
                            wave,
                        );
                        sys_ex.data(v);
                        assert(sys_ex.payload().skip(n) =~= seq![byte_of(v as int)]);
                    },
                }
                assert(sys_ex.payload().take(n) =~= before);
            },
            Updater::SelectOnZero(name, watched, double) => {
                let idx = trailing_digit_of(name).unwrap();
                let crossed = match self.get(watched) {
                    Some(s) => s.crossed_zero(),
                    None => false,
                };
                if crossed {
                    if idx == 1 {
                        osc_selector.next1();
                        effect_selector.next1();
                    } else {
                        osc_selector.next2();
                        effect_selector.next2();
                    }
                }
                let v = osc_selector.val(idx);
                if double {
                    sys_ex.data_double_byte(signed_from(v));
                } else {
                    sys_ex.data(signed_low_from(v));
                }
                assert(sys_ex.payload().take(n) =~= before);
                assert(sys_ex.payload().skip(n) =~= selector_bytes(v, double));
            },
        }
    }

    /// Evaluates a table under `prefix` at `elapsed_ms`, field by field in
    /// table order, and appends one value per field to `sys_ex`.
    pub fn update<S: SysExComposer, O: Selector, E: Selector>(
        &mut self,
        sys_ex: &mut S,
        osc_selector: &mut O,
        effect_selector: &mut E,
        updaters: &[Updater],
        prefix: Option<&str>,
        elapsed_ms: u64,
        wave: &Waveform,
    )
        requires
            old(sys_ex).wf(),
            old(sys_ex).room() >= table_len(updaters@),
            old(osc_selector).wf(),
            old(effect_selector).wf(),
            table_valid(updaters@, prefix_view(prefix)),
            pairs_ready(old(self)@, updaters@, prefix_view(prefix)),
        ensures
            final(sys_ex).wf(),
            final(osc_selector).wf(),
            final(effect_selector).wf(),
            final(sys_ex).room() == old(sys_ex).room() - table_len(updaters@),
            final(sys_ex).payload().len() == old(sys_ex).payload().len() + table_len(updaters@),
            final(sys_ex).payload().take(old(sys_ex).payload().len() as int) == old(
                sys_ex,
            ).payload(),
            table_run(
                updaters@,
                prefix_view(prefix),
                elapsed_ms,
                wave@,
                old(self)@,
                *old(osc_selector),
                *old(effect_selector),
                final(self)@,
                *final(osc_selector),
                *final(effect_selector),
                final(sys_ex).payload().skip(old(sys_ex).payload().len() as int),
            ),
            extends(old(self)@, final(self)@),
            forall|i: int|
                0 <= i < updaters@.len() ==> (field_key(
                    #[trigger] updaters@[i],
                    prefix_view(prefix),
                ) matches Some(k) ==> final(self)@.contains_key(k)),
    {
        let ghost pv = prefix_view(prefix);
        let ghost table = updaters@;
        let ghost st0 = self@;
        let ghost osc0 = *osc_selector;
        let ghost eff0 = *effect_selector;
        let ghost pay0 = sys_ex.payload();
        let ghost room0 = sys_ex.room();
        let ghost base = pay0.len() as int;
        assert(table.take(0) =~= Seq::<Updater>::empty());
        assert(sys_ex.payload().skip(base).len() == 0);
        assert(sys_ex.payload().take(base) =~= pay0);
        let mut i: usize = 0;
        while i < updaters.len()
            invariant
                i <= updaters@.len(),
                table == updaters@,
                pv == prefix_view(prefix),
                base == pay0.len(),
                sys_ex.wf(),
                osc_selector.wf(),
                effect_selector.wf(),
                room0 >= table_len(table),
                sys_ex.room() == room0 - table_len(table.take(i as int)),
                sys_ex.payload().len() == base + table_len(table.take(i as int)),
                sys_ex.payload().take(base) == pay0,
                table_valid(table, pv),
                pairs_ready(st0, table, pv),
                extends(st0, self@),
                forall|j: int|
                    0 <= j < i ==> (field_key(#[trigger] table[j], pv) matches Some(k)
                        ==> self@.contains_key(k)),
                table_run(
                    table.take(i as int),
                    pv,
                    elapsed_ms,
                    wave@,
                    st0,
                    osc0,
                    eff0,
                    self@,
                    *osc_selector,
                    *effect_selector,
                    sys_ex.payload().skip(base),
                ),
            decreases updaters@.len() - i,
        {
            let field = updaters[i];
            let ghost stm = self@;
            let ghost oscm = *osc_selector;
            let ghost effm = *effect_selector;
            let ghost paym = sys_ex.payload();
            proof {
                lemma_table_len_take(table, i as int);
                lemma_table_len_take(table, i as int + 1);
                assert(field_valid(table[i as int], pv));
                assert(seq![field][0] == field);
                assert(pairs_ready(stm, seq![field], pv)) by {
                    if slot_role(pv) == Some(PairRole::Inverse) {
                        if let Updater::PairedInverseSweep(name, _) = table[i as int] {
                            assert(st0.contains_key(name@));
                        }
                    }
                }
            }
            self.evaluate(
                sys_ex,
                osc_selector,
                effect_selector,
                field,
                prefix,
                elapsed_ms,
                wave,
            );
            proof {
                let next = table.take(i as int + 1);
                let out = sys_ex.payload().skip(base);
                let cut = out.len() - field_len(next.last());
                assert(next.drop_last() =~= table.take(i as int));
                assert(next.last() == field);
                assert(cut == paym.len() - base);
                assert(out.take(cut) =~= paym.skip(base)) by {
                    assert(sys_ex.payload().take(paym.len() as int) == paym);
                    assert forall|j: int| 0 <= j < cut implies out.take(cut)[j] == paym.skip(
                        base,
                    )[j] by {
                        assert(sys_ex.payload().take(paym.len() as int)[base + j]
                            == sys_ex.payload()[base + j]);
                    }
                }
                assert(out.skip(cut) =~= sys_ex.payload().skip(paym.len() as int));
                assert(sys_ex.payload().take(base) =~= pay0) by {
                    assert forall|j: int| 0 <= j < base implies sys_ex.payload().take(base)[j]
                        == pay0[j] by {
                        assert(sys_ex.payload().take(paym.len() as int)[j]
                            == sys_ex.payload()[j]);
                        assert(paym.take(base)[j] == paym[j]);
                    }
                }
                assert(table_run(
                    next.drop_last(),
                    pv,
                    elapsed_ms,
                    wave@,
                    st0,
                    osc0,
                    eff0,
                    stm,
                    oscm,
                    effm,
                    out.take(cut),
                ));
                assert(field_step(
                    next.last(),
                    pv,
                    elapsed_ms,
                    wave@,
                    stm,
                    oscm,
                    effm,
                    self@,
                    *osc_selector,
                    *effect_selector,
                    out.skip(cut),
                ));
                lemma_table_run_extend(
                    next,
                    pv,
                    elapsed_ms,
                    wave@,
                    st0,
                    osc0,
                    eff0,
                    stm,
                    oscm,
                    effm,
                    self@,
                    *osc_selector,
                    *effect_selector,
                    out,
                );
            }
            i += 1;
        }
        proof {
            lemma_table_len_take(table, table.len() as int);
        }
    }
}


/// A selector that selects nothing: for devices without choices.
pub struct DummySelector {}

impl DummySelector {
    /// The selector that selects nothing.
    pub fn new() -> (s: DummySelector)
        ensures
            s.wf(),
    {
        DummySelector {  }
    }
}

impl Selector for DummySelector {
    open spec fn wf(&self) -> bool {
        true
    }

    open spec fn slot(&self, first: bool) -> int {
        0
    }

    open spec fn spec_val(&self, idx: u8) -> u16 {
        0
    }

    fn next1(&mut self) {
    }

    fn next2(&mut self) {
    }

    fn val(&self, idx: u8) -> (r: u16) {
        0
    }
}

/// A table adds at least one byte and at most two bytes per field.
pub proof fn lemma_table_len_bounds(table: Seq<Updater>)
    ensures
        table.len() <= table_len(table) <= 2 * table.len(),
    decreases table.len(),
{
    if table.len() > 0 {
        lemma_table_len_bounds(table.drop_last());
    }
}

/// The number of bytes a table adds to a frame.
pub fn encoded_len(table: &[Updater]) -> (r: usize)
    requires
        2 * table@.len() <= usize::MAX,
    ensures
        r == table_len(table@),
{
    let mut r: usize = 0;
    let mut i: usize = 0;
    assert(table@.take(0) =~= Seq::<Updater>::empty());
    while i < table.len()
        invariant
            i <= table@.len(),
            2 * table@.len() <= usize::MAX,
            r == table_len(table@.take(i as int)),
            r <= 2 * i,
        decreases table@.len() - i,
    {
        proof {
            lemma_table_len_take(table@, i as int);
        }
        r = r + match table[i] {
            Updater::SelectOnZero(_, _, double) => if double {
                2
            } else {
                1
            },
            _ => 1,
        };
        i += 1;
    }
    proof {
        lemma_table_len_take(table@, table@.len() as int);
    }
    r
}

/// A paired sweep stands in the table although the prefix names no slot.
pub open spec fn has_unpaired(table: Seq<Updater>, prefix: Option<Seq<char>>) -> bool {
    slot_role(prefix) is None && exists|i: int|
        0 <= i < table.len() && #[trigger] table[i] is PairedInverseSweep
}

/// A selecting field of the table has a name that names no slot.
pub open spec fn has_unnumbered(table: Seq<Updater>) -> bool {
    exists|i: int|
        0 <= i < table.len() && (#[trigger] table[i] matches Updater::SelectOnZero(name, _, _)
            && trailing_digit(name@) is None)
}

/// What keeps a table from being evaluated under a prefix on a store, if
/// anything does.
pub open spec fn table_fault(
    st: Map<Seq<char>, SweepState>,
    table: Seq<Updater>,
    prefix: Option<Seq<char>>,
) -> Option<ConfigurationError> {
    if has_unpaired(table, prefix) {
        Some(ConfigurationError::UnpairedField)
    } else if has_unnumbered(table) {
        Some(ConfigurationError::UnnumberedSelect)
    } else if !pairs_ready(st, table, prefix) {
        Some(ConfigurationError::InverseBeforeNormal)
    } else {
        None
    }
}

/// A table without fault is one that `update` takes.
pub proof fn lemma_no_fault(
    st: Map<Seq<char>, SweepState>,
    table: Seq<Updater>,
    prefix: Option<Seq<char>>,
)
    ensures
        table_fault(st, table, prefix) is None <==> table_valid(table, prefix) && pairs_ready(
            st,
            table,
            prefix,
        ),
{
    if table_valid(table, prefix) {
        if has_unpaired(table, prefix) {
            let i = choose|i: int| 0 <= i < table.len() && #[trigger] table[i] is PairedInverseSweep;
            assert(field_valid(table[i], prefix));
        }
        if has_unnumbered(table) {
            let i = choose|i: int|
                0 <= i < table.len() && (#[trigger] table[i] matches Updater::SelectOnZero(
                    name,
                    _,
                    _,
                ) && trailing_digit(name@) is None);
            assert(field_valid(table[i], prefix));
        }
    }
    if !has_unpaired(table, prefix) && !has_unnumbered(table) {
        assert forall|i: int| 0 <= i < table.len() implies field_valid(
            #[trigger] table[i],
            prefix,
        ) by {
            match table[i] {
                Updater::PairedInverseSweep(_, _) => {
                    assert(table[i] is PairedInverseSweep);
                },
                Updater::SelectOnZero(name, _, _) => {
                    assert(table[i] matches Updater::SelectOnZero(name, _, _));
                },
                _ => {},
            }
        }
    }
}

/// The state of the store as a list: every key once, with its value.
pub open spec fn is_snapshot(list: Seq<(String, i8)>, st: Map<Seq<char>, SweepState>) -> bool {
    &&& forall|i: int|
        0 <= i < list.len() ==> st.contains_key(#[trigger] list[i].0@) && st[list[i].0@].val
            == list[i].1
    &&& forall|k: Seq<char>| #[trigger]
        st.contains_key(k) ==> exists|i: int| 0 <= i < list.len() && #[trigger] list[i].0@ == k
    &&& forall|i: int, j: int|
        0 <= i < j < list.len() ==> #[trigger] list[i].0@ != #[trigger] list[j].0@
}

impl PairedUpdater {
    /// Every key of the store with its current value.
    pub fn snapshot(&self) -> (r: Vec<(String, i8)>)
        ensures
            is_snapshot(r@, self@),
    {
        proof {
            use_type_invariant(self);
        }
        let mut r: Vec<(String, i8)> = Vec::new();
        let mut i: usize = 0;
        while i < self.entries.len()
            invariant
                i <= self.entries@.len(),
                r@.len() == i,
                keys_of(self.entries@).no_duplicates(),
                forall|j: int|
                    0 <= j < i ==> (#[trigger] r@[j]).0@ == self.entries@[j].key@ && r@[j].1
                        == self.entries@[j].state.val,
            decreases self.entries@.len() - i,
        {
            r.push((self.entries[i].key.clone(), self.entries[i].state.val));
            i += 1;
        }
        proof {
            let keys = keys_of(self.entries@);
            assert forall|j: int| 0 <= j < r@.len() implies self@.contains_key(
                #[trigger] r@[j].0@,
            ) && self@[r@[j].0@].val == r@[j].1 by {
                lemma_view_at(self.entries@, j);
            }
            assert forall|k: Seq<char>| #[trigger] self@.contains_key(k) implies exists|j: int|
                0 <= j < r@.len() && #[trigger] r@[j].0@ == k by {
                let j = keys.index_of(k);
                assert(r@[j].0@ == k);
            }
            assert forall|a: int, b: int| 0 <= a < b < r@.len() implies #[trigger] r@[a].0@
                != #[trigger] r@[b].0@ by {
                assert(keys[a] != keys[b]);
            }
        }
        r
    }

    /// What keeps `updaters` from being evaluated under `prefix` on this
    /// store, if anything does.
    pub fn check(&self, updaters: &[Updater], prefix: Option<&str>) -> (r: Result<
        (),
        ConfigurationError,
    >)
        ensures
            r == (match table_fault(self@, updaters@, prefix_view(prefix)) {
                Some(e) => Err::<(), ConfigurationError>(e),
                None => Ok::<(), ConfigurationError>(()),
            }),
    {
        let role = role_of(prefix);
        let ghost pv = prefix_view(prefix);
        let ghost table = updaters@;
        let mut unnumbered = false;
        let mut unready = false;
        let mut i: usize = 0;
        while i < updaters.len()
            invariant
                i <= updaters@.len(),
                table == updaters@,
                pv == prefix_view(prefix),
                role == slot_role(pv),
                role is None ==> forall|j: int|
                    0 <= j < i ==> !(#[trigger] table[j] is PairedInverseSweep),
                unnumbered <==> exists|j: int|
                    0 <= j < i && (#[trigger] table[j] matches Updater::SelectOnZero(name, _, _)
                        && trailing_digit(name@) is None),
                unready <==> role == Some(PairRole::Inverse) && exists|j: int|
                    0 <= j < i && (#[trigger] table[j] matches Updater::PairedInverseSweep(
                        name,
                        _,
                    ) && !self@.contains_key(name@)),
            decreases updaters@.len() - i,
        {
            match updaters[i] {
                Updater::PairedInverseSweep(name, _) => {
                    match role {
                        None => {
                            assert(table[i as int] is PairedInverseSweep);
                            return Err(ConfigurationError::UnpairedField);
                        },
                        Some(PairRole::Inverse) => {
                            if self.get(name).is_none() {
                                unready = true;
                            }
                        },
                        Some(PairRole::Normal) => {},
                    }
                },
                Updater::SelectOnZero(name, _, _) => {
                    if trailing_digit_of(name).is_none() {
                        unnumbered = true;
                    }
                },
                _ => {},
            }
            i += 1;
        }
        if unnumbered {
            Err(ConfigurationError::UnnumberedSelect)
        } else if unready {
            Err(ConfigurationError::InverseBeforeNormal)
        } else {
            Ok(())
        }
    }

    /// Evaluates a table as `update` does, if it can be evaluated; says why
    /// and changes nothing if it cannot.
    pub fn try_update<S: SysExComposer, O: Selector, E: Selector>(
        &mut self,
        sys_ex: &mut S,
        osc_selector: &mut O,
        effect_selector: &mut E,
        updaters: &[Updater],
        prefix: Option<&str>,
        elapsed_ms: u64,
        wave: &Waveform,
    ) -> (r: Result<(), ConfigurationError>)
        requires
            old(sys_ex).wf(),
            old(sys_ex).room() >= table_len(updaters@),
            old(osc_selector).wf(),
            old(effect_selector).wf(),
        ensures
            final(sys_ex).wf(),
            final(osc_selector).wf(),
            final(effect_selector).wf(),
            r == (match table_fault(old(self)@, updaters@, prefix_view(prefix)) {
                Some(e) => Err::<(), ConfigurationError>(e),
                None => Ok::<(), ConfigurationError>(()),
            }),
            r is Err ==> final(self)@ == old(self)@ && *final(sys_ex) == *old(sys_ex),
            r is Err ==> *final(osc_selector) == *old(osc_selector) && *final(effect_selector)
                == *old(effect_selector),
            r is Ok ==> final(sys_ex).payload().len() == old(sys_ex).payload().len() + table_len(
                updaters@,
            ) && table_run(
                updaters@,
                prefix_view(prefix),
                elapsed_ms,
                wave@,
                old(self)@,
                *old(osc_selector),
                *old(effect_selector),
                final(self)@,
                *final(osc_selector),
                *final(effect_selector),
                final(sys_ex).payload().skip(old(sys_ex).payload().len() as int),
            ),
    {
        proof {
            lemma_no_fault(self@, updaters@, prefix_view(prefix));
        }
        match self.check(updaters, prefix) {
            Err(e) => Err(e),
            Ok(_) => {
                self.update(
                    sys_ex,
                    osc_selector,
                    effect_selector,
                    updaters,
                    prefix,
                    elapsed_ms,
                    wave,
                );
                Ok(())
            },
        }
    }
}

} // verus!
