//! Integer oscillator arithmetic: where in its cycle an oscillator stands after
//! some elapsed time, which sample of a waveform that selects, and how a sample
//! is mapped onto the value range of a field.

use vstd::prelude::*;

verus! {

/// Level of a waveform sample that stands for the top of the swing.
pub const LEVEL_MAX: u16 = 65535;

/// One full cycle, in the unit that `frequency * time` is counted in:
/// micro-hertz times milliseconds.
pub const CYCLE: u64 = 1_000_000_000;

/// Where in its cycle an oscillator of `freq_uhz` micro-hertz stands after
/// `elapsed_ms` milliseconds, as a count in `0..CYCLE`.
pub open spec fn cycle_position(freq_uhz: u32, elapsed_ms: u64) -> int {
    (freq_uhz as int * elapsed_ms as int) % (CYCLE as int)
}

/// The sample of an `n`-sample waveform that covers cycle position `pos`.
pub open spec fn sample_index(pos: int, n: int) -> int {
    (pos * n) / (CYCLE as int)
}

/// The level that `wave` holds for an oscillator of `freq_uhz` after
/// `elapsed_ms`. Meaningful for a non-empty `wave`.
pub open spec fn level_of(wave: Seq<u16>, freq_uhz: u32, elapsed_ms: u64) -> u16 {
    wave[sample_index(cycle_position(freq_uhz, elapsed_ms), wave.len() as int)]
}

/// `span * level / LEVEL_MAX`, rounded to the nearest integer. `LEVEL_MAX` is
/// odd, so the quotient is never halfway between two integers.
pub open spec fn scaled(span: int, level: int) -> int {
    (2 * span * level + LEVEL_MAX as int) / (2 * (LEVEL_MAX as int))
}

/// The value of a field that swings between `min` and `max` when the waveform
/// stands at `level`: `min` at level 0, `max` at `LEVEL_MAX`, and the nearest
/// integer to the straight line between them elsewhere.
pub open spec fn sweep_value(min: i8, max: i8, level: u16) -> int {
    if min <= max {
        min as int + scaled(max as int - min as int, level as int)
    } else {
        min as int - scaled(min as int - max as int, level as int)
    }
}

/// A scaled span lies between zero and the span, at zero for level 0 and at
/// the span for the top level.
pub proof fn lemma_scaled_bounds(span: int, level: int)
    requires
        0 <= span,
        0 <= level <= LEVEL_MAX,
    ensures
        0 <= scaled(span, level) <= span,
        level == 0 ==> scaled(span, level) == 0,
        level == LEVEL_MAX ==> scaled(span, level) == span,
{
    assert(0 <= 2 * span * level <= 2 * span * 65535) by (nonlinear_arith)
        requires
            0 <= span,
            0 <= level <= 65535,
    ;
    assert(level == 0 ==> 2 * span * level == 0) by (nonlinear_arith);
    assert(level == 65535 ==> 2 * span * level == 2 * span * 65535) by (nonlinear_arith);
    let num = 2 * span * level + 65535;
    assert(scaled(span, level) == num / 131070);
    assert(num <= 131070 * span + 65535);
}

/// A swept value lies less than half a step from the straight line between
/// its bounds: it is the line's value, rounded to the nearest integer.
pub proof fn lemma_sweep_value_nearest(min: i8, max: i8, level: u16)
    ensures
        -(LEVEL_MAX as int) < 2 * ((sweep_value(min, max, level) - min) * LEVEL_MAX - (max - min)
            * level) < LEVEL_MAX as int,
{
    let span = if min <= max {
        max as int - min as int
    } else {
        min as int - max as int
    };
    let q = scaled(span, level as int);
    let num = 2 * span * level + 65535;
    assert(q == num / 131070);
    assert(131070 * q <= num < 131070 * q + 131070);
    let p = span * level;
    assert(2 * span * level == 2 * p) by (nonlinear_arith)
        requires
            p == span * level,
    ;
    assert(2 * p - 131070 * q != -65535) by {
        assert((2 * p - 131070 * q) % 2 == 0);
    }
    assert(2 * (q * 65535 - span * level) == 131070 * q - 2 * p) by (nonlinear_arith)
        requires
            p == span * level,
    ;
    if min <= max {
        assert((sweep_value(min, max, level) - min) * 65535 - (max - min) * level == q * 65535
            - span * level) by (nonlinear_arith)
            requires
                sweep_value(min, max, level) - min == q,
                max - min == span,
        ;
    } else {
        assert((sweep_value(min, max, level) - min) * 65535 - (max - min) * level == -(q * 65535
            - span * level)) by (nonlinear_arith)
            requires
                sweep_value(min, max, level) - min == -q,
                max - min == -span,
        ;
    }
}

/// A swept value never leaves the closed range between its two bounds, and it
/// reaches each bound at the matching extreme of the waveform.
pub proof fn lemma_sweep_value_bounds(min: i8, max: i8, level: u16)
    ensures
        min <= max ==> min <= sweep_value(min, max, level) <= max,
        max <= min ==> max <= sweep_value(min, max, level) <= min,
        level == 0 ==> sweep_value(min, max, level) == min,
        level == LEVEL_MAX ==> sweep_value(min, max, level) == max,
{
    if min <= max {
        lemma_scaled_bounds(max as int - min as int, level as int);
    } else {
        lemma_scaled_bounds(min as int - max as int, level as int);
    }
}

/// Computes `sweep_value`.
pub fn next_val_from(min: i8, max: i8, level: u16) -> (r: i8)
    ensures
        r == sweep_value(min, max, level),
{
    proof {
        lemma_sweep_value_bounds(min, max, level);
    }
    let lo: i32 = min as i32;
    let hi: i32 = max as i32;
    let l: i32 = level as i32;
    if lo <= hi {
        let span: i32 = hi - lo;
        assert(0 <= 2 * span * l <= 2 * 255 * 65535) by (nonlinear_arith)
            requires
                0 <= span <= 255,
                0 <= l <= 65535,
        ;
        let step: i32 = (2 * span * l + 65535) / 131070;
        (lo + step) as i8
    } else {
        let span: i32 = lo - hi;
        assert(0 <= 2 * span * l <= 2 * 255 * 65535) by (nonlinear_arith)
            requires
                0 <= span <= 255,
                0 <= l <= 65535,
        ;
        let step: i32 = (2 * span * l + 65535) / 131070;
        (lo - step) as i8
    }
}

/// One period of an oscillation, as equally spaced samples. A sample is a level
/// between 0, the bottom of the swing, and `LEVEL_MAX`, its top.
pub struct Waveform {
    samples: Vec<u16>,
}

impl View for Waveform {
    type V = Seq<u16>;

    closed spec fn view(&self) -> Seq<u16> {
        self.samples@
    }
}

impl Waveform {
    /// A waveform always holds at least one sample.
    #[verifier::type_invariant]
    closed spec fn inv(&self) -> bool {
        self.samples@.len() > 0
    }

    /// Takes one period of samples; there is no waveform without samples.
    pub fn new(samples: Vec<u16>) -> (r: Option<Waveform>)
        ensures
            samples@.len() == 0 <==> r is None,
            r matches Some(w) ==> w@ == samples@,
    {
        if samples.len() == 0 {
            None
        } else {
            Some(Waveform { samples })
        }
    }

    /// The level at which an oscillator of `freq_uhz` micro-hertz stands after
    /// `elapsed_ms` milliseconds.
    pub fn level_at(&self, freq_uhz: u32, elapsed_ms: u64) -> (r: u16)
        ensures
            r == level_of(self@, freq_uhz, elapsed_ms),
    {
        proof {
            use_type_invariant(self);
        }
        let n: u128 = self.samples.len() as u128;
        assert(freq_uhz as u128 * elapsed_ms as u128 <= 0xffff_ffff * 0xffff_ffff_ffff_ffff)
            by (nonlinear_arith);
        let product: u128 = freq_uhz as u128 * elapsed_ms as u128;
        let pos: u128 = product % (CYCLE as u128);
        assert(pos * n < 1_000_000_000 * n) by (nonlinear_arith)
            requires
                0 <= pos < 1_000_000_000,
                0 < n,
        ;
        assert(1_000_000_000 * n <= 1_000_000_000 * 0xffff_ffff_ffff_ffff) by (nonlinear_arith)
            requires
                n <= 0xffff_ffff_ffff_ffff,
        ;
        let idx: u128 = (pos * n) / (CYCLE as u128);
        assert(idx < n) by (nonlinear_arith)
            requires
                idx == (pos * n) / 1_000_000_000,
                pos * n < 1_000_000_000 * n,
                0 < n,
        ;
        self.samples[idx as usize]
    }
}


/// The time that all oscillators of a session run on: the milliseconds since
/// the session began, which never run backwards.
pub struct SweepClock {
    elapsed_ms: u64,
}

impl View for SweepClock {
    type V = u64;

    /// The milliseconds elapsed.
    closed spec fn view(&self) -> u64 {
        self.elapsed_ms
    }
}

impl SweepClock {
    /// A clock that stands at the beginning.
    pub fn new() -> (c: SweepClock)
        ensures
            c@ == 0,
    {
        SweepClock { elapsed_ms: 0 }
    }

    /// The milliseconds elapsed.
    pub fn elapsed(&self) -> (ms: u64)
        ensures
            ms == self@,
    {
        self.elapsed_ms
    }

    /// Takes a reading of the time source and gives the time to evaluate at:
    /// the reading, or the time the clock stands at already where the
    /// reading lies before it.
    pub fn advance(&mut self, reading_ms: u64) -> (now: u64)
        ensures
            now == final(self)@,
            final(self)@ >= old(self)@,
            final(self)@ == (if reading_ms >= old(self)@ {
                reading_ms
            } else {
                old(self)@
            }),
    {
        if reading_ms > self.elapsed_ms {
            self.elapsed_ms = reading_ms;
        }
        self.elapsed_ms
    }

    /// Where in its cycle an oscillator of `freq_uhz` micro-hertz stands at
    /// the clock's time.
    pub fn phase(&self, freq_uhz: u32) -> (pos: u64)
        ensures
            pos == cycle_position(freq_uhz, self@),
            pos < CYCLE,
    {
        assert(freq_uhz as u128 * self.elapsed_ms as u128 <= 0xffff_ffff * 0xffff_ffff_ffff_ffff)
            by (nonlinear_arith);
        ((freq_uhz as u128 * self.elapsed_ms as u128) % (CYCLE as u128)) as u64
    }
}

} // verus!
