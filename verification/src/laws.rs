//! What holds of every evaluation of a field, whatever the oscillators and the
//! random draws do.

use crate::modulation::{
    byte_of, complement, extends, field_len, field_step, full_key, slot_role, swept_entry,
    table_len, table_run, zero_crossing, PairRole, Selector, SweepState, Updater,
};
use crate::wave::{level_of, lemma_sweep_value_bounds, sweep_value, LEVEL_MAX};
use vstd::prelude::*;

verus! {

/// The signed value that a byte stands for in two's complement.
pub open spec fn signed_of(b: u8) -> int {
    if b < 128 {
        b as int
    } else {
        b as int - 256
    }
}

/// A signed value is read back from its byte.
pub proof fn lemma_signed_of_byte(v: i8)
    ensures
        signed_of(byte_of(v as int)) == v,
{
}

/// On every tick, the value that a swinging field emits and keeps lies between
/// its two bounds, both included; it is the upper bound where the waveform
/// stands at its top and the lower bound where it stands at its bottom.
pub proof fn law_sweep_within_bounds<O: Selector, E: Selector>(
    name: &'static str,
    min: i8,
    max: i8,
    prefix: Option<Seq<char>>,
    elapsed_ms: u64,
    wave: Seq<u16>,
    st0: Map<Seq<char>, SweepState>,
    osc0: O,
    eff0: E,
    st1: Map<Seq<char>, SweepState>,
    osc1: O,
    eff1: E,
    out: Seq<u8>,
)
    requires
        min <= max,
        field_step(
            Updater::Sweep(name, min, max),
            prefix,
            elapsed_ms,
            wave,
            st0,
            osc0,
            eff0,
            st1,
            osc1,
            eff1,
            out,
        ),
    ensures
        out.len() == 1,
        min <= signed_of(out[0]) <= max,
        st1.contains_key(full_key(prefix, name@)),
        st1[full_key(prefix, name@)].val == signed_of(out[0]),
        level_of(wave, st1[full_key(prefix, name@)].freq_uhz, elapsed_ms) == LEVEL_MAX
            ==> signed_of(out[0]) == max,
        level_of(wave, st1[full_key(prefix, name@)].freq_uhz, elapsed_ms) == 0 ==> signed_of(
            out[0],
        ) == min,
{
    let key = full_key(prefix, name@);
    let freq = st1[key].freq_uhz;
    let level = level_of(wave, freq, elapsed_ms);
    lemma_sweep_value_bounds(min, max, level);
    let e = swept_entry(st0, key, min, max, freq, elapsed_ms, wave);
    assert(st1[key] == e);
    assert(e.freq_uhz == freq);
    assert(e.val == sweep_value(min, max, level));
    lemma_signed_of_byte(e.val);
}

/// The two halves of a pair are exact complements: when the inverse half is
/// evaluated after the normal half, the two emitted values add up to the
/// pair's maximum, and so do the two values kept in the store.
pub proof fn law_pair_sums_to_max<O: Selector, E: Selector>(
    name: &'static str,
    max: i8,
    normal_prefix: Option<Seq<char>>,
    inverse_prefix: Option<Seq<char>>,
    elapsed_ms: u64,
    wave: Seq<u16>,
    st0: Map<Seq<char>, SweepState>,
    st1: Map<Seq<char>, SweepState>,
    st2: Map<Seq<char>, SweepState>,
    osc: O,
    eff: E,
    normal_out: Seq<u8>,
    inverse_out: Seq<u8>,
)
    requires
        slot_role(normal_prefix) == Some(PairRole::Normal),
        slot_role(inverse_prefix) == Some(PairRole::Inverse),
        field_step(
            Updater::PairedInverseSweep(name, max),
            normal_prefix,
            elapsed_ms,
            wave,
            st0,
            osc,
            eff,
            st1,
            osc,
            eff,
            normal_out,
        ),
        field_step(
            Updater::PairedInverseSweep(name, max),
            inverse_prefix,
            elapsed_ms,
            wave,
            st1,
            osc,
            eff,
            st2,
            osc,
            eff,
            inverse_out,
        ),
    ensures
        normal_out.len() == 1,
        inverse_out.len() == 1,
        signed_of(normal_out[0]) + signed_of(inverse_out[0]) == max,
        st2[name@].val + st2[full_key(inverse_prefix, name@)].val == max,
{
    let freq = st1[name@].freq_uhz;
    let level = level_of(wave, freq, elapsed_ms);
    lemma_sweep_value_bounds(0, max, level);
    let e = swept_entry(st0, name@, 0, max, freq, elapsed_ms, wave);
    assert(st1[name@] == e);
    assert(e.val == sweep_value(0, max, level));
    let v = complement(max, e.val);
    assert(v == max - e.val);
    lemma_signed_of_byte(e.val);
    lemma_signed_of_byte(v);
    let key = full_key(inverse_prefix, name@);
    assert(key.len() == inverse_prefix->0.len() + "_"@.len() + name@.len());
    assert(key != name@) by {
        if key == name@ {
            assert(inverse_prefix->0.len() > 0);
        }
    }
}

/// A selector's slot is drawn again only on a tick where the watched key
/// stands at zero and stood elsewhere before. On every other tick, a tick on
/// which the key stays at zero included, both selectors are what they were.
pub proof fn law_select_only_on_crossing<O: Selector, E: Selector>(
    name: &'static str,
    watched: &'static str,
    double: bool,
    prefix: Option<Seq<char>>,
    elapsed_ms: u64,
    wave: Seq<u16>,
    st0: Map<Seq<char>, SweepState>,
    osc0: O,
    eff0: E,
    st1: Map<Seq<char>, SweepState>,
    osc1: O,
    eff1: E,
    out: Seq<u8>,
)
    requires
        field_step(
            Updater::SelectOnZero(name, watched, double),
            prefix,
            elapsed_ms,
            wave,
            st0,
            osc0,
            eff0,
            st1,
            osc1,
            eff1,
            out,
        ),
    ensures
        osc1 != osc0 || eff1 != eff0 ==> st0.contains_key(watched@) && st0[watched@].val == 0
            && st0[watched@].prev_val != 0,
        !zero_crossing(st0, watched@) ==> osc1 == osc0 && eff1 == eff0,
        st0.contains_key(watched@) && st0[watched@].val == 0 && st0[watched@].prev_val == 0
            ==> osc1 == osc0 && eff1 == eff0,
        osc1.slot(true) == osc0.slot(true) || osc1.slot(false) == osc0.slot(false),
        eff1.slot(true) == eff0.slot(true) || eff1.slot(false) == eff0.slot(false),
        st1 == st0,
{
}

/// No field but a selecting one touches the selectors.
pub proof fn law_selectors_kept<O: Selector, E: Selector>(
    field: Updater,
    prefix: Option<Seq<char>>,
    elapsed_ms: u64,
    wave: Seq<u16>,
    st0: Map<Seq<char>, SweepState>,
    osc0: O,
    eff0: E,
    st1: Map<Seq<char>, SweepState>,
    osc1: O,
    eff1: E,
    out: Seq<u8>,
)
    requires
        !(field is SelectOnZero),
        field_step(field, prefix, elapsed_ms, wave, st0, osc0, eff0, st1, osc1, eff1, out),
    ensures
        osc1 == osc0,
        eff1 == eff0,
{
}


/// Evaluating a field removes no key and changes no key's frequency: a
/// frequency, once drawn, stays for good.
pub proof fn law_step_keeps_frequencies<O: Selector, E: Selector>(
    field: Updater,
    prefix: Option<Seq<char>>,
    elapsed_ms: u64,
    wave: Seq<u16>,
    st0: Map<Seq<char>, SweepState>,
    osc0: O,
    eff0: E,
    st1: Map<Seq<char>, SweepState>,
    osc1: O,
    eff1: E,
    out: Seq<u8>,
)
    requires
        field_step(field, prefix, elapsed_ms, wave, st0, osc0, eff0, st1, osc1, eff1, out),
    ensures
        extends(st0, st1),
        out.len() == field_len(field),
{
}

/// Evaluating a table removes no key and changes no key's frequency.
pub proof fn law_run_keeps_frequencies<O: Selector, E: Selector>(
    table: Seq<Updater>,
    prefix: Option<Seq<char>>,
    elapsed_ms: u64,
    wave: Seq<u16>,
    st0: Map<Seq<char>, SweepState>,
    osc0: O,
    eff0: E,
    st1: Map<Seq<char>, SweepState>,
    osc1: O,
    eff1: E,
    out: Seq<u8>,
)
    requires
        table_run(table, prefix, elapsed_ms, wave, st0, osc0, eff0, st1, osc1, eff1, out),
    ensures
        extends(st0, st1),
    decreases table.len(),
{
    if table.len() > 0 {
        let cut = out.len() - field_len(table.last());
        let (stm, oscm, effm) = choose|stm: Map<Seq<char>, SweepState>, oscm: O, effm: E|
            {
                &&& table_run(
                    table.drop_last(),
                    prefix,
                    elapsed_ms,
                    wave,
                    st0,
                    osc0,
                    eff0,
                    stm,
                    oscm,
                    effm,
                    out.take(cut),
                )
                &&& #[trigger] field_step(
                    table.last(),
                    prefix,
                    elapsed_ms,
                    wave,
                    stm,
                    oscm,
                    effm,
                    st1,
                    osc1,
                    eff1,
                    out.skip(cut),
                )
            };
        law_run_keeps_frequencies(
            table.drop_last(),
            prefix,
            elapsed_ms,
            wave,
            st0,
            osc0,
            eff0,
            stm,
            oscm,
            effm,
            out.take(cut),
        );
        law_step_keeps_frequencies(
            table.last(),
            prefix,
            elapsed_ms,
            wave,
            stm,
            oscm,
            effm,
            st1,
            osc1,
            eff1,
            out.skip(cut),
        );
    }
}

/// A table without selecting fields leaves both selectors as they were.
pub proof fn law_run_keeps_selectors<O: Selector, E: Selector>(
    table: Seq<Updater>,
    prefix: Option<Seq<char>>,
    elapsed_ms: u64,
    wave: Seq<u16>,
    st0: Map<Seq<char>, SweepState>,
    osc0: O,
    eff0: E,
    st1: Map<Seq<char>, SweepState>,
    osc1: O,
    eff1: E,
    out: Seq<u8>,
)
    requires
        forall|i: int| 0 <= i < table.len() ==> !(#[trigger] table[i] is SelectOnZero),
        table_run(table, prefix, elapsed_ms, wave, st0, osc0, eff0, st1, osc1, eff1, out),
    ensures
        osc1 == osc0,
        eff1 == eff0,
    decreases table.len(),
{
    if table.len() > 0 {
        let cut = out.len() - field_len(table.last());
        let (stm, oscm, effm) = choose|stm: Map<Seq<char>, SweepState>, oscm: O, effm: E|
            {
                &&& table_run(
                    table.drop_last(),
                    prefix,
                    elapsed_ms,
                    wave,
                    st0,
                    osc0,
                    eff0,
                    stm,
                    oscm,
                    effm,
                    out.take(cut),
                )
                &&& #[trigger] field_step(
                    table.last(),
                    prefix,
                    elapsed_ms,
                    wave,
                    stm,
                    oscm,
                    effm,
                    st1,
                    osc1,
                    eff1,
                    out.skip(cut),
                )
            };
        assert forall|i: int| 0 <= i < table.drop_last().len() implies !(
        #[trigger] table.drop_last()[i] is SelectOnZero) by {
            assert(table.drop_last()[i] == table[i]);
        }
        law_run_keeps_selectors(
            table.drop_last(),
            prefix,
            elapsed_ms,
            wave,
            st0,
            osc0,
            eff0,
            stm,
            oscm,
            effm,
            out.take(cut),
        );
        assert(table.last() == table[table.len() - 1]);
        law_selectors_kept(
            table.last(),
            prefix,
            elapsed_ms,
            wave,
            stm,
            oscm,
            effm,
            st1,
            osc1,
            eff1,
            out.skip(cut),
        );
    }
}


/// Evaluating a table appends as many bytes as the table counts.
pub proof fn law_run_length<O: Selector, E: Selector>(
    table: Seq<Updater>,
    prefix: Option<Seq<char>>,
    elapsed_ms: u64,
    wave: Seq<u16>,
    st0: Map<Seq<char>, SweepState>,
    osc0: O,
    eff0: E,
    st1: Map<Seq<char>, SweepState>,
    osc1: O,
    eff1: E,
    out: Seq<u8>,
)
    requires
        table_run(table, prefix, elapsed_ms, wave, st0, osc0, eff0, st1, osc1, eff1, out),
    ensures
        out.len() == table_len(table),
    decreases table.len(),
{
    if table.len() > 0 {
        let cut = out.len() - field_len(table.last());
        let (stm, oscm, effm) = choose|stm: Map<Seq<char>, SweepState>, oscm: O, effm: E|
            {
                &&& table_run(
                    table.drop_last(),
                    prefix,
                    elapsed_ms,
                    wave,
                    st0,
                    osc0,
                    eff0,
                    stm,
                    oscm,
                    effm,
                    out.take(cut),
                )
                &&& #[trigger] field_step(
                    table.last(),
                    prefix,
                    elapsed_ms,
                    wave,
                    stm,
                    oscm,
                    effm,
                    st1,
                    osc1,
                    eff1,
                    out.skip(cut),
                )
            };
        law_run_length(
            table.drop_last(),
            prefix,
            elapsed_ms,
            wave,
            st0,
            osc0,
            eff0,
            stm,
            oscm,
            effm,
            out.take(cut),
        );
    }
}

/// In the bytes that evaluating a table appends, the byte of every swinging
/// field lies between the field's two bounds, both included: the byte of
/// field `i` stands behind the bytes of the fields before it.
pub proof fn law_run_sweeps_within_bounds<O: Selector, E: Selector>(
    table: Seq<Updater>,
    i: int,
    prefix: Option<Seq<char>>,
    elapsed_ms: u64,
    wave: Seq<u16>,
    st0: Map<Seq<char>, SweepState>,
    osc0: O,
    eff0: E,
    st1: Map<Seq<char>, SweepState>,
    osc1: O,
    eff1: E,
    out: Seq<u8>,
)
    requires
        table_run(table, prefix, elapsed_ms, wave, st0, osc0, eff0, st1, osc1, eff1, out),
        0 <= i < table.len(),
        table[i] matches Updater::Sweep(_, min, max) && min <= max,
    ensures
        table_len(table.take(i)) < out.len(),
        table[i] matches Updater::Sweep(_, min, max) && min <= signed_of(
            out[table_len(table.take(i)) as int],
        ) <= max,
    decreases table.len(),
{
    let cut = out.len() - field_len(table.last());
    let (stm, oscm, effm) = choose|stm: Map<Seq<char>, SweepState>, oscm: O, effm: E|
        {
            &&& table_run(
                table.drop_last(),
                prefix,
                elapsed_ms,
                wave,
                st0,
                osc0,
                eff0,
                stm,
                oscm,
                effm,
                out.take(cut),
            )
            &&& #[trigger] field_step(
                table.last(),
                prefix,
                elapsed_ms,
                wave,
                stm,
                oscm,
                effm,
                st1,
                osc1,
                eff1,
                out.skip(cut),
            )
        };
    law_run_length(
        table.drop_last(),
        prefix,
        elapsed_ms,
        wave,
        st0,
        osc0,
        eff0,
        stm,
        oscm,
        effm,
        out.take(cut),
    );
    if i == table.len() - 1 {
        assert(table.take(i) =~= table.drop_last());
        if let Updater::Sweep(name, min, max) = table[i] {
            law_sweep_within_bounds(
                name,
                min,
                max,
                prefix,
                elapsed_ms,
                wave,
                stm,
                oscm,
                effm,
                st1,
                osc1,
                eff1,
                out.skip(cut),
            );
            assert(out.skip(cut)[0] == out[cut]);
        }
    } else {
        assert(table.drop_last().take(i) =~= table.take(i));
        assert(table.drop_last()[i] == table[i]);
        law_run_sweeps_within_bounds(
            table.drop_last(),
            i,
            prefix,
            elapsed_ms,
            wave,
            st0,
            osc0,
            eff0,
            stm,
            oscm,
            effm,
            out.take(cut),
        );
        assert(out.take(cut)[table_len(table.take(i)) as int] == out[table_len(
            table.take(i),
        ) as int]);
    }
}

} // verus!
