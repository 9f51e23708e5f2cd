//! One tick of a session: the tables of a device evaluated in their fixed
//! order into a fresh frame, and the life cycle of the loop that ticks.

use crate::d110::{
    d110_frame, init_d110_dated, init_payload, init_timbre, part_payload, partial_spec,
    partial_table, set_up_part, timbre_payload, D110SysEx,
};
use crate::korg::{
    is_available, osc_spec, osc_table, pre_eff_table, program_spec, program_table, Effect,
    KorgEffectSelector, KorgOscSelector, KorgProgramSysEx, PROGRAM_CAPACITY,
};
use crate::modulation::{
    encoded_len, extends, field_key, field_valid, is_snapshot, lemma_table_len_bounds, name_bytes,
    pairs_ready, prefix_view, slot_role, table_len, table_run, table_valid,
    ConfigurationError, DummySelector, PairRole, PairedUpdater, Selector, SweepState,
    SysExComposer, Updater,
};
use crate::wave::{SweepClock, Waveform};
use vstd::prelude::*;
use vstd::string::*;

verus! {

/// What evaluating a sequence of tables does, each under its own prefix and
/// in order: some sequence of table runs leads from the first state to the
/// last, and `out` is what the runs appended, in order.
pub open spec fn plan_run<O: Selector, E: Selector>(
    plan: Seq<(Seq<Updater>, Option<Seq<char>>)>,
    elapsed_ms: u64,
    wave: Seq<u16>,
    st0: Map<Seq<char>, SweepState>,
    osc0: O,
    eff0: E,
    st1: Map<Seq<char>, SweepState>,
    osc1: O,
    eff1: E,
    out: Seq<u8>,
) -> bool
    decreases plan.len(),
{
    if plan.len() == 0 {
        st1 == st0 && osc1 == osc0 && eff1 == eff0 && out.len() == 0
    } else {
        let cut = out.len() - table_len(plan.last().0);
        &&& cut >= 0
        &&& exists|stm: Map<Seq<char>, SweepState>, oscm: O, effm: E|
            {
                &&& plan_run(
                    plan.drop_last(),
                    elapsed_ms,
                    wave,
                    st0,
                    osc0,
                    eff0,
                    stm,
                    oscm,
                    effm,
                    out.take(cut),
                )
                &&& #[trigger] table_run(
                    plan.last().0,
                    plan.last().1,
                    elapsed_ms,
                    wave,
                    stm,
                    oscm,
                    effm,
                    st1,
                    osc1,
                    eff1,
                    out.skip(cut),
                )
            }
    }
}

/// A table of constant and swinging fields can be evaluated under any prefix
/// on any store.
pub proof fn lemma_plain_table(
    st: Map<Seq<char>, SweepState>,
    table: Seq<Updater>,
    prefix: Option<Seq<char>>,
)
    requires
        forall|i: int|
            0 <= i < table.len() ==> (#[trigger] table[i] is Const || table[i] is Sweep),
    ensures
        table_valid(table, prefix),
        pairs_ready(st, table, prefix),
        table_len(table) == table.len(),
    decreases table.len(),
{
    if table.len() > 0 {
        assert forall|i: int| 0 <= i < table.drop_last().len() implies (
        #[trigger] table.drop_last()[i] is Const || table.drop_last()[i] is Sweep) by {
            assert(table.drop_last()[i] == table[i]);
        }
        lemma_plain_table(st, table.drop_last(), prefix);
    }
}

fn run_table<S: SysExComposer, O: Selector, E: Selector>(
    updater: &mut PairedUpdater,
    sys_ex: &mut S,
    osc_selector: &mut O,
    effect_selector: &mut E,
    table: &[Updater],
    prefix: Option<&str>,
    elapsed_ms: u64,
    wave: &Waveform,
    Ghost(done): Ghost<Seq<(Seq<Updater>, Option<Seq<char>>)>>,
    Ghost(emitted): Ghost<Seq<u8>>,
    Ghost(st0): Ghost<Map<Seq<char>, SweepState>>,
    Ghost(osc0): Ghost<O>,
    Ghost(eff0): Ghost<E>,
)
    requires
        old(sys_ex).wf(),
        old(sys_ex).room() >= table_len(table@),
        old(osc_selector).wf(),
        old(effect_selector).wf(),
        table_valid(table@, prefix_view(prefix)),
        pairs_ready(old(updater)@, table@, prefix_view(prefix)),
        plan_run(
            done,
            elapsed_ms,
            wave@,
            st0,
            osc0,
            eff0,
            old(updater)@,
            *old(osc_selector),
            *old(effect_selector),
            emitted,
        ),
    ensures
        final(sys_ex).wf(),
        final(osc_selector).wf(),
        final(effect_selector).wf(),
        final(sys_ex).room() == old(sys_ex).room() - table_len(table@),
        final(sys_ex).payload().len() == old(sys_ex).payload().len() + table_len(table@),
        final(sys_ex).payload() == old(sys_ex).payload() + final(sys_ex).payload().skip(
            old(sys_ex).payload().len() as int,
        ),
        extends(old(updater)@, final(updater)@),
        forall|i: int|
            0 <= i < table@.len() ==> (field_key(#[trigger] table@[i], prefix_view(prefix))
                matches Some(k) ==> final(updater)@.contains_key(k)),
        plan_run(
            done.push((table@, prefix_view(prefix))),
            elapsed_ms,
            wave@,
            st0,
            osc0,
            eff0,
            final(updater)@,
            *final(osc_selector),
            *final(effect_selector),
            emitted + final(sys_ex).payload().skip(old(sys_ex).payload().len() as int),
        ),
{
    let ghost before = sys_ex.payload();
    let ghost stm = updater@;
    let ghost oscm = *osc_selector;
    let ghost effm = *effect_selector;
    updater.update(sys_ex, osc_selector, effect_selector, table, prefix, elapsed_ms, wave);
    proof {
        let piece = sys_ex.payload().skip(before.len() as int);
        let out = emitted + piece;
        let plan = done.push((table@, prefix_view(prefix)));
        assert(sys_ex.payload() =~= before + piece) by {
            assert forall|j: int| 0 <= j < before.len() implies sys_ex.payload()[j] == before[j] by {
                assert(sys_ex.payload().take(before.len() as int)[j] == sys_ex.payload()[j]);
            }
        }
        assert(plan.drop_last() =~= done);
        assert(plan.last() == (table@, prefix_view(prefix)));
        let cut = out.len() - table_len(plan.last().0);
        assert(cut == emitted.len());
        assert(out.take(cut) =~= emitted);
        assert(out.skip(cut) =~= piece);
        assert(table_run(
            plan.last().0,
            plan.last().1,
            elapsed_ms,
            wave@,
            stm,
            oscm,
            effm,
            updater@,
            *osc_selector,
            *effect_selector,
            out.skip(cut),
        ));
    }
}


/// The tables of a Korg program in the order of the frame: the program's own
/// fields, the two oscillators, the head of the effect section, the two
/// effects.
pub open spec fn korg_plan(eff1: Effect, eff2: Effect) -> Seq<(Seq<Updater>, Option<Seq<char>>)> {
    seq![
        (program_table(), None::<Seq<char>>),
        (osc_table(), Some("osc1"@)),
        (osc_table(), Some("osc2"@)),
        (pre_eff_table(eff1, eff2), None::<Seq<char>>),
        (eff1.updater@, Some("eff1"@)),
        (eff2.updater@, Some("eff2"@)),
    ]
}

/// The bytes that the fields of a Korg program take in a frame.
pub open spec fn korg_fields_len() -> nat {
    table_len(program_table()) + 2 * table_len(osc_table()) + 30
}

proof fn lemma_program_table_valid()
    ensures
        table_valid(program_table(), None),
        program_table().len() == 28,
{
    reveal_strlit("osc1");
    reveal_strlit("osc2");
    reveal(program_table);
    let t = program_table();
    assert forall|i: int| 0 <= i < t.len() implies field_valid(#[trigger] t[i], None) by {
        if i == 2 {
            assert(t[i] == Updater::SelectOnZero("osc1", "vol", true));
            assert("osc1"@.last() == '1');
        } else if i == 4 {
            assert(t[i] == Updater::SelectOnZero("osc2", "osc2_vol", true));
            assert("osc2"@.last() == '2');
        } else {
            assert(t[i] is Const || t[i] is Sweep);
        }
    }
}

proof fn lemma_osc_prefixes()
    ensures
        slot_role(Some("osc1"@)) == Some(PairRole::Normal),
        slot_role(Some("osc2"@)) == Some(PairRole::Inverse),
{
    reveal_strlit("osc1");
    reveal_strlit("osc2");
    assert("osc1"@.last() == '1');
    assert("osc2"@.last() == '2');
}

proof fn lemma_osc_table_valid()
    ensures
        table_valid(osc_table(), Some("osc1"@)),
        table_valid(osc_table(), Some("osc2"@)),
        osc_table().len() == 47,
        osc_table()[25] == Updater::PairedInverseSweep("vol", 99),
        forall|i: int|
            0 <= i < osc_table().len() ==> (#[trigger] osc_table()[i]
                matches Updater::PairedInverseSweep(name, _) ==> name@ == "vol"@),
{
    lemma_osc_prefixes();
    reveal(osc_table);
    let t = osc_table();
    assert forall|i: int| 0 <= i < t.len() implies (field_valid(#[trigger] t[i], Some("osc1"@))
        && field_valid(t[i], Some("osc2"@)) && (t[i] matches Updater::PairedInverseSweep(name, _)
        ==> name@ == "vol"@)) by {
        if i == 25 {
            assert(t[i] == Updater::PairedInverseSweep("vol", 99));
        } else {
            assert(t[i] is Const || t[i] is Sweep || t[i] is PairedInverseConst);
        }
    }
}

proof fn lemma_effect_tables(e: Effect)
    requires
        is_available(e),
    ensures
        e.updater@.len() == 10,
        forall|i: int|
            0 <= i < e.updater@.len() ==> (#[trigger] e.updater@[i] is Const
                || e.updater@[i] is Sweep),
{
}

proof fn lemma_pre_eff_table(eff1: Effect, eff2: Effect)
    ensures
        pre_eff_table(eff1, eff2).len() == 10,
        forall|i: int|
            0 <= i < 10 ==> (#[trigger] pre_eff_table(eff1, eff2)[i] is Const),
{
}

fn korg_oscillators(
    updater: &mut PairedUpdater,
    kpsx: &mut KorgProgramSysEx,
    osc_selector: &mut KorgOscSelector,
    effect_selector: &mut KorgEffectSelector,
    elapsed_ms: u64,
    wave: &Waveform,
    Ghost(done): Ghost<Seq<(Seq<Updater>, Option<Seq<char>>)>>,
    Ghost(emitted): Ghost<Seq<u8>>,
    Ghost(st0): Ghost<Map<Seq<char>, SweepState>>,
    Ghost(osc0): Ghost<KorgOscSelector>,
    Ghost(eff0): Ghost<KorgEffectSelector>,
)
    requires
        old(kpsx).wf(),
        old(kpsx).room() >= 2 * table_len(osc_table()),
        old(osc_selector).wf(),
        old(effect_selector).wf(),
        plan_run(
            done,
            elapsed_ms,
            wave@,
            st0,
            osc0,
            eff0,
            old(updater)@,
            *old(osc_selector),
            *old(effect_selector),
            emitted,
        ),
    ensures
        final(kpsx).wf(),
        final(osc_selector).wf(),
        final(effect_selector).wf(),
        final(kpsx).room() == old(kpsx).room() - 2 * table_len(osc_table()),
        final(kpsx)@.len() == old(kpsx)@.len() + 2 * table_len(osc_table()),
        final(kpsx)@ == old(kpsx)@ + final(kpsx)@.skip(old(kpsx)@.len() as int),
        extends(old(updater)@, final(updater)@),
        plan_run(
            done.push((osc_table(), Some("osc1"@))).push((osc_table(), Some("osc2"@))),
            elapsed_ms,
            wave@,
            st0,
            osc0,
            eff0,
            final(updater)@,
            *final(osc_selector),
            *final(effect_selector),
            emitted + final(kpsx)@.skip(old(kpsx)@.len() as int),
        ),
{
    let oscs = osc_spec();
    let ghost start = kpsx@;
    proof {
        lemma_osc_table_valid();
        lemma_osc_prefixes();
    }
    run_table(
        updater,
        kpsx,
        osc_selector,
        effect_selector,
        oscs.as_slice(),
        Some("osc1"),
        elapsed_ms,
        wave,
        Ghost(done),
        Ghost(emitted),
        Ghost(st0),
        Ghost(osc0),
        Ghost(eff0),
    );
    let ghost plan1 = done.push((oscs@, Some("osc1"@)));
    let ghost out1 = emitted + kpsx@.skip(start.len() as int);
    let ghost pay1 = kpsx@;
    proof {
        assert(field_key(oscs@[25], Some("osc1"@)) == Some("vol"@));
        assert(updater@.contains_key("vol"@));
    }
    run_table(
        updater,
        kpsx,
        osc_selector,
        effect_selector,
        oscs.as_slice(),
        Some("osc2"),
        elapsed_ms,
        wave,
        Ghost(plan1),
        Ghost(out1),
        Ghost(st0),
        Ghost(osc0),
        Ghost(eff0),
    );
    proof {
        assert(kpsx@.skip(start.len() as int) =~= pay1.skip(start.len() as int) + kpsx@.skip(
            pay1.len() as int,
        ));
        assert(out1 + kpsx@.skip(pay1.len() as int) =~= emitted + kpsx@.skip(start.len() as int));
    }
}

fn korg_effects(
    updater: &mut PairedUpdater,
    kpsx: &mut KorgProgramSysEx,
    osc_selector: &mut KorgOscSelector,
    effect_selector: &mut KorgEffectSelector,
    held: &KorgEffectSelector,
    elapsed_ms: u64,
    wave: &Waveform,
    Ghost(done): Ghost<Seq<(Seq<Updater>, Option<Seq<char>>)>>,
    Ghost(emitted): Ghost<Seq<u8>>,
    Ghost(st0): Ghost<Map<Seq<char>, SweepState>>,
    Ghost(osc0): Ghost<KorgOscSelector>,
    Ghost(eff0): Ghost<KorgEffectSelector>,
)
    requires
        old(kpsx).wf(),
        old(kpsx).room() >= 30,
        old(osc_selector).wf(),
        old(effect_selector).wf(),
        held.wf(),
        plan_run(
            done,
            elapsed_ms,
            wave@,
            st0,
            osc0,
            eff0,
            old(updater)@,
            *old(osc_selector),
            *old(effect_selector),
            emitted,
        ),
    ensures
        final(kpsx).wf(),
        final(osc_selector).wf(),
        final(effect_selector).wf(),
        final(kpsx).room() == old(kpsx).room() - 30,
        final(kpsx)@.len() == old(kpsx)@.len() + 30,
        final(kpsx)@ == old(kpsx)@ + final(kpsx)@.skip(old(kpsx)@.len() as int),
        extends(old(updater)@, final(updater)@),
        plan_run(
            done.push((pre_eff_table(held.eff1, held.eff2), None::<Seq<char>>)).push(
                (held.eff1.updater@, Some("eff1"@)),
            ).push((held.eff2.updater@, Some("eff2"@))),
            elapsed_ms,
            wave@,
            st0,
            osc0,
            eff0,
            final(updater)@,
            *final(osc_selector),
            *final(effect_selector),
            emitted + final(kpsx)@.skip(old(kpsx)@.len() as int),
        ),
{
    let pre = held.pre_eff();
    let first = held.eff1.updater;
    let second = held.eff2.updater;
    let ghost start = kpsx@;
    proof {
        lemma_effect_tables(held.eff1);
        lemma_effect_tables(held.eff2);
        lemma_pre_eff_table(held.eff1, held.eff2);
        lemma_plain_table(updater@, pre@, None);
    }
    run_table(
        updater,
        kpsx,
        osc_selector,
        effect_selector,
        pre.as_slice(),
        None,
        elapsed_ms,
        wave,
        Ghost(done),
        Ghost(emitted),
        Ghost(st0),
        Ghost(osc0),
        Ghost(eff0),
    );
    let ghost plan1 = done.push((pre@, None::<Seq<char>>));
    let ghost out1 = emitted + kpsx@.skip(start.len() as int);
    let ghost pay1 = kpsx@;
    proof {
        lemma_plain_table(updater@, first@, Some("eff1"@));
    }
    run_table(
        updater,
        kpsx,
        osc_selector,
        effect_selector,
        first.as_slice(),
        Some("eff1"),
        elapsed_ms,
        wave,
        Ghost(plan1),
        Ghost(out1),
        Ghost(st0),
        Ghost(osc0),
        Ghost(eff0),
    );
    let ghost plan2 = plan1.push((first@, Some("eff1"@)));
    let ghost out2 = out1 + kpsx@.skip(pay1.len() as int);
    let ghost pay2 = kpsx@;
    proof {
        lemma_plain_table(updater@, second@, Some("eff2"@));
    }
    run_table(
        updater,
        kpsx,
        osc_selector,
        effect_selector,
        second.as_slice(),
        Some("eff2"),
        elapsed_ms,
        wave,
        Ghost(plan2),
        Ghost(out2),
        Ghost(st0),
        Ghost(osc0),
        Ghost(eff0),
    );
    proof {
        assert(out2 + kpsx@.skip(pay2.len() as int) =~= emitted + kpsx@.skip(start.len() as int));
    }
}

/// Composes the program frame of one tick: the date as the program's name,
/// then the program's tables in their order, evaluated at `elapsed_ms`.
/// There is no frame, and nothing changes, where the name leaves too little
/// room for the fields.
pub fn korg_frame(
    updater: &mut PairedUpdater,
    osc_selector: &mut KorgOscSelector,
    effect_selector: &mut KorgEffectSelector,
    date: &str,
    elapsed_ms: u64,
    wave: &Waveform,
) -> (r: Option<KorgProgramSysEx>)
    requires
        old(osc_selector).wf(),
        old(effect_selector).wf(),
    ensures
        final(osc_selector).wf(),
        final(effect_selector).wf(),
        extends(old(updater)@, final(updater)@),
        r is None <==> date@.len() + korg_fields_len() > PROGRAM_CAPACITY,
        r is None ==> final(updater)@ == old(updater)@ && *final(osc_selector) == *old(
            osc_selector,
        ) && *final(effect_selector) == *old(effect_selector),
        r matches Some(frame) ==> {
            &&& frame.wf()
            &&& frame@.len() == date@.len() + korg_fields_len()
            &&& frame@.take(date@.len() as int) == name_bytes(date@)
            &&& plan_run(
                korg_plan(old(effect_selector).eff1, old(effect_selector).eff2),
                elapsed_ms,
                wave@,
                old(updater)@,
                *old(osc_selector),
                *old(effect_selector),
                final(updater)@,
                *final(osc_selector),
                *final(effect_selector),
                frame@.skip(date@.len() as int),
            )
        },
{
    let ghost st0 = updater@;
    let ghost osc0 = *osc_selector;
    let ghost eff0 = *effect_selector;
    let program = program_spec();
    let oscs = osc_spec();
    let held = KorgEffectSelector { eff1: effect_selector.eff1, eff2: effect_selector.eff2 };
    proof {
        lemma_program_table_valid();
        lemma_osc_table_valid();
        lemma_table_len_bounds(program@);
        lemma_table_len_bounds(oscs@);
    }
    let fields = encoded_len(program.as_slice()) + 2 * encoded_len(oscs.as_slice()) + 30;
    let name_len = date.unicode_len();
    if name_len > 171 || name_len + fields > 171 {
        return None;
    }
    let mut kpsx = KorgProgramSysEx::new();
    kpsx.name(date);
    let ghost named = kpsx@;
    let ghost plan0 = Seq::<(Seq<Updater>, Option<Seq<char>>)>::empty();
    let ghost out0 = Seq::<u8>::empty();
    assert(named =~= name_bytes(date@));
    run_table(
        updater,
        &mut kpsx,
        osc_selector,
        effect_selector,
        program.as_slice(),
        None,
        elapsed_ms,
        wave,
        Ghost(plan0),
        Ghost(out0),
        Ghost(st0),
        Ghost(osc0),
        Ghost(eff0),
    );
    let ghost plan1 = plan0.push((program@, None::<Seq<char>>));
    let ghost out1 = out0 + kpsx@.skip(named.len() as int);
    let ghost pay1 = kpsx@;
    let ghost st1 = updater@;
    assert(pay1 =~= named + out1);
    korg_oscillators(
        updater,
        &mut kpsx,
        osc_selector,
        effect_selector,
        elapsed_ms,
        wave,
        Ghost(plan1),
        Ghost(out1),
        Ghost(st0),
        Ghost(osc0),
        Ghost(eff0),
    );
    let ghost plan3 = plan1.push((osc_table(), Some("osc1"@))).push((osc_table(), Some("osc2"@)));
    let ghost out3 = out1 + kpsx@.skip(pay1.len() as int);
    let ghost pay3 = kpsx@;
    let ghost st3 = updater@;
    assert(pay3 =~= named + out3);
    korg_effects(
        updater,
        &mut kpsx,
        osc_selector,
        effect_selector,
        &held,
        elapsed_ms,
        wave,
        Ghost(plan3),
        Ghost(out3),
        Ghost(st0),
        Ghost(osc0),
        Ghost(eff0),
    );
    proof {
        let out6 = out3 + kpsx@.skip(pay3.len() as int);
        let plan6 = plan3.push((pre_eff_table(held.eff1, held.eff2), None::<Seq<char>>)).push(
            (held.eff1.updater@, Some("eff1"@)),
        ).push((held.eff2.updater@, Some("eff2"@)));
        assert(kpsx@ =~= named + out6);
        assert(plan6 =~= korg_plan(eff0.eff1, eff0.eff2));
        assert(kpsx@.skip(date@.len() as int) =~= out6);
        assert(kpsx@.take(date@.len() as int) =~= name_bytes(date@));
        assert(extends(st0, updater@)) by {
            assert(extends(st0, st1));
            assert(extends(st1, st3));
            assert(extends(st3, updater@));
        }
    }
    Some(kpsx)
}

/// The partial table under the four partials of each of the two tones: in
/// each tone the first and third partial drive the pair, the second and
/// fourth follow it.
pub open spec fn d110_plan() -> Seq<(Seq<Updater>, Option<Seq<char>>)> {
    seq![
        (partial_table(), Some("tone1_partialA_1"@)),
        (partial_table(), Some("tone1_partialB_3"@)),
        (partial_table(), Some("tone1_partialC_2"@)),
        (partial_table(), Some("tone1_partialD_4"@)),
        (partial_table(), Some("tone2_partialA_1"@)),
        (partial_table(), Some("tone2_partialB_3"@)),
        (partial_table(), Some("tone2_partialC_2"@)),
        (partial_table(), Some("tone2_partialD_4"@)),
    ]
}

/// The payload of a D-110 frame: what stands between the header and the
/// checksum.
pub open spec fn frame_payload(frame: Seq<u8>) -> Seq<u8> {
    frame.subrange(5, frame.len() - 2)
}

proof fn lemma_partial_table_valid(prefix: Seq<char>)
    requires
        slot_role(Some(prefix)) is Some,
    ensures
        table_valid(partial_table(), Some(prefix)),
        partial_table().len() == 58,
        table_len(partial_table()) == 58,
        partial_table()[41] == Updater::PairedInverseSweep("vol", 99),
        forall|i: int|
            0 <= i < partial_table().len() ==> (#[trigger] partial_table()[i]
                matches Updater::PairedInverseSweep(name, _) ==> name@ == "vol"@),
{
    reveal(partial_table);
    let t = partial_table();
    assert forall|i: int| 0 <= i < t.len() implies (field_valid(#[trigger] t[i], Some(prefix))
        && !(t[i] is SelectOnZero) && (t[i] matches Updater::PairedInverseSweep(name, _)
        ==> name@ == "vol"@)) by {
        if i == 41 {
            assert(t[i] == Updater::PairedInverseSweep("vol", 99));
        } else {
            assert(t[i] is Const || t[i] is Sweep);
        }
    }
    lemma_unselecting_table_len(t);
}

/// A table without selecting fields adds one byte per field.
pub proof fn lemma_unselecting_table_len(table: Seq<Updater>)
    requires
        forall|i: int| 0 <= i < table.len() ==> !(#[trigger] table[i] is SelectOnZero),
    ensures
        table_len(table) == table.len(),
    decreases table.len(),
{
    if table.len() > 0 {
        assert forall|i: int| 0 <= i < table.drop_last().len() implies !(
        #[trigger] table.drop_last()[i] is SelectOnZero) by {
            assert(table.drop_last()[i] == table[i]);
        }
        lemma_unselecting_table_len(table.drop_last());
    }
}

fn d110_tone(
    updater: &mut PairedUpdater,
    number: u8,
    a: &str,
    b: &str,
    c: &str,
    d: &str,
    elapsed_ms: u64,
    wave: &Waveform,
    Ghost(done): Ghost<Seq<(Seq<Updater>, Option<Seq<char>>)>>,
    Ghost(emitted): Ghost<Seq<u8>>,
    Ghost(st0): Ghost<Map<Seq<char>, SweepState>>,
) -> (tone: D110SysEx)
    requires
        1 <= number <= 2,
        slot_role(Some(a@)) == Some(PairRole::Normal),
        slot_role(Some(b@)) == Some(PairRole::Normal),
        slot_role(Some(c@)) == Some(PairRole::Inverse),
        slot_role(Some(d@)) == Some(PairRole::Inverse),
        plan_run(
            done,
            elapsed_ms,
            wave@,
            st0,
            DummySelector {  },
            DummySelector {  },
            old(updater)@,
            DummySelector {  },
            DummySelector {  },
            emitted,
        ),
    ensures
        tone.wf(),
        tone@.len() == 17 + 4 * 58,
        tone@.take(17) == part_payload(number),
        extends(old(updater)@, final(updater)@),
        plan_run(
            done.push((partial_table(), Some(a@))).push((partial_table(), Some(b@))).push(
                (partial_table(), Some(c@)),
            ).push((partial_table(), Some(d@))),
            elapsed_ms,
            wave@,
            st0,
            DummySelector {  },
            DummySelector {  },
            final(updater)@,
            DummySelector {  },
            DummySelector {  },
            emitted + tone@.skip(17),
        ),
{
    let table = partial_spec();
    let mut dummy_1 = DummySelector::new();
    let mut dummy_2 = DummySelector::new();
    let ghost none = DummySelector {  };
    let mut tone = set_up_part(number);
    proof {
        reveal_strlit("part");
        reveal_strlit("mute");
        lemma_partial_table_valid(a@);
        lemma_partial_table_valid(b@);
        lemma_partial_table_valid(c@);
        lemma_partial_table_valid(d@);
        assert(tone@.len() == 17);
    }
    let ghost head = tone@;
    run_table(
        updater,
        &mut tone,
        &mut dummy_1,
        &mut dummy_2,
        table.as_slice(),
        Some(a),
        elapsed_ms,
        wave,
        Ghost(done),
        Ghost(emitted),
        Ghost(st0),
        Ghost(none),
        Ghost(none),
    );
    let ghost plan1 = done.push((table@, Some(a@)));
    let ghost out1 = emitted + tone@.skip(head.len() as int);
    let ghost pay1 = tone@;
    proof {
        assert(field_key(table@[41], Some(a@)) == Some("vol"@));
        assert(updater@.contains_key("vol"@));
    }
    run_table(
        updater,
        &mut tone,
        &mut dummy_1,
        &mut dummy_2,
        table.as_slice(),
        Some(b),
        elapsed_ms,
        wave,
        Ghost(plan1),
        Ghost(out1),
        Ghost(st0),
        Ghost(none),
        Ghost(none),
    );
    let ghost plan2 = plan1.push((table@, Some(b@)));
    let ghost out2 = out1 + tone@.skip(pay1.len() as int);
    let ghost pay2 = tone@;
    proof {
        assert(updater@.contains_key("vol"@));
    }
    run_table(
        updater,
        &mut tone,
        &mut dummy_1,
        &mut dummy_2,
        table.as_slice(),
        Some(c),
        elapsed_ms,
        wave,
        Ghost(plan2),
        Ghost(out2),
        Ghost(st0),
        Ghost(none),
        Ghost(none),
    );
    let ghost plan3 = plan2.push((table@, Some(c@)));
    let ghost out3 = out2 + tone@.skip(pay2.len() as int);
    let ghost pay3 = tone@;
    proof {
        assert(updater@.contains_key("vol"@));
    }
    run_table(
        updater,
        &mut tone,
        &mut dummy_1,
        &mut dummy_2,
        table.as_slice(),
        Some(d),
        elapsed_ms,
        wave,
        Ghost(plan3),
        Ghost(out3),
        Ghost(st0),
        Ghost(none),
        Ghost(none),
    );
    proof {
        let out4 = out3 + tone@.skip(pay3.len() as int);
        assert(out4 =~= emitted + tone@.skip(17));
        assert(tone@.take(17) =~= head);
    }
    tone
}

/// Composes the two tone frames of one tick: each tone's set-up message,
/// followed by the partial table under each of the tone's four partials.
pub fn update_d110(updater: &mut PairedUpdater, elapsed_ms: u64, wave: &Waveform) -> (frames: Vec<
    Vec<u8>,
>)
    ensures
        frames@.len() == 2,
        extends(old(updater)@, final(updater)@),
        forall|t: int|
            0 <= t < 2 ==> (#[trigger] frames@[t])@ == d110_frame(frame_payload(frames@[t]@))
                && frame_payload(frames@[t]@).len() == 17 + 4 * 58 && frame_payload(
                frames@[t]@,
            ).take(17) == part_payload((t + 1) as u8),
        plan_run(
            d110_plan(),
            elapsed_ms,
            wave@,
            old(updater)@,
            DummySelector {  },
            DummySelector {  },
            final(updater)@,
            DummySelector {  },
            DummySelector {  },
            frame_payload(frames@[0]@).skip(17) + frame_payload(frames@[1]@).skip(17),
        ),
{
    let ghost st0 = updater@;
    let ghost plan0 = Seq::<(Seq<Updater>, Option<Seq<char>>)>::empty();
    let ghost out0 = Seq::<u8>::empty();
    proof {
        reveal_strlit("tone1_partialA_1");
        reveal_strlit("tone1_partialB_3");
        reveal_strlit("tone1_partialC_2");
        reveal_strlit("tone1_partialD_4");
        reveal_strlit("tone2_partialA_1");
        reveal_strlit("tone2_partialB_3");
        reveal_strlit("tone2_partialC_2");
        reveal_strlit("tone2_partialD_4");
        assert("tone1_partialA_1"@.last() == '1');
        assert("tone1_partialB_3"@.last() == '3');
        assert("tone1_partialC_2"@.last() == '2');
        assert("tone1_partialD_4"@.last() == '4');
        assert("tone2_partialA_1"@.last() == '1');
        assert("tone2_partialB_3"@.last() == '3');
        assert("tone2_partialC_2"@.last() == '2');
        assert("tone2_partialD_4"@.last() == '4');
    }
    let first = d110_tone(
        updater,
        1,
        "tone1_partialA_1",
        "tone1_partialB_3",
        "tone1_partialC_2",
        "tone1_partialD_4",
        elapsed_ms,
        wave,
        Ghost(plan0),
        Ghost(out0),
        Ghost(st0),
    );
    let ghost plan1 = plan0.push((partial_table(), Some("tone1_partialA_1"@))).push(
        (partial_table(), Some("tone1_partialB_3"@)),
    ).push((partial_table(), Some("tone1_partialC_2"@))).push(
        (partial_table(), Some("tone1_partialD_4"@)),
    );
    let ghost out1 = out0 + first@.skip(17);
    let second = d110_tone(
        updater,
        2,
        "tone2_partialA_1",
        "tone2_partialB_3",
        "tone2_partialC_2",
        "tone2_partialD_4",
        elapsed_ms,
        wave,
        Ghost(plan1),
        Ghost(out1),
        Ghost(st0),
    );
    let mut frames: Vec<Vec<u8>> = Vec::new();
    frames.push(first.to_send());
    frames.push(second.to_send());
    proof {
        assert(frame_payload(frames@[0]@) =~= first@);
        assert(frame_payload(frames@[1]@) =~= second@);
        assert(out1 + second@.skip(17) =~= first@.skip(17) + second@.skip(17));
        assert(plan1.push((partial_table(), Some("tone2_partialA_1"@))).push(
            (partial_table(), Some("tone2_partialB_3"@)),
        ).push((partial_table(), Some("tone2_partialC_2"@))).push(
            (partial_table(), Some("tone2_partialD_4"@)),
        ) =~= d110_plan());
    }
    frames
}


/// The messages that set a D-110 up, in the order they are sent: the device
/// configuration named by `date`, the eight timbres, the tones of the eight
/// parts.
pub fn d110_init_frames(date: &str) -> (frames: Vec<Vec<u8>>)
    ensures
        frames@.len() == 17,
        frames@[0]@ == d110_frame(init_payload(date@)),
        forall|t: int| 1 <= t <= 8 ==> (#[trigger] frames@[t])@ == d110_frame(timbre_payload(t as u8)),
        forall|t: int|
            1 <= t <= 8 ==> (#[trigger] frames@[8 + t])@ == d110_frame(part_payload(t as u8)),
{
    let mut frames: Vec<Vec<u8>> = Vec::new();
    frames.push(init_d110_dated(date).to_send());
    let mut t: u8 = 1;
    while t < 9
        invariant
            1 <= t <= 9,
            frames@.len() == t,
            frames@[0]@ == d110_frame(init_payload(date@)),
            forall|j: int|
                1 <= j < t ==> (#[trigger] frames@[j])@ == d110_frame(timbre_payload(j as u8)),
        decreases 9 - t,
    {
        frames.push(init_timbre(t).to_send());
        t += 1;
    }
    let mut t: u8 = 1;
    while t < 9
        invariant
            1 <= t <= 9,
            frames@.len() == 8 + t,
            frames@[0]@ == d110_frame(init_payload(date@)),
            forall|j: int|
                1 <= j <= 8 ==> (#[trigger] frames@[j])@ == d110_frame(timbre_payload(j as u8)),
            forall|j: int|
                1 <= j < t ==> (#[trigger] frames@[8 + j])@ == d110_frame(part_payload(j as u8)),
        decreases 9 - t,
    {
        frames.push(set_up_part(t).to_send());
        t += 1;
    }
    frames
}

/// How long the driver sleeps between two ticks, in milliseconds.
pub const TICK_INTERVAL_MS: u64 = 100;

/// Where the loop of a session stands in its life.
#[derive(Clone, Copy, Debug, PartialEq, Eq, Structural)]
pub enum LoopState {
    /// Not started.
    Idle,
    /// Composing and sending a frame on every tick.
    Running,
    /// Told to stop; the frame in flight is still sent.
    Stopping,
    /// Ended, by a stop or by a failed write.
    Terminated,
}

/// What the driver of the loop reports to it.
#[derive(Clone, Copy, Debug, PartialEq, Eq, Structural)]
pub enum LoopEvent {
    /// The session is to begin.
    Start,
    /// A tick is due; `stop` tells whether a stop was requested since the
    /// tick before.
    Tick { stop: bool },
    /// The transport took the frame.
    Sent,
    /// The transport failed to take the frame.
    WriteFailed,
}

/// What the loop asks of its driver.
#[derive(Clone, Copy, Debug, PartialEq, Eq, Structural)]
pub enum LoopAction {
    /// Nothing.
    Rest,
    /// Compose a frame and hand it to the transport.
    Compose,
    /// Sleep until the next tick is due.
    Sleep,
    /// Leave the loop: it has ended.
    Exit,
    /// Leave the loop and report the transport's failure.
    Abort,
}

/// The state that an event leads to.
pub open spec fn next_state(state: LoopState, event: LoopEvent) -> LoopState {
    match (state, event) {
        (LoopState::Idle, LoopEvent::Start) => LoopState::Running,
        (LoopState::Running, LoopEvent::Tick { stop }) => if stop {
            LoopState::Stopping
        } else {
            LoopState::Running
        },
        (LoopState::Running, LoopEvent::WriteFailed) => LoopState::Terminated,
        (LoopState::Stopping, LoopEvent::Sent) => LoopState::Terminated,
        (LoopState::Stopping, LoopEvent::WriteFailed) => LoopState::Terminated,
        _ => state,
    }
}

/// What an event asks of the driver.
pub open spec fn action_of(state: LoopState, event: LoopEvent) -> LoopAction {
    match (state, event) {
        (LoopState::Running, LoopEvent::Tick { stop }) => LoopAction::Compose,
        (LoopState::Running, LoopEvent::Sent) => LoopAction::Sleep,
        (LoopState::Running, LoopEvent::WriteFailed) => LoopAction::Abort,
        (LoopState::Stopping, LoopEvent::Sent) => LoopAction::Exit,
        (LoopState::Stopping, LoopEvent::WriteFailed) => LoopAction::Abort,
        (LoopState::Terminated, _) => LoopAction::Exit,
        _ => LoopAction::Rest,
    }
}

/// How far a state is along the life of a loop.
pub open spec fn progress(state: LoopState) -> int {
    match state {
        LoopState::Idle => 0,
        LoopState::Running => 1,
        LoopState::Stopping => 2,
        LoopState::Terminated => 3,
    }
}

/// Takes one event: the state it leads to and what it asks of the driver.
pub fn step(state: LoopState, event: LoopEvent) -> (r: (LoopState, LoopAction))
    ensures
        r.0 == next_state(state, event),
        r.1 == action_of(state, event),
{
    match state {
        LoopState::Idle => match event {
            LoopEvent::Start => (LoopState::Running, LoopAction::Rest),
            _ => (LoopState::Idle, LoopAction::Rest),
        },
        LoopState::Running => match event {
            LoopEvent::Start => (LoopState::Running, LoopAction::Rest),
            LoopEvent::Tick { stop } => if stop {
                (LoopState::Stopping, LoopAction::Compose)
            } else {
                (LoopState::Running, LoopAction::Compose)
            },
            LoopEvent::Sent => (LoopState::Running, LoopAction::Sleep),
            LoopEvent::WriteFailed => (LoopState::Terminated, LoopAction::Abort),
        },
        LoopState::Stopping => match event {
            LoopEvent::Sent => (LoopState::Terminated, LoopAction::Exit),
            LoopEvent::WriteFailed => (LoopState::Terminated, LoopAction::Abort),
            _ => (LoopState::Stopping, LoopAction::Rest),
        },
        LoopState::Terminated => (LoopState::Terminated, LoopAction::Exit),
    }
}

/// A loop never goes back: every event leaves it where it is or moves it on
/// towards its end, and a loop that has ended stays ended.
pub proof fn law_loop_moves_forward(state: LoopState, event: LoopEvent)
    ensures
        progress(next_state(state, event)) >= progress(state),
        state == LoopState::Terminated ==> next_state(state, event) == LoopState::Terminated,
{
}

/// A failed write ends a loop that is running or stopping, and tells the
/// driver to report it.
pub proof fn law_write_failure_is_fatal(state: LoopState)
    requires
        state == LoopState::Running || state == LoopState::Stopping,
    ensures
        next_state(state, LoopEvent::WriteFailed) == LoopState::Terminated,
        action_of(state, LoopEvent::WriteFailed) == LoopAction::Abort,
{
}

/// A stop seen on a tick lets that tick's frame out and ends the loop once
/// the frame is sent; no further frame is composed.
pub proof fn law_stop_finishes_frame(event: LoopEvent)
    ensures
        action_of(LoopState::Running, LoopEvent::Tick { stop: true }) == LoopAction::Compose,
        next_state(
            next_state(LoopState::Running, LoopEvent::Tick { stop: true }),
            LoopEvent::Sent,
        ) == LoopState::Terminated,
        action_of(LoopState::Stopping, event) != LoopAction::Compose,
        action_of(LoopState::Terminated, event) != LoopAction::Compose,
        action_of(LoopState::Idle, event) != LoopAction::Compose,
{
}

/// What one tick of a session hands to its driver.
pub struct TickOutcome {
    /// What the driver is to do.
    pub action: LoopAction,
    /// The frame to send, where one was composed.
    pub frame: Option<KorgProgramSysEx>,
    /// The store as it stands at the end of the tick, where a dump was asked
    /// for.
    pub snapshot: Option<Vec<(String, i8)>>,
}

/// A session on a Korg device: the loop's state, the clock, the store of
/// swept keys, the two selectors, and the name that every frame carries.
pub struct KorgSession {
    state: LoopState,
    clock: SweepClock,
    updater: PairedUpdater,
    osc_selector: KorgOscSelector,
    effect_selector: KorgEffectSelector,
    name: String,
}

impl KorgSession {
    /// Where the loop stands.
    pub closed spec fn state(&self) -> LoopState {
        self.state
    }

    /// The time the session's clock stands at, in milliseconds.
    pub closed spec fn time(&self) -> u64 {
        self.clock@
    }

    /// The store of swept keys.
    pub closed spec fn store(&self) -> Map<Seq<char>, SweepState> {
        self.updater@
    }

    /// The selector of oscillators.
    pub closed spec fn oscillators(&self) -> KorgOscSelector {
        self.osc_selector
    }

    /// The selector of effects.
    pub closed spec fn effects(&self) -> KorgEffectSelector {
        self.effect_selector
    }

    /// The name that every frame carries.
    pub closed spec fn name(&self) -> Seq<char> {
        self.name@
    }

    /// The selectors hold choices of the device, and the name leaves room
    /// for the fields of a program.
    pub open spec fn wf(&self) -> bool {
        &&& self.oscillators().wf()
        &&& self.effects().wf()
        &&& self.name().len() + korg_fields_len() <= PROGRAM_CAPACITY
    }

    /// A session that has not started, with an empty store and both
    /// selectors drawn at random; none where the name is too long for a
    /// program frame.
    pub fn new(name: &str) -> (r: Result<KorgSession, ConfigurationError>)
        ensures
            r is Err <==> name@.len() + korg_fields_len() > PROGRAM_CAPACITY,
            r matches Err(e) ==> e == ConfigurationError::NameTooLong,
            r matches Ok(s) ==> s.wf() && s.state() == LoopState::Idle && s.store() == Map::<
                Seq<char>,
                SweepState,
            >::empty() && s.name() == name@ && s.time() == 0,
    {
        let program = program_spec();
        let oscs = osc_spec();
        proof {
            lemma_program_table_valid();
            lemma_osc_table_valid();
            lemma_table_len_bounds(program@);
            lemma_table_len_bounds(oscs@);
        }
        let fields = encoded_len(program.as_slice()) + 2 * encoded_len(oscs.as_slice()) + 30;
        let name_len = name.unicode_len();
        if name_len > 171 || name_len + fields > 171 {
            return Err(ConfigurationError::NameTooLong);
        }
        Ok(
            KorgSession {
                state: LoopState::Idle,
                clock: SweepClock::new(),
                updater: PairedUpdater::new(),
                osc_selector: KorgOscSelector::new(),
                effect_selector: KorgEffectSelector::new(),
                name: String::from_str(name),
            },
        )
    }

    /// Where the loop stands.
    pub fn current(&self) -> (r: LoopState)
        ensures
            r == self.state(),
    {
        self.state
    }

    /// Begins the session: a session that has not started gets an empty
    /// store, freshly drawn selectors and a clock at zero; any other stays as
    /// it is.
    pub fn start(&mut self)
        requires
            old(self).wf(),
        ensures
            final(self).wf(),
            final(self).state() == next_state(old(self).state(), LoopEvent::Start),
            final(self).name() == old(self).name(),
            old(self).state() == LoopState::Idle ==> final(self).store() == Map::<
                Seq<char>,
                SweepState,
            >::empty() && final(self).time() == 0,
            old(self).state() != LoopState::Idle ==> final(self).store() == old(self).store()
                && final(self).time() == old(self).time() && final(self).oscillators() == old(
                self,
            ).oscillators() && final(self).effects() == old(self).effects(),
    {
        let (next, _) = step(self.state, LoopEvent::Start);
        match self.state {
            LoopState::Idle => {
                self.clock = SweepClock::new();
                self.updater = PairedUpdater::new();
                self.osc_selector = KorgOscSelector::new();
                self.effect_selector = KorgEffectSelector::new();
            },
            _ => {},
        }
        self.state = next;
    }

    /// One tick, with `reading_ms` as the time source's milliseconds since
    /// the start. The clock moves on to the reading, unless that lies
    /// behind it. A running session composes its frame at the clock's time;
    /// any other changes nothing else. Where `dump` is set, the store is
    /// handed out as it stands once the tick is done.
    pub fn tick(&mut self, reading_ms: u64, wave: &Waveform, dump: bool, stop: bool) -> (r: TickOutcome)
        requires
            old(self).wf(),
        ensures
            final(self).wf(),
            final(self).name() == old(self).name(),
            final(self).state() == next_state(old(self).state(), LoopEvent::Tick { stop }),
            final(self).time() >= old(self).time(),
            final(self).time() == (if reading_ms >= old(self).time() {
                reading_ms
            } else {
                old(self).time()
            }),
            r.action == action_of(old(self).state(), LoopEvent::Tick { stop }),
            r.frame is Some <==> old(self).state() == LoopState::Running,
            r.frame is None ==> final(self).store() == old(self).store(),
            r.frame is None ==> final(self).oscillators() == old(self).oscillators(),
            r.frame is None ==> final(self).effects() == old(self).effects(),
            r.frame matches Some(frame) ==> {
                &&& frame.wf()
                &&& frame@.take(old(self).name().len() as int) == name_bytes(old(self).name())
                &&& plan_run(
                    korg_plan(old(self).effects().eff1, old(self).effects().eff2),
                    final(self).time(),
                    wave@,
                    old(self).store(),
                    old(self).oscillators(),
                    old(self).effects(),
                    final(self).store(),
                    final(self).oscillators(),
                    final(self).effects(),
                    frame@.skip(old(self).name().len() as int),
                )
            },
            extends(old(self).store(), final(self).store()),
            r.snapshot is Some <==> dump,
            r.snapshot matches Some(list) ==> is_snapshot(list@, final(self).store()),
    {
        let (next, action) = step(self.state, LoopEvent::Tick { stop });
        let now = self.clock.advance(reading_ms);
        let frame = match action {
            LoopAction::Compose => korg_frame(
                &mut self.updater,
                &mut self.osc_selector,
                &mut self.effect_selector,
                self.name.as_str(),
                now,
                wave,
            ),
            _ => None,
        };
        self.state = next;
        let snapshot = if dump {
            Some(self.updater.snapshot())
        } else {
            None
        };
        TickOutcome { action, frame, snapshot }
    }

    /// Takes the transport's word on the frame of the last tick: `ok` where
    /// it took the frame.
    pub fn sent(&mut self, ok: bool) -> (action: LoopAction)
        requires
            old(self).wf(),
        ensures
            final(self).wf(),
            final(self).state() == next_state(
                old(self).state(),
                if ok {
                    LoopEvent::Sent
                } else {
                    LoopEvent::WriteFailed
                },
            ),
            action == action_of(
                old(self).state(),
                if ok {
                    LoopEvent::Sent
                } else {
                    LoopEvent::WriteFailed
                },
            ),
            final(self).store() == old(self).store(),
            final(self).time() == old(self).time(),
            final(self).oscillators() == old(self).oscillators(),
            final(self).effects() == old(self).effects(),
            final(self).name() == old(self).name(),
    {
        let event = if ok {
            LoopEvent::Sent
        } else {
            LoopEvent::WriteFailed
        };
        let (next, action) = step(self.state, event);
        self.state = next;
        action
    }
}

} // verus!
