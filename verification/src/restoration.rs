//! What the probes leave behind in the registers they write.
//!
//! A probe either puts back what it found in a register or leaves a value
//! that is named here. What a register held before a probe is what the
//! probe's own first read of it returned.
//!
//! The values that are left, and why each is safe to leave:
//!
//! - Zero in the scratch word, by every round trip. The scratch word is the
//!   first word of the work RAM, which the probes take as theirs; cleared, it
//!   cannot make a later round trip pass on a pattern left over.
//! - By the first probe set only, the request `0xC0DE` in the debug enable
//!   register. mGBA asks for this word to turn on its log channel, which
//!   changes nothing that a program can see; on every other machine nothing
//!   is mapped at the address.
//! - By the first probe set only, the sweep's result in the memory control
//!   register: a word whose round trip has just passed, or the base word,
//!   which selects the longest wait. The work RAM keeps up with either.
//!
//! The probe that reprograms the display leaves the memory timing changed
//! and 1 in the scratch word. Nothing makes that safe: no classifier runs it.

use crate::backend::Access;
use crate::classifier::ProbeModel;
use crate::classifier;
use crate::get_env;
use crate::memory;
use crate::registers::{
    BG0_ENABLE, EWRAM_STATIC_DATA, MEMCTRL_DEFAULT, MEMCTRL_FASTEST, MEMCTRL_REGISTER,
    MGBA_ENABLE_REQUEST, NOCASH_SIG, RAM_TEST_PATTERN, REG_DISPCNT, REG_MGBA_ENABLE,
};
use crate::signatures;
use crate::sweep;
use crate::trace;
use crate::Probe;
use vstd::prelude::*;

verus! {

/// Reads of the signature region write nowhere.
proof fn lemma_signature_reads_leave(script: Seq<u32>, count: nat, addr: u32)
    ensures
        trace::last_written(signatures::signature_reads(script, count), addr) is None,
    decreases count,
{
    if count > 0 {
        let before = (count - 1) as nat;
        lemma_signature_reads_leave(script, before, addr);
        trace::lemma_last_written_push(
            signatures::signature_reads(script, before),
            signatures::read8((NOCASH_SIG + count - 1) as u32, script[count - 1]),
            addr,
        );
    }
}

/// The Nintendo DS probe, the no$gba probe, the hardware probe and the
/// VisualBoyAdvance probe write to no register.
pub proof fn lemma_reading_probes_write_nothing(script: Seq<u32>)
    ensures
        trace::writes_nothing(signatures::ds_accesses(script)),
        trace::writes_nothing(signatures::nocash_accesses(script)),
        trace::writes_nothing(signatures::real_gba_accesses(script)),
        trace::writes_nothing(signatures::vba_accesses()),
{
    let none = Seq::<Access>::empty();
    assert forall|addr: u32| #[trigger]
        trace::last_written(signatures::ds_accesses(script), addr) is None by {
        trace::lemma_last_written_push(none, Access::FirmwareChecksum { value: script[0] }, addr);
    }
    assert forall|addr: u32| #[trigger]
        trace::last_written(signatures::nocash_accesses(script), addr) is None by {
        lemma_signature_reads_leave(script, 7, addr);
    }
    assert forall|addr: u32| #[trigger]
        trace::last_written(signatures::real_gba_accesses(script), addr) is None by {
        trace::lemma_last_written_push(
            none,
            signatures::read32(MEMCTRL_REGISTER, script[0]),
            addr,
        );
    }
    assert forall|addr: u32| #[trigger]
        trace::last_written(signatures::vba_accesses(), addr) is None by {
        let first = Access::DebugLog { text: "VBA"@ };
        let second = Access::DebugLog { text: "\n"@ };
        trace::lemma_last_written_push(none, first, addr);
        trace::lemma_last_written_push(none.push(first), second, addr);
        assert(signatures::vba_accesses() =~= none.push(first).push(second));
    }
}

/// What the mGBA probe leaves at `addr`.
proof fn lemma_mgba_leaves(script: Seq<u32>, addr: u32)
    ensures
        trace::last_written(signatures::mgba_accesses(script), addr) == if addr
            == REG_MGBA_ENABLE {
            Some(script[0])
        } else {
            None
        },
{
    let t0 = Seq::<Access>::empty();
    let save = signatures::read16(REG_MGBA_ENABLE, script[0]);
    let request = signatures::write16(REG_MGBA_ENABLE, MGBA_ENABLE_REQUEST as u32);
    let check = signatures::read16(REG_MGBA_ENABLE, script[1]);
    let restore = signatures::write16(REG_MGBA_ENABLE, script[0]);
    assert(signatures::mgba_accesses(script) =~= t0.push(save).push(request).push(check).push(
        restore,
    ));
    trace::lemma_last_written_push(t0, save, addr);
    trace::lemma_last_written_push(t0.push(save), request, addr);
    trace::lemma_last_written_push(t0.push(save).push(request), check, addr);
    trace::lemma_last_written_push(t0.push(save).push(request).push(check), restore, addr);
}

/// The mGBA probe puts back what it found in the debug enable register and
/// writes to no other.
pub proof fn lemma_mgba_restores(script: Seq<u32>)
    ensures
        forall|addr: u32| #[trigger] trace::restores(signatures::mgba_accesses(script), addr),
        trace::leaves(signatures::mgba_accesses(script), REG_MGBA_ENABLE, script[0]),
{
    let t = signatures::mgba_accesses(script);
    lemma_mgba_leaves(script, REG_MGBA_ENABLE);
    trace::lemma_first_seen_read(t, REG_MGBA_ENABLE);
    assert forall|addr: u32| #[trigger] trace::restores(t, addr) by {
        lemma_mgba_leaves(script, addr);
    }
}

/// What one step of a sweep leaves at `addr`.
proof fn lemma_attempt_leaves(pattern: u32, base: u32, code: u32, readback: u32, addr: u32)
    ensures
        trace::last_written(sweep::attempt(pattern, base, code, readback), addr) == if addr
            == EWRAM_STATIC_DATA {
            Some(0u32)
        } else if addr == MEMCTRL_REGISTER {
            Some(sweep::timing_word(base, code))
        } else {
            None
        },
{
    let t0 = Seq::<Access>::empty();
    let select = signatures::write32(MEMCTRL_REGISTER, sweep::timing_word(base, code));
    let store = signatures::write32(EWRAM_STATIC_DATA, pattern);
    let load = signatures::read32(EWRAM_STATIC_DATA, readback);
    let clear = signatures::write32(EWRAM_STATIC_DATA, 0);
    assert(sweep::attempt(pattern, base, code, readback) =~= t0.push(select).push(store).push(
        load,
    ).push(clear));
    trace::lemma_last_written_push(t0, select, addr);
    trace::lemma_last_written_push(t0.push(select), store, addr);
    trace::lemma_last_written_push(t0.push(select).push(store), load, addr);
    trace::lemma_last_written_push(t0.push(select).push(store).push(load), clear, addr);
}

/// What a sweep leaves at `addr` after its last round trip: the word of the
/// last code tried in the memory control register and zero in the scratch
/// word.
proof fn lemma_sweep_steps_leave(pattern: u32, script: Seq<u32>, count: nat, addr: u32)
    ensures
        trace::last_written(
            seq![signatures::read32(MEMCTRL_REGISTER, script[0])] + sweep::attempts(
                pattern,
                script,
                count,
            ),
            addr,
        ) == if count == 0 {
            None
        } else if addr == EWRAM_STATIC_DATA {
            Some(0u32)
        } else if addr == MEMCTRL_REGISTER {
            Some(sweep::timing_word(sweep::timing_base(script[0]), (count - 1) as u32))
        } else {
            None
        },
    decreases count,
{
    let load = seq![signatures::read32(MEMCTRL_REGISTER, script[0])];
    if count == 0 {
        trace::lemma_last_written_push(
            Seq::<Access>::empty(),
            signatures::read32(MEMCTRL_REGISTER, script[0]),
            addr,
        );
        assert(load + sweep::attempts(pattern, script, count) =~= load);
    } else {
        let before = (count - 1) as nat;
        let base = sweep::timing_base(script[0]);
        let step = sweep::attempt(pattern, base, before as u32, script[count as int]);
        lemma_sweep_steps_leave(pattern, script, before, addr);
        lemma_attempt_leaves(pattern, base, before as u32, script[count as int], addr);
        trace::lemma_last_written_add(load + sweep::attempts(pattern, script, before), step, addr);
        assert(load + sweep::attempts(pattern, script, count) =~= (load + sweep::attempts(
            pattern,
            script,
            before,
        )) + step);
    }
}

/// What the timing sweep leaves at `addr`.
proof fn lemma_sweep_leaves(script: Seq<u32>, addr: u32)
    ensures
        trace::last_written(crate::micro_accesses(script), addr) == if addr == MEMCTRL_REGISTER {
            Some(script[0])
        } else if addr == EWRAM_STATIC_DATA {
            Some(0u32)
        } else {
            None
        },
{
    sweep::lemma_first_failure(RAM_TEST_PATTERN, script, 0);
    lemma_sweep_steps_leave(
        RAM_TEST_PATTERN,
        script,
        sweep::codes_tested(RAM_TEST_PATTERN, script),
        addr,
    );
    trace::lemma_last_written_push(
        sweep::sweep_steps(RAM_TEST_PATTERN, script),
        signatures::write32(MEMCTRL_REGISTER, script[0]),
        addr,
    );
}

/// The timing sweep puts back what it found in the memory control register,
/// leaves the scratch word cleared and writes to no other register.
pub proof fn lemma_sweep_restores(script: Seq<u32>)
    ensures
        forall|addr: u32|
            addr != EWRAM_STATIC_DATA ==> #[trigger] trace::restores(
                crate::micro_accesses(script),
                addr,
            ),
        trace::leaves(crate::micro_accesses(script), MEMCTRL_REGISTER, script[0]),
        trace::leaves(crate::micro_accesses(script), EWRAM_STATIC_DATA, 0),
{
    let t = crate::micro_accesses(script);
    lemma_sweep_leaves(script, MEMCTRL_REGISTER);
    lemma_sweep_leaves(script, EWRAM_STATIC_DATA);
    assert(t.first() == signatures::read32(MEMCTRL_REGISTER, script[0]));
    trace::lemma_first_seen_read(t, MEMCTRL_REGISTER);
    assert forall|addr: u32| addr != EWRAM_STATIC_DATA implies #[trigger] trace::restores(
        t,
        addr,
    ) by {
        lemma_sweep_leaves(script, addr);
    }
}

/// What the overclock attempt leaves at `addr`.
proof fn lemma_overclock_leaves(readback: u32, addr: u32)
    ensures
        trace::last_written(signatures::overclock_accesses(readback), addr) == if addr
            == EWRAM_STATIC_DATA {
            Some(1u32)
        } else if addr == MEMCTRL_REGISTER {
            Some(
                if readback == 1 {
                    MEMCTRL_FASTEST
                } else {
                    MEMCTRL_DEFAULT
                },
            )
        } else {
            None
        },
{
    let t0 = Seq::<Access>::empty();
    let select = signatures::write32(MEMCTRL_REGISTER, MEMCTRL_FASTEST);
    let store = signatures::write32(EWRAM_STATIC_DATA, 1);
    let load = signatures::read32(EWRAM_STATIC_DATA, readback);
    let fall_back = signatures::write32(MEMCTRL_REGISTER, MEMCTRL_DEFAULT);
    assert(seq![select, store, load] =~= t0.push(select).push(store).push(load));
    trace::lemma_last_written_push(t0, select, addr);
    trace::lemma_last_written_push(t0.push(select), store, addr);
    trace::lemma_last_written_push(t0.push(select).push(store), load, addr);
    trace::lemma_last_written_push(t0.push(select).push(store).push(load), fall_back, addr);
}

/// What the probe that reprograms the display leaves at `addr`.
proof fn lemma_gpsp_leaves_at(script: Seq<u32>, addr: u32)
    ensures
        trace::last_written(signatures::gpsp_accesses(script), addr) == if addr == REG_DISPCNT {
            Some(script[0])
        } else if addr == EWRAM_STATIC_DATA {
            Some(1u32)
        } else if addr == MEMCTRL_REGISTER {
            Some(
                if script[1] == 1 {
                    MEMCTRL_FASTEST
                } else {
                    MEMCTRL_DEFAULT
                },
            )
        } else {
            None
        },
{
    let t0 = Seq::<Access>::empty();
    let save = signatures::read16(REG_DISPCNT, script[0]);
    let show = signatures::write16(REG_DISPCNT, BG0_ENABLE as u32);
    let check = signatures::read16(REG_DISPCNT, script[2]);
    let restore = signatures::write16(REG_DISPCNT, script[0]);
    let head = seq![save, show];
    let middle = signatures::overclock_accesses(script[1]);
    let tail = seq![check, restore];
    assert(head =~= t0.push(save).push(show));
    assert(tail =~= t0.push(check).push(restore));
    trace::lemma_last_written_push(t0, save, addr);
    trace::lemma_last_written_push(t0.push(save), show, addr);
    trace::lemma_last_written_push(t0, check, addr);
    trace::lemma_last_written_push(t0.push(check), restore, addr);
    lemma_overclock_leaves(script[1], addr);
    trace::lemma_last_written_add(head, middle, addr);
    trace::lemma_last_written_add(head + middle, tail, addr);
}

/// The probe that reprograms the display puts back what it found in the
/// display control register. It does not put back the memory timing: it
/// leaves 1 in the scratch word and, in the memory control register, the
/// shortest wait state if the scratch word held and the default one if it
/// did not. It writes to no other register.
pub proof fn lemma_gpsp_leaves(script: Seq<u32>)
    ensures
        forall|addr: u32|
            addr != EWRAM_STATIC_DATA && addr != MEMCTRL_REGISTER ==> #[trigger] trace::restores(
                signatures::gpsp_accesses(script),
                addr,
            ),
        trace::leaves(signatures::gpsp_accesses(script), REG_DISPCNT, script[0]),
        trace::leaves(signatures::gpsp_accesses(script), EWRAM_STATIC_DATA, 1),
        trace::leaves(
            signatures::gpsp_accesses(script),
            MEMCTRL_REGISTER,
            if script[1] == 1 {
                MEMCTRL_FASTEST
            } else {
                MEMCTRL_DEFAULT
            },
        ),
{
    let t = signatures::gpsp_accesses(script);
    lemma_gpsp_leaves_at(script, REG_DISPCNT);
    lemma_gpsp_leaves_at(script, EWRAM_STATIC_DATA);
    lemma_gpsp_leaves_at(script, MEMCTRL_REGISTER);
    assert(t.first() == signatures::read16(REG_DISPCNT, script[0]));
    trace::lemma_first_seen_read(t, REG_DISPCNT);
    assert forall|addr: u32|
        addr != EWRAM_STATIC_DATA && addr != MEMCTRL_REGISTER implies #[trigger] trace::restores(
        t,
        addr,
    ) by {
        lemma_gpsp_leaves_at(script, addr);
    }
}

/// Restoration: whichever probe runs, but for the one that reprograms the
/// display, every register it writes holds afterwards what the probe found
/// in it; the one exception is the scratch word, which is left cleared.
pub proof fn lemma_probe_restores(probe: Probe, script: Seq<u32>, addr: u32)
    requires
        probe != Probe::GpSp,
    ensures
        addr != EWRAM_STATIC_DATA ==> trace::restores(probe.accesses(script), addr),
        addr == EWRAM_STATIC_DATA ==> trace::last_written(probe.accesses(script), addr) is None
            || trace::leaves(probe.accesses(script), addr, 0),
{
    lemma_reading_probes_write_nothing(script);
    lemma_mgba_restores(script);
    lemma_sweep_restores(script);
    match probe {
        Probe::NintendoDS => {
            assert(trace::last_written(signatures::ds_accesses(script), addr) is None);
        },
        Probe::MGBA => {
            assert(trace::restores(signatures::mgba_accesses(script), addr));
            lemma_mgba_leaves(script, addr);
        },
        Probe::NoCashGBA => {
            assert(trace::last_written(signatures::nocash_accesses(script), addr) is None);
        },
        Probe::GameBoyAdvance => {
            assert(trace::last_written(signatures::real_gba_accesses(script), addr) is None);
        },
        Probe::GameBoyAdvanceMicro => {
            if addr != EWRAM_STATIC_DATA {
                assert(trace::restores(crate::micro_accesses(script), addr));
            }
        },
        Probe::GpSp => {},
        Probe::VisualBoyAdvance => {
            assert(trace::last_written(signatures::vba_accesses(), addr) is None);
        },
    }
}

/// Restoration over `get_env`, on registers that behave like memory: every
/// register but the scratch word holds afterwards what it held before.
pub proof fn lemma_get_env_restores(script: Seq<u32>, registers: Map<u32, u32>, addr: u32)
    requires
        memory::reads_as_memory(
            registers,
            classifier::run(crate::probe_order(), script).accesses,
        ),
        addr != EWRAM_STATIC_DATA,
    ensures
        memory::replay(registers, classifier::run(crate::probe_order(), script).accesses)[addr]
            == registers[addr],
{
    let order = crate::probe_order();
    assert forall|index: int, answers: Seq<u32>|
        0 <= index < order.len() && index <= classifier::first_match(
            order,
            script,
            0,
        ) implies trace::restores(#[trigger] order[index].accesses(answers), addr) by {
        lemma_probe_restores(order[index], answers, addr);
    }
    memory::lemma_run_restores(order, script, registers, addr);
}

/// `get_env` writes to no register but the debug enable register, the memory
/// control register and the scratch word. It never writes to the display
/// control register, and it leaves the scratch word cleared if it writes
/// there.
pub proof fn lemma_get_env_leaves(script: Seq<u32>, addr: u32)
    ensures
        addr != REG_MGBA_ENABLE && addr != MEMCTRL_REGISTER && addr != EWRAM_STATIC_DATA
            ==> trace::last_written(
            classifier::run(crate::probe_order(), script).accesses,
            addr,
        ) is None,
        trace::last_written(classifier::run(crate::probe_order(), script).accesses, REG_DISPCNT)
            is None,
        trace::last_written(
            classifier::run(crate::probe_order(), script).accesses,
            EWRAM_STATIC_DATA,
        ) is None || trace::leaves(
            classifier::run(crate::probe_order(), script).accesses,
            EWRAM_STATIC_DATA,
            0,
        ),
{
    let order = crate::probe_order();
    assert forall|index: int, answers: Seq<u32>, at: u32| 0 <= index < order.len() implies (
    #[trigger] trace::last_written(order[index].accesses(answers), at)) == if at
        == REG_MGBA_ENABLE && order[index] == Probe::MGBA {
        Some(answers[0])
    } else if at == MEMCTRL_REGISTER && order[index] == Probe::GameBoyAdvanceMicro {
        Some(answers[0])
    } else if at == EWRAM_STATIC_DATA && order[index] == Probe::GameBoyAdvanceMicro {
        Some(0u32)
    } else {
        None
    } by {
        lemma_reading_probes_write_nothing(answers);
        lemma_mgba_leaves(answers, at);
        lemma_sweep_leaves(answers, at);
    }
    if addr != REG_MGBA_ENABLE && addr != MEMCTRL_REGISTER && addr != EWRAM_STATIC_DATA {
        classifier::lemma_run_leaves(order, script, addr, None);
    }
    classifier::lemma_run_leaves(order, script, REG_DISPCNT, None);
    classifier::lemma_run_leaves(order, script, EWRAM_STATIC_DATA, Some(0u32));
}

/// What the mGBA probe of the first probe set leaves at `addr`.
proof fn lemma_first_mgba_leaves_at(script: Seq<u32>, addr: u32)
    ensures
        trace::last_written(get_env::mgba_accesses(script), addr) == if addr == REG_MGBA_ENABLE {
            Some(MGBA_ENABLE_REQUEST as u32)
        } else {
            None
        },
{
    let t0 = Seq::<Access>::empty();
    let request = signatures::write16(REG_MGBA_ENABLE, MGBA_ENABLE_REQUEST as u32);
    let check = signatures::read16(REG_MGBA_ENABLE, script[0]);
    assert(get_env::mgba_accesses(script) =~= t0.push(request).push(check));
    trace::lemma_last_written_push(t0, request, addr);
    trace::lemma_last_written_push(t0.push(request), check, addr);
}

/// The mGBA probe of the first probe set leaves its request in the debug
/// enable register and writes to no other. The request is the word that
/// turns on mGBA's log channel; no other machine has a register there.
pub proof fn lemma_first_mgba_leaves(script: Seq<u32>)
    ensures
        forall|addr: u32|
            addr != REG_MGBA_ENABLE ==> #[trigger] trace::last_written(
                get_env::mgba_accesses(script),
                addr,
            ) is None,
        trace::leaves(get_env::mgba_accesses(script), REG_MGBA_ENABLE, MGBA_ENABLE_REQUEST as u32),
{
    lemma_first_mgba_leaves_at(script, REG_MGBA_ENABLE);
    assert forall|addr: u32| addr != REG_MGBA_ENABLE implies #[trigger] trace::last_written(
        get_env::mgba_accesses(script),
        addr,
    ) is None by {
        lemma_first_mgba_leaves_at(script, addr);
    }
}

/// What the timing sweep of the first probe set leaves at `addr`.
proof fn lemma_first_sweep_leaves_at(script: Seq<u32>, addr: u32)
    ensures
        trace::last_written(get_env::micro_accesses(script), addr) == if addr
            == MEMCTRL_REGISTER {
            Some(sweep::sweep_result(get_env::TEST_PATTERN, script))
        } else if addr == EWRAM_STATIC_DATA {
            Some(0u32)
        } else {
            None
        },
{
    let pattern = get_env::TEST_PATTERN;
    sweep::lemma_first_failure(pattern, script, 0);
    lemma_sweep_steps_leave(pattern, script, sweep::codes_tested(pattern, script), addr);
    trace::lemma_last_written_push(
        sweep::sweep_steps(pattern, script),
        signatures::write32(MEMCTRL_REGISTER, sweep::sweep_result(pattern, script)),
        addr,
    );
}

/// The timing sweep of the first probe set leaves the memory control
/// register at the word it reports, leaves the scratch word cleared and
/// writes to no other register. The word it reports has passed its round
/// trip, or is the base word with the longest wait: the word that failed
/// does not stay selected.
pub proof fn lemma_first_sweep_leaves(script: Seq<u32>)
    ensures
        forall|addr: u32|
            addr != EWRAM_STATIC_DATA && addr != MEMCTRL_REGISTER ==> (
            #[trigger] trace::last_written(get_env::micro_accesses(script), addr)) is None,
        trace::leaves(
            get_env::micro_accesses(script),
            MEMCTRL_REGISTER,
            sweep::sweep_result(get_env::TEST_PATTERN, script),
        ),
        trace::leaves(get_env::micro_accesses(script), EWRAM_STATIC_DATA, 0),
{
    lemma_first_sweep_leaves_at(script, MEMCTRL_REGISTER);
    lemma_first_sweep_leaves_at(script, EWRAM_STATIC_DATA);
    assert forall|addr: u32| addr != EWRAM_STATIC_DATA && addr != MEMCTRL_REGISTER implies (
    #[trigger] trace::last_written(get_env::micro_accesses(script), addr)) is None by {
        lemma_first_sweep_leaves_at(script, addr);
    }
}

/// What the probes of the first probe set leave behind, but for the one that
/// reprograms the display: the request in the debug enable register, the
/// sweep's result in the memory control register and zero in the scratch
/// word. They write to no other register.
///
/// Each of the three is safe to leave. The request only turns on mGBA's log
/// channel and is dropped elsewhere. The sweep's result is a word that the
/// work RAM has just kept up with, or the base word with the longest wait.
/// The scratch word is the probes' own.
pub proof fn lemma_first_probe_leaves(probe: get_env::Probe, script: Seq<u32>, addr: u32)
    requires
        probe != get_env::Probe::MyBoy,
    ensures
        match trace::last_written(probe.accesses(script), addr) {
            None => true,
            Some(value) => {
                ||| addr == REG_MGBA_ENABLE && value == MGBA_ENABLE_REQUEST
                ||| addr == MEMCTRL_REGISTER && value == sweep::sweep_result(
                    get_env::TEST_PATTERN,
                    script,
                )
                ||| addr == EWRAM_STATIC_DATA && value == 0
            },
        },
{
    lemma_reading_probes_write_nothing(script);
    match probe {
        get_env::Probe::NintendoDS => {
            assert(trace::last_written(signatures::ds_accesses(script), addr) is None);
        },
        get_env::Probe::MGBA => {
            lemma_first_mgba_leaves_at(script, addr);
        },
        get_env::Probe::NoCashGBA => {
            assert(trace::last_written(signatures::nocash_accesses(script), addr) is None);
        },
        get_env::Probe::GameBoyAdvance => {
            assert(trace::last_written(signatures::real_gba_accesses(script), addr) is None);
        },
        get_env::Probe::GameBoyAdvanceMicro => {
            lemma_first_sweep_leaves_at(script, addr);
        },
        get_env::Probe::MyBoy => {},
        get_env::Probe::VisualBoyAdvance => {
            assert(trace::last_written(signatures::vba_accesses(), addr) is None);
        },
    }
}

} // verus!
