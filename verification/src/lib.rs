//! Identifies the environment a Game Boy Advance ROM is running on.
//!
//! The environment is identified by calling [`get_env`]; the supported
//! environments are those of [`Environment`].
//!
//! The probes reach the machine through a [`backend::RegisterBackend`], wrapped
//! in a [`backend::Bus`] that keeps a ghost record of every access. Each probe's
//! contract states the exact accesses it makes and how its answer follows from
//! the values the machine handed back.
//!
//! - [`backend`]: the machine as the probes see it, and the record of accesses.
//! - [`trace`]: reading a record: the answers in it and what its writes left.
//! - [`signatures`], [`sweep`]: what each probe does and looks for.
//! - [`classifier`]: first match wins, for any order of probes.
//! - [`restoration`], [`memory`]: what the probes leave behind.
//! - [`counts`]: how many accesses of each kind a classification makes.
//! - [`mod@get_env`]: the first probe set.
//!
//! The probes at the crate root are the ones to use: their order and what
//! they put back are the rule. The first probe set is kept for programs that
//! depend on what it leaves in the registers.
//!
//! Neither `get_env` runs the probe that reprograms the display: it may crash
//! the machine it runs on. It stays on offer as [`identify_gpsp`], for a
//! caller that has ruled those machines out.

pub mod backend;
pub mod classifier;
pub mod counts;
pub mod get_env;
pub mod memory;
pub mod registers;
pub mod restoration;
pub mod signatures;
mod steps;
pub mod sweep;
pub mod trace;

use crate::backend::{Access, Bus, RegisterBackend};
use crate::classifier::ProbeModel;
use crate::registers::{
    DS_CHECKSUM_COMPLEMENT, DS_FIRMWARE_CHECKSUM, MEMCTRL_DEFAULT, MEMCTRL_REGISTER,
    MGBA_ENABLE_ACK, MGBA_ENABLE_REQUEST, RAM_TEST_PATTERN, REG_MGBA_ENABLE,
};
use vstd::prelude::*;

verus! {

/// Represents the current system environment.
#[derive(Debug, PartialEq, Eq, Clone, Copy, Structural)]
pub enum Environment {
    /// Nintendo DS fat or lite
    NintendoDS,
    /// MGBA or NanoBoyAdvance
    MGBA,
    /// No$GBA (debug mode)
    NoCashGBA,
    GameBoyAdvance,
    /// gpSP or MyBoy! Android Emulator. `get_env` never answers with it:
    /// only `identify_gpsp` tells, and a caller has to ask for it.
    GpSp,
    VisualBoyAdvance,
    GameBoyAdvanceMicro,
    Unknown,
}

/// The probes, each named after the environment it recognises. `GpSp` is
/// the probe that reprograms the display; it is in no order that `get_env`
/// runs.
pub enum Probe {
    NintendoDS,
    MGBA,
    NoCashGBA,
    GameBoyAdvance,
    GameBoyAdvanceMicro,
    GpSp,
    VisualBoyAdvance,
}

/// The timing sweep of this probe set: step through the codes, then put back
/// what the memory control register held.
pub open spec fn micro_accesses(script: Seq<u32>) -> Seq<Access> {
    sweep::sweep_steps(RAM_TEST_PATTERN, script).push(
        signatures::write32(MEMCTRL_REGISTER, script[0]),
    )
}

impl Probe {
    /// The environment that a match of this probe stands for.
    pub open spec fn environment(self) -> Environment {
        match self {
            Probe::NintendoDS => Environment::NintendoDS,
            Probe::MGBA => Environment::MGBA,
            Probe::NoCashGBA => Environment::NoCashGBA,
            Probe::GameBoyAdvance => Environment::GameBoyAdvance,
            Probe::GameBoyAdvanceMicro => Environment::GameBoyAdvanceMicro,
            Probe::GpSp => Environment::GpSp,
            Probe::VisualBoyAdvance => Environment::VisualBoyAdvance,
        }
    }
}

impl ProbeModel for Probe {
    open spec fn accesses(self, script: Seq<u32>) -> Seq<Access> {
        match self {
            Probe::NintendoDS => signatures::ds_accesses(script),
            Probe::MGBA => signatures::mgba_accesses(script),
            Probe::NoCashGBA => signatures::nocash_accesses(script),
            Probe::GameBoyAdvance => signatures::real_gba_accesses(script),
            Probe::GameBoyAdvanceMicro => micro_accesses(script),
            Probe::GpSp => signatures::gpsp_accesses(script),
            Probe::VisualBoyAdvance => signatures::vba_accesses(),
        }
    }

    open spec fn matched(self, script: Seq<u32>) -> bool {
        match self {
            Probe::NintendoDS => signatures::ds_matched(script),
            Probe::MGBA => signatures::mgba_matched(script),
            Probe::NoCashGBA => signatures::nocash_matched(script),
            Probe::GameBoyAdvance => signatures::real_gba_matched(script),
            Probe::GameBoyAdvanceMicro => sweep::micro_matched(RAM_TEST_PATTERN, script),
            Probe::GpSp => signatures::gpsp_matched(script),
            Probe::VisualBoyAdvance => true,
        }
    }

    proof fn lemma_local(self, s: Seq<Access>, later: Seq<u32>) {
        let own = trace::replies(s);
        let longer = own + later;
        match self {
            Probe::NintendoDS => signatures::lemma_ds_local(s, later),
            Probe::MGBA => {
                signatures::lemma_mgba_replies(own);
                assert(own =~= seq![own[0], own[1]]);
                assert(longer[0] == own[0] && longer[1] == own[1]);
            },
            Probe::NoCashGBA => signatures::lemma_nocash_local(s, later),
            Probe::GameBoyAdvance => signatures::lemma_real_gba_local(s, later),
            Probe::GameBoyAdvanceMicro => {
                let tested = sweep::codes_tested(RAM_TEST_PATTERN, own);
                sweep::lemma_sweep_steps_replies(RAM_TEST_PATTERN, own);
                trace::lemma_replies_push(
                    sweep::sweep_steps(RAM_TEST_PATTERN, own),
                    signatures::write32(MEMCTRL_REGISTER, own[0]),
                );
                assert(own =~= Seq::new(1 + tested, |i: int| own[i]));
                assert forall|i: int| 0 <= i < 1 + tested implies own[i] == longer[i] by {}
                sweep::lemma_sweep_local(RAM_TEST_PATTERN, own, longer);
            },
            Probe::GpSp => signatures::lemma_gpsp_local(s, later),
            Probe::VisualBoyAdvance => {},
        }
    }
}

/// Folds the firmware checksum the way the firmware call's caller does: add
/// the complement, negate, and add the two with the carry that the negation
/// left. All that remains is the carry.
pub fn fold_checksum(checksum: u32) -> (folded: u32)
    ensures
        folded == signatures::folded_checksum(checksum),
{
    let sum = checksum.wrapping_add(DS_CHECKSUM_COMPLEMENT);
    let negated = 0u32.wrapping_sub(sum);
    let carry: u32 = if sum == 0 {
        1
    } else {
        0
    };
    sum.wrapping_add(negated).wrapping_add(carry)
}

/// Detects if the current system is a Nintendo DS running in GBA mode.
///
/// Asks the firmware for its checksum and folds it: the firmware of a
/// Nintendo DS has a checksum of its own. This probe comes first, since on a
/// Nintendo DS the registers that the later probes read are open bus.
pub fn identify_ds<B: RegisterBackend>(bus: &mut Bus<B>) -> (matched: bool)
    ensures
        classifier::probed(Probe::NintendoDS, old(bus).trace(), final(bus).trace(), matched),
{
    steps::ask_firmware(bus)
}

/// Detects if the system is running mGBA.
///
/// Asks for mGBA's debug channel and looks for the acknowledgement. What the
/// debug enable register held is put back.
pub fn identify_mgba<B: RegisterBackend>(bus: &mut Bus<B>) -> (matched: bool)
    ensures
        classifier::probed(Probe::MGBA, old(bus).trace(), final(bus).trace(), matched),
{
    let original_value = bus.read16(REG_MGBA_ENABLE);
    bus.write16(REG_MGBA_ENABLE, MGBA_ENABLE_REQUEST);
    let result = bus.read16(REG_MGBA_ENABLE) == MGBA_ENABLE_ACK;
    bus.write16(REG_MGBA_ENABLE, original_value);
    proof {
        let s = trace::appended(old(bus).trace(), bus.trace());
        let readback = s[2]->Read_value;
        assert(s =~= signatures::mgba_accesses(seq![original_value as u32, readback]));
        signatures::lemma_mgba_replies(seq![original_value as u32, readback]);
    }
    result
}

/// Detects if the system is a real Game Boy Advance.
///
/// mGBA and no$gba show the same memory control word as real hardware, so
/// their probes come before this one.
pub fn identify_real_gba<B: RegisterBackend>(bus: &mut Bus<B>) -> (matched: bool)
    ensures
        classifier::probed(Probe::GameBoyAdvance, old(bus).trace(), final(bus).trace(), matched),
{
    steps::read_timing(bus)
}

/// Detects if the system is running VisualBoyAdvance.
///
/// The probe prints through the emulator's log call and sees no answer, so
/// it reports a match whatever it runs on. The call crashes real hardware,
/// the Nintendo DS, no$gba and gpSP: this probe comes last.
pub fn identify_vba<B: RegisterBackend>(bus: &mut Bus<B>) -> (matched: bool)
    ensures
        classifier::probed(
            Probe::VisualBoyAdvance,
            old(bus).trace(),
            final(bus).trace(),
            matched,
        ),
{
    steps::print_to_log(bus);
    true
}

/// Detects if the system is running no$gba debug.
///
/// Reads the seven bytes where the debug version keeps its name and compares
/// them with `no$gba `. All seven are read, whatever they hold.
pub fn identify_nocashba_debug<B: RegisterBackend>(bus: &mut Bus<B>) -> (matched: bool)
    ensures
        classifier::probed(Probe::NoCashGBA, old(bus).trace(), final(bus).trace(), matched),
{
    steps::read_signature(bus)
}

/// Writes the test pattern to the scratch word, reads it back and clears the
/// word. Reports whether the pattern came back.
pub fn ram_test<B: RegisterBackend>(bus: &mut Bus<B>) -> (passed: bool)
    ensures
        old(bus).trace().is_prefix_of(final(bus).trace()),
        ({
            let s = trace::appended(old(bus).trace(), final(bus).trace());
            let readback = trace::replies(s)[0];
            &&& s == sweep::ram_test_accesses(RAM_TEST_PATTERN, readback)
            &&& passed == (readback == RAM_TEST_PATTERN)
        }),
{
    steps::round_trip(bus, RAM_TEST_PATTERN)
}

/// Finds the last wait-state code that the external work RAM keeps up with.
///
/// Should always return 0x0E000020. On a Nintendo DS it returns an open bus
/// value; on a Game Boy Micro it returns 0x0D000020.
pub fn dram_training<B: RegisterBackend>(bus: &mut Bus<B>) -> (last_known_good_value: u32)
    ensures
        old(bus).trace().is_prefix_of(final(bus).trace()),
        ({
            let s = trace::appended(old(bus).trace(), final(bus).trace());
            &&& s == micro_accesses(trace::replies(s))
            &&& last_known_good_value == sweep::sweep_result(RAM_TEST_PATTERN, trace::replies(s))
        }),
{
    let found = steps::sweep_codes(bus, RAM_TEST_PATTERN);
    let ghost swept = bus.trace();
    bus.write32(MEMCTRL_REGISTER, found.original);  // Restore the original value
    proof {
        let stepped = trace::appended(old(bus).trace(), swept);
        let s = trace::appended(old(bus).trace(), bus.trace());
        let restore = signatures::write32(MEMCTRL_REGISTER, found.original);
        assert(s =~= stepped.push(restore));
        trace::lemma_replies_push(stepped, restore);
    }
    found.last_good
}

/// Detects if the current system is a GBA Micro.
///
/// Runs the timing sweep and compares the last word that worked with the one
/// that a Game Boy Micro ends on.
pub fn identify_gba_micro<B: RegisterBackend>(bus: &mut Bus<B>) -> (matched: bool)
    ensures
        classifier::probed(
            Probe::GameBoyAdvanceMicro,
            old(bus).trace(),
            final(bus).trace(),
            matched,
        ),
{
    dram_training(bus) == MEMCTRL_DEFAULT
}

/// Selects the shortest wait state and checks that the scratch word still
/// holds what is stored in it; if it does not, selects the default wait
/// state. Reports whether the word held.
pub fn ram_overclock<B: RegisterBackend>(bus: &mut Bus<B>) -> (held: bool)
    ensures
        old(bus).trace().is_prefix_of(final(bus).trace()),
        ({
            let s = trace::appended(old(bus).trace(), final(bus).trace());
            let readback = trace::replies(s)[0];
            &&& s == signatures::overclock_accesses(readback)
            &&& held == (readback == 1)
        }),
{
    steps::overclock(bus)
}

/// Detects if the system is running gpSP or the MyBoy emulator.
///
/// The probe reprograms the display and the memory timing and does not put
/// the timing back. It may crash real hardware and other emulators, so
/// `get_env` does not run it. A caller may run it once `get_env` has ruled
/// those machines out.
pub fn identify_gpsp<B: RegisterBackend>(bus: &mut Bus<B>) -> (matched: bool)
    ensures
        classifier::probed(Probe::GpSp, old(bus).trace(), final(bus).trace(), matched),
{
    steps::reprogram_display(bus)
}

/// The order in which `get_env` tries the probes.
///
/// The order is critical: a probe may crash a system that an earlier probe
/// would have recognised.
///
/// - The Nintendo DS probe is first: on a Nintendo DS the registers that the
///   other probes read are open bus and may hold anything.
/// - The mGBA and no$gba probes come before the hardware probe: they look
///   for a mark that only their emulator has, while the memory control word
///   of real hardware shows under these emulators too.
/// - The VisualBoyAdvance probe is last: it reports a match without having
///   seen one, and must not stand in front of a probe that has.
/// - The probe that reprograms the display is not in the order: it may crash
///   the machine it runs on.
pub open spec fn probe_order() -> Seq<Probe> {
    seq![
        Probe::NintendoDS,
        Probe::MGBA,
        Probe::NoCashGBA,
        Probe::GameBoyAdvance,
        Probe::GameBoyAdvanceMicro,
        Probe::VisualBoyAdvance,
    ]
}

/// The environment that a classification stands for: that of the probe that
/// matched, or `Unknown` if none did.
pub open spec fn environment_of(matched: Option<Probe>) -> Environment {
    match matched {
        Some(probe) => probe.environment(),
        None => Environment::Unknown,
    }
}

/// Returns the current system environment.
///
/// The probes run in the order of `probe_order` and the first match decides;
/// no probe after it runs. The probe that reprograms the display never runs.
///
/// Under gpSP no probe before the last matches, and the log call of the last
/// one does not return there.
pub fn get_env<B: RegisterBackend>(bus: &mut Bus<B>) -> (env: Environment)
    ensures
        classifier::classified(probe_order(), old(bus).trace(), final(bus).trace()),
        env == environment_of(
            classifier::verdict(probe_order(), old(bus).trace(), final(bus).trace()),
        ),
{
    let ghost order = probe_order();
    let ghost before = bus.trace();
    proof {
        classifier::lemma_underway_start(order, before);
    }
    let ghost mid = bus.trace();
    if identify_ds(bus) {
        proof {
            classifier::lemma_probe_matched(order, before, mid, bus.trace(), 0);
        }
        return Environment::NintendoDS;
    }
    proof {
        classifier::lemma_probe_missed(order, before, mid, bus.trace(), 0);
    }
    let ghost mid = bus.trace();
    if identify_mgba(bus) {
        proof {
            classifier::lemma_probe_matched(order, before, mid, bus.trace(), 1);
        }
        return Environment::MGBA;
    }
    proof {
        classifier::lemma_probe_missed(order, before, mid, bus.trace(), 1);
    }
    let ghost mid = bus.trace();
    if identify_nocashba_debug(bus) {
        proof {
            classifier::lemma_probe_matched(order, before, mid, bus.trace(), 2);
        }
        return Environment::NoCashGBA;
    }
    proof {
        classifier::lemma_probe_missed(order, before, mid, bus.trace(), 2);
    }
    let ghost mid = bus.trace();
    if identify_real_gba(bus) {
        proof {
            classifier::lemma_probe_matched(order, before, mid, bus.trace(), 3);
        }
        return Environment::GameBoyAdvance;
    }
    proof {
        classifier::lemma_probe_missed(order, before, mid, bus.trace(), 3);
    }
    let ghost mid = bus.trace();
    if identify_gba_micro(bus) {
        proof {
            classifier::lemma_probe_matched(order, before, mid, bus.trace(), 4);
        }
        return Environment::GameBoyAdvanceMicro;
    }
    proof {
        classifier::lemma_probe_missed(order, before, mid, bus.trace(), 4);
    }
    let ghost mid = bus.trace();
    if identify_vba(bus) {
        proof {
            classifier::lemma_probe_matched(order, before, mid, bus.trace(), 5);
        }
        return Environment::VisualBoyAdvance;
    }
    proof {
        classifier::lemma_probe_missed(order, before, mid, bus.trace(), 5);
        classifier::lemma_none_matched(order, before, bus.trace());
    }
    Environment::Unknown
}

/// Determinism: two calls of `get_env` that were given the same answers made
/// the same accesses and returned the same environment.
pub proof fn lemma_get_env_deterministic(
    before1: Seq<Access>,
    after1: Seq<Access>,
    env1: Environment,
    before2: Seq<Access>,
    after2: Seq<Access>,
    env2: Environment,
)
    requires
        classifier::classified(probe_order(), before1, after1),
        env1 == environment_of(classifier::verdict(probe_order(), before1, after1)),
        classifier::classified(probe_order(), before2, after2),
        env2 == environment_of(classifier::verdict(probe_order(), before2, after2)),
        trace::replies(trace::appended(before1, after1)) == trace::replies(
            trace::appended(before2, after2),
        ),
    ensures
        trace::appended(before1, after1) == trace::appended(before2, after2),
        env1 == env2,
{
}

/// The probes of the order stand for different environments.
pub proof fn lemma_environments_differ(first: int, second: int)
    requires
        0 <= first < second < probe_order().len(),
    ensures
        probe_order()[first].environment() != probe_order()[second].environment(),
{
}

/// Precedence: when two probes of the order would both match, `get_env` does
/// not answer with the environment of the lower one; it answers with that of
/// the higher one when no probe before it would match.
pub proof fn lemma_higher_priority_wins(script: Seq<u32>, higher: int, lower: int)
    requires
        0 <= higher < lower < probe_order().len(),
        classifier::would_match(probe_order(), script, higher),
        classifier::would_match(probe_order(), script, lower),
    ensures
        environment_of(classifier::run(probe_order(), script).matched)
            != probe_order()[lower].environment(),
        (forall|index: int|
            0 <= index < higher ==> !classifier::would_match(probe_order(), script, index))
            ==> environment_of(classifier::run(probe_order(), script).matched)
            == probe_order()[higher].environment(),
{
    classifier::lemma_priority(probe_order(), script, higher, lower);
    lemma_environments_differ(classifier::first_match(probe_order(), script, 0), lower);
}

/// Totality: `get_env` answers with the environment of the first probe of the
/// order that would match. The last probe matches on every machine, so no
/// answer is `Unknown`; and the probe that reprograms the display is not in
/// the order, so no answer is `GpSp`.
pub proof fn lemma_some_probe_matches(script: Seq<u32>)
    ensures
        0 <= classifier::first_match(probe_order(), script, 0) < probe_order().len(),
        environment_of(classifier::run(probe_order(), script).matched) == probe_order()[
            classifier::first_match(probe_order(), script, 0)
        ].environment(),
        environment_of(classifier::run(probe_order(), script).matched) != Environment::Unknown,
        environment_of(classifier::run(probe_order(), script).matched) != Environment::GpSp,
{
    let last = probe_order().len() - 1;
    classifier::lemma_run_total(probe_order(), script);
    assert(classifier::would_match(probe_order(), script, last));
}

/// A machine whose firmware has the checksum of a Nintendo DS is answered
/// with `NintendoDS`, whatever else it holds.
pub proof fn lemma_ds_checksum_decides(script: Seq<u32>)
    requires
        script[0] == DS_FIRMWARE_CHECKSUM,
    ensures
        environment_of(classifier::run(probe_order(), script).matched) == Environment::NintendoDS,
{
    classifier::lemma_first_match_decides(probe_order(), script, 0);
}

/// A machine with another firmware whose debug enable register acknowledges
/// the request is answered with `MGBA`, whatever else it holds.
pub proof fn lemma_acknowledgement_decides(script: Seq<u32>)
    requires
        script.len() >= 3,
        script[0] != DS_FIRMWARE_CHECKSUM,
        script[2] == MGBA_ENABLE_ACK,
    ensures
        environment_of(classifier::run(probe_order(), script).matched) == Environment::MGBA,
{
    signatures::lemma_ds_replies(script);
    assert(classifier::script_at(probe_order(), script, 1) == script.skip(1)) by {
        reveal_with_fuel(classifier::script_at, 2);
    }
    classifier::lemma_first_match_decides(probe_order(), script, 1);
}

/// Boundedness: `get_env` makes no more than 77 accesses.
pub proof fn lemma_get_env_bounded(script: Seq<u32>)
    ensures
        classifier::run(probe_order(), script).accesses.len() <= 77,
{
    counts::lemma_get_env_counts(script, trace::Kind::Any);
    trace::lemma_count_any(classifier::run(probe_order(), script).accesses);
}

} // verus!
