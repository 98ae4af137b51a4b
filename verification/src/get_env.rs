//! The first probe set, kept for programs that depend on what it leaves in
//! the registers. New code calls the probes at the crate root.
//!
//! It differs from the probes at the crate root in what it leaves behind.
//! Neither classifier runs the probe that reprograms the display.
//!
//! What this set leaves in the registers, and why it is safe to leave:
//!
//! - The mGBA probe leaves its request, `0xC0DE`, in the debug enable
//!   register. This is the word that mGBA asks a program to write there to
//!   turn on its log channel: under mGBA it leaves the channel on, which
//!   changes nothing that a program can see. On every other machine nothing
//!   is mapped at the address and the word is dropped.
//! - The timing sweep leaves the memory control register at the word it
//!   reports. That is a word whose round trip has just passed, so the work
//!   RAM keeps up with it; or, when not even code 0 passed, the base word,
//!   which selects code 0, the longest wait the register can ask for. The
//!   word whose round trip failed never stays selected.
//! - The round trip leaves zero in the scratch word, the first word of the
//!   work RAM, which the probes take as theirs: cleared, it cannot make a
//!   later round trip pass on a pattern left over.

use crate::backend::{Access, Bus, RegisterBackend};
use crate::classifier;
use crate::classifier::ProbeModel;
use crate::counts;
use crate::registers::{
    DS_FIRMWARE_CHECKSUM, MEMCTRL_DEFAULT, MEMCTRL_REGISTER, MGBA_ENABLE_ACK,
    MGBA_ENABLE_REQUEST, REG_MGBA_ENABLE,
};
use crate::signatures;
use crate::steps;
use crate::sweep;
use crate::trace;
use vstd::prelude::*;

verus! {

/// The word this probe set's round-trip test writes and expects back.
pub const TEST_PATTERN: u32 = 0xDEAD_BEEF;

/// Represents the current system environment.
#[derive(Debug, PartialEq, Eq, Structural)]
pub enum Environment {
    NintendoDS,
    MGBA,
    NoCashGBA,
    GameBoyAdvance,
    MyBoy,
    VisualBoyAdvance,
    GameBoyAdvanceMicro,
    GpSP,
    Unknown,
}

/// The probes of this set, each named after the environment it recognises.
pub enum Probe {
    NintendoDS,
    MGBA,
    NoCashGBA,
    GameBoyAdvance,
    GameBoyAdvanceMicro,
    MyBoy,
    VisualBoyAdvance,
}

/// The mGBA probe of this set asks for the debug channel and reads the
/// debug enable register back. The request stays in the register.
pub open spec fn mgba_accesses(script: Seq<u32>) -> Seq<Access> {
    seq![
        signatures::write16(REG_MGBA_ENABLE, MGBA_ENABLE_REQUEST as u32),
        signatures::read16(REG_MGBA_ENABLE, script[0]),
    ]
}

/// The mGBA probe matches when the register reads back as the
/// acknowledgement.
pub open spec fn mgba_matched(script: Seq<u32>) -> bool {
    script[0] == MGBA_ENABLE_ACK
}

/// The timing sweep of this set: step through the codes and, when one fails,
/// select the last word that worked, so that the failing word does not stay
/// selected. When every code works the last one stays selected.
pub open spec fn micro_accesses(script: Seq<u32>) -> Seq<Access> {
    let steps = sweep::sweep_steps(TEST_PATTERN, script);
    if sweep::codes_passed(TEST_PATTERN, script) < sweep::code_count() {
        steps.push(
            signatures::write32(MEMCTRL_REGISTER, sweep::sweep_result(TEST_PATTERN, script)),
        )
    } else {
        steps
    }
}

impl Probe {
    /// The environment that a match of this probe stands for.
    pub open spec fn environment(self) -> Environment {
        match self {
            Probe::NintendoDS => Environment::NintendoDS,
            Probe::MGBA => Environment::MGBA,
            Probe::NoCashGBA => Environment::NoCashGBA,
            Probe::GameBoyAdvance => Environment::GameBoyAdvance,
            Probe::GameBoyAdvanceMicro => Environment::GameBoyAdvanceMicro,
            Probe::MyBoy => Environment::MyBoy,
            Probe::VisualBoyAdvance => Environment::VisualBoyAdvance,
        }
    }
}

impl ProbeModel for Probe {
    open spec fn accesses(self, script: Seq<u32>) -> Seq<Access> {
        match self {
            Probe::NintendoDS => signatures::ds_accesses(script),
            Probe::MGBA => mgba_accesses(script),
            Probe::NoCashGBA => signatures::nocash_accesses(script),
            Probe::GameBoyAdvance => signatures::real_gba_accesses(script),
            Probe::GameBoyAdvanceMicro => micro_accesses(script),
            Probe::MyBoy => signatures::gpsp_accesses(script),
            Probe::VisualBoyAdvance => signatures::vba_accesses(),
        }
    }

    open spec fn matched(self, script: Seq<u32>) -> bool {
        match self {
            Probe::NintendoDS => signatures::ds_matched(script),
            Probe::MGBA => mgba_matched(script),
            Probe::NoCashGBA => signatures::nocash_matched(script),
            Probe::GameBoyAdvance => signatures::real_gba_matched(script),
            Probe::GameBoyAdvanceMicro => sweep::micro_matched(TEST_PATTERN, script),
            Probe::MyBoy => signatures::gpsp_matched(script),
            Probe::VisualBoyAdvance => true,
        }
    }

    proof fn lemma_local(self, s: Seq<Access>, later: Seq<u32>) {
        let own = trace::replies(s);
        let longer = own + later;
        match self {
            Probe::NintendoDS => signatures::lemma_ds_local(s, later),
            Probe::MGBA => {
                lemma_mgba_replies(own);
                assert(own =~= seq![own[0]]);
                assert(longer[0] == own[0]);
            },
            Probe::NoCashGBA => signatures::lemma_nocash_local(s, later),
            Probe::GameBoyAdvance => signatures::lemma_real_gba_local(s, later),
            Probe::GameBoyAdvanceMicro => {
                let tested = sweep::codes_tested(TEST_PATTERN, own);
                lemma_micro_replies(own);
                assert(own =~= Seq::new(1 + tested, |i: int| own[i]));
                assert forall|i: int| 0 <= i < 1 + tested implies own[i] == longer[i] by {}
                sweep::lemma_sweep_local(TEST_PATTERN, own, longer);
            },
            Probe::MyBoy => signatures::lemma_gpsp_local(s, later),
            Probe::VisualBoyAdvance => {},
        }
    }
}

/// The answer that `mgba_accesses` records.
pub proof fn lemma_mgba_replies(script: Seq<u32>)
    ensures
        trace::replies(mgba_accesses(script)) == seq![script[0]],
{
    let none = Seq::<Access>::empty();
    let request = signatures::write16(REG_MGBA_ENABLE, MGBA_ENABLE_REQUEST as u32);
    let check = signatures::read16(REG_MGBA_ENABLE, script[0]);
    trace::lemma_replies_push(none, request);
    trace::lemma_replies_push(none.push(request), check);
    assert(mgba_accesses(script) =~= none.push(request).push(check));
}

/// The answers that `micro_accesses` records: the register's value, then one
/// readback for each code tried.
pub proof fn lemma_micro_replies(script: Seq<u32>)
    ensures
        trace::replies(micro_accesses(script)) == Seq::new(
            1 + sweep::codes_tested(TEST_PATTERN, script),
            |i: int| script[i],
        ),
{
    sweep::lemma_sweep_steps_replies(TEST_PATTERN, script);
    trace::lemma_replies_push(
        sweep::sweep_steps(TEST_PATTERN, script),
        signatures::write32(MEMCTRL_REGISTER, sweep::sweep_result(TEST_PATTERN, script)),
    );
}

/// Writes the test pattern to the scratch word, reads it back and clears the
/// word. Reports whether the pattern came back.
pub fn ram_test<B: RegisterBackend>(bus: &mut Bus<B>) -> (passed: bool)
    ensures
        old(bus).trace().is_prefix_of(final(bus).trace()),
        ({
            let s = trace::appended(old(bus).trace(), final(bus).trace());
            let readback = trace::replies(s)[0];
            &&& s == sweep::ram_test_accesses(TEST_PATTERN, readback)
            &&& passed == (readback == TEST_PATTERN)
        }),
{
    steps::round_trip(bus, TEST_PATTERN)
}

/// Finds the last wait-state code that the external work RAM keeps up with
/// and leaves it selected.
///
/// Should always return 0x0E000020. On a Nintendo DS it returns an open bus
/// value; on a Game Boy Micro it returns 0x0D000020.
pub fn dram_training<B: RegisterBackend>(bus: &mut Bus<B>) -> (last_known_good_value: u32)
    ensures
        old(bus).trace().is_prefix_of(final(bus).trace()),
        ({
            let s = trace::appended(old(bus).trace(), final(bus).trace());
            &&& s == micro_accesses(trace::replies(s))
            &&& last_known_good_value == sweep::sweep_result(TEST_PATTERN, trace::replies(s))
        }),
{
    let found = steps::sweep_codes(bus, TEST_PATTERN);
    let ghost swept = bus.trace();
    if found.failed {
        bus.write32(MEMCTRL_REGISTER, found.last_good);
    }
    proof {
        let stepped = trace::appended(old(bus).trace(), swept);
        let s = trace::appended(old(bus).trace(), bus.trace());
        let settle = signatures::write32(MEMCTRL_REGISTER, found.last_good);
        if found.failed {
            assert(s =~= stepped.push(settle));
            trace::lemma_replies_push(stepped, settle);
        }
    }
    found.last_good
}

/// Detects if the current system is a GBA Micro.
pub fn detect_gba_micro<B: RegisterBackend>(bus: &mut Bus<B>) -> (matched: bool)
    ensures
        classifier::probed(
            Probe::GameBoyAdvanceMicro,
            old(bus).trace(),
            final(bus).trace(),
            matched,
        ),
{
    dram_training(bus) == MEMCTRL_DEFAULT
}

/// Detects if the current system is a Nintendo DS running in GBA mode.
pub fn detect_ds<B: RegisterBackend>(bus: &mut Bus<B>) -> (matched: bool)
    ensures
        classifier::probed(Probe::NintendoDS, old(bus).trace(), final(bus).trace(), matched),
{
    steps::ask_firmware(bus)
}

/// Detects if the system is running mGBA.
pub fn detect_mgba<B: RegisterBackend>(bus: &mut Bus<B>) -> (matched: bool)
    ensures
        classifier::probed(Probe::MGBA, old(bus).trace(), final(bus).trace(), matched),
{
    bus.write16(REG_MGBA_ENABLE, MGBA_ENABLE_REQUEST);
    let readback = bus.read16(REG_MGBA_ENABLE);
    proof {
        let s = trace::appended(old(bus).trace(), bus.trace());
        assert(s =~= mgba_accesses(seq![readback as u32]));
        lemma_mgba_replies(seq![readback as u32]);
    }
    readback == MGBA_ENABLE_ACK
}

/// Detects if the system is running no$gba debug.
pub fn detect_nocashba_debug<B: RegisterBackend>(bus: &mut Bus<B>) -> (matched: bool)
    ensures
        classifier::probed(Probe::NoCashGBA, old(bus).trace(), final(bus).trace(), matched),
{
    steps::read_signature(bus)
}

/// Detects if the system is a real Game Boy Advance.
pub fn detect_real_gba<B: RegisterBackend>(bus: &mut Bus<B>) -> (matched: bool)
    ensures
        classifier::probed(Probe::GameBoyAdvance, old(bus).trace(), final(bus).trace(), matched),
{
    steps::read_timing(bus)
}

/// Selects the shortest wait state and checks that the scratch word still
/// holds what is stored in it; if it does not, selects the default wait
/// state. Reports whether the word held.
pub fn ram_overclock<B: RegisterBackend>(bus: &mut Bus<B>) -> (held: bool)
    ensures
        old(bus).trace().is_prefix_of(final(bus).trace()),
        ({
            let s = trace::appended(old(bus).trace(), final(bus).trace());
            let readback = trace::replies(s)[0];
            &&& s == signatures::overclock_accesses(readback)
            &&& held == (readback == 1)
        }),
{
    steps::overclock(bus)
}

/// Detects if the system is running the MyBoy emulator.
///
/// The probe reprograms the display and the memory timing and does not put
/// the timing back. It breaks real hardware and gpSP, and `get_env` does not
/// run it.
pub fn detect_android_myboy_emulator<B: RegisterBackend>(bus: &mut Bus<B>) -> (matched: bool)
    ensures
        classifier::probed(Probe::MyBoy, old(bus).trace(), final(bus).trace(), matched),
{
    steps::reprogram_display(bus)
}

/// Detects if the system is running VisualBoyAdvance.
///
/// The probe prints through the emulator's log call and sees no answer, so
/// it reports a match whatever it runs on.
pub fn detect_vba<B: RegisterBackend>(bus: &mut Bus<B>) -> (matched: bool)
    ensures
        classifier::probed(
            Probe::VisualBoyAdvance,
            old(bus).trace(),
            final(bus).trace(),
            matched,
        ),
{
    steps::print_to_log(bus);
    true
}

/// The order in which `get_env` tries the probes. The MyBoy probe is not in
/// it: it breaks real hardware and gpSP.
///
/// The Nintendo DS probe is first, the mGBA and no$gba probes come before
/// the hardware probe, and the VisualBoyAdvance probe, which reports a match
/// without having seen one, is last.
pub open spec fn probe_order() -> Seq<Probe> {
    seq![
        Probe::NintendoDS,
        Probe::MGBA,
        Probe::NoCashGBA,
        Probe::GameBoyAdvance,
        Probe::GameBoyAdvanceMicro,
        Probe::VisualBoyAdvance,
    ]
}

/// The environment that a classification stands for: that of the probe that
/// matched, or `Unknown` if none did.
pub open spec fn environment_of(matched: Option<Probe>) -> Environment {
    match matched {
        Some(probe) => probe.environment(),
        None => Environment::Unknown,
    }
}

/// Returns the current system environment.
///
/// The probes run in the order of `probe_order` and the first match decides;
/// no probe after it runs. The probe that reprograms the display never runs.
///
/// Under gpSP no probe before the last matches, and the log call of the last
/// one does not return there.
pub fn get_env<B: RegisterBackend>(bus: &mut Bus<B>) -> (env: Environment)
    ensures
        classifier::classified(probe_order(), old(bus).trace(), final(bus).trace()),
        env == environment_of(
            classifier::verdict(probe_order(), old(bus).trace(), final(bus).trace()),
        ),
{
    let ghost order = probe_order();
    let ghost before = bus.trace();
    proof {
        classifier::lemma_underway_start(order, before);
    }
    let ghost mid = bus.trace();
    if detect_ds(bus) {
        proof {
            classifier::lemma_probe_matched(order, before, mid, bus.trace(), 0);
        }
        return Environment::NintendoDS;
    }
    proof {
        classifier::lemma_probe_missed(order, before, mid, bus.trace(), 0);
    }
    let ghost mid = bus.trace();
    if detect_mgba(bus) {
        proof {
            classifier::lemma_probe_matched(order, before, mid, bus.trace(), 1);
        }
        return Environment::MGBA;
    }
    proof {
        classifier::lemma_probe_missed(order, before, mid, bus.trace(), 1);
    }
    let ghost mid = bus.trace();
    if detect_nocashba_debug(bus) {
        proof {
            classifier::lemma_probe_matched(order, before, mid, bus.trace(), 2);
        }
        return Environment::NoCashGBA;
    }
    proof {
        classifier::lemma_probe_missed(order, before, mid, bus.trace(), 2);
    }
    let ghost mid = bus.trace();
    if detect_real_gba(bus) {
        proof {
            classifier::lemma_probe_matched(order, before, mid, bus.trace(), 3);
        }
        return Environment::GameBoyAdvance;
    }
    proof {
        classifier::lemma_probe_missed(order, before, mid, bus.trace(), 3);
    }
    let ghost mid = bus.trace();
    if detect_gba_micro(bus) {
        proof {
            classifier::lemma_probe_matched(order, before, mid, bus.trace(), 4);
        }
        return Environment::GameBoyAdvanceMicro;
    }
    proof {
        classifier::lemma_probe_missed(order, before, mid, bus.trace(), 4);
    }
    let ghost mid = bus.trace();
    if detect_vba(bus) {
        proof {
            classifier::lemma_probe_matched(order, before, mid, bus.trace(), 5);
        }
        return Environment::VisualBoyAdvance;
    }
    proof {
        classifier::lemma_probe_missed(order, before, mid, bus.trace(), 5);
        classifier::lemma_none_matched(order, before, bus.trace());
    }
    Environment::Unknown
}

/// Determinism: two calls of `get_env` that were given the same answers made
/// the same accesses and returned the same environment.
pub proof fn lemma_get_env_deterministic(
    before1: Seq<Access>,
    after1: Seq<Access>,
    env1: Environment,
    before2: Seq<Access>,
    after2: Seq<Access>,
    env2: Environment,
)
    requires
        classifier::classified(probe_order(), before1, after1),
        env1 == environment_of(classifier::verdict(probe_order(), before1, after1)),
        classifier::classified(probe_order(), before2, after2),
        env2 == environment_of(classifier::verdict(probe_order(), before2, after2)),
        trace::replies(trace::appended(before1, after1)) == trace::replies(
            trace::appended(before2, after2),
        ),
    ensures
        trace::appended(before1, after1) == trace::appended(before2, after2),
        env1 == env2,
{
}

/// The probes of the order stand for different environments.
pub proof fn lemma_environments_differ(first: int, second: int)
    requires
        0 <= first < second < probe_order().len(),
    ensures
        probe_order()[first].environment() != probe_order()[second].environment(),
{
}

/// Precedence: when two probes of the order would both match, `get_env` does
/// not answer with the environment of the lower one; it answers with that of
/// the higher one when no probe before it would match.
pub proof fn lemma_higher_priority_wins(script: Seq<u32>, higher: int, lower: int)
    requires
        0 <= higher < lower < probe_order().len(),
        classifier::would_match(probe_order(), script, higher),
        classifier::would_match(probe_order(), script, lower),
    ensures
        environment_of(classifier::run(probe_order(), script).matched)
            != probe_order()[lower].environment(),
        (forall|index: int|
            0 <= index < higher ==> !classifier::would_match(probe_order(), script, index))
            ==> environment_of(classifier::run(probe_order(), script).matched)
            == probe_order()[higher].environment(),
{
    classifier::lemma_priority(probe_order(), script, higher, lower);
    lemma_environments_differ(classifier::first_match(probe_order(), script, 0), lower);
}

/// Totality: `get_env` answers with the environment of the first probe of the
/// order that would match. The last probe matches on every machine, so no
/// answer is `Unknown`; and the probe that reprograms the display is not in
/// the order, so no answer is `MyBoy` or `GpSP`.
pub proof fn lemma_some_probe_matches(script: Seq<u32>)
    ensures
        0 <= classifier::first_match(probe_order(), script, 0) < probe_order().len(),
        environment_of(classifier::run(probe_order(), script).matched) == probe_order()[
            classifier::first_match(probe_order(), script, 0)
        ].environment(),
        environment_of(classifier::run(probe_order(), script).matched) != Environment::Unknown,
        environment_of(classifier::run(probe_order(), script).matched) != Environment::MyBoy,
        environment_of(classifier::run(probe_order(), script).matched) != Environment::GpSP,
{
    let last = probe_order().len() - 1;
    classifier::lemma_run_total(probe_order(), script);
    assert(classifier::would_match(probe_order(), script, last));
}

/// A machine whose firmware has the checksum of a Nintendo DS is answered
/// with `NintendoDS`, whatever else it holds.
pub proof fn lemma_ds_checksum_decides(script: Seq<u32>)
    requires
        script[0] == DS_FIRMWARE_CHECKSUM,
    ensures
        environment_of(classifier::run(probe_order(), script).matched) == Environment::NintendoDS,
{
    classifier::lemma_first_match_decides(probe_order(), script, 0);
}

/// A machine with another firmware whose debug enable register acknowledges
/// the request is answered with `MGBA`, whatever else it holds.
pub proof fn lemma_acknowledgement_decides(script: Seq<u32>)
    requires
        script.len() >= 2,
        script[0] != DS_FIRMWARE_CHECKSUM,
        script[1] == MGBA_ENABLE_ACK,
    ensures
        environment_of(classifier::run(probe_order(), script).matched) == Environment::MGBA,
{
    signatures::lemma_ds_replies(script);
    assert(classifier::script_at(probe_order(), script, 1) == script.skip(1)) by {
        reveal_with_fuel(classifier::script_at, 2);
    }
    classifier::lemma_first_match_decides(probe_order(), script, 1);
}

/// Boundedness: `get_env` makes no more than 75 accesses.
pub proof fn lemma_get_env_bounded(script: Seq<u32>)
    ensures
        classifier::run(probe_order(), script).accesses.len() <= 75,
{
    counts::lemma_first_get_env_counts(script, trace::Kind::Any);
    trace::lemma_count_any(classifier::run(probe_order(), script).accesses);
}

} // verus!
