//! How many accesses of each kind the probes and the classifiers make.

use crate::backend::Access;
use crate::classifier;
use crate::classifier::ProbeModel;
use crate::get_env;
use crate::registers::{
    EWRAM_STATIC_DATA, MEMCTRL_REGISTER, MGBA_ENABLE_REQUEST, NOCASH_SIG, RAM_TEST_PATTERN,
    REG_MGBA_ENABLE,
};
use crate::signatures;
use crate::sweep;
use crate::trace;
use crate::trace::Kind;
use crate::Probe;
use vstd::prelude::*;

verus! {

/// The kinds of access that are counted one by one.
pub open spec fn counted(kind: Kind) -> bool {
    ||| kind == Kind::Any
    ||| kind == Kind::FirmwareCall
    ||| kind == Kind::LogMessage
    ||| kind == Kind::WriteTo(MEMCTRL_REGISTER)
    ||| kind == Kind::ReadOf(EWRAM_STATIC_DATA)
}

/// The most accesses of each counted kind that any probe makes which asks
/// the firmware: one call.
pub open spec fn firmware_limit(kind: Kind) -> nat {
    if kind == Kind::Any || kind == Kind::FirmwareCall {
        1
    } else {
        0
    }
}

/// The most accesses of each counted kind that the reads of the signature
/// make: seven reads.
pub open spec fn signature_limit(kind: Kind) -> nat {
    if kind == Kind::Any {
        7
    } else {
        0
    }
}

/// The most accesses of each counted kind that the hardware probe makes: one
/// read.
pub open spec fn timing_limit(kind: Kind) -> nat {
    if kind == Kind::Any {
        1
    } else {
        0
    }
}

/// The most accesses of each counted kind that a timing sweep makes with the
/// write that follows it: fifteen codes at four accesses each, the read
/// before them and the write after them.
pub open spec fn sweep_limit(kind: Kind) -> nat {
    if kind == Kind::Any {
        62
    } else if kind == Kind::WriteTo(MEMCTRL_REGISTER) {
        16
    } else if kind == Kind::ReadOf(EWRAM_STATIC_DATA) {
        15
    } else {
        0
    }
}

/// The most accesses of each counted kind that the VisualBoyAdvance probe
/// makes: two messages.
pub open spec fn log_limit(kind: Kind) -> nat {
    if kind == Kind::Any || kind == Kind::LogMessage {
        2
    } else {
        0
    }
}

/// The most accesses of each counted kind that an mGBA probe makes, which
/// are `accesses` reads and writes of the debug enable register.
pub open spec fn mgba_limit(kind: Kind, accesses: nat) -> nat {
    if kind == Kind::Any {
        accesses
    } else {
        0
    }
}

/// The reads of the signature region are reads, one for each byte, and none
/// of them is of the scratch word.
proof fn lemma_signature_reads_counts(script: Seq<u32>, count: nat, kind: Kind)
    requires
        count <= 7,
        counted(kind),
    ensures
        signatures::signature_reads(script, count).len() == count,
        trace::count(signatures::signature_reads(script, count), kind) == if kind == Kind::Any {
            count
        } else {
            0
        },
    decreases count,
{
    if count > 0 {
        let before = (count - 1) as nat;
        lemma_signature_reads_counts(script, before, kind);
        trace::lemma_count_push(
            signatures::signature_reads(script, before),
            signatures::read8((NOCASH_SIG + count - 1) as u32, script[count - 1]),
            kind,
        );
    }
}

/// The probes that both sets share stay within their limits.
proof fn lemma_shared_counts(answers: Seq<u32>, kind: Kind)
    requires
        counted(kind),
    ensures
        trace::count(signatures::ds_accesses(answers), kind) <= firmware_limit(kind),
        trace::count(signatures::nocash_accesses(answers), kind) <= signature_limit(kind),
        trace::count(signatures::real_gba_accesses(answers), kind) <= timing_limit(kind),
        trace::count(signatures::vba_accesses(), kind) <= log_limit(kind),
{
    let none = Seq::<Access>::empty();
    trace::lemma_count_push(none, Access::FirmwareChecksum { value: answers[0] }, kind);
    lemma_signature_reads_counts(answers, 7, kind);
    trace::lemma_count_push(none, signatures::read32(MEMCTRL_REGISTER, answers[0]), kind);
    let first = Access::DebugLog { text: "VBA"@ };
    let second = Access::DebugLog { text: "\n"@ };
    trace::lemma_count_push(none, first, kind);
    trace::lemma_count_push(none.push(first), second, kind);
    assert(signatures::vba_accesses() =~= none.push(first).push(second));
}

/// Each probe of the order at the crate root stays within its limit.
proof fn lemma_probe_counts(index: int, answers: Seq<u32>, kind: Kind)
    requires
        0 <= index < crate::probe_order().len(),
        counted(kind),
    ensures
        trace::count(crate::probe_order()[index].accesses(answers), kind) <= seq![
            firmware_limit(kind),
            mgba_limit(kind, 4),
            signature_limit(kind),
            timing_limit(kind),
            sweep_limit(kind),
            log_limit(kind),
        ][index],
{
    lemma_shared_counts(answers, kind);
    if index == 1 {
        let t0 = Seq::<Access>::empty();
        let save = signatures::read16(REG_MGBA_ENABLE, answers[0]);
        let request = signatures::write16(REG_MGBA_ENABLE, MGBA_ENABLE_REQUEST as u32);
        let check = signatures::read16(REG_MGBA_ENABLE, answers[1]);
        let restore = signatures::write16(REG_MGBA_ENABLE, answers[0]);
        assert(signatures::mgba_accesses(answers) =~= t0.push(save).push(request).push(
            check,
        ).push(restore));
        trace::lemma_count_push(t0, save, kind);
        trace::lemma_count_push(t0.push(save), request, kind);
        trace::lemma_count_push(t0.push(save).push(request), check, kind);
        trace::lemma_count_push(t0.push(save).push(request).push(check), restore, kind);
    } else if index == 4 {
        sweep::lemma_sweep_steps_counts(RAM_TEST_PATTERN, answers);
        trace::lemma_count_any(sweep::sweep_steps(RAM_TEST_PATTERN, answers));
        trace::lemma_count_push(
            sweep::sweep_steps(RAM_TEST_PATTERN, answers),
            signatures::write32(MEMCTRL_REGISTER, answers[0]),
            kind,
        );
    }
}

/// Each probe of the first probe set's order stays within its limit.
proof fn lemma_first_probe_counts(index: int, answers: Seq<u32>, kind: Kind)
    requires
        0 <= index < get_env::probe_order().len(),
        counted(kind),
    ensures
        trace::count(get_env::probe_order()[index].accesses(answers), kind) <= seq![
            firmware_limit(kind),
            mgba_limit(kind, 2),
            signature_limit(kind),
            timing_limit(kind),
            sweep_limit(kind),
            log_limit(kind),
        ][index],
{
    lemma_shared_counts(answers, kind);
    if index == 1 {
        let t0 = Seq::<Access>::empty();
        let request = signatures::write16(REG_MGBA_ENABLE, MGBA_ENABLE_REQUEST as u32);
        let check = signatures::read16(REG_MGBA_ENABLE, answers[0]);
        assert(get_env::mgba_accesses(answers) =~= t0.push(request).push(check));
        trace::lemma_count_push(t0, request, kind);
        trace::lemma_count_push(t0.push(request), check, kind);
    } else if index == 4 {
        let pattern = get_env::TEST_PATTERN;
        sweep::lemma_sweep_steps_counts(pattern, answers);
        trace::lemma_count_any(sweep::sweep_steps(pattern, answers));
        trace::lemma_count_push(
            sweep::sweep_steps(pattern, answers),
            signatures::write32(MEMCTRL_REGISTER, sweep::sweep_result(pattern, answers)),
            kind,
        );
    }
}

/// Boundedness of `get_env`, kind by kind. A classification makes at most 77
/// accesses. Among them are at most one firmware call, two messages to the
/// log channel, fifteen round trips, and sixteen writes to the memory
/// control register: one for each of the fifteen codes and the one that puts
/// back what the register held.
pub proof fn lemma_get_env_counts(script: Seq<u32>, kind: Kind)
    requires
        counted(kind),
    ensures
        trace::count(classifier::run(crate::probe_order(), script).accesses, kind)
            <= firmware_limit(kind) + mgba_limit(kind, 4) + signature_limit(kind) + timing_limit(
            kind,
        ) + sweep_limit(kind) + log_limit(kind),
        kind == Kind::Any ==> trace::count(
            classifier::run(crate::probe_order(), script).accesses,
            kind,
        ) <= 77,
        kind == Kind::FirmwareCall ==> trace::count(
            classifier::run(crate::probe_order(), script).accesses,
            kind,
        ) <= 1,
        kind == Kind::LogMessage ==> trace::count(
            classifier::run(crate::probe_order(), script).accesses,
            kind,
        ) <= 2,
        kind == Kind::WriteTo(MEMCTRL_REGISTER) ==> trace::count(
            classifier::run(crate::probe_order(), script).accesses,
            kind,
        ) <= 16,
        kind == Kind::ReadOf(EWRAM_STATIC_DATA) ==> trace::count(
            classifier::run(crate::probe_order(), script).accesses,
            kind,
        ) <= 15,
{
    let order = crate::probe_order();
    let limits = seq![
        firmware_limit(kind),
        mgba_limit(kind, 4),
        signature_limit(kind),
        timing_limit(kind),
        sweep_limit(kind),
        log_limit(kind),
    ];
    assert forall|index: int, answers: Seq<u32>| 0 <= index < order.len() implies trace::count(
        #[trigger] order[index].accesses(answers),
        kind,
    ) <= limits[index] by {
        lemma_probe_counts(index, answers, kind);
    }
    classifier::lemma_run_counts(order, limits, script, kind);
    classifier::lemma_total_of_six(
        firmware_limit(kind),
        mgba_limit(kind, 4),
        signature_limit(kind),
        timing_limit(kind),
        sweep_limit(kind),
        log_limit(kind),
    );
}

/// Boundedness of the first probe set's `get_env`, kind by kind. A
/// classification makes at most 75 accesses. Among them are at most one
/// firmware call, two messages to the log channel, fifteen round trips, and
/// sixteen writes to the memory control register: one for each of the
/// fifteen codes and the one that selects the last word that worked.
pub proof fn lemma_first_get_env_counts(script: Seq<u32>, kind: Kind)
    requires
        counted(kind),
    ensures
        trace::count(classifier::run(get_env::probe_order(), script).accesses, kind)
            <= firmware_limit(kind) + mgba_limit(kind, 2) + signature_limit(kind) + timing_limit(
            kind,
        ) + sweep_limit(kind) + log_limit(kind),
        kind == Kind::Any ==> trace::count(
            classifier::run(get_env::probe_order(), script).accesses,
            kind,
        ) <= 75,
        kind == Kind::FirmwareCall ==> trace::count(
            classifier::run(get_env::probe_order(), script).accesses,
            kind,
        ) <= 1,
        kind == Kind::LogMessage ==> trace::count(
            classifier::run(get_env::probe_order(), script).accesses,
            kind,
        ) <= 2,
        kind == Kind::WriteTo(MEMCTRL_REGISTER) ==> trace::count(
            classifier::run(get_env::probe_order(), script).accesses,
            kind,
        ) <= 16,
        kind == Kind::ReadOf(EWRAM_STATIC_DATA) ==> trace::count(
            classifier::run(get_env::probe_order(), script).accesses,
            kind,
        ) <= 15,
{
    let order = get_env::probe_order();
    let limits = seq![
        firmware_limit(kind),
        mgba_limit(kind, 2),
        signature_limit(kind),
        timing_limit(kind),
        sweep_limit(kind),
        log_limit(kind),
    ];
    assert forall|index: int, answers: Seq<u32>| 0 <= index < order.len() implies trace::count(
        #[trigger] order[index].accesses(answers),
        kind,
    ) <= limits[index] by {
        lemma_first_probe_counts(index, answers, kind);
    }
    classifier::lemma_run_counts(order, limits, script, kind);
    classifier::lemma_total_of_six(
        firmware_limit(kind),
        mgba_limit(kind, 2),
        signature_limit(kind),
        timing_limit(kind),
        sweep_limit(kind),
        log_limit(kind),
    );
}

} // verus!
