//! The timing sweep: try the wait-state codes in ascending order until the
//! external work RAM stops answering, and report the last code that worked.
//!
//! In a sweep's script, `script[0]` is what the memory control register held
//! and `script[1 + code]` is what the round trip for `code` read back.

use crate::backend::Access;
use crate::registers::{EWRAM_STATIC_DATA, MEMCTRL_DEFAULT, MEMCTRL_REGISTER};
use crate::signatures;
use crate::trace;
use vstd::prelude::*;

verus! {

/// The number of wait-state codes the sweep can try: 0x0 to 0xE.
pub open spec fn code_count() -> nat {
    15
}

/// The memory control word with the wait-state code cleared.
pub open spec fn timing_base(original: u32) -> u32 {
    original & !(0xFu32 << 24)
}

/// The memory control word that selects wait-state code `code`.
pub open spec fn timing_word(base: u32, code: u32) -> u32 {
    base | (code << 24)
}

/// The round-trip test: store `pattern` in the scratch word, read it back,
/// clear the word.
pub open spec fn ram_test_accesses(pattern: u32, readback: u32) -> Seq<Access> {
    seq![
        signatures::write32(EWRAM_STATIC_DATA, pattern),
        signatures::read32(EWRAM_STATIC_DATA, readback),
        signatures::write32(EWRAM_STATIC_DATA, 0),
    ]
}

/// One step of the sweep: select `code`, then run the round-trip test.
pub open spec fn attempt(pattern: u32, base: u32, code: u32, readback: u32) -> Seq<Access> {
    seq![signatures::write32(MEMCTRL_REGISTER, timing_word(base, code))] + ram_test_accesses(
        pattern,
        readback,
    )
}

/// Whether the round trip for `code` returned the pattern.
pub open spec fn round_trip_passes(pattern: u32, script: Seq<u32>, code: int) -> bool {
    script[1 + code] == pattern
}

/// The steps for the codes below `count`, in ascending order.
pub open spec fn attempts(pattern: u32, script: Seq<u32>, count: nat) -> Seq<Access>
    decreases count,
{
    if count == 0 {
        Seq::empty()
    } else {
        attempts(pattern, script, (count - 1) as nat) + attempt(
            pattern,
            timing_base(script[0]),
            (count - 1) as u32,
            script[count as int],
        )
    }
}

/// The first code at or above `from` whose round trip did not return the
/// pattern, or the number of codes if there is none.
pub open spec fn first_failure(pattern: u32, script: Seq<u32>, from: nat) -> nat
    decreases code_count() - from,
{
    if from >= code_count() || !round_trip_passes(pattern, script, from as int) {
        from
    } else {
        first_failure(pattern, script, from + 1)
    }
}

/// How many codes, counted from 0, passed the round-trip test in a row.
pub open spec fn codes_passed(pattern: u32, script: Seq<u32>) -> nat {
    first_failure(pattern, script, 0)
}

/// How many codes the sweep tries: those that pass and the first that fails.
pub open spec fn codes_tested(pattern: u32, script: Seq<u32>) -> nat {
    let passed = codes_passed(pattern, script);
    if passed < code_count() {
        passed + 1
    } else {
        passed
    }
}

/// The sweep up to its last round trip: read the memory control register,
/// then step through the codes.
pub open spec fn sweep_steps(pattern: u32, script: Seq<u32>) -> Seq<Access> {
    seq![signatures::read32(MEMCTRL_REGISTER, script[0])] + attempts(
        pattern,
        script,
        codes_tested(pattern, script),
    )
}

/// What the sweep reports: the last memory control word whose round trip
/// passed, or the base word if not even code 0 passed.
pub open spec fn sweep_result(pattern: u32, script: Seq<u32>) -> u32 {
    let passed = codes_passed(pattern, script);
    if passed == 0 {
        timing_base(script[0])
    } else {
        timing_word(timing_base(script[0]), (passed - 1) as u32)
    }
}

/// The Game Boy Micro is recognised by the last word that worked.
pub open spec fn micro_matched(pattern: u32, script: Seq<u32>) -> bool {
    sweep_result(pattern, script) == MEMCTRL_DEFAULT
}

/// The first failure lies between `from` and the number of codes; every code
/// from `from` up to it passed, and it did not.
pub proof fn lemma_first_failure(pattern: u32, script: Seq<u32>, from: nat)
    requires
        from <= code_count(),
    ensures
        from <= first_failure(pattern, script, from) <= code_count(),
        forall|code: int|
            from <= code < first_failure(pattern, script, from) ==> round_trip_passes(
                pattern,
                script,
                code,
            ),
        first_failure(pattern, script, from) < code_count() ==> !round_trip_passes(
            pattern,
            script,
            first_failure(pattern, script, from) as int,
        ),
    decreases code_count() - from,
{
    if from < code_count() && round_trip_passes(pattern, script, from as int) {
        lemma_first_failure(pattern, script, from + 1);
    }
}

/// The first failure is the one code that failed after a row of passes.
pub proof fn lemma_first_failure_is(pattern: u32, script: Seq<u32>, from: nat, failure: nat)
    requires
        from <= failure <= code_count(),
        forall|code: int| from <= code < failure ==> round_trip_passes(pattern, script, code),
        failure < code_count() ==> !round_trip_passes(pattern, script, failure as int),
    ensures
        first_failure(pattern, script, from) == failure,
    decreases failure - from,
{
    if from < failure {
        lemma_first_failure_is(pattern, script, from + 1, failure);
    }
}

/// The answer that the round-trip test records.
pub proof fn lemma_ram_test_replies(pattern: u32, readback: u32)
    ensures
        trace::replies(ram_test_accesses(pattern, readback)) == seq![readback],
{
    let t0 = Seq::<Access>::empty();
    let t1 = t0.push(signatures::write32(EWRAM_STATIC_DATA, pattern));
    let t2 = t1.push(signatures::read32(EWRAM_STATIC_DATA, readback));
    let t3 = t2.push(signatures::write32(EWRAM_STATIC_DATA, 0));
    trace::lemma_replies_push(t0, signatures::write32(EWRAM_STATIC_DATA, pattern));
    trace::lemma_replies_push(t1, signatures::read32(EWRAM_STATIC_DATA, readback));
    trace::lemma_replies_push(t2, signatures::write32(EWRAM_STATIC_DATA, 0));
    assert(ram_test_accesses(pattern, readback) =~= t3);
}

/// The answer that one step of the sweep records.
pub proof fn lemma_attempt_replies(pattern: u32, base: u32, code: u32, readback: u32)
    ensures
        trace::replies(attempt(pattern, base, code, readback)) == seq![readback],
{
    let select = signatures::write32(MEMCTRL_REGISTER, timing_word(base, code));
    trace::lemma_replies_push(Seq::<Access>::empty(), select);
    lemma_ram_test_replies(pattern, readback);
    trace::lemma_replies_add(seq![select], ram_test_accesses(pattern, readback));
    assert(trace::replies(attempt(pattern, base, code, readback)) =~= seq![readback]);
}

/// The answers that the steps of a sweep record.
pub proof fn lemma_attempts_replies(pattern: u32, script: Seq<u32>, count: nat)
    ensures
        trace::replies(attempts(pattern, script, count)) == Seq::new(
            count,
            |i: int| script[1 + i],
        ),
    decreases count,
{
    if count == 0 {
        assert(trace::replies(attempts(pattern, script, count)) =~= Seq::new(
            count,
            |i: int| script[1 + i],
        ));
    } else {
        let before = (count - 1) as nat;
        let readback = script[count as int];
        let base = timing_base(script[0]);
        lemma_attempts_replies(pattern, script, before);
        lemma_attempt_replies(pattern, base, before as u32, readback);
        trace::lemma_replies_add(
            attempts(pattern, script, before),
            attempt(pattern, base, before as u32, readback),
        );
        assert(Seq::new(before, |i: int| script[1 + i]) + seq![readback] =~= Seq::new(
            count,
            |i: int| script[1 + i],
        ));
    }
}

/// The answers that a sweep records up to its last round trip: the register's
/// value, then one readback for each code tried.
pub proof fn lemma_sweep_steps_replies(pattern: u32, script: Seq<u32>)
    ensures
        trace::replies(sweep_steps(pattern, script)) == Seq::new(
            1 + codes_tested(pattern, script),
            |i: int| script[i],
        ),
{
    let tested = codes_tested(pattern, script);
    let load = signatures::read32(MEMCTRL_REGISTER, script[0]);
    trace::lemma_replies_push(Seq::<Access>::empty(), load);
    lemma_attempts_replies(pattern, script, tested);
    trace::lemma_replies_add(seq![load], attempts(pattern, script, tested));
    assert(seq![script[0]] + Seq::new(tested, |i: int| script[1 + i]) =~= Seq::new(
        1 + tested,
        |i: int| script[i],
    ));
}

/// Each step of a sweep makes four accesses: one write to the memory control
/// register and one read of the scratch word among them, and no call.
pub proof fn lemma_attempts_counts(pattern: u32, script: Seq<u32>, count: nat)
    ensures
        attempts(pattern, script, count).len() == 4 * count,
        trace::count(attempts(pattern, script, count), trace::Kind::WriteTo(MEMCTRL_REGISTER))
            == count,
        trace::count(attempts(pattern, script, count), trace::Kind::ReadOf(EWRAM_STATIC_DATA))
            == count,
        trace::count(attempts(pattern, script, count), trace::Kind::FirmwareCall) == 0,
        trace::count(attempts(pattern, script, count), trace::Kind::LogMessage) == 0,
    decreases count,
{
    if count > 0 {
        let before = (count - 1) as nat;
        let base = timing_base(script[0]);
        let readback = script[count as int];
        let t0 = Seq::<Access>::empty();
        let select = signatures::write32(MEMCTRL_REGISTER, timing_word(base, before as u32));
        let store = signatures::write32(EWRAM_STATIC_DATA, pattern);
        let load = signatures::read32(EWRAM_STATIC_DATA, readback);
        let clear = signatures::write32(EWRAM_STATIC_DATA, 0);
        let step = attempt(pattern, base, before as u32, readback);
        lemma_attempts_counts(pattern, script, before);
        assert(step =~= t0.push(select).push(store).push(load).push(clear));
        assert forall|kind: trace::Kind| true implies #[trigger] trace::count(step, kind)
            == trace::one_if(select, kind) + trace::one_if(store, kind) + trace::one_if(load, kind)
            + trace::one_if(clear, kind) by {
            trace::lemma_count_push(t0, select, kind);
            trace::lemma_count_push(t0.push(select), store, kind);
            trace::lemma_count_push(t0.push(select).push(store), load, kind);
            trace::lemma_count_push(t0.push(select).push(store).push(load), clear, kind);
        }
        let earlier = attempts(pattern, script, before);
        trace::lemma_count_add(earlier, step, trace::Kind::WriteTo(MEMCTRL_REGISTER));
        trace::lemma_count_add(earlier, step, trace::Kind::ReadOf(EWRAM_STATIC_DATA));
        trace::lemma_count_add(earlier, step, trace::Kind::FirmwareCall);
        trace::lemma_count_add(earlier, step, trace::Kind::LogMessage);
    }
}

/// A sweep tries at least one code and at most fifteen. It makes five
/// accesses up to its first round trip and four for each further one; it
/// writes the memory control register once for each code it tries, reads
/// the scratch word once for each, and makes no call.
pub proof fn lemma_sweep_steps_counts(pattern: u32, script: Seq<u32>)
    ensures
        1 <= codes_tested(pattern, script) <= code_count(),
        sweep_steps(pattern, script).len() == 1 + 4 * codes_tested(pattern, script),
        trace::count(sweep_steps(pattern, script), trace::Kind::WriteTo(MEMCTRL_REGISTER))
            == codes_tested(pattern, script),
        trace::count(sweep_steps(pattern, script), trace::Kind::ReadOf(EWRAM_STATIC_DATA))
            == codes_tested(pattern, script),
        trace::count(sweep_steps(pattern, script), trace::Kind::FirmwareCall) == 0,
        trace::count(sweep_steps(pattern, script), trace::Kind::LogMessage) == 0,
{
    let tested = codes_tested(pattern, script);
    let load = signatures::read32(MEMCTRL_REGISTER, script[0]);
    let steps = attempts(pattern, script, tested);
    lemma_first_failure(pattern, script, 0);
    lemma_attempts_counts(pattern, script, tested);
    assert forall|kind: trace::Kind| true implies #[trigger] trace::count(
        sweep_steps(pattern, script),
        kind,
    ) == trace::one_if(load, kind) + trace::count(steps, kind) by {
        trace::lemma_count_push(Seq::<Access>::empty(), load, kind);
        trace::lemma_count_add(seq![load], steps, kind);
    }
}

/// What the sweep reports is safe to select: it is the word of a code whose
/// round trip passed, or the base word, which selects code 0.
pub proof fn lemma_sweep_result_passed(pattern: u32, script: Seq<u32>)
    ensures
        codes_passed(pattern, script) == 0 ==> sweep_result(pattern, script) == timing_word(
            timing_base(script[0]),
            0,
        ),
        codes_passed(pattern, script) > 0 ==> round_trip_passes(
            pattern,
            script,
            codes_passed(pattern, script) - 1,
        ) && sweep_result(pattern, script) == timing_word(
            timing_base(script[0]),
            (codes_passed(pattern, script) - 1) as u32,
        ),
{
    let base = timing_base(script[0]);
    lemma_first_failure(pattern, script, 0);
    assert(base | (0u32 << 24) == base) by (bit_vector);
}

/// The steps of a sweep look at the answers they record and at no other.
pub proof fn lemma_attempts_local(pattern: u32, a: Seq<u32>, b: Seq<u32>, count: nat)
    requires
        forall|i: int| 0 <= i <= count ==> a[i] == b[i],
    ensures
        attempts(pattern, a, count) == attempts(pattern, b, count),
    decreases count,
{
    if count > 0 {
        lemma_attempts_local(pattern, a, b, (count - 1) as nat);
    }
}

/// A sweep depends on the answers it records and on no other.
pub proof fn lemma_sweep_local(pattern: u32, a: Seq<u32>, b: Seq<u32>)
    requires
        forall|i: int| 0 <= i < 1 + codes_tested(pattern, a) ==> a[i] == b[i],
    ensures
        codes_passed(pattern, a) == codes_passed(pattern, b),
        sweep_steps(pattern, a) == sweep_steps(pattern, b),
        sweep_result(pattern, a) == sweep_result(pattern, b),
{
    let passed = codes_passed(pattern, a);
    lemma_first_failure(pattern, a, 0);
    assert forall|code: int| 0 <= code < passed implies round_trip_passes(pattern, b, code) by {
        assert(round_trip_passes(pattern, a, code));
    }
    lemma_first_failure_is(pattern, b, 0, passed);
    lemma_attempts_local(pattern, a, b, codes_tested(pattern, a));
}

/// The sweep reports the last code that worked: when the round trips for the
/// codes up to `last` return the pattern and the next one, if there is one,
/// does not, the result is the memory control word for `last`.
pub proof fn lemma_sweep_reports_last_good(pattern: u32, script: Seq<u32>, last: int)
    requires
        0 <= last < code_count(),
        forall|code: int| 0 <= code <= last ==> round_trip_passes(pattern, script, code),
        last + 1 < code_count() ==> !round_trip_passes(pattern, script, last + 1),
    ensures
        codes_passed(pattern, script) == last + 1,
        sweep_result(pattern, script) == timing_word(timing_base(script[0]), last as u32),
{
    lemma_first_failure_is(pattern, script, 0, (last + 1) as nat);
}

/// When not even code 0 works, the sweep reports the base word.
pub proof fn lemma_sweep_reports_base(pattern: u32, script: Seq<u32>)
    requires
        !round_trip_passes(pattern, script, 0),
    ensures
        codes_passed(pattern, script) == 0,
        sweep_result(pattern, script) == timing_base(script[0]),
{
}

/// The sweep recognises the Game Boy Micro exactly when the codes 0x0 to 0xD
/// worked, code 0xE did not, and the rest of the memory control word is
/// 0x20.
pub proof fn lemma_micro_matched(pattern: u32, script: Seq<u32>)
    ensures
        micro_matched(pattern, script) <==> codes_passed(pattern, script) == 14 && timing_base(
            script[0],
        ) == 0x20,
{
    let original = script[0];
    let base = timing_base(original);
    let passed = codes_passed(pattern, script);
    lemma_first_failure(pattern, script, 0);
    assert(base != 0x0D00_0020u32) by (bit_vector)
        requires
            base == original & !(0xFu32 << 24),
    ;
    if passed > 0 {
        let code = (passed - 1) as u32;
        assert((base | (code << 24)) == 0x0D00_0020u32 <==> code == 13 && base == 0x20)
            by (bit_vector)
            requires
                base == original & !(0xFu32 << 24),
                code <= 14,
        ;
    }
}

} // verus!
