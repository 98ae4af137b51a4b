//! The steps that the two probe sets share: each makes its accesses through
//! the bus and says what the record shows.

use crate::backend::{Access, Bus, RegisterBackend};
use crate::registers::{
    BG0_ENABLE, EWRAM_STATIC_DATA, LAST_TIMING_CODE, MEMCTRL_DEFAULT, MEMCTRL_FASTEST,
    MEMCTRL_REGISTER, MODE_0, NOCASH_SIG, NOCASH_SIG_LEN, REG_DISPCNT,
};
use crate::signatures;
use crate::sweep;
use crate::trace;
use vstd::prelude::*;

verus! {

/// What a sweep found.
pub(crate) struct Swept {
    /// What the memory control register held before the sweep.
    pub original: u32,
    /// The last word whose round trip passed, or the base word.
    pub last_good: u32,
    /// Whether a round trip failed, so that the failing word is selected.
    pub failed: bool,
}

/// Asks the firmware for its checksum and reports whether it is that of a
/// Nintendo DS.
pub(crate) fn ask_firmware<B: RegisterBackend>(bus: &mut Bus<B>) -> (matched: bool)
    ensures
        old(bus).trace().is_prefix_of(final(bus).trace()),
        ({
            let s = trace::appended(old(bus).trace(), final(bus).trace());
            &&& s == signatures::ds_accesses(trace::replies(s))
            &&& matched == signatures::ds_matched(trace::replies(s))
        }),
{
    let checksum = bus.firmware_checksum();
    proof {
        let s = trace::appended(old(bus).trace(), bus.trace());
        assert(s =~= seq![Access::FirmwareChecksum { value: checksum }]);
        signatures::lemma_ds_replies(seq![checksum]);
    }
    crate::fold_checksum(checksum) != 0
}

/// Reads the seven bytes of the signature region and reports whether they
/// are `no$gba `.
pub(crate) fn read_signature<B: RegisterBackend>(bus: &mut Bus<B>) -> (matched: bool)
    ensures
        old(bus).trace().is_prefix_of(final(bus).trace()),
        ({
            let s = trace::appended(old(bus).trace(), final(bus).trace());
            &&& s == signatures::nocash_accesses(trace::replies(s))
            &&& matched == signatures::nocash_matched(trace::replies(s))
        }),
{
    let signature: [u8; 7] = [0x6E, 0x6F, 0x24, 0x67, 0x62, 0x61, 0x20];
    let ghost before = bus.trace();
    let ghost mut seen: Seq<u32> = Seq::empty();
    let mut same = true;
    let mut i: u32 = 0;
    while i < NOCASH_SIG_LEN
        invariant
            i <= 7,
            before == old(bus).trace(),
            seen.len() == i,
            signature@ == signatures::nocash_signature(),
            bus.trace() == before + signatures::signature_reads(seen, i as nat),
            same <==> forall|j: int|
                0 <= j < i ==> seen[j] == #[trigger] signatures::nocash_signature()[j],
        decreases 7 - i,
    {
        let byte = bus.read8(NOCASH_SIG + i);
        proof {
            let longer = seen.push(byte as u32);
            signatures::lemma_signature_reads_local(seen, longer, i as nat);
            assert(bus.trace() =~= before + signatures::signature_reads(longer, (i + 1) as nat));
            seen = longer;
        }
        if byte != signature[i as usize] {
            same = false;
        }
        i += 1;
    }
    proof {
        let s = trace::appended(before, bus.trace());
        assert(s =~= signatures::signature_reads(seen, 7));
        signatures::lemma_signature_replies(seen, 7);
        assert(trace::replies(s) =~= seen);
    }
    same
}

/// Reads the memory control register and reports whether it holds one of the
/// two words that real hardware shows.
pub(crate) fn read_timing<B: RegisterBackend>(bus: &mut Bus<B>) -> (matched: bool)
    ensures
        old(bus).trace().is_prefix_of(final(bus).trace()),
        ({
            let s = trace::appended(old(bus).trace(), final(bus).trace());
            &&& s == signatures::real_gba_accesses(trace::replies(s))
            &&& matched == signatures::real_gba_matched(trace::replies(s))
        }),
{
    let memctrl_reg = bus.read32(MEMCTRL_REGISTER);
    proof {
        let s = trace::appended(old(bus).trace(), bus.trace());
        assert(s =~= signatures::real_gba_accesses(seq![memctrl_reg]));
        signatures::lemma_real_gba_replies(seq![memctrl_reg]);
    }
    memctrl_reg == MEMCTRL_DEFAULT || memctrl_reg == MEMCTRL_FASTEST
}

/// Hands the two messages to the debugger's log channel.
pub(crate) fn print_to_log<B: RegisterBackend>(bus: &mut Bus<B>)
    ensures
        old(bus).trace().is_prefix_of(final(bus).trace()),
        trace::appended(old(bus).trace(), final(bus).trace()) == signatures::vba_accesses(),
{
    bus.debug_log("VBA");
    bus.debug_log("\n");
    proof {
        let s = trace::appended(old(bus).trace(), bus.trace());
        assert(s =~= signatures::vba_accesses());
    }
}

/// Writes `pattern` to the scratch word, reads it back and clears the word.
/// Reports whether the pattern came back.
pub(crate) fn round_trip<B: RegisterBackend>(bus: &mut Bus<B>, pattern: u32) -> (passed: bool)
    ensures
        old(bus).trace().is_prefix_of(final(bus).trace()),
        ({
            let s = trace::appended(old(bus).trace(), final(bus).trace());
            let readback = trace::replies(s)[0];
            &&& s == sweep::ram_test_accesses(pattern, readback)
            &&& passed == (readback == pattern)
        }),
{
    bus.write32(EWRAM_STATIC_DATA, pattern);
    let read_value = bus.read32(EWRAM_STATIC_DATA);
    bus.write32(EWRAM_STATIC_DATA, 0);  // Clear the value to avoid false positives
    proof {
        let s = trace::appended(old(bus).trace(), bus.trace());
        assert(s =~= sweep::ram_test_accesses(pattern, read_value));
        sweep::lemma_ram_test_replies(pattern, read_value);
    }
    read_value == pattern
}

/// Reads the memory control register and steps through the wait-state codes
/// in ascending order, with a round trip for each, until one fails. The word
/// of the last code tried stays selected: what to select afterwards is left
/// to the caller.
pub(crate) fn sweep_codes<B: RegisterBackend>(bus: &mut Bus<B>, pattern: u32) -> (found: Swept)
    ensures
        old(bus).trace().is_prefix_of(final(bus).trace()),
        ({
            let s = trace::appended(old(bus).trace(), final(bus).trace());
            let script = trace::replies(s);
            &&& s == sweep::sweep_steps(pattern, script)
            &&& script.len() == 1 + sweep::codes_tested(pattern, script)
            &&& found.original == script[0]
            &&& found.last_good == sweep::sweep_result(pattern, script)
            &&& found.failed == (sweep::codes_passed(pattern, script) < sweep::code_count())
        }),
{
    let ghost before = bus.trace();
    let original_value = bus.read32(MEMCTRL_REGISTER);
    let base_value = original_value & !(0xF << 24);  // Clear the bits we're going to modify
    let mut last_known_good_value = base_value;
    let ghost load = signatures::read32(MEMCTRL_REGISTER, original_value);
    let ghost mut script: Seq<u32> = seq![original_value];
    let mut i: u32 = 0;
    while i <= LAST_TIMING_CODE
        invariant
            i <= 15,
            before == old(bus).trace(),
            load == signatures::read32(MEMCTRL_REGISTER, original_value),
            script.len() == 1 + i,
            script[0] == original_value,
            base_value == sweep::timing_base(original_value),
            forall|code: int| 0 <= code < i ==> sweep::round_trip_passes(pattern, script, code),
            bus.trace() == before.push(load) + sweep::attempts(pattern, script, i as nat),
            last_known_good_value == if i == 0 {
                base_value
            } else {
                sweep::timing_word(base_value, (i - 1) as u32)
            },
        decreases 15 - i,
    {
        let memctrl_value = base_value | (i << 24);
        bus.write32(MEMCTRL_REGISTER, memctrl_value);
        let ghost mid = bus.trace();
        let passed = round_trip(bus, pattern);
        proof {
            let readback = trace::replies(trace::appended(mid, bus.trace()))[0];
            let longer = script.push(readback);
            sweep::lemma_attempts_local(pattern, script, longer, i as nat);
            trace::lemma_appended(mid, bus.trace());
            assert(bus.trace() =~= before.push(load) + sweep::attempts(
                pattern,
                longer,
                (i + 1) as nat,
            ));
            assert forall|code: int| 0 <= code < i implies sweep::round_trip_passes(
                pattern,
                longer,
                code,
            ) by {
                assert(sweep::round_trip_passes(pattern, script, code));
            }
            script = longer;
        }
        if passed {
            last_known_good_value = memctrl_value;
        } else {
            proof {
                sweep::lemma_first_failure_is(pattern, script, 0, i as nat);
                lemma_swept(before, bus.trace(), pattern, script);
            }
            return Swept {
                original: original_value,
                last_good: last_known_good_value,
                failed: true,
            };
        }
        i += 1;
    }
    proof {
        sweep::lemma_first_failure_is(pattern, script, 0, 15);
        lemma_swept(before, bus.trace(), pattern, script);
    }
    Swept { original: original_value, last_good: last_known_good_value, failed: false }
}

/// A record that grew by the steps of the sweep on `script`, with one answer
/// in the script for each access that asked for one, shows that script.
proof fn lemma_swept(before: Seq<Access>, after: Seq<Access>, pattern: u32, script: Seq<u32>)
    requires
        script.len() == 1 + sweep::codes_tested(pattern, script),
        after == before.push(signatures::read32(MEMCTRL_REGISTER, script[0])) + sweep::attempts(
            pattern,
            script,
            sweep::codes_tested(pattern, script),
        ),
    ensures
        before.is_prefix_of(after),
        trace::appended(before, after) == sweep::sweep_steps(pattern, script),
        trace::replies(trace::appended(before, after)) == script,
{
    let s = trace::appended(before, after);
    assert(s =~= sweep::sweep_steps(pattern, script));
    sweep::lemma_sweep_steps_replies(pattern, script);
    assert(trace::replies(s) =~= script);
}

/// Selects the shortest wait state and checks that the scratch word still
/// holds what is stored in it; if it does not, selects the default wait
/// state. Reports whether the word held.
pub(crate) fn overclock<B: RegisterBackend>(bus: &mut Bus<B>) -> (held: bool)
    ensures
        old(bus).trace().is_prefix_of(final(bus).trace()),
        ({
            let s = trace::appended(old(bus).trace(), final(bus).trace());
            let readback = trace::replies(s)[0];
            &&& s == signatures::overclock_accesses(readback)
            &&& held == (readback == 1)
        }),
{
    bus.write32(MEMCTRL_REGISTER, MEMCTRL_FASTEST);
    bus.write32(EWRAM_STATIC_DATA, 1);
    let readback = bus.read32(EWRAM_STATIC_DATA);
    let held = readback == 1;
    if !held {
        bus.write32(MEMCTRL_REGISTER, MEMCTRL_DEFAULT);
    }
    proof {
        let s = trace::appended(old(bus).trace(), bus.trace());
        assert(s =~= signatures::overclock_accesses(readback));
        signatures::lemma_overclock_replies(readback);
    }
    held
}

/// Shows background 0 in mode 0, attempts the overclock and reports whether
/// the background bit was wiped. What the display control register held is
/// put back; the memory timing is not.
pub(crate) fn reprogram_display<B: RegisterBackend>(bus: &mut Bus<B>) -> (matched: bool)
    ensures
        old(bus).trace().is_prefix_of(final(bus).trace()),
        ({
            let s = trace::appended(old(bus).trace(), final(bus).trace());
            &&& s == signatures::gpsp_accesses(trace::replies(s))
            &&& matched == signatures::gpsp_matched(trace::replies(s))
        }),
{
    let prev_dispcnt: u16 = bus.read16(REG_DISPCNT);
    assert(MODE_0 | BG0_ENABLE == BG0_ENABLE) by (bit_vector);
    bus.write16(REG_DISPCNT, MODE_0 | BG0_ENABLE);
    let ghost mid = bus.trace();
    overclock(bus);
    let ghost overclocked = bus.trace();
    let dispcnt: u16 = bus.read16(REG_DISPCNT);
    let wiped: bool = (dispcnt & BG0_ENABLE) == 0;
    bus.write16(REG_DISPCNT, prev_dispcnt);
    proof {
        let s = trace::appended(old(bus).trace(), bus.trace());
        let readback = trace::replies(trace::appended(mid, overclocked))[0];
        let script = seq![prev_dispcnt as u32, readback, dispcnt as u32];
        trace::lemma_appended(mid, overclocked);
        assert(s =~= signatures::gpsp_accesses(script));
        signatures::lemma_gpsp_replies(script);
    }
    wiped
}

} // verus!
