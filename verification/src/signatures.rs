//! What each probe does and looks for, as a function of the machine's
//! answers.
//!
//! Every function here takes the `script`: the values the machine hands back
//! from the probe's first access on, in order.

use crate::backend::{Access, Width};
use crate::registers::{
    BG0_ENABLE, DS_FIRMWARE_CHECKSUM, EWRAM_STATIC_DATA, MEMCTRL_DEFAULT, MEMCTRL_FASTEST,
    MEMCTRL_REGISTER, MGBA_ENABLE_ACK, MGBA_ENABLE_REQUEST, NOCASH_SIG, REG_DISPCNT,
    REG_MGBA_ENABLE,
};
use crate::trace;
use vstd::prelude::*;

verus! {

/// A read of a 32-bit register that returned `value`.
pub open spec fn read32(addr: u32, value: u32) -> Access {
    Access::Read { addr, width: Width::Word, value }
}

/// A write of `value` to a 32-bit register.
pub open spec fn write32(addr: u32, value: u32) -> Access {
    Access::Write { addr, width: Width::Word, value }
}

/// A read of a 16-bit register that returned `value`.
pub open spec fn read16(addr: u32, value: u32) -> Access {
    Access::Read { addr, width: Width::Half, value }
}

/// A write of `value` to a 16-bit register.
pub open spec fn write16(addr: u32, value: u32) -> Access {
    Access::Write { addr, width: Width::Half, value }
}

/// A read of one byte that returned `value`.
pub open spec fn read8(addr: u32, value: u32) -> Access {
    Access::Read { addr, width: Width::Byte, value }
}

/// What the arithmetic after the firmware call leaves of the checksum: 1 for
/// the firmware of a Nintendo DS, 0 for any other.
pub open spec fn folded_checksum(checksum: u32) -> u32 {
    if checksum == DS_FIRMWARE_CHECKSUM {
        1
    } else {
        0
    }
}

/// The Nintendo DS probe makes the firmware checksum call, once.
pub open spec fn ds_accesses(script: Seq<u32>) -> Seq<Access> {
    seq![Access::FirmwareChecksum { value: script[0] }]
}

/// The Nintendo DS probe matches when the folded checksum is not zero.
pub open spec fn ds_matched(script: Seq<u32>) -> bool {
    folded_checksum(script[0]) != 0
}

/// The mGBA probe saves the debug enable register, asks for the debug
/// channel, reads the register back and restores what it saved.
pub open spec fn mgba_accesses(script: Seq<u32>) -> Seq<Access> {
    seq![
        read16(REG_MGBA_ENABLE, script[0]),
        write16(REG_MGBA_ENABLE, MGBA_ENABLE_REQUEST as u32),
        read16(REG_MGBA_ENABLE, script[1]),
        write16(REG_MGBA_ENABLE, script[0]),
    ]
}

/// The mGBA probe matches when the register reads back as the
/// acknowledgement.
pub open spec fn mgba_matched(script: Seq<u32>) -> bool {
    script[1] == MGBA_ENABLE_ACK
}

/// The bytes `no$gba `.
pub open spec fn nocash_signature() -> Seq<u8> {
    seq![0x6Eu8, 0x6Fu8, 0x24u8, 0x67u8, 0x62u8, 0x61u8, 0x20u8]
}

/// The signature is the text `no$gba `, one byte for each character.
pub proof fn lemma_signature_text()
    ensures
        nocash_signature().len() == "no$gba "@.len(),
        forall|i: int| 0 <= i < 7 ==> nocash_signature()[i] as char == #[trigger] "no$gba "@[i],
{
    reveal_strlit("no$gba ");
}

/// Reads of the first `count` bytes of the signature region, in ascending
/// order.
pub open spec fn signature_reads(script: Seq<u32>, count: nat) -> Seq<Access>
    decreases count,
{
    if count == 0 {
        Seq::empty()
    } else {
        signature_reads(script, (count - 1) as nat).push(
            read8((NOCASH_SIG + count - 1) as u32, script[count - 1]),
        )
    }
}

/// The no$gba probe reads the seven bytes of the signature region.
pub open spec fn nocash_accesses(script: Seq<u32>) -> Seq<Access> {
    signature_reads(script, 7)
}

/// The no$gba probe matches when the seven bytes are `no$gba `.
pub open spec fn nocash_matched(script: Seq<u32>) -> bool {
    forall|i: int| 0 <= i < 7 ==> script[i] == #[trigger] nocash_signature()[i]
}

/// The hardware probe reads the memory control register.
pub open spec fn real_gba_accesses(script: Seq<u32>) -> Seq<Access> {
    seq![read32(MEMCTRL_REGISTER, script[0])]
}

/// The hardware probe matches on either of the two words the register holds
/// after boot on real hardware.
pub open spec fn real_gba_matched(script: Seq<u32>) -> bool {
    script[0] == MEMCTRL_DEFAULT || script[0] == MEMCTRL_FASTEST
}

/// The overclock attempt: select the shortest wait state, store 1 in the
/// scratch word and read it back; if it did not hold, select the default
/// wait state.
pub open spec fn overclock_accesses(readback: u32) -> Seq<Access> {
    let attempt = seq![
        write32(MEMCTRL_REGISTER, MEMCTRL_FASTEST),
        write32(EWRAM_STATIC_DATA, 1),
        read32(EWRAM_STATIC_DATA, readback),
    ];
    if readback != 1 {
        attempt.push(write32(MEMCTRL_REGISTER, MEMCTRL_DEFAULT))
    } else {
        attempt
    }
}

/// The gpSP probe saves the display control register, shows background 0 in
/// mode 0, attempts the overclock, reads the display control register back
/// and restores what it saved.
pub open spec fn gpsp_accesses(script: Seq<u32>) -> Seq<Access> {
    seq![read16(REG_DISPCNT, script[0]), write16(REG_DISPCNT, BG0_ENABLE as u32)]
        + overclock_accesses(script[1]) + seq![
        read16(REG_DISPCNT, script[2]),
        write16(REG_DISPCNT, script[0]),
    ]
}

/// The gpSP probe matches when the overclock attempt wiped the background
/// bit.
pub open spec fn gpsp_matched(script: Seq<u32>) -> bool {
    (script[2] as u16) & BG0_ENABLE == 0
}

/// The VisualBoyAdvance probe hands two messages to the debugger's log
/// channel.
pub open spec fn vba_accesses() -> Seq<Access> {
    seq![Access::DebugLog { text: "VBA"@ }, Access::DebugLog { text: "\n"@ }]
}

/// The answers that `ds_accesses` records.
pub proof fn lemma_ds_replies(script: Seq<u32>)
    ensures
        trace::replies(ds_accesses(script)) == seq![script[0]],
{
    let none = Seq::<Access>::empty();
    trace::lemma_replies_push(none, Access::FirmwareChecksum { value: script[0] });
}

/// The answers that `mgba_accesses` records.
pub proof fn lemma_mgba_replies(script: Seq<u32>)
    ensures
        trace::replies(mgba_accesses(script)) == seq![script[0], script[1]],
{
    let t0 = Seq::<Access>::empty();
    let t1 = t0.push(read16(REG_MGBA_ENABLE, script[0]));
    let t2 = t1.push(write16(REG_MGBA_ENABLE, MGBA_ENABLE_REQUEST as u32));
    let t3 = t2.push(read16(REG_MGBA_ENABLE, script[1]));
    trace::lemma_replies_push(t0, read16(REG_MGBA_ENABLE, script[0]));
    trace::lemma_replies_push(t1, write16(REG_MGBA_ENABLE, MGBA_ENABLE_REQUEST as u32));
    trace::lemma_replies_push(t2, read16(REG_MGBA_ENABLE, script[1]));
    trace::lemma_replies_push(t3, write16(REG_MGBA_ENABLE, script[0]));
    assert(mgba_accesses(script) =~= t3.push(write16(REG_MGBA_ENABLE, script[0])));
    assert(trace::replies(mgba_accesses(script)) =~= seq![script[0], script[1]]);
}

/// The answers that `signature_reads` records.
pub proof fn lemma_signature_replies(script: Seq<u32>, count: nat)
    ensures
        trace::replies(signature_reads(script, count)) == Seq::new(count, |i: int| script[i]),
    decreases count,
{
    if count == 0 {
        assert(trace::replies(signature_reads(script, count)) =~= Seq::new(
            count,
            |i: int| script[i],
        ));
    } else {
        let before = (count - 1) as nat;
        lemma_signature_replies(script, before);
        trace::lemma_replies_push(
            signature_reads(script, before),
            read8((NOCASH_SIG + count - 1) as u32, script[count - 1]),
        );
        assert(Seq::new(before, |i: int| script[i]).push(script[count - 1]) =~= Seq::new(
            count,
            |i: int| script[i],
        ));
    }
}

/// Reads of the signature region look at the answers they record and at no
/// other.
pub proof fn lemma_signature_reads_local(a: Seq<u32>, b: Seq<u32>, count: nat)
    requires
        forall|i: int| 0 <= i < count ==> a[i] == b[i],
    ensures
        signature_reads(a, count) == signature_reads(b, count),
    decreases count,
{
    if count > 0 {
        lemma_signature_reads_local(a, b, (count - 1) as nat);
    }
}

/// The answers that `real_gba_accesses` records.
pub proof fn lemma_real_gba_replies(script: Seq<u32>)
    ensures
        trace::replies(real_gba_accesses(script)) == seq![script[0]],
{
    trace::lemma_replies_push(Seq::<Access>::empty(), read32(MEMCTRL_REGISTER, script[0]));
}

/// The answers that `overclock_accesses` records.
pub proof fn lemma_overclock_replies(readback: u32)
    ensures
        trace::replies(overclock_accesses(readback)) == seq![readback],
{
    let t0 = Seq::<Access>::empty();
    let t1 = t0.push(write32(MEMCTRL_REGISTER, MEMCTRL_FASTEST));
    let t2 = t1.push(write32(EWRAM_STATIC_DATA, 1));
    let t3 = t2.push(read32(EWRAM_STATIC_DATA, readback));
    trace::lemma_replies_push(t0, write32(MEMCTRL_REGISTER, MEMCTRL_FASTEST));
    trace::lemma_replies_push(t1, write32(EWRAM_STATIC_DATA, 1));
    trace::lemma_replies_push(t2, read32(EWRAM_STATIC_DATA, readback));
    trace::lemma_replies_push(t3, write32(MEMCTRL_REGISTER, MEMCTRL_DEFAULT));
    assert(seq![
        write32(MEMCTRL_REGISTER, MEMCTRL_FASTEST),
        write32(EWRAM_STATIC_DATA, 1),
        read32(EWRAM_STATIC_DATA, readback),
    ] =~= t3);
}

/// The answers that `gpsp_accesses` records.
pub proof fn lemma_gpsp_replies(script: Seq<u32>)
    ensures
        trace::replies(gpsp_accesses(script)) == seq![script[0], script[1], script[2]],
{
    let none = Seq::<Access>::empty();
    let save = read16(REG_DISPCNT, script[0]);
    let show = write16(REG_DISPCNT, BG0_ENABLE as u32);
    let check = read16(REG_DISPCNT, script[2]);
    let restore = write16(REG_DISPCNT, script[0]);
    trace::lemma_replies_push(none, save);
    trace::lemma_replies_push(none.push(save), show);
    trace::lemma_replies_push(none, check);
    trace::lemma_replies_push(none.push(check), restore);
    assert(seq![save, show] =~= none.push(save).push(show));
    assert(seq![check, restore] =~= none.push(check).push(restore));
    lemma_overclock_replies(script[1]);
    trace::lemma_replies_add(seq![save, show], overclock_accesses(script[1]));
    trace::lemma_replies_add(
        seq![save, show] + overclock_accesses(script[1]),
        seq![check, restore],
    );
    assert(trace::replies(gpsp_accesses(script)) =~= seq![script[0], script[1], script[2]]);
}

/// The log messages record no answer.
pub proof fn lemma_vba_replies()
    ensures
        trace::replies(vba_accesses()) == Seq::<u32>::empty(),
{
    let none = Seq::<Access>::empty();
    let first = Access::DebugLog { text: "VBA"@ };
    let second = Access::DebugLog { text: "\n"@ };
    trace::lemma_replies_push(none, first);
    trace::lemma_replies_push(none.push(first), second);
    assert(vba_accesses() =~= none.push(first).push(second));
}

/// The Nintendo DS probe depends on no answer beyond the one it received.
pub proof fn lemma_ds_local(s: Seq<Access>, later: Seq<u32>)
    requires
        s == ds_accesses(trace::replies(s)),
    ensures
        ds_accesses(trace::replies(s) + later) == s,
        ds_matched(trace::replies(s) + later) == ds_matched(trace::replies(s)),
{
    let own = trace::replies(s);
    lemma_ds_replies(own);
    assert(own =~= seq![own[0]]);
    assert((own + later)[0] == own[0]);
}

/// The no$gba probe depends on no answer beyond the seven it received.
pub proof fn lemma_nocash_local(s: Seq<Access>, later: Seq<u32>)
    requires
        s == nocash_accesses(trace::replies(s)),
    ensures
        nocash_accesses(trace::replies(s) + later) == s,
        nocash_matched(trace::replies(s) + later) == nocash_matched(trace::replies(s)),
{
    let own = trace::replies(s);
    let longer = own + later;
    lemma_signature_replies(own, 7);
    assert(own =~= Seq::new(7, |i: int| own[i]));
    assert forall|i: int| 0 <= i < 7 implies own[i] == longer[i] by {}
    lemma_signature_reads_local(own, longer, 7);
}

/// The hardware probe depends on no answer beyond the one it received.
pub proof fn lemma_real_gba_local(s: Seq<Access>, later: Seq<u32>)
    requires
        s == real_gba_accesses(trace::replies(s)),
    ensures
        real_gba_accesses(trace::replies(s) + later) == s,
        real_gba_matched(trace::replies(s) + later) == real_gba_matched(trace::replies(s)),
{
    let own = trace::replies(s);
    lemma_real_gba_replies(own);
    assert(own =~= seq![own[0]]);
    assert((own + later)[0] == own[0]);
}

/// The gpSP probe depends on no answer beyond the three it received.
pub proof fn lemma_gpsp_local(s: Seq<Access>, later: Seq<u32>)
    requires
        s == gpsp_accesses(trace::replies(s)),
    ensures
        gpsp_accesses(trace::replies(s) + later) == s,
        gpsp_matched(trace::replies(s) + later) == gpsp_matched(trace::replies(s)),
{
    let own = trace::replies(s);
    let longer = own + later;
    lemma_gpsp_replies(own);
    assert(own =~= seq![own[0], own[1], own[2]]);
    assert(longer[0] == own[0] && longer[1] == own[1] && longer[2] == own[2]);
}

} // verus!
