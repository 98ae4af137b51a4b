//! Registers that behave like memory, where a read returns what was last
//! written: on such registers a probe that restores a register leaves it
//! holding what it held before.

use crate::backend::Access;
use crate::classifier;
use crate::classifier::ProbeModel;
use crate::trace;
use vstd::prelude::*;

verus! {

/// What the registers hold after the writes of `t`, in order.
pub open spec fn replay(registers: Map<u32, u32>, t: Seq<Access>) -> Map<u32, u32>
    decreases t.len(),
{
    if t.len() == 0 {
        registers
    } else {
        let before = replay(registers, t.drop_last());
        match t.last() {
            Access::Write { addr, value, .. } => before.insert(addr, value),
            _ => before,
        }
    }
}

/// Every read of `t` returned what the register held at that moment, for
/// registers that held `registers` when `t` began.
pub open spec fn reads_as_memory(registers: Map<u32, u32>, t: Seq<Access>) -> bool {
    forall|i: int|
        0 <= i < t.len() ==> match #[trigger] t[i] {
            Access::Read { addr, value, .. } => replay(registers, t.take(i))[addr] == value,
            _ => true,
        }
}

/// A register holds what was last written to it, or what it held before if
/// nothing was.
pub proof fn lemma_replay_holds(registers: Map<u32, u32>, t: Seq<Access>, addr: u32)
    ensures
        replay(registers, t)[addr] == match trace::last_written(t, addr) {
            Some(value) => value,
            None => registers[addr],
        },
    decreases t.len(),
{
    if t.len() > 0 {
        lemma_replay_holds(registers, t.drop_last(), addr);
    }
}

/// Replaying two records laid end to end is replaying the second on where
/// the first left the registers.
pub proof fn lemma_replay_add(registers: Map<u32, u32>, a: Seq<Access>, b: Seq<Access>)
    ensures
        replay(registers, a + b) == replay(replay(registers, a), b),
    decreases b.len(),
{
    if b.len() == 0 {
        assert(a + b =~= a);
    } else {
        lemma_replay_add(registers, a, b.drop_last());
        assert((a + b).drop_last() =~= a + b.drop_last());
        assert((a + b).last() == b.last());
    }
}

/// What a record first saw in a register is what the register held.
pub proof fn lemma_first_seen_was_held(registers: Map<u32, u32>, t: Seq<Access>, addr: u32)
    requires
        reads_as_memory(registers, t),
        trace::first_seen(t, addr) is Some,
    ensures
        trace::first_seen(t, addr) == Some(registers[addr]),
    decreases t.len(),
{
    let first = t.first();
    assert(t.take(0) =~= Seq::<Access>::empty());
    if trace::read_by(first, addr) is Some {
        assert(t[0] == first);
    } else {
        let head = seq![first];
        let rest = t.drop_first();
        let moved = replay(registers, head);
        assert(head.drop_last() =~= Seq::<Access>::empty());
        assert(replay(registers, Seq::<Access>::empty()) == registers);
        assert(moved[addr] == registers[addr]);
        assert forall|i: int| 0 <= i < rest.len() implies match #[trigger] rest[i] {
            Access::Read { addr, value, .. } => replay(moved, rest.take(i))[addr] == value,
            _ => true,
        } by {
            assert(rest[i] == t[i + 1]);
            assert(t.take(i + 1) =~= head + rest.take(i));
            lemma_replay_add(registers, head, rest.take(i));
        }
        lemma_first_seen_was_held(moved, rest, addr);
    }
}

/// Restoration on registers that behave like memory: a register that `t`
/// restores holds after `t` what it held before.
pub proof fn lemma_restored_is_unchanged(registers: Map<u32, u32>, t: Seq<Access>, addr: u32)
    requires
        reads_as_memory(registers, t),
        trace::restores(t, addr),
    ensures
        replay(registers, t)[addr] == registers[addr],
{
    lemma_replay_holds(registers, t, addr);
    if trace::last_written(t, addr) is Some {
        lemma_first_seen_was_held(registers, t, addr);
    }
}

/// Of two records laid end to end whose reads behave like memory, the first
/// does on the registers as they were, and the second on the registers as
/// the first left them.
pub proof fn lemma_reads_as_memory_split(registers: Map<u32, u32>, a: Seq<Access>, b: Seq<Access>)
    requires
        reads_as_memory(registers, a + b),
    ensures
        reads_as_memory(registers, a),
        reads_as_memory(replay(registers, a), b),
{
    let t = a + b;
    assert forall|i: int| 0 <= i < a.len() implies match #[trigger] a[i] {
        Access::Read { addr, value, .. } => replay(registers, a.take(i))[addr] == value,
        _ => true,
    } by {
        assert(a[i] == t[i]);
        assert(a.take(i) =~= t.take(i));
    }
    assert forall|i: int| 0 <= i < b.len() implies match #[trigger] b[i] {
        Access::Read { addr, value, .. } => replay(replay(registers, a), b.take(i))[addr] == value,
        _ => true,
    } by {
        assert(b[i] == t[a.len() + i]);
        assert(t.take(a.len() + i) =~= a + b.take(i));
        lemma_replay_add(registers, a, b.take(i));
    }
}

/// From probe number `from` on, a run whose probes all restore `addr` leaves
/// it unchanged.
proof fn lemma_run_from_restores<P: ProbeModel>(
    order: Seq<P>,
    script: Seq<u32>,
    from: int,
    registers: Map<u32, u32>,
    addr: u32,
)
    requires
        0 <= from <= order.len(),
        forall|index: int, answers: Seq<u32>|
            from <= index < order.len() && index <= classifier::first_match(order, script, from)
                ==> trace::restores(#[trigger] order[index].accesses(answers), addr),
        reads_as_memory(
            registers,
            classifier::run(order.skip(from), classifier::script_at(order, script, from)).accesses,
        ),
    ensures
        replay(
            registers,
            classifier::run(order.skip(from), classifier::script_at(order, script, from)).accesses,
        )[addr] == registers[addr],
    decreases order.len() - from,
{
    if from < order.len() {
        let found = classifier::script_at(order, script, from);
        let own = order[from].accesses(found);
        assert(order.skip(from)[0] == order[from]);
        classifier::lemma_first_match(order, script, from);
        assert(trace::restores(own, addr));
        if classifier::would_match(order, script, from) {
            lemma_restored_is_unchanged(registers, own, addr);
        } else {
            let rest = classifier::run(
                order.skip(from + 1),
                classifier::script_at(order, script, from + 1),
            ).accesses;
            assert(order.skip(from).skip(1) =~= order.skip(from + 1));
            lemma_reads_as_memory_split(registers, own, rest);
            lemma_restored_is_unchanged(registers, own, addr);
            lemma_run_from_restores(order, script, from + 1, replay(registers, own), addr);
            lemma_replay_add(registers, own, rest);
        }
    }
}

/// Restoration over a whole classification, on registers that behave like
/// memory: when every probe that runs restores `addr`, the register holds
/// after the classification what it held before.
pub proof fn lemma_run_restores<P: ProbeModel>(
    order: Seq<P>,
    script: Seq<u32>,
    registers: Map<u32, u32>,
    addr: u32,
)
    requires
        forall|index: int, answers: Seq<u32>|
            0 <= index < order.len() && index <= classifier::first_match(order, script, 0)
                ==> trace::restores(#[trigger] order[index].accesses(answers), addr),
        reads_as_memory(registers, classifier::run(order, script).accesses),
    ensures
        replay(registers, classifier::run(order, script).accesses)[addr] == registers[addr],
{
    assert(order.skip(0) =~= order);
    lemma_run_from_restores(order, script, 0, registers, addr);
}

} // verus!
