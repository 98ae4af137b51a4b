//! First match wins: running an ordered list of probes against a machine.
//!
//! A probe is modelled by what it does as a function of the machine's
//! answers. The classifier tries the probes of an order one after the other
//! and stops at the first that reports a match; later probes are not run.

use crate::backend::Access;
use crate::trace;
use vstd::prelude::*;

verus! {

/// What a probe does, as a function of what the machine answers.
///
/// The `script` is the sequence of values the machine hands back from the
/// probe's first access on. It may be longer than what the probe asks for.
pub trait ProbeModel: Sized {
    /// The accesses the probe makes, in order.
    spec fn accesses(self, script: Seq<u32>) -> Seq<Access>;

    /// Whether the probe reports a match.
    spec fn matched(self, script: Seq<u32>) -> bool;

    /// A probe depends on no answer beyond those it received: if `s` is what
    /// the probe did on the answers recorded in `s` itself, then it does the
    /// same, and reports the same, whatever answers would have followed.
    proof fn lemma_local(self, s: Seq<Access>, later: Seq<u32>)
        requires
            s == self.accesses(trace::replies(s)),
        ensures
            self.accesses(trace::replies(s) + later) == s,
            self.matched(trace::replies(s) + later) == self.matched(trace::replies(s)),
    ;
}

/// A record grew from `before` to `after` by one run of `probe`, which
/// reported `matched`. The answers the probe is held to are those the record
/// itself shows.
pub open spec fn probed<P: ProbeModel>(
    probe: P,
    before: Seq<Access>,
    after: Seq<Access>,
    matched: bool,
) -> bool {
    let s = trace::appended(before, after);
    &&& before.is_prefix_of(after)
    &&& s == probe.accesses(trace::replies(s))
    &&& matched == probe.matched(trace::replies(s))
}

/// How a classification ended: the probe that matched, if any, and every
/// access made on the way.
pub struct Outcome<P> {
    pub matched: Option<P>,
    pub accesses: Seq<Access>,
}

/// Runs the probes of `order` in turn on `script` and stops at the first
/// match. Each probe finds the script where the one before it left off.
pub open spec fn run<P: ProbeModel>(order: Seq<P>, script: Seq<u32>) -> Outcome<P>
    decreases order.len(),
{
    if order.len() == 0 {
        Outcome { matched: None, accesses: Seq::empty() }
    } else {
        let own = order[0].accesses(script);
        if order[0].matched(script) {
            Outcome { matched: Some(order[0]), accesses: own }
        } else {
            let rest = run(order.skip(1), script.skip(trace::replies(own).len() as int));
            Outcome { matched: rest.matched, accesses: own + rest.accesses }
        }
    }
}

/// A record grew from `before` to `after` by one classification over
/// `order`: what was appended is what the run over `order` does on the answers
/// that the record itself shows.
pub open spec fn classified<P: ProbeModel>(
    order: Seq<P>,
    before: Seq<Access>,
    after: Seq<Access>,
) -> bool {
    let s = trace::appended(before, after);
    &&& before.is_prefix_of(after)
    &&& run(order, trace::replies(s)).accesses == s
}

/// The probe that matched in the classification that took a record from
/// `before` to `after`, if one did.
pub open spec fn verdict<P: ProbeModel>(
    order: Seq<P>,
    before: Seq<Access>,
    after: Seq<Access>,
) -> Option<P> {
    run(order, trace::replies(trace::appended(before, after))).matched
}

/// `outcome` with the accesses `done` put in front of its own.
pub open spec fn after<P>(done: Seq<Access>, outcome: Outcome<P>) -> Outcome<P> {
    Outcome { matched: outcome.matched, accesses: done + outcome.accesses }
}

/// The first `next` probes of `order` ran without a match and `done` is what
/// they did: however the machine goes on to answer, the whole run is `done`
/// followed by the run of the remaining probes.
pub open spec fn reaches<P: ProbeModel>(order: Seq<P>, done: Seq<Access>, next: int) -> bool {
    &&& 0 <= next <= order.len()
    &&& forall|later: Seq<u32>| #[trigger]
        run(order, trace::replies(done) + later) == after(done, run(order.skip(next), later))
}

/// Before any probe has run, nothing has been done.
pub proof fn lemma_reaches_start<P: ProbeModel>(order: Seq<P>)
    ensures
        reaches(order, Seq::<Access>::empty(), 0),
{
    assert forall|later: Seq<u32>| #[trigger]
        run(order, trace::replies(Seq::<Access>::empty()) + later) == after(
            Seq::<Access>::empty(),
            run(order.skip(0), later),
        ) by {
        assert(order.skip(0) =~= order);
        assert(trace::replies(Seq::<Access>::empty()) + later =~= later);
        assert(Seq::<Access>::empty() + run(order, later).accesses =~= run(order, later).accesses);
    }
}

/// A probe that ran without a match moves the run on to the next probe.
pub proof fn lemma_reaches_next<P: ProbeModel>(
    order: Seq<P>,
    done: Seq<Access>,
    next: int,
    s: Seq<Access>,
)
    requires
        reaches(order, done, next),
        next < order.len(),
        s == order[next].accesses(trace::replies(s)),
        !order[next].matched(trace::replies(s)),
    ensures
        reaches(order, done + s, next + 1),
{
    let probe = order[next];
    trace::lemma_replies_add(done, s);
    assert forall|later: Seq<u32>| #[trigger]
        run(order, trace::replies(done + s) + later) == after(
            done + s,
            run(order.skip(next + 1), later),
        ) by {
        let script = trace::replies(s) + later;
        assert(trace::replies(done + s) + later =~= trace::replies(done) + script);
        assert(run(order, trace::replies(done) + script) == after(
            done,
            run(order.skip(next), script),
        ));
        probe.lemma_local(s, later);
        assert(order.skip(next)[0] == probe);
        assert(order.skip(next).skip(1) =~= order.skip(next + 1));
        assert(script.skip(trace::replies(s).len() as int) =~= later);
        let rest = run(order.skip(next + 1), later);
        assert(run(order.skip(next), script) == after(s, rest));
        assert(done + (s + rest.accesses) =~= (done + s) + rest.accesses);
    }
}

/// A probe that matched ends the run with that probe.
pub proof fn lemma_reaches_match<P: ProbeModel>(
    order: Seq<P>,
    done: Seq<Access>,
    next: int,
    s: Seq<Access>,
)
    requires
        reaches(order, done, next),
        next < order.len(),
        s == order[next].accesses(trace::replies(s)),
        order[next].matched(trace::replies(s)),
    ensures
        run(order, trace::replies(done + s)) == (Outcome {
            matched: Some(order[next]),
            accesses: done + s,
        }),
{
    let script = trace::replies(s);
    trace::lemma_replies_add(done, s);
    assert(run(order, trace::replies(done) + script) == after(done, run(order.skip(next), script)));
    assert(order.skip(next)[0] == order[next]);
}

/// When every probe ran without a match, no probe matched.
pub proof fn lemma_reaches_end<P: ProbeModel>(order: Seq<P>, done: Seq<Access>)
    requires
        reaches(order, done, order.len() as int),
    ensures
        run(order, trace::replies(done)) == (Outcome::<P> { matched: None, accesses: done }),
{
    let nothing = Seq::<u32>::empty();
    assert(trace::replies(done) + nothing =~= trace::replies(done));
    assert(run(order, trace::replies(done) + nothing) == after(
        done,
        run(order.skip(order.len() as int), nothing),
    ));
    assert(done + Seq::<Access>::empty() =~= done);
}

/// A classification over `order` that began when the record read `before`
/// has come to its probe number `next` without a match, and the record now
/// reads `now`.
pub open spec fn underway<P: ProbeModel>(
    order: Seq<P>,
    before: Seq<Access>,
    now: Seq<Access>,
    next: int,
) -> bool {
    &&& before.is_prefix_of(now)
    &&& reaches(order, trace::appended(before, now), next)
}

/// A classification begins with its first probe.
pub proof fn lemma_underway_start<P: ProbeModel>(order: Seq<P>, before: Seq<Access>)
    ensures
        underway(order, before, before, 0),
{
    lemma_reaches_start(order);
    assert(trace::appended(before, before) =~= Seq::<Access>::empty());
}

/// A probe that reports no match hands over to the next in the order.
pub proof fn lemma_probe_missed<P: ProbeModel>(
    order: Seq<P>,
    before: Seq<Access>,
    mid: Seq<Access>,
    now: Seq<Access>,
    next: int,
)
    requires
        underway(order, before, mid, next),
        next < order.len(),
        probed(order[next], mid, now, false),
    ensures
        underway(order, before, now, next + 1),
{
    trace::lemma_appended_twice(before, mid, now);
    lemma_reaches_next(order, trace::appended(before, mid), next, trace::appended(mid, now));
}

/// A probe that reports a match ends the classification: no later probe
/// runs.
pub proof fn lemma_probe_matched<P: ProbeModel>(
    order: Seq<P>,
    before: Seq<Access>,
    mid: Seq<Access>,
    now: Seq<Access>,
    next: int,
)
    requires
        underway(order, before, mid, next),
        next < order.len(),
        probed(order[next], mid, now, true),
    ensures
        classified(order, before, now),
        verdict(order, before, now) == Some(order[next]),
{
    trace::lemma_appended_twice(before, mid, now);
    lemma_reaches_match(order, trace::appended(before, mid), next, trace::appended(mid, now));
}

/// When the last probe of the order reports no match, the classification
/// ends without one.
pub proof fn lemma_none_matched<P: ProbeModel>(
    order: Seq<P>,
    before: Seq<Access>,
    now: Seq<Access>,
)
    requires
        underway(order, before, now, order.len() as int),
    ensures
        classified(order, before, now),
        verdict(order, before, now) == None::<P>,
{
    lemma_reaches_end(order, trace::appended(before, now));
}

/// The script as probe number `index` of `order` would find it, had every
/// probe before it run: each probe takes up the answers it asked for.
pub open spec fn script_at<P: ProbeModel>(order: Seq<P>, script: Seq<u32>, index: int) -> Seq<u32>
    decreases index,
{
    if index <= 0 {
        script
    } else {
        let found = script_at(order, script, index - 1);
        found.skip(trace::replies(order[index - 1].accesses(found)).len() as int)
    }
}

/// Whether probe number `index` of `order` would report a match, had the run
/// come to it.
pub open spec fn would_match<P: ProbeModel>(order: Seq<P>, script: Seq<u32>, index: int) -> bool {
    order[index].matched(script_at(order, script, index))
}

/// The number of the first probe at or after `from` that would report a
/// match, or the length of the order if none would.
pub open spec fn first_match<P: ProbeModel>(order: Seq<P>, script: Seq<u32>, from: int) -> int
    decreases order.len() - from,
{
    if from < 0 || from >= order.len() || would_match(order, script, from) {
        from
    } else {
        first_match(order, script, from + 1)
    }
}

/// The first match lies between `from` and the end of the order; no probe
/// from `from` up to it would match, and it would.
pub proof fn lemma_first_match<P: ProbeModel>(order: Seq<P>, script: Seq<u32>, from: int)
    requires
        0 <= from <= order.len(),
    ensures
        from <= first_match(order, script, from) <= order.len(),
        forall|index: int|
            from <= index < first_match(order, script, from) ==> !would_match(
                order,
                script,
                index,
            ),
        first_match(order, script, from) < order.len() ==> would_match(
            order,
            script,
            first_match(order, script, from),
        ),
    decreases order.len() - from,
{
    if from < order.len() && !would_match(order, script, from) {
        lemma_first_match(order, script, from + 1);
    }
}

/// From probe number `from` on, the run ends with the first probe that would
/// match.
proof fn lemma_run_from<P: ProbeModel>(order: Seq<P>, script: Seq<u32>, from: int)
    requires
        0 <= from <= order.len(),
    ensures
        run(order.skip(from), script_at(order, script, from)).matched == if first_match(
            order,
            script,
            from,
        ) < order.len() {
            Some(order[first_match(order, script, from)])
        } else {
            None
        },
    decreases order.len() - from,
{
    if from < order.len() {
        assert(order.skip(from)[0] == order[from]);
        if !would_match(order, script, from) {
            lemma_run_from(order, script, from + 1);
            assert(order.skip(from).skip(1) =~= order.skip(from + 1));
        }
    }
}

/// Totality: a classification ends in exactly one way. It ends with the
/// first probe of the order that would match, and without a match exactly
/// when no probe of the order would.
pub proof fn lemma_run_total<P: ProbeModel>(order: Seq<P>, script: Seq<u32>)
    ensures
        0 <= first_match(order, script, 0) <= order.len(),
        run(order, script).matched == if first_match(order, script, 0) < order.len() {
            Some(order[first_match(order, script, 0)])
        } else {
            None
        },
        run(order, script).matched is None <==> forall|index: int|
            0 <= index < order.len() ==> !would_match(order, script, index),
{
    lemma_first_match(order, script, 0);
    lemma_run_from(order, script, 0);
    assert(order.skip(0) =~= order);
}

/// The first probe of the order that would match decides, whatever the
/// probes after it would report.
pub proof fn lemma_first_match_decides<P: ProbeModel>(order: Seq<P>, script: Seq<u32>, index: int)
    requires
        0 <= index < order.len(),
        would_match(order, script, index),
        forall|earlier: int| 0 <= earlier < index ==> !would_match(order, script, earlier),
    ensures
        first_match(order, script, 0) == index,
        run(order, script).matched == Some(order[index]),
{
    lemma_run_total(order, script);
    lemma_first_match(order, script, 0);
}

/// Precedence: when two probes of the order would both match, the run never
/// ends with a probe that comes after the higher of the two; and it ends
/// with the higher one when no probe before it would match.
pub proof fn lemma_priority<P: ProbeModel>(
    order: Seq<P>,
    script: Seq<u32>,
    higher: int,
    lower: int,
)
    requires
        0 <= higher < lower < order.len(),
        would_match(order, script, higher),
        would_match(order, script, lower),
    ensures
        0 <= first_match(order, script, 0) <= higher,
        run(order, script).matched == Some(order[first_match(order, script, 0)]),
        (forall|index: int| 0 <= index < higher ==> !would_match(order, script, index)) ==> run(
            order,
            script,
        ).matched == Some(order[higher]),
{
    lemma_run_total(order, script);
    lemma_first_match(order, script, 0);
}

/// What a classification leaves in a register: when no probe of the order
/// leaves anything at `addr` but `permitted`, neither does the run.
pub proof fn lemma_run_leaves<P: ProbeModel>(
    order: Seq<P>,
    script: Seq<u32>,
    addr: u32,
    permitted: Option<u32>,
)
    requires
        forall|index: int, answers: Seq<u32>|
            0 <= index < order.len() ==> {
                let left = trace::last_written(#[trigger] order[index].accesses(answers), addr);
                left is None || left == permitted
            },
    ensures
        trace::last_written(run(order, script).accesses, addr) is None || trace::last_written(
            run(order, script).accesses,
            addr,
        ) == permitted,
    decreases order.len(),
{
    if order.len() > 0 {
        let own = order[0].accesses(script);
        let left = trace::last_written(own, addr);
        assert(left is None || left == permitted);
        if !order[0].matched(script) {
            let rest = order.skip(1);
            let later = script.skip(trace::replies(own).len() as int);
            assert forall|index: int, answers: Seq<u32>| 0 <= index < rest.len() implies {
                let left = trace::last_written(#[trigger] rest[index].accesses(answers), addr);
                left is None || left == permitted
            } by {
                assert(rest[index] == order[index + 1]);
                let left = trace::last_written(order[index + 1].accesses(answers), addr);
                assert(left is None || left == permitted);
            }
            lemma_run_leaves(rest, later, addr, permitted);
            trace::lemma_last_written_add(own, run(rest, later).accesses, addr);
        }
    }
}

/// The sum of `limits`.
pub open spec fn total(limits: Seq<nat>) -> nat
    decreases limits.len(),
{
    if limits.len() == 0 {
        0
    } else {
        limits[0] + total(limits.skip(1))
    }
}

/// A classification is bounded in each kind of access: when probe number
/// `index` never makes more than `limits[index]` accesses of `kind`, the run
/// makes no more than the sum of the limits. Each probe runs once at most.
pub proof fn lemma_run_counts<P: ProbeModel>(
    order: Seq<P>,
    limits: Seq<nat>,
    script: Seq<u32>,
    kind: trace::Kind,
)
    requires
        limits.len() == order.len(),
        forall|index: int, answers: Seq<u32>|
            0 <= index < order.len() ==> trace::count(
                #[trigger] order[index].accesses(answers),
                kind,
            ) <= limits[index],
    ensures
        trace::count(run(order, script).accesses, kind) <= total(limits),
    decreases order.len(),
{
    if order.len() > 0 {
        let own = order[0].accesses(script);
        assert(trace::count(own, kind) <= limits[0]);
        if !order[0].matched(script) {
            let rest = order.skip(1);
            let later = script.skip(trace::replies(own).len() as int);
            assert forall|index: int, answers: Seq<u32>| 0 <= index < rest.len() implies
                trace::count(#[trigger] rest[index].accesses(answers), kind) <= limits.skip(
                1,
            )[index] by {
                assert(rest[index] == order[index + 1]);
                assert(trace::count(order[index + 1].accesses(answers), kind) <= limits[index
                    + 1]);
            }
            lemma_run_counts(rest, limits.skip(1), later, kind);
            trace::lemma_count_add(own, run(rest, later).accesses, kind);
        }
    }
}

/// The sum of six limits.
pub proof fn lemma_total_of_six(a: nat, b: nat, c: nat, d: nat, e: nat, f: nat)
    ensures
        total(seq![a, b, c, d, e, f]) == a + b + c + d + e + f,
{
    let limits = seq![a, b, c, d, e, f];
    reveal_with_fuel(total, 7);
    assert(limits.skip(1) =~= seq![b, c, d, e, f]);
    assert(limits.skip(1).skip(1) =~= seq![c, d, e, f]);
    assert(limits.skip(1).skip(1).skip(1) =~= seq![d, e, f]);
    assert(limits.skip(1).skip(1).skip(1).skip(1) =~= seq![e, f]);
    assert(limits.skip(1).skip(1).skip(1).skip(1).skip(1) =~= seq![f]);
}

/// Determinism: two probe runs that were given the same answers made the
/// same accesses and reported the same.
pub proof fn lemma_probe_deterministic<P: ProbeModel>(
    probe: P,
    before1: Seq<Access>,
    after1: Seq<Access>,
    matched1: bool,
    before2: Seq<Access>,
    after2: Seq<Access>,
    matched2: bool,
)
    requires
        probed(probe, before1, after1, matched1),
        probed(probe, before2, after2, matched2),
        trace::replies(trace::appended(before1, after1)) == trace::replies(
            trace::appended(before2, after2),
        ),
    ensures
        trace::appended(before1, after1) == trace::appended(before2, after2),
        matched1 == matched2,
{
}

/// Determinism: two classifications over the same order that were given the
/// same answers made the same accesses and ended with the same probe.
pub proof fn lemma_classification_deterministic<P: ProbeModel>(
    order: Seq<P>,
    before1: Seq<Access>,
    after1: Seq<Access>,
    before2: Seq<Access>,
    after2: Seq<Access>,
)
    requires
        classified(order, before1, after1),
        classified(order, before2, after2),
        trace::replies(trace::appended(before1, after1)) == trace::replies(
            trace::appended(before2, after2),
        ),
    ensures
        trace::appended(before1, after1) == trace::appended(before2, after2),
        verdict(order, before1, after1) == verdict(order, before2, after2),
{
}

} // verus!
