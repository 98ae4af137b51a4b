//! Reading a record of accesses: what the machine answered, and what the
//! writes left behind.

use crate::backend::Access;
use vstd::prelude::*;

verus! {

/// The value the machine handed back for `access`, if it hands one back.
pub open spec fn reply_of(access: Access) -> Option<u32> {
    match access {
        Access::Read { value, .. } => Some(value),
        Access::FirmwareChecksum { value } => Some(value),
        Access::Write { .. } => None,
        Access::DebugLog { .. } => None,
    }
}

/// The values the machine handed back during `t`, in order: one for each
/// read and each firmware call.
pub open spec fn replies(t: Seq<Access>) -> Seq<u32>
    decreases t.len(),
{
    if t.len() == 0 {
        Seq::empty()
    } else {
        match reply_of(t.last()) {
            Some(value) => replies(t.drop_last()).push(value),
            None => replies(t.drop_last()),
        }
    }
}

/// The value that `access` stores at `addr`, if it is a write there.
pub open spec fn written_by(access: Access, addr: u32) -> Option<u32> {
    match access {
        Access::Write { addr: at, value, .. } => if at == addr {
            Some(value)
        } else {
            None
        },
        _ => None,
    }
}

/// The value that `access` found at `addr`, if it is a read there.
pub open spec fn read_by(access: Access, addr: u32) -> Option<u32> {
    match access {
        Access::Read { addr: at, value, .. } => if at == addr {
            Some(value)
        } else {
            None
        },
        _ => None,
    }
}

/// What the writes of `t` left at `addr`: the value of the last write there,
/// if there is one.
pub open spec fn last_written(t: Seq<Access>, addr: u32) -> Option<u32>
    decreases t.len(),
{
    if t.len() == 0 {
        None
    } else {
        match written_by(t.last(), addr) {
            Some(value) => Some(value),
            None => last_written(t.drop_last(), addr),
        }
    }
}

/// What `addr` held when `t` began, as far as `t` shows it: the value that
/// the first access to `addr` found there, if that access is a read.
pub open spec fn first_seen(t: Seq<Access>, addr: u32) -> Option<u32>
    decreases t.len(),
{
    if t.len() == 0 {
        None
    } else if written_by(t.first(), addr) is Some {
        None
    } else {
        match read_by(t.first(), addr) {
            Some(value) => Some(value),
            None => first_seen(t.drop_first(), addr),
        }
    }
}

/// `t` leaves `addr` as it found it: either it does not write there, or its
/// last write there stores the value that it first read there, before any
/// write.
pub open spec fn restores(t: Seq<Access>, addr: u32) -> bool {
    match last_written(t, addr) {
        Some(value) => first_seen(t, addr) == Some(value),
        None => true,
    }
}

/// `t` writes at `addr` and leaves `value` there.
pub open spec fn leaves(t: Seq<Access>, addr: u32, value: u32) -> bool {
    last_written(t, addr) == Some(value)
}

/// `t` writes to no register.
pub open spec fn writes_nothing(t: Seq<Access>) -> bool {
    forall|addr: u32| #[trigger] last_written(t, addr) is None
}

/// A kind of access, for counting.
pub enum Kind {
    /// Every access.
    Any,
    /// The firmware checksum call.
    FirmwareCall,
    /// A message to the debugger's log channel.
    LogMessage,
    /// A read at the given address.
    ReadOf(u32),
    /// A write at the given address.
    WriteTo(u32),
}

/// Whether `access` is of `kind`.
pub open spec fn is_kind(access: Access, kind: Kind) -> bool {
    match kind {
        Kind::Any => true,
        Kind::FirmwareCall => access is FirmwareChecksum,
        Kind::LogMessage => access is DebugLog,
        Kind::ReadOf(addr) => read_by(access, addr) is Some,
        Kind::WriteTo(addr) => written_by(access, addr) is Some,
    }
}

/// What `access` adds to a count of `kind`: one if it is of the kind.
pub open spec fn one_if(access: Access, kind: Kind) -> nat {
    if is_kind(access, kind) {
        1
    } else {
        0
    }
}

/// How many accesses of `t` are of `kind`.
pub open spec fn count(t: Seq<Access>, kind: Kind) -> nat
    decreases t.len(),
{
    if t.len() == 0 {
        0
    } else {
        count(t.drop_last(), kind) + one_if(t.last(), kind)
    }
}

/// What was added to a record that read `before` and now reads `after`.
pub open spec fn appended(before: Seq<Access>, after: Seq<Access>) -> Seq<Access> {
    after.skip(before.len() as int)
}

/// Appending one access appends its reply, if it has one.
pub proof fn lemma_replies_push(t: Seq<Access>, access: Access)
    ensures
        replies(t.push(access)) == match reply_of(access) {
            Some(value) => replies(t).push(value),
            None => replies(t),
        },
{
    assert(t.push(access).drop_last() =~= t);
}

/// The replies of two records laid end to end are their replies laid end to
/// end.
pub proof fn lemma_replies_add(a: Seq<Access>, b: Seq<Access>)
    ensures
        replies(a + b) == replies(a) + replies(b),
    decreases b.len(),
{
    if b.len() == 0 {
        assert(a + b =~= a);
        assert(replies(a) + replies(b) =~= replies(a));
    } else {
        lemma_replies_add(a, b.drop_last());
        assert((a + b).drop_last() =~= a + b.drop_last());
        assert((a + b).last() == b.last());
        match reply_of(b.last()) {
            Some(value) => {
                assert((replies(a) + replies(b.drop_last())).push(value) =~= replies(a)
                    + replies(b.drop_last()).push(value));
            },
            None => {},
        }
    }
}

/// A record that grew from `before` to `after` is `before` followed by what
/// was appended.
pub proof fn lemma_appended(before: Seq<Access>, after: Seq<Access>)
    requires
        before.is_prefix_of(after),
    ensures
        after == before + appended(before, after),
{
    assert(after =~= before + appended(before, after));
}

/// What is left at `addr` after one more access.
pub proof fn lemma_last_written_push(t: Seq<Access>, access: Access, addr: u32)
    ensures
        last_written(t.push(access), addr) == match written_by(access, addr) {
            Some(value) => Some(value),
            None => last_written(t, addr),
        },
{
    assert(t.push(access).drop_last() =~= t);
}

/// What is left at `addr` after two records laid end to end: what the second
/// left there if it wrote there, else what the first left.
pub proof fn lemma_last_written_add(a: Seq<Access>, b: Seq<Access>, addr: u32)
    ensures
        last_written(a + b, addr) == match last_written(b, addr) {
            Some(value) => Some(value),
            None => last_written(a, addr),
        },
    decreases b.len(),
{
    if b.len() == 0 {
        assert(a + b =~= a);
    } else {
        lemma_last_written_add(a, b.drop_last(), addr);
        assert((a + b).drop_last() =~= a + b.drop_last());
        assert((a + b).last() == b.last());
    }
}

/// One more access counts if it is of the kind.
pub proof fn lemma_count_push(t: Seq<Access>, access: Access, kind: Kind)
    ensures
        count(t.push(access), kind) == count(t, kind) + one_if(access, kind),
{
    assert(t.push(access).drop_last() =~= t);
}

/// The count over two records laid end to end is the sum of their counts.
pub proof fn lemma_count_add(a: Seq<Access>, b: Seq<Access>, kind: Kind)
    ensures
        count(a + b, kind) == count(a, kind) + count(b, kind),
    decreases b.len(),
{
    if b.len() == 0 {
        assert(a + b =~= a);
    } else {
        lemma_count_add(a, b.drop_last(), kind);
        assert((a + b).drop_last() =~= a + b.drop_last());
        assert((a + b).last() == b.last());
    }
}

/// Counting every access gives the length.
pub proof fn lemma_count_any(t: Seq<Access>)
    ensures
        count(t, Kind::Any) == t.len(),
    decreases t.len(),
{
    if t.len() > 0 {
        lemma_count_any(t.drop_last());
    }
}

/// A record that begins with a read of `addr` shows what `addr` held.
pub proof fn lemma_first_seen_read(t: Seq<Access>, addr: u32)
    requires
        t.len() > 0,
        read_by(t.first(), addr) is Some,
    ensures
        first_seen(t, addr) == read_by(t.first(), addr),
{
}

/// What was appended over two stretches is what was appended over the first
/// followed by what was appended over the second.
pub proof fn lemma_appended_twice(before: Seq<Access>, mid: Seq<Access>, after: Seq<Access>)
    requires
        before.is_prefix_of(mid),
        mid.is_prefix_of(after),
    ensures
        before.is_prefix_of(after),
        appended(before, after) == appended(before, mid) + appended(mid, after),
{
    assert(appended(before, after) =~= appended(before, mid) + appended(mid, after));
}

} // verus!
