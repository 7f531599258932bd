use vstd::prelude::*;

use crate::builder::BuilderSpec;
use crate::outcome::Outcome;
use crate::runtime::{
    complete_post, handle_post, join_post, outstanding_in, spawn_post, spawn_record, Runtime,
    unjoined_failure_in,
};
use crate::signal::{signal_transition, Signal};

verus! {

/// Signal idempotence: firing the signal twice is indistinguishable from
/// firing it once. The second transition changes nothing, so no waiter can
/// observe two distinct wake events, and since the state stays signaled no
/// waiter blocks forever.
pub proof fn lemma_signal_idempotent(s0: Signal, s1: Signal, s2: Signal)
    requires
        signal_transition(s0, s1),
        signal_transition(s1, s2),
    ensures
        s2 == s1,
        s1.is_signaled(),
        s2.is_signaled(),
{
}

/// Value round trip: a unit of work that completes with any outcome `o`,
/// joined afterwards, yields exactly `o` — the value comes back exactly, and
/// a captured failure is re-raised equivalently.
pub proof fn lemma_join_round_trip<T>(
    s0: Runtime<T>,
    s1: Runtime<T>,
    s2: Runtime<T>,
    tid: int,
    o: Outcome<T>,
    r: Outcome<T>,
)
    requires
        0 <= tid < s0.threads@.len(),
        s0.threads@[tid].packet.handle_ref,
        complete_post(s0, s1, tid, o),
        join_post(s1, s2, tid, r),
    ensures
        r == o,
{
    assert(s1.threads@[tid].packet.result == Some(o));
}

/// The full lifecycle round trip: spawning a unit of work, completing it
/// with outcome `o` (the value it returned, or its captured failure), and
/// joining the handle yields exactly `o`.
pub proof fn lemma_spawn_complete_join<T>(
    s0: Runtime<T>,
    s1: Runtime<T>,
    s2: Runtime<T>,
    s3: Runtime<T>,
    builder: BuilderSpec,
    scope: Option<usize>,
    is_web_worker: bool,
    rand: u64,
    tid: int,
    o: Outcome<T>,
    r: Outcome<T>,
)
    requires
        spawn_post(s0, s1, builder, scope, is_web_worker, rand, tid),
        complete_post(s1, s2, tid, o),
        join_post(s2, s3, tid, r),
    ensures
        r == o,
{
    assert(s1.threads@[tid] == crate::runtime::fresh_cell::<T>(scope));
    lemma_join_round_trip(s1, s2, s3, tid, o, r);
}

/// Join is exactly-once: after a join, the packet is empty and the handle's
/// reference is gone, so the state in which a join is possible can never
/// recur for this thread — re-raising a failure a second time, or observing
/// a stale or duplicated value, is impossible.
pub proof fn lemma_packet_single_read<T>(s1: Runtime<T>, s2: Runtime<T>, tid: int, r: Outcome<T>)
    requires
        0 <= tid < s1.threads@.len(),
        join_post(s1, s2, tid, r),
    ensures
        s2.threads@[tid].packet.result is None,
        !s2.threads@[tid].packet.handle_ref,
{
}

/// Relay correctness: a spawn request issued from a non-coordinating
/// context, once the coordinator handles it, results in exactly one direct
/// creation, made by the coordinator, with the identical configuration and
/// the identical unit of work as supplied — neither executed twice nor
/// dropped: the request leaves the coordinator's inbox exactly when the
/// creation record appears.
pub proof fn lemma_relay_correct<T>(
    s0: Runtime<T>,
    s1: Runtime<T>,
    s2: Runtime<T>,
    builder: BuilderSpec,
    scope: Option<usize>,
    rand0: u64,
    rand1: u64,
    tid: int,
)
    requires
        s0.inbox@.len() == 0,
        spawn_post(s0, s1, builder, scope, true, rand0, tid),
        handle_post(s1, s2, rand1),
    ensures
        s2.spawned@.len() == s1.spawned@.len() + 1,
        spawn_record(s2.spawned@.last(), builder, rand1, tid, s1.workers@.len() as int),
        s2.workers@ == s1.workers@.push(true),
        s2.inbox@.len() == 0,
        s2.threads@ == s0.threads@.push(crate::runtime::fresh_cell::<T>(scope)),
{
    assert(s1.inbox@[0] == s1.inbox@.last());
    assert(s2.inbox@ =~= Seq::<crate::runtime::WorkerMessage>::empty());
}

/// The signal-last ordering discipline: under the system invariant, a live
/// handle that observes the completion signal observes a fully written
/// result — the packet write and the spawned side's bookkeeping happened
/// strictly before the signal fired, which is the sole synchronization the
/// packet needs.
pub proof fn lemma_signal_orders_read<T>(rt: Runtime<T>, tid: int)
    requires
        rt.inv(),
        0 <= tid < rt.threads@.len(),
        rt.threads@[tid].signal.is_signaled(),
        rt.threads@[tid].packet.handle_ref,
    ensures
        rt.threads@[tid].packet.result is Some,
        !rt.threads@[tid].packet.worker_ref,
{
}

/// Scope accounting: under the system invariant, a scope's
/// outstanding-thread counter is zero exactly when every thread spawned in
/// it has completed and been fully released, and its unhandled-failure flag
/// is set exactly when at least one of its threads was discarded still
/// holding a failure nobody joined.
pub proof fn lemma_scope_accounting<T>(rt: Runtime<T>, s: int)
    requires
        rt.inv(),
        0 <= s < rt.scopes@.len(),
    ensures
        (rt.scopes@[s].running == 0 <==> (forall|i: int|
            0 <= i < rt.threads@.len() ==> !outstanding_in(#[trigger] rt.threads@[i], s))),
        (rt.scopes@[s].unhandled_failure <==> unjoined_failure_in(rt.threads@, s)),
{
    crate::runtime::lemma_count_zero_iff(rt.threads@, s);
}

} // verus!
