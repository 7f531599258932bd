use vstd::prelude::*;

use crate::builder::{resolve_worker_name, resolved_worker_name, Builder, BuilderSpec, DefaultBuilder, inherited_builder, opt_view};
use crate::outcome::Outcome;
use crate::signal::Signal;

verus! {

/// One-shot shared cell carrying a unit of work's outcome from the spawned
/// side to the joining side.
///
/// The cell is written at most once (by the worker's completion wrapper) and
/// taken at most once (by join); the read happens after the write because the
/// joining side waits on the completion signal first, never because of a
/// lock. The two reference-holding sides are tracked explicitly: bookkeeping
/// on the owning scope runs exactly once, when the last reference goes away.
pub struct Packet<T> {
    /// The outcome slot: empty until the worker completes, emptied again by
    /// join or by the final drop.
    pub result: Option<Outcome<T>>,
    /// The owning scope, if the thread was spawned inside one.
    pub scope: Option<usize>,
    /// Whether the spawned side still holds its reference (it gives it up
    /// when it completes).
    pub worker_ref: bool,
    /// Whether the join-handle side still holds its reference (it gives it
    /// up on join, or when the handle is discarded unjoined).
    pub handle_ref: bool,
    /// Whether the packet was finally dropped while still holding an unread
    /// `Failure`: an unhandled failure, surfaced to the owning scope.
    pub dropped_with_failure: bool,
}

/// The per-thread record: the result packet and the completion signal that
/// orders the packet's read after its write.
pub struct ThreadCell<T> {
    pub packet: Packet<T>,
    pub signal: Signal,
}

/// Scope bookkeeping: how many child threads of the scope are still
/// outstanding, and whether any of them failed without anyone retrieving the
/// failure. The scope's exit blocks until the counter reaches zero and then
/// re-raises if the flag is set.
#[derive(Clone, Copy)]
pub struct ScopeData {
    pub running: usize,
    pub unhandled_failure: bool,
}

/// Identifies the boxed unit of work a new worker is to run. The platform
/// carries it across the isolation boundary as a numeric payload; here the
/// unit of work is identified with the thread cell it reports into.
#[derive(Clone, Copy)]
pub struct WebWorkerContext {
    pub thread: usize,
}

/// A spawn request forwarded to the coordinating context: the configuration
/// and the unit of work it is to create a worker for.
pub struct BuilderRequest {
    pub builder: Builder,
    pub context: WebWorkerContext,
}

/// A message from a worker to the coordinating context. Each message is
/// reconstituted and consumed exactly once by the coordinator.
pub enum WorkerMessage {
    /// Request to create a worker on the sender's behalf (only the
    /// coordinating context may create workers).
    SpawnThread(BuilderRequest),
    /// The given worker has finished its unit of work and may be released.
    ThreadComplete { worker: usize },
}

/// The record of one direct worker creation by the coordinating context:
/// which worker was created, which unit of work it was wired to, under what
/// display name, and from which bootstrap script location.
pub struct WorkerSpawn {
    pub worker: usize,
    pub thread: usize,
    pub name: Option<String>,
    pub script_url: Option<String>,
}

/// What one direct creation must look like for a given configuration, unit
/// of work, entropy and fresh worker id.
pub open spec fn spawn_record(
    entry: WorkerSpawn,
    builder: BuilderSpec,
    rand: u64,
    thread: int,
    worker: int,
) -> bool {
    &&& entry.worker == worker
    &&& entry.thread == thread
    &&& opt_view(entry.name) == resolved_worker_name(builder.name, builder.prefix, rand)
    &&& opt_view(entry.script_url) == builder.wasm_bindgen_shim_url
}

/// The state of the whole thread system, shared linear memory included: the
/// per-thread cells, the scopes, the coordinating context's pending relay
/// messages in arrival order, which created workers the coordinator still
/// retains (a retained worker is not reclaimed while its unit of work runs),
/// and the log of direct creations.
pub struct Runtime<T> {
    pub threads: Vec<ThreadCell<T>>,
    pub scopes: Vec<ScopeData>,
    pub inbox: Vec<WorkerMessage>,
    pub workers: Vec<bool>,
    pub spawned: Vec<WorkerSpawn>,
}

/// Whether a cell still counts against its scope's outstanding-thread
/// counter: some side still holds a reference to its packet.
pub open spec fn outstanding_in<T>(c: ThreadCell<T>, s: int) -> bool {
    &&& c.packet.scope == Some(s as usize)
    &&& (c.packet.worker_ref || c.packet.handle_ref)
}

/// How many cells still count against scope `s`.
pub open spec fn count_outstanding<T>(cells: Seq<ThreadCell<T>>, s: int) -> nat
    decreases cells.len(),
{
    if cells.len() == 0 {
        0
    } else {
        count_outstanding(cells.drop_last(), s) + if outstanding_in(cells.last(), s) {
            1nat
        } else {
            0nat
        }
    }
}

/// Whether some cell of scope `s` was finally dropped holding an unread
/// failure.
pub open spec fn unjoined_failure_in<T>(cells: Seq<ThreadCell<T>>, s: int) -> bool {
    exists|i: int|
        0 <= i < cells.len() && (#[trigger] cells[i]).packet.scope == Some(s as usize)
            && cells[i].packet.dropped_with_failure
}

/// Well-formedness of a single cell: the signal-last discipline. While the
/// spawned side holds its reference the slot is unwritten and the signal
/// pending; the signal fires exactly when the spawned side is done; a written
/// slot is only ever held for a live handle; and an unhandled failure is only
/// recorded once both sides are gone.
pub open spec fn cell_wf<T>(c: ThreadCell<T>, nscopes: int) -> bool {
    &&& (c.packet.scope matches Some(s) ==> s < nscopes)
    &&& (c.packet.worker_ref ==> c.packet.result is None)
    &&& (c.signal.is_signaled() <==> !c.packet.worker_ref)
    &&& (c.packet.result is Some ==> c.packet.handle_ref && !c.packet.worker_ref)
    &&& (!c.packet.worker_ref && c.packet.handle_ref ==> c.packet.result is Some)
    &&& (c.packet.dropped_with_failure ==> !c.packet.worker_ref && !c.packet.handle_ref)
}

impl<T> Runtime<T> {
    /// The system invariant: every cell is well formed, every scope's
    /// outstanding-thread counter equals the number of its cells some side
    /// still references, and its unhandled-failure flag is set exactly when
    /// one of its cells was finally dropped holding an unread failure.
    pub open spec fn inv(self) -> bool {
        &&& forall|i: int|
            0 <= i < self.threads.len() ==> cell_wf(
                #[trigger] self.threads@[i],
                self.scopes.len() as int,
            )
        &&& forall|s: int|
            0 <= s < self.scopes.len() ==> (#[trigger] self.scopes@[s]).running
                == count_outstanding(self.threads@, s)
        &&& forall|s: int|
            0 <= s < self.scopes.len() ==> ((#[trigger] self.scopes@[s]).unhandled_failure
                <==> unjoined_failure_in(self.threads@, s))
    }

    /// A fresh system: no threads, no scopes, no pending messages.
    pub fn new() -> (rt: Runtime<T>)
        ensures
            rt.inv(),
            rt.threads@ =~= Seq::<ThreadCell<T>>::empty(),
            rt.scopes@ =~= Seq::<ScopeData>::empty(),
            rt.inbox@ =~= Seq::<WorkerMessage>::empty(),
            rt.workers@ =~= Seq::<bool>::empty(),
            rt.spawned@ =~= Seq::<WorkerSpawn>::empty(),
    {
        Runtime {
            threads: Vec::new(),
            scopes: Vec::new(),
            inbox: Vec::new(),
            workers: Vec::new(),
            spawned: Vec::new(),
        }
    }
}

// ---------------------------------------------------------------------------
// Counting lemmas
// ---------------------------------------------------------------------------

proof fn lemma_count_push<T>(cells: Seq<ThreadCell<T>>, c: ThreadCell<T>, s: int)
    ensures
        count_outstanding(cells.push(c), s) == count_outstanding(cells, s) + if outstanding_in(
            c,
            s,
        ) {
            1nat
        } else {
            0nat
        },
{
    assert(cells.push(c).drop_last() =~= cells);
    assert(cells.push(c).last() == c);
}

proof fn lemma_count_update<T>(cells: Seq<ThreadCell<T>>, i: int, c: ThreadCell<T>, s: int)
    requires
        0 <= i < cells.len(),
    ensures
        count_outstanding(cells.update(i, c), s) + (if outstanding_in(cells[i], s) {
            1nat
        } else {
            0nat
        }) == count_outstanding(cells, s) + (if outstanding_in(c, s) {
            1nat
        } else {
            0nat
        }),
    decreases cells.len(),
{
    if i == cells.len() - 1 {
        assert(cells.update(i, c).drop_last() =~= cells.drop_last());
        assert(cells.update(i, c).last() == c);
        assert(cells.last() == cells[i]);
    } else {
        lemma_count_update(cells.drop_last(), i, c, s);
        assert(cells.update(i, c).drop_last() =~= cells.drop_last().update(i, c));
        assert(cells.update(i, c).last() == cells.last());
    }
}

pub proof fn lemma_count_zero_iff<T>(cells: Seq<ThreadCell<T>>, s: int)
    ensures
        count_outstanding(cells, s) == 0 <==> (forall|i: int|
            0 <= i < cells.len() ==> !outstanding_in(#[trigger] cells[i], s)),
    decreases cells.len(),
{
    if cells.len() > 0 {
        lemma_count_zero_iff(cells.drop_last(), s);
        assert(forall|i: int|
            0 <= i < cells.len() - 1 ==> #[trigger] cells[i] == cells.drop_last()[i]);
        assert(cells.last() == cells[cells.len() - 1]);
    }
}

proof fn lemma_count_at_least_one<T>(cells: Seq<ThreadCell<T>>, i: int, s: int)
    requires
        0 <= i < cells.len(),
        outstanding_in(cells[i], s),
    ensures
        count_outstanding(cells, s) >= 1,
{
    lemma_count_zero_iff(cells, s);
}

proof fn lemma_remove_insert<A>(s: Seq<A>, i: int, a: A)
    requires
        0 <= i < s.len(),
    ensures
        s.remove(i).insert(i, a) =~= s.update(i, a),
{
    let r = s.remove(i).insert(i, a);
    assert forall|j: int| 0 <= j < r.len() implies r[j] == s.update(i, a)[j] by {
        if j < i {
        } else if j == i {
        } else {
        }
    }
}

// The cell at `tid` was replaced without changing what the scope bookkeeping
// can see of it: same scope, still referenced from somewhere, no unhandled
// failure recorded. The invariant carries over.
proof fn lemma_update_same_inv<T>(pre: Runtime<T>, post: Runtime<T>, tid: int)
    requires
        pre.inv(),
        0 <= tid < pre.threads@.len(),
        post.threads@ == pre.threads@.update(tid, post.threads@[tid]),
        post.scopes@ == pre.scopes@,
        cell_wf(post.threads@[tid], post.scopes@.len() as int),
        post.threads@[tid].packet.scope == pre.threads@[tid].packet.scope,
        (post.threads@[tid].packet.worker_ref || post.threads@[tid].packet.handle_ref) == (
        pre.threads@[tid].packet.worker_ref || pre.threads@[tid].packet.handle_ref),
        post.threads@[tid].packet.dropped_with_failure
            == pre.threads@[tid].packet.dropped_with_failure,
    ensures
        post.inv(),
{
    let newc = post.threads@[tid];
    assert forall|i: int| 0 <= i < post.threads@.len() implies cell_wf(
        #[trigger] post.threads@[i],
        post.scopes@.len() as int,
    ) by {
        if i != tid {
            assert(post.threads@[i] == pre.threads@[i]);
        }
    }
    assert forall|s: int| 0 <= s < post.scopes@.len() implies #[trigger] post.scopes@[s].running
        == count_outstanding(post.threads@, s) by {
        lemma_count_update(pre.threads@, tid, newc, s);
    }
    assert forall|s: int| 0 <= s < post.scopes@.len() implies ((
    #[trigger] post.scopes@[s].unhandled_failure) <==> unjoined_failure_in(post.threads@, s)) by {
        lemma_unjoined_same(pre.threads@, post.threads@, tid, s);
    }
}

// The exists-witness for an unhandled failure transfers across an update
// that keeps the updated cell's scope and failure record.
proof fn lemma_unjoined_same<T>(
    pre: Seq<ThreadCell<T>>,
    post: Seq<ThreadCell<T>>,
    tid: int,
    s: int,
)
    requires
        0 <= tid < pre.len(),
        post == pre.update(tid, post[tid]),
        post[tid].packet.scope == pre[tid].packet.scope,
        post[tid].packet.dropped_with_failure == pre[tid].packet.dropped_with_failure,
    ensures
        unjoined_failure_in(post, s) == unjoined_failure_in(pre, s),
{
    if unjoined_failure_in(pre, s) {
        let i = choose|i: int|
            0 <= i < pre.len() && (#[trigger] pre[i]).packet.scope == Some(s as usize)
                && pre[i].packet.dropped_with_failure;
        if i == tid {
            assert(post[tid].packet.scope == Some(s as usize)
                && post[tid].packet.dropped_with_failure);
        } else {
            assert(post[i] == pre[i]);
        }
        assert(unjoined_failure_in(post, s));
    }
    if unjoined_failure_in(post, s) {
        let i = choose|i: int|
            0 <= i < post.len() && (#[trigger] post[i]).packet.scope == Some(s as usize)
                && post[i].packet.dropped_with_failure;
        if i == tid {
            assert(pre[tid].packet.scope == Some(s as usize)
                && pre[tid].packet.dropped_with_failure);
        } else {
            assert(pre[i] == post[i]);
        }
        assert(unjoined_failure_in(pre, s));
    }
}

// The cell at `tid` was finally dropped: it was still referenced before, now
// neither side holds it, its unhandled-failure record became `failed`, and
// its scope's entry was decremented with the flag folded in. The invariant
// carries over.
proof fn lemma_finish_inv<T>(pre: Runtime<T>, post: Runtime<T>, tid: int, failed: bool)
    requires
        pre.inv(),
        0 <= tid < pre.threads@.len(),
        pre.threads@[tid].packet.worker_ref || pre.threads@[tid].packet.handle_ref,
        post.threads@ == pre.threads@.update(tid, post.threads@[tid]),
        post.threads@[tid].packet.scope == pre.threads@[tid].packet.scope,
        !post.threads@[tid].packet.worker_ref,
        !post.threads@[tid].packet.handle_ref,
        post.threads@[tid].packet.dropped_with_failure == failed,
        cell_wf(post.threads@[tid], pre.scopes@.len() as int),
        post.scopes@ == scopes_after_finish(
            pre.scopes@,
            pre.threads@[tid].packet.scope,
            failed,
        ),
    ensures
        post.inv(),
{
    let newc = post.threads@[tid];
    let oldc = pre.threads@[tid];
    let scope = oldc.packet.scope;
    assert(cell_wf(oldc, pre.scopes@.len() as int));
    assert(!oldc.packet.dropped_with_failure);
    match scope {
        Some(sc) => lemma_count_at_least_one(pre.threads@, tid, sc as int),
        None => (),
    }
    assert(post.scopes@.len() == pre.scopes@.len());
    assert forall|i: int| 0 <= i < post.threads@.len() implies cell_wf(
        #[trigger] post.threads@[i],
        post.scopes@.len() as int,
    ) by {
        if i != tid {
            assert(post.threads@[i] == pre.threads@[i]);
        }
    }
    assert forall|s: int| 0 <= s < post.scopes@.len() implies #[trigger] post.scopes@[s].running
        == count_outstanding(post.threads@, s) by {
        lemma_count_update(pre.threads@, tid, newc, s);
        if scope == Some(s as usize) {
            assert(outstanding_in(oldc, s));
            assert(!outstanding_in(newc, s));
        } else {
            assert(!outstanding_in(oldc, s));
            assert(!outstanding_in(newc, s));
            assert(post.scopes@[s] == pre.scopes@[s]);
        }
    }
    assert forall|s: int| 0 <= s < post.scopes@.len() implies ((
    #[trigger] post.scopes@[s].unhandled_failure) <==> unjoined_failure_in(post.threads@, s)) by {
        if scope == Some(s as usize) && failed {
            assert(newc.packet.scope == Some(s as usize) && newc.packet.dropped_with_failure);
            assert(unjoined_failure_in(post.threads@, s));
            assert(post.scopes@[s].unhandled_failure);
        } else {
            // the flag and the witnesses are unchanged at this scope
            if s == (match scope {
                Some(sc) => sc as int,
                None => -1,
            }) {
                assert(post.scopes@[s].unhandled_failure == pre.scopes@[s].unhandled_failure);
            } else {
                assert(post.scopes@[s] == pre.scopes@[s]);
            }
            if unjoined_failure_in(pre.threads@, s) {
                let i = choose|i: int|
                    0 <= i < pre.threads@.len() && (#[trigger] pre.threads@[i]).packet.scope
                        == Some(s as usize) && pre.threads@[i].packet.dropped_with_failure;
                assert(i != tid);
                assert(post.threads@[i] == pre.threads@[i]);
                assert(unjoined_failure_in(post.threads@, s));
            }
            if unjoined_failure_in(post.threads@, s) {
                let i = choose|i: int|
                    0 <= i < post.threads@.len() && (#[trigger] post.threads@[i]).packet.scope
                        == Some(s as usize) && post.threads@[i].packet.dropped_with_failure;
                if i == tid {
                    assert(failed && scope == Some(s as usize));
                } else {
                    assert(pre.threads@[i] == post.threads@[i]);
                    assert(unjoined_failure_in(pre.threads@, s));
                }
            }
        }
    }
}

// ---------------------------------------------------------------------------
// The spawn engine and relay protocol
// ---------------------------------------------------------------------------

/// The cell a fresh spawn allocates: slot unwritten, signal pending, both
/// sides holding their reference.
pub open spec fn fresh_cell<T>(scope: Option<usize>) -> ThreadCell<T> {
    ThreadCell {
        packet: Packet {
            result: None,
            scope,
            worker_ref: true,
            handle_ref: true,
            dropped_with_failure: false,
        },
        signal: Signal { signaled: false },
    }
}

/// The scope table after one spawn into `scope`.
pub open spec fn scopes_after_spawn(pre: Seq<ScopeData>, scope: Option<usize>) -> Seq<ScopeData> {
    match scope {
        Some(s) => pre.update(
            s as int,
            ScopeData {
                running: (pre[s as int].running + 1) as usize,
                unhandled_failure: pre[s as int].unhandled_failure,
            },
        ),
        None => pre,
    }
}

/// The scope table after the final drop of one packet of `scope`, which
/// carried an unhandled failure iff `failed`.
pub open spec fn scopes_after_finish(
    pre: Seq<ScopeData>,
    scope: Option<usize>,
    failed: bool,
) -> Seq<ScopeData> {
    match scope {
        Some(s) => pre.update(
            s as int,
            ScopeData {
                running: (pre[s as int].running - 1) as usize,
                unhandled_failure: pre[s as int].unhandled_failure || failed,
            },
        ),
        None => pre,
    }
}

/// Whether `m` is the relayed spawn request for configuration `builder` and
/// the unit of work of thread `tid`.
pub open spec fn relay_request(m: WorkerMessage, builder: BuilderSpec, tid: int) -> bool {
    match m {
        WorkerMessage::SpawnThread(req) => req.builder@ == builder && req.context.thread == tid,
        WorkerMessage::ThreadComplete { .. } => false,
    }
}

/// The exact effect of one direct worker creation: a new retained worker, a
/// creation record matching the configuration, and nothing else touched.
pub open spec fn direct_spawn_post<T>(
    pre: Runtime<T>,
    post: Runtime<T>,
    builder: BuilderSpec,
    thread: int,
    rand: u64,
) -> bool {
    &&& post.threads@ == pre.threads@
    &&& post.scopes@ == pre.scopes@
    &&& post.inbox@ == pre.inbox@
    &&& post.workers@ == pre.workers@.push(true)
    &&& post.spawned@.len() == pre.spawned@.len() + 1
    &&& post.spawned@ == pre.spawned@.push(post.spawned@.last())
    &&& spawn_record(post.spawned@.last(), builder, rand, thread, pre.workers@.len() as int)
}

/// The exact effect of one spawn: a fresh cell, the scope counter up by one,
/// and either a direct creation (coordinating context) or one relayed spawn
/// request appended for the coordinator (non-coordinating context).
pub open spec fn spawn_post<T>(
    pre: Runtime<T>,
    post: Runtime<T>,
    builder: BuilderSpec,
    scope: Option<usize>,
    is_web_worker: bool,
    rand: u64,
    tid: int,
) -> bool {
    &&& tid == pre.threads@.len()
    &&& post.threads@ == pre.threads@.push(fresh_cell(scope))
    &&& post.scopes@ == scopes_after_spawn(pre.scopes@, scope)
    &&& if is_web_worker {
        &&& post.inbox@.len() == pre.inbox@.len() + 1
        &&& post.inbox@ == pre.inbox@.push(post.inbox@.last())
        &&& relay_request(post.inbox@.last(), builder, tid)
        &&& post.workers@ == pre.workers@
        &&& post.spawned@ == pre.spawned@
    } else {
        &&& post.inbox@ == pre.inbox@
        &&& post.workers@ == pre.workers@.push(true)
        &&& post.spawned@.len() == pre.spawned@.len() + 1
        &&& post.spawned@ == pre.spawned@.push(post.spawned@.last())
        &&& spawn_record(post.spawned@.last(), builder, rand, tid, pre.workers@.len() as int)
    }
}

/// The thread-cell and scope part of completing thread `tid` with `outcome`:
/// the slot is written, the spawned side gives up its reference, the signal
/// fires last. If the handle side is already gone this was the last
/// reference, so the slot is dropped again at once and the owning scope is
/// told — with the unhandled-failure flag iff the dropped outcome was a
/// failure nobody will ever join.
pub open spec fn completes_thread<T>(
    pre: Runtime<T>,
    post: Runtime<T>,
    tid: int,
    outcome: Outcome<T>,
) -> bool {
    let c = pre.threads@[tid];
    if c.packet.handle_ref {
        &&& post.threads@ == pre.threads@.update(
            tid,
            ThreadCell {
                packet: Packet {
                    result: Some(outcome),
                    scope: c.packet.scope,
                    worker_ref: false,
                    handle_ref: true,
                    dropped_with_failure: false,
                },
                signal: Signal { signaled: true },
            },
        )
        &&& post.scopes@ == pre.scopes@
    } else {
        &&& post.threads@ == pre.threads@.update(
            tid,
            ThreadCell {
                packet: Packet {
                    result: None,
                    scope: c.packet.scope,
                    worker_ref: false,
                    handle_ref: false,
                    dropped_with_failure: outcome.is_failure(),
                },
                signal: Signal { signaled: true },
            },
        )
        &&& post.scopes@ == scopes_after_finish(pre.scopes@, c.packet.scope, outcome.is_failure())
    }
}

/// `completes_thread`, with the rest of the system untouched.
pub open spec fn complete_post<T>(
    pre: Runtime<T>,
    post: Runtime<T>,
    tid: int,
    outcome: Outcome<T>,
) -> bool {
    &&& completes_thread(pre, post, tid, outcome)
    &&& post.inbox@ == pre.inbox@
    &&& post.workers@ == pre.workers@
    &&& post.spawned@ == pre.spawned@
}

/// The exact effect of one join: the packet's outcome is taken (exactly
/// once), the handle's reference — by then the last one — goes away, and the
/// owning scope is told that one more thread is accounted for, with no
/// unhandled failure since the outcome was just consumed.
pub open spec fn join_post<T>(pre: Runtime<T>, post: Runtime<T>, tid: int, r: Outcome<T>) -> bool {
    let c = pre.threads@[tid];
    &&& c.packet.result == Some(r)
    &&& post.threads@ == pre.threads@.update(
        tid,
        ThreadCell {
            packet: Packet {
                result: None,
                scope: c.packet.scope,
                worker_ref: false,
                handle_ref: false,
                dropped_with_failure: false,
            },
            signal: c.signal,
        },
    )
    &&& post.scopes@ == scopes_after_finish(pre.scopes@, c.packet.scope, false)
    &&& post.inbox@ == pre.inbox@
    &&& post.workers@ == pre.workers@
    &&& post.spawned@ == pre.spawned@
}

impl<T> Runtime<T> {
    fn increment_num_running_threads(&mut self, scope: Option<usize>)
        requires
            scope matches Some(s) ==> s < old(self).scopes@.len() && old(self).scopes@[s as int].running
                < usize::MAX,
        ensures
            final(self).scopes@ == scopes_after_spawn(old(self).scopes@, scope),
            final(self).threads@ == old(self).threads@,
            final(self).inbox@ == old(self).inbox@,
            final(self).workers@ == old(self).workers@,
            final(self).spawned@ == old(self).spawned@,
    {
        if let Some(s) = scope {
            let sc = self.scopes.remove(s);
            self.scopes.insert(
                s,
                ScopeData { running: sc.running + 1, unhandled_failure: sc.unhandled_failure },
            );
            proof {
                lemma_remove_insert(old(self).scopes@, s as int, self.scopes@[s as int]);
            }
        }
    }

    fn decrement_num_running_threads(&mut self, scope: Option<usize>, unhandled_failure: bool)
        requires
            scope matches Some(s) ==> s < old(self).scopes@.len() && old(self).scopes@[s as int].running
                >= 1,
        ensures
            final(self).scopes@ == scopes_after_finish(old(self).scopes@, scope, unhandled_failure),
            final(self).threads@ == old(self).threads@,
            final(self).inbox@ == old(self).inbox@,
            final(self).workers@ == old(self).workers@,
            final(self).spawned@ == old(self).spawned@,
    {
        if let Some(s) = scope {
            let sc = self.scopes.remove(s);
            self.scopes.insert(
                s,
                ScopeData {
                    running: sc.running - 1,
                    unhandled_failure: sc.unhandled_failure || unhandled_failure,
                },
            );
            proof {
                lemma_remove_insert(old(self).scopes@, s as int, self.scopes@[s as int]);
            }
        }
    }

    /// Opens a new scope: no outstanding threads, no unhandled failure yet.
    pub fn create_scope(&mut self) -> (s: usize)
        requires
            old(self).inv(),
        ensures
            final(self).inv(),
            s == old(self).scopes@.len(),
            final(self).scopes@ == old(self).scopes@.push(
                ScopeData { running: 0, unhandled_failure: false },
            ),
            final(self).threads@ == old(self).threads@,
            final(self).inbox@ == old(self).inbox@,
            final(self).workers@ == old(self).workers@,
            final(self).spawned@ == old(self).spawned@,
    {
        let s = self.scopes.len();
        self.scopes.push(ScopeData { running: 0, unhandled_failure: false });
        proof {
            lemma_count_zero_iff(self.threads@, s as int);
            assert forall|i: int| 0 <= i < self.threads@.len() implies !outstanding_in(
                #[trigger] self.threads@[i],
                s as int,
            ) by {
                assert(cell_wf(self.threads@[i], old(self).scopes@.len() as int));
            }
            assert(!unjoined_failure_in(self.threads@, s as int)) by {
                assert forall|i: int|
                    0 <= i < self.threads@.len() implies !((#[trigger] self.threads@[i]).packet.scope
                    == Some(s) && self.threads@[i].packet.dropped_with_failure) by {
                    assert(cell_wf(self.threads@[i], old(self).scopes@.len() as int));
                }
            }
        }
        s
    }

    /// Performs one direct worker creation in the coordinating context, for
    /// the given configuration and unit of work: resolves the display name
    /// from the configuration (with `rand` as the entropy for a generated
    /// suffix), creates the worker, and retains a reference to it so it is
    /// not reclaimed while its unit of work runs.
    pub fn spawn_for_context(&mut self, builder: Builder, ctx: WebWorkerContext, rand: u64)
        ensures
            direct_spawn_post(*old(self), *final(self), builder@, ctx.thread as int, rand),
    {
        let Builder { name, prefix, stack_size: _, wasm_bindgen_shim_url } = builder;
        let display = resolve_worker_name(name, prefix, rand);
        let worker = self.workers.len();
        self.workers.push(true);
        self.spawned.push(
            WorkerSpawn { worker, thread: ctx.thread, name: display, script_url: wasm_bindgen_shim_url },
        );
    }

    /// The spawn engine. Allocates the signal and packet, wires the unit of
    /// work to them (the new cell), then decides placement: a
    /// non-coordinating context packages the request and relays it to the
    /// coordinator; the coordinating context creates the worker directly.
    /// Either way, the owning scope's outstanding-thread counter goes up by
    /// one — the count reflects "spawn requested", wherever execution will
    /// happen — and the caller gets the join capability.
    pub fn spawn_inner(
        &mut self,
        builder: Builder,
        scope: Option<usize>,
        is_web_worker: bool,
        rand: u64,
    ) -> (h: JoinInner)
        requires
            old(self).inv(),
            scope matches Some(s) ==> s < old(self).scopes@.len() && old(self).scopes@[s as int].running
                < usize::MAX,
        ensures
            final(self).inv(),
            h.thread == old(self).threads@.len(),
            spawn_post(*old(self), *final(self), builder@, scope, is_web_worker, rand, h.thread as int),
    {
        let thread = self.threads.len();
        self.threads.push(
            ThreadCell {
                packet: Packet {
                    result: None,
                    scope,
                    worker_ref: true,
                    handle_ref: true,
                    dropped_with_failure: false,
                },
                signal: Signal::new(),
            },
        );
        if is_web_worker {
            WorkerMessage::SpawnThread(
                BuilderRequest { builder, context: WebWorkerContext { thread } },
            ).post(self);
        } else {
            self.spawn_for_context(builder, WebWorkerContext { thread }, rand);
        }
        self.increment_num_running_threads(scope);
        proof {
            let pre = old(self).threads@;
            let c = fresh_cell::<T>(scope);
            assert(self.threads@ == pre.push(c));
            assert forall|s2: int| 0 <= s2 < self.scopes@.len() implies #[trigger] self.scopes@[s2].running
                == count_outstanding(self.threads@, s2) by {
                lemma_count_push(pre, c, s2);
            }
            assert forall|s2: int| 0 <= s2 < self.scopes@.len() implies ((#[trigger] self.scopes@[s2].unhandled_failure)
                <==> unjoined_failure_in(self.threads@, s2)) by {
                assert(unjoined_failure_in(self.threads@, s2) == unjoined_failure_in(pre, s2)) by {
                    if unjoined_failure_in(pre, s2) {
                        let i = choose|i: int|
                            0 <= i < pre.len() && (#[trigger] pre[i]).packet.scope == Some(
                                s2 as usize,
                            ) && pre[i].packet.dropped_with_failure;
                        assert(self.threads@[i] == pre[i]);
                    }
                    if unjoined_failure_in(self.threads@, s2) {
                        let i = choose|i: int|
                            0 <= i < self.threads@.len() && (#[trigger] self.threads@[i]).packet.scope
                                == Some(s2 as usize)
                                && self.threads@[i].packet.dropped_with_failure;
                        assert(i < pre.len());
                        assert(pre[i] == self.threads@[i]);
                    }
                }
            }
        }
        JoinInner { thread }
    }

    /// The worker-side completion wrapper: the unit of work has finished
    /// with `outcome` (a captured failure never unwinds further than this).
    /// Writes the outcome into the packet, gives up the spawned side's
    /// reference — which is the final one if the handle was already
    /// discarded, triggering the scope bookkeeping — and fires the
    /// completion signal last, so any waiter that observes the signal
    /// observes the fully written, fully accounted-for result.
    pub fn complete(&mut self, thread: usize, outcome: Outcome<T>)
        requires
            old(self).inv(),
            thread < old(self).threads@.len(),
            old(self).threads@[thread as int].packet.worker_ref,
        ensures
            final(self).inv(),
            complete_post(*old(self), *final(self), thread as int, outcome),
    {
        let ghost pre = *old(self);
        let ghost failed_g = outcome.is_failure();
        let c = self.threads.remove(thread);
        let scope = c.packet.scope;
        let mut signal = c.signal;
        signal.signal();
        if c.packet.handle_ref {
            self.threads.insert(
                thread,
                ThreadCell {
                    packet: Packet {
                        result: Some(outcome),
                        scope,
                        worker_ref: false,
                        handle_ref: true,
                        dropped_with_failure: false,
                    },
                    signal,
                },
            );
            proof {
                lemma_remove_insert(pre.threads@, thread as int, self.threads@[thread as int]);
                lemma_update_same_inv(pre, *self, thread as int);
            }
        } else {
            let failed = outcome.failed();
            self.threads.insert(
                thread,
                ThreadCell {
                    packet: Packet {
                        result: None,
                        scope,
                        worker_ref: false,
                        handle_ref: false,
                        dropped_with_failure: failed,
                    },
                    signal,
                },
            );
            proof {
                lemma_remove_insert(pre.threads@, thread as int, self.threads@[thread as int]);
                if scope is Some {
                    lemma_count_at_least_one(pre.threads@, thread as int, scope.unwrap() as int);
                }
            }
            self.decrement_num_running_threads(scope, failed);
            proof {
                lemma_finish_inv(pre, *self, thread as int, failed_g);
            }
        }
    }
}

impl WorkerMessage {
    /// Transports this message to the coordinating context. In the running
    /// system the message is boxed and its address crosses the channel as a
    /// numeric payload, to be reconstituted and consumed exactly once; here
    /// it joins the coordinator's inbox, which is consumed in arrival order.
    pub fn post<T>(self, rt: &mut Runtime<T>)
        ensures
            final(rt).inbox@ == old(rt).inbox@.push(self),
            final(rt).threads@ == old(rt).threads@,
            final(rt).scopes@ == old(rt).scopes@,
            final(rt).workers@ == old(rt).workers@,
            final(rt).spawned@ == old(rt).spawned@,
    {
        rt.inbox.push(self);
    }
}

impl BuilderRequest {
    /// Executed by the coordinating context on receipt of a relayed spawn
    /// request: the direct creation the requesting worker was not permitted
    /// to perform itself, with exactly the configuration and unit of work it
    /// supplied.
    pub fn spawn<T>(self, rt: &mut Runtime<T>, rand: u64)
        ensures
            direct_spawn_post(*old(rt), *final(rt), self.builder@, self.context.thread as int, rand),
    {
        rt.spawn_for_context(self.builder, self.context, rand);
    }
}

/// The worker-side entry trampoline, invoked with the reconstituted unit of
/// work once the platform has started the new worker. The unit of work has
/// run exactly once, to `outcome` (with any failure captured rather than
/// propagated); this writes the outcome through the completion wrapper and
/// then reports the worker idle so the coordinator releases its retained
/// reference.
pub fn wasm_thread_entry_point<T>(
    rt: &mut Runtime<T>,
    ctx: WebWorkerContext,
    worker: usize,
    outcome: Outcome<T>,
)
    requires
        old(rt).inv(),
        ctx.thread < old(rt).threads@.len(),
        old(rt).threads@[ctx.thread as int].packet.worker_ref,
    ensures
        final(rt).inv(),
        completes_thread(*old(rt), *final(rt), ctx.thread as int, outcome),
        final(rt).inbox@ == old(rt).inbox@.push(WorkerMessage::ThreadComplete { worker }),
        final(rt).workers@ == old(rt).workers@,
        final(rt).spawned@ == old(rt).spawned@,
{
    rt.complete(ctx.thread, outcome);
    WorkerMessage::ThreadComplete { worker }.post(rt);
}

/// What one step of the coordinating context's message handler does, as a
/// function of the message at the front of its inbox: a relayed spawn
/// request becomes one direct creation with the embedded configuration and
/// unit of work; a worker-idle notice releases the retained reference to
/// that worker so it can be reclaimed. Each message is consumed exactly
/// once, in arrival order.
pub open spec fn handle_post<T>(pre: Runtime<T>, post: Runtime<T>, rand: u64) -> bool {
    &&& post.inbox@ == pre.inbox@.remove(0)
    &&& post.threads@ == pre.threads@
    &&& post.scopes@ == pre.scopes@
    &&& match pre.inbox@[0] {
        WorkerMessage::SpawnThread(req) => {
            &&& post.workers@ == pre.workers@.push(true)
            &&& post.spawned@.len() == pre.spawned@.len() + 1
            &&& post.spawned@ == pre.spawned@.push(post.spawned@.last())
            &&& spawn_record(
                post.spawned@.last(),
                req.builder@,
                rand,
                req.context.thread as int,
                pre.workers@.len() as int,
            )
        },
        WorkerMessage::ThreadComplete { worker } => {
            &&& post.workers@ == pre.workers@.update(worker as int, false)
            &&& post.spawned@ == pre.spawned@
        },
    }
}

impl<T> Runtime<T> {
    /// One step of the coordinating context's message handler; see
    /// `handle_post`. `rand` is the entropy drawn for a generated worker
    /// name, used only when the message is a spawn request for an unnamed,
    /// prefixed configuration.
    pub fn handle_message(&mut self, rand: u64)
        requires
            old(self).inv(),
            old(self).inbox@.len() > 0,
            old(self).inbox@[0] matches WorkerMessage::ThreadComplete { worker } ==> worker < old(
                self,
            ).workers@.len(),
        ensures
            final(self).inv(),
            handle_post(*old(self), *final(self), rand),
    {
        let ghost pre = *old(self);
        let msg = self.inbox.remove(0);
        match msg {
            WorkerMessage::SpawnThread(req) => {
                req.spawn(self, rand);
            },
            WorkerMessage::ThreadComplete { worker } => {
                let _released = self.workers.remove(worker);
                self.workers.insert(worker, false);
                proof {
                    lemma_remove_insert(pre.workers@, worker as int, false);
                }
            },
        }
        proof {
            assert(self.threads@ == pre.threads@);
            assert(self.scopes@ == pre.scopes@);
        }
    }
}

// ---------------------------------------------------------------------------
// Join handles
// ---------------------------------------------------------------------------

/// The inner join capability: one reference to the result packet and to the
/// completion signal of the thread it was returned for — the capability to
/// retrieve that thread's outcome, exactly once. Consumed by `join`.
#[derive(Debug)]
pub struct JoinInner {
    pub thread: usize,
}

impl JoinInner {
    /// Takes the thread's outcome, exactly once. The caller has waited on
    /// the completion signal first — blocking or suspended, whichever its
    /// context permits — which is what orders this read after the worker's
    /// write; the packet needs no lock. Consuming the capability drops the
    /// last packet reference, so the owning scope's bookkeeping runs here,
    /// with no unhandled failure since the outcome was just taken.
    pub fn join<T>(self, rt: &mut Runtime<T>) -> (r: Outcome<T>)
        requires
            old(rt).inv(),
            self.thread < old(rt).threads@.len(),
            old(rt).threads@[self.thread as int].signal.is_signaled(),
            old(rt).threads@[self.thread as int].packet.handle_ref,
        ensures
            final(rt).inv(),
            join_post(*old(rt), *final(rt), self.thread as int, r),
    {
        let ghost pre = *old(rt);
        let tid = self.thread;
        let c = rt.threads.remove(tid);
        let scope = c.packet.scope;
        let outcome = match c.packet.result {
            Some(o) => o,
            None => vstd::pervasive::unreached(),
        };
        rt.threads.insert(
            tid,
            ThreadCell {
                packet: Packet {
                    result: None,
                    scope,
                    worker_ref: false,
                    handle_ref: false,
                    dropped_with_failure: false,
                },
                signal: c.signal,
            },
        );
        proof {
            lemma_remove_insert(pre.threads@, tid as int, rt.threads@[tid as int]);
            match scope {
                Some(sc) => lemma_count_at_least_one(pre.threads@, tid as int, sc as int),
                None => (),
            }
        }
        rt.decrement_num_running_threads(scope, false);
        proof {
            lemma_finish_inv(pre, *rt, tid as int, false);
        }
        outcome
    }

    /// The suspend-and-resume form of `join`, for a context that must not
    /// block its event loop (the coordinating context has to stay
    /// responsive to relay messages). One poll of the completion signal: if
    /// it has not fired yet, the capability comes back unchanged, to be
    /// polled again when the caller's task resumes; once it has fired, the
    /// outcome is taken exactly as `join` takes it.
    pub fn join_async<T>(self, rt: &mut Runtime<T>) -> (r: Result<Outcome<T>, JoinInner>)
        requires
            old(rt).inv(),
            self.thread < old(rt).threads@.len(),
            old(rt).threads@[self.thread as int].packet.handle_ref,
        ensures
            final(rt).inv(),
            old(rt).threads@[self.thread as int].signal.is_signaled() ==> (r matches Ok(o)
                && join_post(*old(rt), *final(rt), self.thread as int, o)),
            !old(rt).threads@[self.thread as int].signal.is_signaled() ==> r == Err::<
                Outcome<T>,
                JoinInner,
            >(self) && *final(rt) == *old(rt),
    {
        let signaled = rt.threads[self.thread].signal.poll();
        if signaled {
            Ok(self.join(rt))
        } else {
            Err(self)
        }
    }

    /// Discards the capability without joining. If the thread has already
    /// completed this drops the last packet reference: a still-unread
    /// failure is recorded as unhandled on the owning scope. If the thread
    /// is still running, the spawned side keeps the packet alive and the
    /// bookkeeping runs when it completes.
    pub fn drop_handle<T>(self, rt: &mut Runtime<T>)
        requires
            old(rt).inv(),
            self.thread < old(rt).threads@.len(),
            old(rt).threads@[self.thread as int].packet.handle_ref,
        ensures
            final(rt).inv(),
            drop_handle_post(*old(rt), *final(rt), self.thread as int),
    {
        let ghost pre = *old(rt);
        let tid = self.thread;
        let c = rt.threads.remove(tid);
        let scope = c.packet.scope;
        if c.packet.worker_ref {
            rt.threads.insert(
                tid,
                ThreadCell {
                    packet: Packet {
                        result: c.packet.result,
                        scope,
                        worker_ref: true,
                        handle_ref: false,
                        dropped_with_failure: false,
                    },
                    signal: c.signal,
                },
            );
            proof {
                lemma_remove_insert(pre.threads@, tid as int, rt.threads@[tid as int]);
                lemma_update_same_inv(pre, *rt, tid as int);
            }
        } else {
            let failed = match &c.packet.result {
                Some(o) => o.failed(),
                None => false,
            };
            rt.threads.insert(
                tid,
                ThreadCell {
                    packet: Packet {
                        result: None,
                        scope,
                        worker_ref: false,
                        handle_ref: false,
                        dropped_with_failure: failed,
                    },
                    signal: c.signal,
                },
            );
            proof {
                lemma_remove_insert(pre.threads@, tid as int, rt.threads@[tid as int]);
                match scope {
                    Some(sc) => lemma_count_at_least_one(pre.threads@, tid as int, sc as int),
                    None => (),
                }
            }
            rt.decrement_num_running_threads(scope, failed);
            proof {
                lemma_finish_inv(pre, *rt, tid as int, failed);
            }
        }
    }

    /// Whether the thread's completion signal has fired: its outcome is
    /// fully written and the scope bookkeeping for the spawned side is done.
    pub fn is_finished<T>(&self, rt: &Runtime<T>) -> (r: bool)
        requires
            self.thread < rt.threads@.len(),
        ensures
            r == rt.threads@[self.thread as int].signal.is_signaled(),
    {
        rt.threads[self.thread].signal.poll()
    }
}

/// The effect of discarding a join capability unjoined; see
/// `JoinInner::drop_handle`.
pub open spec fn drop_handle_post<T>(pre: Runtime<T>, post: Runtime<T>, tid: int) -> bool {
    let c = pre.threads@[tid];
    &&& post.inbox@ == pre.inbox@
    &&& post.workers@ == pre.workers@
    &&& post.spawned@ == pre.spawned@
    &&& if c.packet.worker_ref {
        &&& post.threads@ == pre.threads@.update(
            tid,
            ThreadCell {
                packet: Packet {
                    result: c.packet.result,
                    scope: c.packet.scope,
                    worker_ref: true,
                    handle_ref: false,
                    dropped_with_failure: false,
                },
                signal: c.signal,
            },
        )
        &&& post.scopes@ == pre.scopes@
    } else {
        let failed = c.packet.result matches Some(o) && o.is_failure();
        &&& post.threads@ == pre.threads@.update(
            tid,
            ThreadCell {
                packet: Packet {
                    result: None,
                    scope: c.packet.scope,
                    worker_ref: false,
                    handle_ref: false,
                    dropped_with_failure: failed,
                },
                signal: c.signal,
            },
        )
        &&& post.scopes@ == scopes_after_finish(pre.scopes@, c.packet.scope, failed)
    }
}

/// An owned permission to join on a thread: block or suspend until it
/// terminates, then consume its outcome.
#[derive(Debug)]
pub struct JoinHandle(pub JoinInner);

impl JoinHandle {
    /// Waits for the associated thread to finish, then takes its outcome. A
    /// `Failure` outcome is the re-raised failure of the unit of work.
    pub fn join<T>(self, rt: &mut Runtime<T>) -> (r: Outcome<T>)
        requires
            old(rt).inv(),
            self.0.thread < old(rt).threads@.len(),
            old(rt).threads@[self.0.thread as int].signal.is_signaled(),
            old(rt).threads@[self.0.thread as int].packet.handle_ref,
        ensures
            final(rt).inv(),
            join_post(*old(rt), *final(rt), self.0.thread as int, r),
    {
        self.0.join(rt)
    }

    /// The suspend-and-resume form of `join`: the same contract, through
    /// one poll of the completion signal, handing the handle back if the
    /// thread has not finished yet.
    pub fn join_async<T>(self, rt: &mut Runtime<T>) -> (r: Result<Outcome<T>, JoinHandle>)
        requires
            old(rt).inv(),
            self.0.thread < old(rt).threads@.len(),
            old(rt).threads@[self.0.thread as int].packet.handle_ref,
        ensures
            final(rt).inv(),
            old(rt).threads@[self.0.thread as int].signal.is_signaled() ==> (r matches Ok(o)
                && join_post(*old(rt), *final(rt), self.0.thread as int, o)),
            !old(rt).threads@[self.0.thread as int].signal.is_signaled() ==> (r matches Err(h)
                && h == self) && *final(rt) == *old(rt),
    {
        match self.0.join_async(rt) {
            Ok(outcome) => Ok(outcome),
            Err(inner) => Err(JoinHandle(inner)),
        }
    }

    /// Whether the associated thread has fired its completion signal.
    pub fn is_finished<T>(&self, rt: &Runtime<T>) -> (r: bool)
        requires
            self.0.thread < rt.threads@.len(),
        ensures
            r == rt.threads@[self.0.thread as int].signal.is_signaled(),
    {
        self.0.is_finished(rt)
    }
}

impl Builder {
    /// Spawns a new thread by taking ownership of the configuration,
    /// returning the handle to join it. The unit of work and its result are
    /// fully self-contained (owned), which is what makes the plain spawn
    /// safe to offer.
    pub fn spawn<T>(self, rt: &mut Runtime<T>, is_web_worker: bool, rand: u64) -> (h: JoinHandle)
        requires
            old(rt).inv(),
        ensures
            final(rt).inv(),
            spawn_post(
                *old(rt),
                *final(rt),
                self@,
                None,
                is_web_worker,
                rand,
                h.0.thread as int,
            ),
            h.0.thread == old(rt).threads@.len(),
    {
        self.spawn_unchecked(rt, is_web_worker, rand)
    }

    /// Spawns a new thread without lifetime restrictions on the unit of
    /// work. The caller guarantees that nothing the unit of work or its
    /// result borrows is invalidated before the thread is joined; under that
    /// obligation the behaviour is exactly `spawn`'s.
    pub fn spawn_unchecked<T>(
        self,
        rt: &mut Runtime<T>,
        is_web_worker: bool,
        rand: u64,
    ) -> (h: JoinHandle)
        requires
            old(rt).inv(),
        ensures
            final(rt).inv(),
            spawn_post(
                *old(rt),
                *final(rt),
                self@,
                None,
                is_web_worker,
                rand,
                h.0.thread as int,
            ),
            h.0.thread == old(rt).threads@.len(),
    {
        JoinHandle(rt.spawn_inner(self, None, is_web_worker, rand))
    }
}

/// Spawns a new thread with a configuration inheriting the process-wide
/// default, returning the handle to join it.
pub fn spawn<T>(
    rt: &mut Runtime<T>,
    defaults: &DefaultBuilder,
    is_web_worker: bool,
    rand: u64,
) -> (h: JoinHandle)
    requires
        old(rt).inv(),
    ensures
        final(rt).inv(),
        spawn_post(
            *old(rt),
            *final(rt),
            inherited_builder(defaults@),
            None,
            is_web_worker,
            rand,
            h.0.thread as int,
        ),
{
    Builder::new(defaults).spawn(rt, is_web_worker, rand)
}

// ---------------------------------------------------------------------------
// Observations
// ---------------------------------------------------------------------------

impl<T> Runtime<T> {
    /// How many threads were ever spawned in this system.
    pub fn thread_count(&self) -> (n: usize)
        ensures
            n == self.threads@.len(),
    {
        self.threads.len()
    }

    /// Whether the given thread's packet currently holds an unread outcome.
    pub fn has_result(&self, thread: usize) -> (r: bool)
        requires
            thread < self.threads@.len(),
        ensures
            r == (self.threads@[thread as int].packet.result is Some),
    {
        self.threads[thread].packet.result.is_some()
    }

    /// The outstanding-thread counter of a scope.
    pub fn scope_running(&self, s: usize) -> (n: usize)
        requires
            s < self.scopes@.len(),
        ensures
            n == self.scopes@[s as int].running,
    {
        self.scopes[s].running
    }

    /// The decision a scope's exit makes once all its threads are accounted
    /// for: whether to re-raise because some child failed and nobody
    /// retrieved the failure.
    pub fn scope_unhandled_failure(&self, s: usize) -> (r: bool)
        requires
            s < self.scopes@.len(),
        ensures
            r == self.scopes@[s as int].unhandled_failure,
    {
        self.scopes[s].unhandled_failure
    }

    /// How many relay messages await the coordinating context.
    pub fn inbox_len(&self) -> (n: usize)
        ensures
            n == self.inbox@.len(),
    {
        self.inbox.len()
    }

    /// Whether the coordinating context still retains its reference to the
    /// given worker (released on the worker's idle notice).
    pub fn worker_retained(&self, w: usize) -> (r: bool)
        requires
            w < self.workers@.len(),
        ensures
            r == self.workers@[w as int],
    {
        self.workers[w]
    }

    /// How many direct worker creations the coordinating context performed.
    pub fn spawned_count(&self) -> (n: usize)
        ensures
            n == self.spawned@.len(),
    {
        self.spawned.len()
    }

    /// The display name the i-th created worker was given.
    pub fn spawned_name(&self, i: usize) -> (r: Option<String>)
        requires
            i < self.spawned@.len(),
        ensures
            opt_view(r) == opt_view(self.spawned@[i as int].name),
    {
        crate::builder::clone_opt_string(&self.spawned[i].name)
    }

    /// Which thread's unit of work the i-th created worker runs.
    pub fn spawned_thread(&self, i: usize) -> (t: usize)
        requires
            i < self.spawned@.len(),
        ensures
            t == self.spawned@[i as int].thread,
    {
        self.spawned[i].thread
    }
}

} // verus!
