use wasm_thread::builder::{resolve_worker_name, u64_to_decimal, Builder, DefaultBuilder};
use wasm_thread::outcome::Outcome;
use wasm_thread::runtime::{Runtime, WebWorkerContext};
use wasm_thread::signal::Signal;

#[test]
fn spawn_value_round_trip() {
    // Spawn from the coordinating context; the worker completes with 42;
    // join yields exactly 42.
    let mut rt: Runtime<i64> = Runtime::new();
    let defaults = DefaultBuilder::new();
    let h = Builder::new(&defaults).spawn(&mut rt, false, 7);
    let tid = h.0.thread;
    assert!(!h.is_finished(&rt));
    rt.complete(tid, Outcome::Value(42));
    assert!(h.is_finished(&rt));
    match h.join(&mut rt) {
        Outcome::Value(v) => assert_eq!(v, 42),
        Outcome::Failure(_) => panic!("expected a value"),
    }
}

#[test]
fn failure_is_reraised_once() {
    // A failing unit of work: join re-raises a failure carrying "boom";
    // afterwards the packet is empty, never a stale or duplicated value.
    let mut rt: Runtime<i64> = Runtime::new();
    let h = Builder::empty().spawn(&mut rt, false, 0);
    let tid = h.0.thread;
    rt.complete(tid, Outcome::Failure("boom".to_string()));
    match h.join(&mut rt) {
        Outcome::Failure(payload) => assert_eq!(payload, "boom"),
        Outcome::Value(_) => panic!("expected the failure to be re-raised"),
    }
    assert!(!rt.has_result(tid));
}

#[test]
fn signal_is_idempotent() {
    let mut s = Signal::new();
    assert!(!s.poll());
    s.signal();
    assert!(s.poll());
    s.signal();
    assert!(s.poll());
}

#[test]
fn packet_single_read_after_join() {
    let mut rt: Runtime<u8> = Runtime::new();
    let h = Builder::empty().spawn(&mut rt, false, 0);
    let tid = h.0.thread;
    rt.complete(tid, Outcome::Value(3));
    assert!(rt.has_result(tid));
    let _ = h.join(&mut rt);
    assert!(!rt.has_result(tid));
}

#[test]
fn relayed_spawn_is_created_by_coordinator() {
    // A spawn from a non-coordinating context is not executed inline: it is
    // relayed, and the coordinating context performs the one creation with
    // the identical configuration and unit of work.
    let mut rt: Runtime<i64> = Runtime::new();
    let h = Builder::empty().name("child".to_string()).spawn(&mut rt, true, 0);
    let tid = h.0.thread;
    assert_eq!(rt.inbox_len(), 1);
    assert_eq!(rt.spawned_count(), 0);
    rt.handle_message(0);
    assert_eq!(rt.inbox_len(), 0);
    assert_eq!(rt.spawned_count(), 1);
    assert_eq!(rt.spawned_thread(0), tid);
    assert_eq!(rt.spawned_name(0), Some("child".to_string()));
    assert!(rt.worker_retained(0));
    // Not finished yet: the suspended wait hands the capability back.
    let h = match h.join_async(&mut rt) {
        Err(h) => h,
        Ok(_) => panic!("the child has not completed yet"),
    };
    // The new worker runs the unit of work and reports idle; the result is
    // retrievable from the spawning worker through the suspended wait.
    wasm_thread::runtime::wasm_thread_entry_point(
        &mut rt,
        WebWorkerContext { thread: tid },
        0,
        Outcome::Value(7),
    );
    assert_eq!(rt.inbox_len(), 1);
    rt.handle_message(0);
    assert!(!rt.worker_retained(0));
    assert!(h.is_finished(&rt));
    match h.join_async(&mut rt) {
        Ok(Outcome::Value(v)) => assert_eq!(v, 7),
        _ => panic!("expected a value"),
    }
}

#[test]
fn scope_counter_reaches_zero_iff_all_complete() {
    let mut rt: Runtime<u64> = Runtime::new();
    let s = rt.create_scope();
    let h1 = rt.spawn_inner(Builder::empty(), Some(s), false, 1);
    let h2 = rt.spawn_inner(Builder::empty(), Some(s), false, 2);
    let h3 = rt.spawn_inner(Builder::empty(), Some(s), false, 3);
    assert_eq!(rt.scope_running(s), 3);
    rt.complete(h1.thread, Outcome::Value(1));
    assert_eq!(rt.scope_running(s), 3);
    let _ = h1.join(&mut rt);
    assert_eq!(rt.scope_running(s), 2);
    rt.complete(h2.thread, Outcome::Value(2));
    rt.complete(h3.thread, Outcome::Value(3));
    let _ = h2.join(&mut rt);
    let _ = h3.join(&mut rt);
    assert_eq!(rt.scope_running(s), 0);
    assert!(!rt.scope_unhandled_failure(s));
}

#[test]
fn scope_flag_set_iff_unjoined_failure() {
    // A joined failure is handled: the flag stays clear.
    let mut rt: Runtime<u64> = Runtime::new();
    let s = rt.create_scope();
    let h = rt.spawn_inner(Builder::empty(), Some(s), false, 0);
    rt.complete(h.thread, Outcome::Failure("seen".to_string()));
    let _ = h.join(&mut rt);
    assert_eq!(rt.scope_running(s), 0);
    assert!(!rt.scope_unhandled_failure(s));

    // An unjoined failure is unhandled: the flag is set.
    let s2 = rt.create_scope();
    let h2 = rt.spawn_inner(Builder::empty(), Some(s2), false, 0);
    rt.complete(h2.thread, Outcome::Failure("unseen".to_string()));
    h2.drop_handle(&mut rt);
    assert_eq!(rt.scope_running(s2), 0);
    assert!(rt.scope_unhandled_failure(s2));
}

#[test]
fn scope_exit_surfaces_single_unjoined_failure() {
    // Three threads in one scope; the second fails and is never joined.
    // Once all three are accounted for, the scope exit sees the unhandled
    // failure exactly once: the counter is zero and the flag is set.
    let mut rt: Runtime<i64> = Runtime::new();
    let s = rt.create_scope();
    let h1 = rt.spawn_inner(Builder::empty(), Some(s), false, 1);
    let h2 = rt.spawn_inner(Builder::empty(), Some(s), false, 2);
    let h3 = rt.spawn_inner(Builder::empty(), Some(s), false, 3);
    rt.complete(h1.thread, Outcome::Value(10));
    rt.complete(h2.thread, Outcome::Failure("boom".to_string()));
    rt.complete(h3.thread, Outcome::Value(30));
    match h1.join(&mut rt) {
        Outcome::Value(v) => assert_eq!(v, 10),
        Outcome::Failure(_) => panic!("expected a value"),
    }
    h2.drop_handle(&mut rt);
    match h3.join(&mut rt) {
        Outcome::Value(v) => assert_eq!(v, 30),
        Outcome::Failure(_) => panic!("expected a value"),
    }
    assert_eq!(rt.scope_running(s), 0);
    assert!(rt.scope_unhandled_failure(s));
}

#[test]
fn handle_dropped_before_completion() {
    // The spawned side holds the packet alive; the unhandled failure is
    // recorded when the worker completes, not when the handle goes away.
    let mut rt: Runtime<u64> = Runtime::new();
    let s = rt.create_scope();
    let h = rt.spawn_inner(Builder::empty(), Some(s), false, 0);
    let tid = h.thread;
    h.drop_handle(&mut rt);
    assert_eq!(rt.scope_running(s), 1);
    assert!(!rt.scope_unhandled_failure(s));
    rt.complete(tid, Outcome::Failure("late".to_string()));
    assert_eq!(rt.scope_running(s), 0);
    assert!(rt.scope_unhandled_failure(s));
}

#[test]
fn default_prefix_shows_in_worker_name() {
    // Set a process-wide default with prefix "pool"; a default-constructed
    // configuration without an explicit name resolves to "pool:" plus a
    // generated suffix.
    let mut defaults = DefaultBuilder::new();
    Builder::empty().prefix("pool".to_string()).set_default(&mut defaults);
    let mut rt: Runtime<i64> = Runtime::new();
    let b = Builder::new(&defaults);
    assert_eq!(b.prefix, Some("pool".to_string()));
    let _h = b.spawn(&mut rt, false, 123);
    let name = rt.spawned_name(0).expect("a prefixed worker gets a name");
    assert!(name.starts_with("pool:"));
    assert_eq!(name, "pool:123");
}

#[test]
fn builder_new_without_default_is_empty() {
    let defaults = DefaultBuilder::new();
    let b = Builder::new(&defaults);
    assert_eq!(b.name, None);
    assert_eq!(b.prefix, None);
    assert_eq!(b.stack_size, None);
    assert_eq!(b.wasm_bindgen_shim_url, None);
}

#[test]
fn builder_setters_record_each_option() {
    let b = Builder::empty()
        .name("worker".to_string())
        .prefix("app".to_string())
        .stack_size(65536)
        .wasm_bindgen_shim_url("./shim.js".to_string());
    assert_eq!(b.name, Some("worker".to_string()));
    assert_eq!(b.prefix, Some("app".to_string()));
    assert_eq!(b.stack_size, Some(65536));
    assert_eq!(b.wasm_bindgen_shim_url, Some("./shim.js".to_string()));
}

#[test]
fn worker_name_resolution_cases() {
    assert_eq!(
        resolve_worker_name(Some("w".to_string()), Some("p".to_string()), 0),
        Some("p:w".to_string())
    );
    assert_eq!(resolve_worker_name(Some("w".to_string()), None, 0), Some("w".to_string()));
    assert_eq!(resolve_worker_name(None, Some("p".to_string()), 42), Some("p:42".to_string()));
    assert_eq!(resolve_worker_name(None, None, 42), None);
}

#[test]
fn decimal_rendering_is_exact() {
    assert_eq!(u64_to_decimal(0), "0");
    assert_eq!(u64_to_decimal(7), "7");
    assert_eq!(u64_to_decimal(10), "10");
    assert_eq!(u64_to_decimal(1234567890), "1234567890");
    assert_eq!(u64_to_decimal(u64::MAX), "18446744073709551615");
}

#[test]
fn free_spawn_inherits_default() {
    let mut defaults = DefaultBuilder::new();
    Builder::empty().prefix("pool".to_string()).set_default(&mut defaults);
    let mut rt: Runtime<i64> = Runtime::new();
    let h = wasm_thread::runtime::spawn(&mut rt, &defaults, false, 5);
    let name = rt.spawned_name(0).expect("a prefixed worker gets a name");
    assert_eq!(name, "pool:5");
    rt.complete(h.0.thread, Outcome::Value(-1));
    match h.join(&mut rt) {
        Outcome::Value(v) => assert_eq!(v, -1),
        Outcome::Failure(_) => panic!("expected a value"),
    }
}

#[test]
fn spawn_failure_without_scope_is_dropped_silently() {
    // No owning scope: an unjoined failure has nowhere to surface; the
    // system stays consistent and other threads are unaffected.
    let mut rt: Runtime<u8> = Runtime::new();
    let h = Builder::empty().spawn(&mut rt, false, 0);
    let tid = h.0.thread;
    rt.complete(tid, Outcome::Failure("lost".to_string()));
    h.0.drop_handle(&mut rt);
    assert!(!rt.has_result(tid));
    let h2 = Builder::empty().spawn(&mut rt, false, 0);
    rt.complete(h2.0.thread, Outcome::Value(9));
    match h2.join(&mut rt) {
        Outcome::Value(v) => assert_eq!(v, 9),
        Outcome::Failure(_) => panic!("expected a value"),
    }
}
