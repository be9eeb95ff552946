use mozjs::registry::{trace_traceables, RootedTraceableSet};
use mozjs::roots::{RootableVec, RootedTraceableBox, RootedVec};
use mozjs::trace::{HeapHandle, JSTracer, TraceKind};

fn object(raw: u64) -> HeapHandle {
    HeapHandle { kind: TraceKind::Object, raw }
}

fn visits(tracer: &JSTracer) -> Vec<HeapHandle> {
    let mut out = Vec::new();
    let mut i = 0;
    while i < tracer.visit_count() {
        out.push(tracer.visit_at(i));
        i += 1;
    }
    out
}

#[test]
fn add_and_remove_round_trip() {
    let mut set: RootedTraceableSet<HeapHandle> = RootedTraceableSet::new();
    assert_eq!(set.len(), 0);
    set.add(1, object(10));
    set.add(2, object(20));
    assert_eq!(set.len(), 2);
    assert!(set.contains_ptr(1));
    assert!(!set.contains_ptr(3));
    assert_eq!(set.remove(1), object(10));
    assert_eq!(set.len(), 1);
    assert_eq!(set.remove(2), object(20));
    assert_eq!(set.len(), 0);
}

#[test]
fn remove_takes_most_recent_matching_entry() {
    // The same address may be reused after a prior removal; removal scans
    // from the end, so the most recently inserted entry leaves first.
    let mut set: RootedTraceableSet<HeapHandle> = RootedTraceableSet::new();
    set.add(7, object(1));
    set.add(9, object(2));
    set.add(7, object(3));
    assert_eq!(set.remove(7), object(3));
    assert_eq!(set.remove(7), object(1));
    assert_eq!(set.remove(9), object(2));
    assert_eq!(set.len(), 0);
}

#[test]
fn double_deregister_is_detected() {
    let mut set: RootedTraceableSet<HeapHandle> = RootedTraceableSet::new();
    set.add(4, object(44));
    assert_eq!(set.try_remove(4), Some(object(44)));
    // The second removal of the same composite pointer finds nothing: the
    // signal on which an embedding must abort instead of continuing with a
    // desynchronized live set.
    assert_eq!(set.try_remove(4), None);
    assert_eq!(set.len(), 0);
}

#[test]
fn registry_balance_tracks_nesting_depth() {
    let mut set: RootedTraceableSet<Vec<HeapHandle>> = RootedTraceableSet::new();
    assert_eq!(set.len(), 0);
    let a = RootedTraceableBox::new(&mut set, 1, vec![object(1)]);
    assert_eq!(set.len(), 1);
    {
        let b = RootedTraceableBox::new(&mut set, 2, vec![object(2)]);
        assert_eq!(set.len(), 2);
        {
            let c = RootedTraceableBox::new(&mut set, 3, vec![object(3)]);
            assert_eq!(set.len(), 3);
            c.unroot(&mut set);
        }
        assert_eq!(set.len(), 2);
        b.unroot(&mut set);
    }
    assert_eq!(set.len(), 1);
    a.unroot(&mut set);
    assert_eq!(set.len(), 0);
}

#[test]
fn early_return_path_still_balances() {
    fn nested_scope(set: &mut RootedTraceableSet<Vec<HeapHandle>>, bail_early: bool) {
        let inner = RootedTraceableBox::new(set, 21, vec![object(5)]);
        if bail_early {
            // Teardown runs on the early exit path too.
            inner.unroot(set);
            return;
        }
        inner.unroot(set);
    }
    let mut set: RootedTraceableSet<Vec<HeapHandle>> = RootedTraceableSet::new();
    let outer = RootedTraceableBox::new(&mut set, 20, vec![object(4)]);
    nested_scope(&mut set, true);
    assert_eq!(set.len(), 1);
    nested_scope(&mut set, false);
    assert_eq!(set.len(), 1);
    outer.unroot(&mut set);
    assert_eq!(set.len(), 0);
}

#[test]
fn out_of_order_drop_keeps_live_set_exact() {
    // Handles a, b, c created in that order; b leaves early, then c, then a.
    let mut set: RootedTraceableSet<HeapHandle> = RootedTraceableSet::new();
    let a = RootedTraceableBox::new(&mut set, 1, object(101));
    let b = RootedTraceableBox::new(&mut set, 2, object(102));
    let c = RootedTraceableBox::new(&mut set, 3, object(103));

    let mut tracer = JSTracer::new();
    set.trace(&mut tracer);
    assert_eq!(visits(&tracer), vec![object(101), object(102), object(103)]);

    b.unroot(&mut set);
    let mut tracer = JSTracer::new();
    set.trace(&mut tracer);
    assert_eq!(visits(&tracer), vec![object(101), object(103)]);

    c.unroot(&mut set);
    let mut tracer = JSTracer::new();
    set.trace(&mut tracer);
    assert_eq!(visits(&tracer), vec![object(101)]);

    a.unroot(&mut set);
    let mut tracer = JSTracer::new();
    set.trace(&mut tracer);
    assert_eq!(tracer.visit_count(), 0);
    assert_eq!(set.len(), 0);
}

#[test]
fn trace_walks_entries_in_insertion_order() {
    let mut set: RootedTraceableSet<Vec<HeapHandle>> = RootedTraceableSet::new();
    set.add(1, vec![object(1), object(2)]);
    set.add(2, vec![]);
    set.add(3, vec![object(3)]);
    let mut tracer = JSTracer::new();
    trace_traceables(&set, &mut tracer);
    assert_eq!(visits(&tracer), vec![object(1), object(2), object(3)]);
}

#[test]
fn rooted_box_reads_and_rewrites_composite() {
    let mut set: RootedTraceableSet<Vec<HeapHandle>> = RootedTraceableSet::new();
    let handle = RootedTraceableBox::new(&mut set, 8, vec![object(1)]);
    assert_eq!(handle.handle(), 8);
    assert_eq!(handle.borrow(&set), &vec![object(1)]);
    handle.borrow_mut(&mut set).push(object(2));
    assert_eq!(handle.borrow(&set), &vec![object(1), object(2)]);
    assert_eq!(handle.unroot(&mut set), vec![object(1), object(2)]);
}

#[test]
fn rooted_box_from_box_roots_the_composite() {
    let mut set: RootedTraceableSet<HeapHandle> = RootedTraceableSet::new();
    let handle = RootedTraceableBox::from_box(&mut set, 5, Box::new(object(50)));
    assert_eq!(set.len(), 1);
    let mut tracer = JSTracer::new();
    set.trace(&mut tracer);
    assert_eq!(visits(&tracer), vec![object(50)]);
    assert_eq!(handle.unroot(&mut set), object(50));
}

#[test]
fn rooted_vec_grows_while_continuously_traceable() {
    let mut set: RootedTraceableSet<RootableVec<HeapHandle>> = RootedTraceableSet::new();
    let root = RootableVec::new_unrooted();
    let rooted = RootedVec::new(&mut set, 6, root);
    assert_eq!(rooted.len(&set), 0);

    rooted.push(&mut set, object(61));
    let mut tracer = JSTracer::new();
    set.trace(&mut tracer);
    assert_eq!(visits(&tracer), vec![object(61)]);

    rooted.push(&mut set, object(62));
    assert_eq!(rooted.len(&set), 2);
    assert_eq!(rooted.get(&set, 0), &object(61));
    assert_eq!(rooted.get(&set, 1), &object(62));
    let mut tracer = JSTracer::new();
    set.trace(&mut tracer);
    assert_eq!(visits(&tracer), vec![object(61), object(62)]);

    // Teardown leaves the storage empty again: it holds contents only while
    // it is rooted.
    let root = rooted.unroot(&mut set);
    assert_eq!(set.len(), 0);
    let rooted_again = RootedVec::new(&mut set, 6, root);
    assert_eq!(rooted_again.len(&set), 0);
    rooted_again.unroot(&mut set);
}
