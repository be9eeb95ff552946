use mozjs::trace::{trace_jsval, trace_object, trace_script, trace_string};
use mozjs::trace::{HeapHandle, JSTraceable, JSTracer, TraceKind, TraceableMap};

fn object(raw: u64) -> HeapHandle {
    HeapHandle { kind: TraceKind::Object, raw }
}

fn value(raw: u64) -> HeapHandle {
    HeapHandle { kind: TraceKind::Value, raw }
}

fn visits(tracer: &JSTracer) -> Vec<HeapHandle> {
    let mut out = Vec::new();
    let mut i = 0;
    while i < tracer.visit_count() {
        out.push(tracer.visit_at(i));
        i += 1;
    }
    out
}

#[test]
fn counts_every_handle_in_vec() {
    let composite = vec![object(10), object(20), object(30)];
    let mut tracer = JSTracer::new();
    composite.trace(&mut tracer);
    assert_eq!(tracer.visit_count(), 3);
    assert_eq!(visits(&tracer), vec![object(10), object(20), object(30)]);
}

#[test]
fn empty_handles_are_not_visited() {
    let composite = vec![object(0), value(0), object(40)];
    let mut tracer = JSTracer::new();
    composite.trace(&mut tracer);
    assert_eq!(tracer.visit_count(), 1);
    assert_eq!(tracer.visit_at(0), object(40));
}

#[test]
fn shared_owner_duplicates_are_tolerated() {
    let shared = std::rc::Rc::new(object(5));
    let composite = (shared.clone(), shared);
    let mut tracer = JSTracer::new();
    composite.trace(&mut tracer);
    assert_eq!(tracer.visit_count(), 2);
    assert_eq!(tracer.visit_at(0), object(5));
    assert_eq!(tracer.visit_at(1), object(5));
}

#[test]
fn no_op_types_state_no_handles() {
    let composite = (1u32, String::from("native"), true, 9usize);
    let mut tracer = JSTracer::new();
    composite.trace(&mut tracer);
    assert_eq!(tracer.visit_count(), 0);
}

#[test]
fn sequence_traces_tagged_handle() {
    let composite = vec![None, Some(object(77)), None];
    let mut tracer = JSTracer::new();
    composite.trace(&mut tracer);
    assert_eq!(tracer.visit_count(), 1);
    assert_eq!(tracer.visit_at(0), object(77));
}

#[test]
fn deque_traces_tagged_handle() {
    let mut composite = std::collections::VecDeque::new();
    composite.push_back(object(0));
    composite.push_back(object(88));
    let mut tracer = JSTracer::new();
    composite.trace(&mut tracer);
    assert_eq!(tracer.visit_count(), 1);
    assert_eq!(tracer.visit_at(0), object(88));
}

#[test]
fn optional_traces_tagged_handle() {
    let composite = Some(object(31));
    let mut tracer = JSTracer::new();
    composite.trace(&mut tracer);
    assert_eq!(tracer.visit_count(), 1);
    assert_eq!(tracer.visit_at(0), object(31));
    let empty: Option<HeapHandle> = None;
    let mut tracer = JSTracer::new();
    empty.trace(&mut tracer);
    assert_eq!(tracer.visit_count(), 0);
}

#[test]
fn either_side_of_result_is_traced() {
    let ok: Result<HeapHandle, HeapHandle> = Ok(object(1));
    let err: Result<HeapHandle, HeapHandle> = Err(object(2));
    let mut tracer = JSTracer::new();
    ok.trace(&mut tracer);
    err.trace(&mut tracer);
    assert_eq!(tracer.visit_count(), 2);
    assert_eq!(tracer.visit_at(0), object(1));
    assert_eq!(tracer.visit_at(1), object(2));
}

#[test]
fn four_tuple_traces_tagged_handle() {
    let composite = (0u64, object(64), false, 3i32);
    let mut tracer = JSTracer::new();
    composite.trace(&mut tracer);
    assert_eq!(tracer.visit_count(), 1);
    assert_eq!(tracer.visit_at(0), object(64));
}

#[test]
fn array_traces_every_slot() {
    let composite = [object(6), object(0), object(8)];
    let mut tracer = JSTracer::new();
    composite.trace(&mut tracer);
    assert_eq!(tracer.visit_count(), 2);
    assert_eq!(tracer.visit_at(0), object(6));
    assert_eq!(tracer.visit_at(1), object(8));
}

#[test]
fn ownership_wrappers_forward_trace() {
    let boxed = Box::new(object(11));
    let counted = std::rc::Rc::new(object(12));
    let atomic = std::sync::Arc::new(object(13));
    let mut tracer = JSTracer::new();
    boxed.trace(&mut tracer);
    counted.trace(&mut tracer);
    atomic.trace(&mut tracer);
    assert_eq!(
        visits(&tracer),
        vec![object(11), object(12), object(13)]
    );
}

#[test]
fn nested_composites_flatten_in_order() {
    let composite = vec![
        (Some(Box::new(object(1))), vec![object(2), object(3)]),
        (None, vec![object(4)]),
    ];
    let mut tracer = JSTracer::new();
    composite.trace(&mut tracer);
    assert_eq!(
        visits(&tracer),
        vec![object(1), object(2), object(3), object(4)]
    );
}

#[test]
fn map_traces_keys_and_values() {
    let mut composite: TraceableMap<HeapHandle, HeapHandle> = TraceableMap::new();
    composite.insert(object(21), value(22));
    let mut tracer = JSTracer::new();
    composite.trace(&mut tracer);
    assert_eq!(tracer.visit_count(), 2);
    assert_eq!(tracer.visit_at(0), object(21));
    assert_eq!(tracer.visit_at(1), value(22));
}

#[test]
fn map_traces_tagged_value_at_known_position() {
    let mut composite: TraceableMap<u64, HeapHandle> = TraceableMap::new();
    composite.insert(5, object(0));
    composite.insert(6, object(99));
    let mut tracer = JSTracer::new();
    composite.trace(&mut tracer);
    assert_eq!(tracer.visit_count(), 1);
    assert_eq!(tracer.visit_at(0), object(99));
}

#[test]
fn map_keeps_keys_unique() {
    let mut map: TraceableMap<u64, u32> = TraceableMap::new();
    map.insert(1, 10);
    map.insert(2, 20);
    map.insert(1, 30);
    assert_eq!(map.len(), 2);
    assert_eq!(map.get(&1), Some(&30));
    assert_eq!(map.get(&2), Some(&20));
    assert_eq!(map.get(&3), None);
}

#[test]
fn leaf_trace_calls_report_the_handle() {
    let mut tracer = JSTracer::new();
    let script = HeapHandle { kind: TraceKind::Script, raw: 41 };
    let text = HeapHandle { kind: TraceKind::Text, raw: 42 };
    trace_script(&mut tracer, "script slot", &script);
    trace_object(&mut tracer, "object slot", &object(43));
    trace_string(&mut tracer, "string slot", &text);
    trace_jsval(&mut tracer, "value slot", &value(44));
    trace_jsval(&mut tracer, "empty value slot", &value(0));
    assert_eq!(
        visits(&tracer),
        vec![script, object(43), text, value(44)]
    );
}
