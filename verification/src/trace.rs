//! The trace protocol: the capability of a native value to enumerate every
//! heap handle it owns, and the visitor that records those visits.
//!
//! Every type that participates in rooting implements [`JSTraceable`]. Types
//! without heap handles implement an explicit no-op rather than being silently
//! skipped, so that every type states audibly what it contains.

use vstd::prelude::*;

use vstd::std_specs::cmp::PartialEqSpec;

verus! {

/// The kind of external-heap cell a handle refers to: a script object, an
/// engine object, an engine string, or a tagged value slot.
#[derive(Clone, Copy, Debug, PartialEq, Eq, Structural)]
pub enum TraceKind {
    Object,
    Script,
    Text,
    Value,
}

/// A native-side reference to a cell in the external garbage-collected heap.
///
/// Identity is the wrapped raw location `raw`; `raw == 0` stands for a handle
/// that refers to nothing (a cleared object, script or string slot, or a
/// tagged value that holds no heap cell and so is not markable). The external
/// collector may relocate the cell, so native code never caches what the
/// handle points at; during a trace pass the handle itself is reported to the
/// collector.
#[derive(Clone, Copy, Debug, PartialEq, Eq, Structural)]
pub struct HeapHandle {
    /// Which kind of heap cell this handle refers to.
    pub kind: TraceKind,
    /// The current raw location of the cell; 0 when the handle is empty.
    pub raw: u64,
}

impl HeapHandle {
    /// Whether a trace pass must report this handle to the collector:
    /// only handles that currently refer to a heap cell are visited.
    pub open spec fn is_markable(self) -> bool {
        self.raw != 0
    }

    /// The visit events a trace pass over this handle alone produces.
    pub open spec fn visit_seq(self) -> Seq<HeapHandle> {
        if self.is_markable() {
            seq![self]
        } else {
            Seq::empty()
        }
    }

    /// Runtime counterpart of [`HeapHandle::is_markable`].
    pub fn markable(&self) -> (r: bool)
        ensures
            r == self.is_markable(),
    {
        self.raw != 0
    }
}

/// The visitor handed through a trace pass. It stands for the external
/// collector's mark-phase callback: every handle visit is recorded, in order,
/// so that a trace pass is exactly its sequence of visit events.
pub struct JSTracer {
    visited: Vec<HeapHandle>,
}

impl View for JSTracer {
    type V = Seq<HeapHandle>;

    closed spec fn view(&self) -> Seq<HeapHandle> {
        self.visited@
    }
}

impl JSTracer {
    /// A tracer that has visited nothing yet.
    pub fn new() -> (tracer: JSTracer)
        ensures
            tracer@ == Seq::<HeapHandle>::empty(),
    {
        JSTracer { visited: Vec::new() }
    }

    /// Record one handle visit. This models the engine's per-cell mark
    /// primitive; duplicates are tolerated because the collector is
    /// idempotent per handle.
    pub fn visit(&mut self, handle: HeapHandle)
        ensures
            final(self)@ == old(self)@.push(handle),
    {
        self.visited.push(handle);
    }

    /// How many visit events this tracer has recorded.
    pub fn visit_count(&self) -> (n: usize)
        ensures
            n == self@.len(),
    {
        self.visited.len()
    }

    /// The recorded visit at position `i`.
    pub fn visit_at(&self, i: usize) -> (h: HeapHandle)
        requires
            i < self@.len(),
        ensures
            h == self@[i as int],
    {
        self.visited[i]
    }
}

/// The capability to be traced: a value enumerates every heap handle it owns,
/// directly or through nested ownership.
///
/// `trace_view` is the mathematical statement of what a value owns; `trace`
/// must visit exactly those handles, in that order. Omitting a handle would
/// let the collector free a cell native code still reaches, so the protocol
/// is infallible: `trace` cannot fail or skip under any condition. The trace
/// pass runs in the middle of native callbacks, so it takes only a shared
/// reference to the composite.
pub trait JSTraceable {
    /// The visit events one trace pass over this value must produce.
    spec fn trace_view(&self) -> Seq<HeapHandle>;

    /// Report every owned heap handle to the tracer.
    fn trace(&self, trc: &mut JSTracer)
        ensures
            final(trc)@ == old(trc)@ + self.trace_view(),
    ;
}

/// Root/trace completeness, as a counting visitor observes it: a trace pass
/// appends a composite's visit events to the record — the shape every
/// [`JSTraceable::trace`] contract has — so the visit count grows by exactly
/// the number of handles the composite owns, never fewer.
pub proof fn lemma_trace_completeness(
    before: Seq<HeapHandle>,
    after: Seq<HeapHandle>,
    owned: Seq<HeapHandle>,
)
    requires
        after == before + owned,
    ensures
        after.len() == before.len() + owned.len(),
{
}

/// Appending no visit events leaves a tracer's record unchanged.
pub proof fn lemma_no_visits(s: Seq<HeapHandle>)
    ensures
        s + Seq::<HeapHandle>::empty() == s,
{
    assert(s + Seq::<HeapHandle>::empty() =~= s);
}

/// Trace a script handle. Relays the handle to the collector; the caller has
/// already checked that the slot is filled.
pub fn trace_script(tracer: &mut JSTracer, description: &str, script: &HeapHandle)
    requires
        script.kind == TraceKind::Script,
    ensures
        final(tracer)@ == old(tracer)@.push(*script),
{
    let _ = description;
    tracer.visit(*script);
}

/// Trace an object handle. Relays the handle to the collector; the caller has
/// already checked that the slot is filled.
pub fn trace_object(tracer: &mut JSTracer, description: &str, obj: &HeapHandle)
    requires
        obj.kind == TraceKind::Object,
    ensures
        final(tracer)@ == old(tracer)@.push(*obj),
{
    let _ = description;
    tracer.visit(*obj);
}

/// Trace a string handle. Relays the handle to the collector; the caller has
/// already checked that the slot is filled.
pub fn trace_string(tracer: &mut JSTracer, description: &str, s: &HeapHandle)
    requires
        s.kind == TraceKind::Text,
    ensures
        final(tracer)@ == old(tracer)@.push(*s),
{
    let _ = description;
    tracer.visit(*s);
}

/// Trace a tagged value handle. A tagged value is visited only when it is
/// markable, that is, when it currently holds a heap cell.
pub fn trace_jsval(tracer: &mut JSTracer, description: &str, val: &HeapHandle)
    requires
        val.kind == TraceKind::Value,
    ensures
        final(tracer)@ == old(tracer)@ + val.visit_seq(),
{
    let _ = description;
    if !val.markable() {
        proof {
            lemma_no_visits(old(tracer)@);
        }
        return ;
    }
    tracer.visit(*val);
}

impl JSTraceable for HeapHandle {
    open spec fn trace_view(&self) -> Seq<HeapHandle> {
        self.visit_seq()
    }

    fn trace(&self, trc: &mut JSTracer) {
        match self.kind {
            TraceKind::Object => {
                if self.markable() {
                    trace_object(trc, "heap object", self);
                } else {
                    proof {
                        lemma_no_visits(old(trc)@);
                    }
                }
            },
            TraceKind::Script => {
                if self.markable() {
                    trace_script(trc, "heap script", self);
                } else {
                    proof {
                        lemma_no_visits(old(trc)@);
                    }
                }
            },
            TraceKind::Text => {
                if self.markable() {
                    trace_string(trc, "heap string", self);
                } else {
                    proof {
                        lemma_no_visits(old(trc)@);
                    }
                }
            },
            TraceKind::Value => {
                trace_jsval(trc, "heap value", self);
            },
        }
    }
}

impl JSTraceable for () {
    open spec fn trace_view(&self) -> Seq<HeapHandle> {
        Seq::empty()
    }

    /// Audited: contains no heap handles.
    fn trace(&self, trc: &mut JSTracer) {
        proof {
            lemma_no_visits(old(trc)@);
        }
    }
}

impl JSTraceable for bool {
    open spec fn trace_view(&self) -> Seq<HeapHandle> {
        Seq::empty()
    }

    /// Audited: contains no heap handles.
    fn trace(&self, trc: &mut JSTracer) {
        proof {
            lemma_no_visits(old(trc)@);
        }
    }
}

impl JSTraceable for char {
    open spec fn trace_view(&self) -> Seq<HeapHandle> {
        Seq::empty()
    }

    /// Audited: contains no heap handles.
    fn trace(&self, trc: &mut JSTracer) {
        proof {
            lemma_no_visits(old(trc)@);
        }
    }
}

impl JSTraceable for u8 {
    open spec fn trace_view(&self) -> Seq<HeapHandle> {
        Seq::empty()
    }

    /// Audited: contains no heap handles.
    fn trace(&self, trc: &mut JSTracer) {
        proof {
            lemma_no_visits(old(trc)@);
        }
    }
}

impl JSTraceable for u16 {
    open spec fn trace_view(&self) -> Seq<HeapHandle> {
        Seq::empty()
    }

    /// Audited: contains no heap handles.
    fn trace(&self, trc: &mut JSTracer) {
        proof {
            lemma_no_visits(old(trc)@);
        }
    }
}

impl JSTraceable for u32 {
    open spec fn trace_view(&self) -> Seq<HeapHandle> {
        Seq::empty()
    }

    /// Audited: contains no heap handles.
    fn trace(&self, trc: &mut JSTracer) {
        proof {
            lemma_no_visits(old(trc)@);
        }
    }
}

impl JSTraceable for u64 {
    open spec fn trace_view(&self) -> Seq<HeapHandle> {
        Seq::empty()
    }

    /// Audited: contains no heap handles.
    fn trace(&self, trc: &mut JSTracer) {
        proof {
            lemma_no_visits(old(trc)@);
        }
    }
}

impl JSTraceable for usize {
    open spec fn trace_view(&self) -> Seq<HeapHandle> {
        Seq::empty()
    }

    /// Audited: contains no heap handles.
    fn trace(&self, trc: &mut JSTracer) {
        proof {
            lemma_no_visits(old(trc)@);
        }
    }
}

impl JSTraceable for i8 {
    open spec fn trace_view(&self) -> Seq<HeapHandle> {
        Seq::empty()
    }

    /// Audited: contains no heap handles.
    fn trace(&self, trc: &mut JSTracer) {
        proof {
            lemma_no_visits(old(trc)@);
        }
    }
}

impl JSTraceable for i16 {
    open spec fn trace_view(&self) -> Seq<HeapHandle> {
        Seq::empty()
    }

    /// Audited: contains no heap handles.
    fn trace(&self, trc: &mut JSTracer) {
        proof {
            lemma_no_visits(old(trc)@);
        }
    }
}

impl JSTraceable for i32 {
    open spec fn trace_view(&self) -> Seq<HeapHandle> {
        Seq::empty()
    }

    /// Audited: contains no heap handles.
    fn trace(&self, trc: &mut JSTracer) {
        proof {
            lemma_no_visits(old(trc)@);
        }
    }
}

impl JSTraceable for i64 {
    open spec fn trace_view(&self) -> Seq<HeapHandle> {
        Seq::empty()
    }

    /// Audited: contains no heap handles.
    fn trace(&self, trc: &mut JSTracer) {
        proof {
            lemma_no_visits(old(trc)@);
        }
    }
}

impl JSTraceable for isize {
    open spec fn trace_view(&self) -> Seq<HeapHandle> {
        Seq::empty()
    }

    /// Audited: contains no heap handles.
    fn trace(&self, trc: &mut JSTracer) {
        proof {
            lemma_no_visits(old(trc)@);
        }
    }
}

impl JSTraceable for String {
    open spec fn trace_view(&self) -> Seq<HeapHandle> {
        Seq::empty()
    }

    /// Audited: a native string owns no heap handles.
    fn trace(&self, trc: &mut JSTracer) {
        proof {
            lemma_no_visits(old(trc)@);
        }
    }
}

impl<'a> JSTraceable for &'a str {
    open spec fn trace_view(&self) -> Seq<HeapHandle> {
        Seq::empty()
    }

    /// Audited: a native string slice owns no heap handles.
    fn trace(&self, trc: &mut JSTracer) {
        proof {
            lemma_no_visits(old(trc)@);
        }
    }
}

/// The visit events one trace pass over a sequence of traceable values
/// produces: the concatenation, in order, of each element's own events.
pub open spec fn seq_handles<T: JSTraceable>(s: Seq<T>) -> Seq<HeapHandle>
    decreases s.len(),
{
    if s.len() == 0 {
        Seq::empty()
    } else {
        seq_handles(s.drop_last()) + s.last().trace_view()
    }
}

/// Extending a sequence by one element appends exactly that element's
/// visit events.
pub proof fn lemma_seq_handles_take_step<T: JSTraceable>(s: Seq<T>, i: int)
    requires
        0 <= i < s.len(),
    ensures
        seq_handles(s.take(i + 1)) == seq_handles(s.take(i)) + s[i].trace_view(),
{
    assert(s.take(i + 1).drop_last() =~= s.take(i));
    assert(s.take(i + 1).last() == s[i]);
}

/// A sequence traced to its full length yields the whole sequence's events.
pub proof fn lemma_seq_handles_full<T: JSTraceable>(s: Seq<T>)
    ensures
        seq_handles(s.take(s.len() as int)) == seq_handles(s),
{
    assert(s.take(s.len() as int) =~= s);
}

/// Trace every element of a slice in order. This is the one loop all
/// sequence-shaped composites share.
pub fn trace_slice<T: JSTraceable>(items: &[T], trc: &mut JSTracer)
    ensures
        final(trc)@ == old(trc)@ + seq_handles(items@),
{
    proof {
        lemma_no_visits(old(trc)@);
        assert(seq_handles(items@.take(0)) =~= Seq::<HeapHandle>::empty());
    }
    let n = items.len();
    let mut i: usize = 0;
    while i < n
        invariant
            i <= n,
            n == items@.len(),
            trc@ == old(trc)@ + seq_handles(items@.take(i as int)),
        decreases n - i,
    {
        proof {
            lemma_seq_handles_take_step(items@, i as int);
        }
        items[i].trace(trc);
        i = i + 1;
    }
    proof {
        lemma_seq_handles_full(items@);
    }
}

impl<T: JSTraceable> JSTraceable for Vec<T> {
    open spec fn trace_view(&self) -> Seq<HeapHandle> {
        seq_handles(self@)
    }

    fn trace(&self, trc: &mut JSTracer) {
        trace_slice(self.as_slice(), trc);
    }
}

impl<T: JSTraceable> JSTraceable for [T] {
    open spec fn trace_view(&self) -> Seq<HeapHandle> {
        seq_handles(self@)
    }

    fn trace(&self, trc: &mut JSTracer) {
        trace_slice(self, trc);
    }
}

impl<T: JSTraceable, const N: usize> JSTraceable for [T; N] {
    open spec fn trace_view(&self) -> Seq<HeapHandle> {
        seq_handles(self@)
    }

    fn trace(&self, trc: &mut JSTracer) {
        trace_slice(self.as_slice(), trc);
    }
}

impl<T: JSTraceable> JSTraceable for Option<T> {
    open spec fn trace_view(&self) -> Seq<HeapHandle> {
        match self {
            Some(inner) => inner.trace_view(),
            None => Seq::empty(),
        }
    }

    fn trace(&self, trc: &mut JSTracer) {
        match self {
            Some(inner) => inner.trace(trc),
            None => {
                proof {
                    lemma_no_visits(old(trc)@);
                }
            },
        }
    }
}

impl<T: JSTraceable, E: JSTraceable> JSTraceable for Result<T, E> {
    open spec fn trace_view(&self) -> Seq<HeapHandle> {
        match self {
            Ok(inner) => inner.trace_view(),
            Err(inner) => inner.trace_view(),
        }
    }

    fn trace(&self, trc: &mut JSTracer) {
        match self {
            Ok(inner) => inner.trace(trc),
            Err(inner) => inner.trace(trc),
        }
    }
}

impl<T: JSTraceable> JSTraceable for Box<T> {
    open spec fn trace_view(&self) -> Seq<HeapHandle> {
        (**self).trace_view()
    }

    fn trace(&self, trc: &mut JSTracer) {
        (**self).trace(trc);
    }
}

impl<T: JSTraceable> JSTraceable for std::rc::Rc<T> {
    open spec fn trace_view(&self) -> Seq<HeapHandle> {
        (**self).trace_view()
    }

    fn trace(&self, trc: &mut JSTracer) {
        (**self).trace(trc);
    }
}

impl<T: JSTraceable> JSTraceable for std::sync::Arc<T> {
    open spec fn trace_view(&self) -> Seq<HeapHandle> {
        (**self).trace_view()
    }

    fn trace(&self, trc: &mut JSTracer) {
        (**self).trace(trc);
    }
}

impl<T: JSTraceable> JSTraceable for std::collections::VecDeque<T> {
    open spec fn trace_view(&self) -> Seq<HeapHandle> {
        seq_handles(self@)
    }

    fn trace(&self, trc: &mut JSTracer) {
        proof {
            lemma_no_visits(old(trc)@);
            assert(seq_handles(self@.take(0)) =~= Seq::<HeapHandle>::empty());
        }
        let n = self.len();
        let mut i: usize = 0;
        while i < n
            invariant
                i <= n,
                n == self@.len(),
                trc@ == old(trc)@ + seq_handles(self@.take(i as int)),
            decreases n - i,
        {
            proof {
                lemma_seq_handles_take_step(self@, i as int);
            }
            self[i].trace(trc);
            i = i + 1;
        }
        proof {
            lemma_seq_handles_full(self@);
        }
    }
}

impl<A: JSTraceable, B: JSTraceable> JSTraceable for (A, B) {
    open spec fn trace_view(&self) -> Seq<HeapHandle> {
        self.0.trace_view() + self.1.trace_view()
    }

    fn trace(&self, trc: &mut JSTracer) {
        self.0.trace(trc);
        self.1.trace(trc);
    }
}

impl<A: JSTraceable, B: JSTraceable, C: JSTraceable> JSTraceable for (A, B, C) {
    open spec fn trace_view(&self) -> Seq<HeapHandle> {
        self.0.trace_view() + self.1.trace_view() + self.2.trace_view()
    }

    fn trace(&self, trc: &mut JSTracer) {
        self.0.trace(trc);
        self.1.trace(trc);
        self.2.trace(trc);
    }
}

impl<A: JSTraceable, B: JSTraceable, C: JSTraceable, D: JSTraceable> JSTraceable for (A, B, C, D) {
    open spec fn trace_view(&self) -> Seq<HeapHandle> {
        self.0.trace_view() + self.1.trace_view() + self.2.trace_view() + self.3.trace_view()
    }

    fn trace(&self, trc: &mut JSTracer) {
        self.0.trace(trc);
        self.1.trace(trc);
        self.2.trace(trc);
        self.3.trace(trc);
    }
}

/// The position of the first entry whose key equals `key` under the key
/// type's own equality, or -1 when no entry matches.
pub open spec fn key_index<K: PartialEq, V>(s: Seq<(K, V)>, key: &K) -> int
    decreases s.len(),
{
    if s.len() == 0 {
        -1
    } else if s[0].0.eq_spec(key) {
        0
    } else {
        let r = key_index(s.drop_first(), key);
        if r == -1 {
            -1
        } else {
            r + 1
        }
    }
}

/// `key_index` finds a match exactly when one exists, and what it finds is
/// the first one.
pub proof fn lemma_key_index<K: PartialEq, V>(s: Seq<(K, V)>, key: &K)
    ensures
        key_index(s, key) == -1 ==> forall|i: int| 0 <= i < s.len() ==> !s[i].0.eq_spec(key),
        key_index(s, key) != -1 ==> {
            let i = key_index(s, key);
            &&& 0 <= i < s.len()
            &&& s[i].0.eq_spec(key)
            &&& forall|j: int| 0 <= j < i ==> !s[j].0.eq_spec(key)
        },
    decreases s.len(),
{
    if s.len() == 0 {
    } else if s[0].0.eq_spec(key) {
    } else {
        lemma_key_index(s.drop_first(), key);
        let t = s.drop_first();
        assert(forall|j: int| 0 <= j < s.len() - 1 ==> t[j] == s[j + 1]);
        if key_index(s, key) == -1 {
            assert forall|i: int| 0 <= i < s.len() implies !s[i].0.eq_spec(key) by {
                if i > 0 {
                    assert(t[i - 1] == s[i]);
                    assert(!t[i - 1].0.eq_spec(key));
                }
            }
        } else {
            let i = key_index(s, key);
            assert(i == key_index(t, key) + 1);
            assert(t[i - 1] == s[i]);
            assert forall|j: int| 0 <= j < i implies !s[j].0.eq_spec(key) by {
                if j > 0 {
                    assert(t[j - 1] == s[j]);
                    assert(!t[j - 1].0.eq_spec(key));
                }
            }
        }
    }
}

/// A match with no earlier match is the one `key_index` finds.
pub proof fn lemma_key_index_found<K: PartialEq, V>(s: Seq<(K, V)>, key: &K, i: int)
    requires
        0 <= i < s.len(),
        s[i].0.eq_spec(key),
        forall|j: int| 0 <= j < i ==> !s[j].0.eq_spec(key),
    ensures
        key_index(s, key) == i,
    decreases s.len(),
{
    if i == 0 {
    } else {
        assert(!s[0].0.eq_spec(key));
        assert(forall|j: int| 0 <= j < s.len() - 1 ==> s.drop_first()[j] == s[j + 1]);
        lemma_key_index_found(s.drop_first(), key, i - 1);
    }
}

/// A key-unique map that participates in tracing: both keys and values may
/// embed heap handles, so a trace pass visits every key and every value.
///
/// It replaces a hashed or ordered standard map in rooted composites; entries
/// keep insertion order, and key uniqueness is kept under the key type's own
/// equality. A traced set of keys is the map to `()`, which owns no handles.
pub struct TraceableMap<K, V> {
    entries: Vec<(K, V)>,
}

impl<K, V> View for TraceableMap<K, V> {
    type V = Seq<(K, V)>;

    closed spec fn view(&self) -> Seq<(K, V)> {
        self.entries@
    }
}

impl<K: PartialEq, V> TraceableMap<K, V> {
    /// No two entries share a key, under the key type's own equality.
    pub open spec fn keys_unique(&self) -> bool {
        forall|i: int, j: int|
            0 <= i < j < self@.len() ==> !(#[trigger] self@[i]).0.eq_spec(&(#[trigger] self@[j]).0)
    }

    /// An empty map.
    pub fn new() -> (m: TraceableMap<K, V>)
        ensures
            m@ == Seq::<(K, V)>::empty(),
            m.keys_unique(),
    {
        TraceableMap { entries: Vec::new() }
    }

    /// How many entries the map holds.
    pub fn len(&self) -> (n: usize)
        ensures
            n == self@.len(),
    {
        self.entries.len()
    }

    /// Insert a value under a key: a present key keeps its position and its
    /// stored key value and has only its value replaced, an absent key is
    /// appended. Key uniqueness is preserved. The key type's equality must
    /// agree with its own specification for lookup to be meaningful.
    pub fn insert(&mut self, key: K, value: V)
        requires
            K::obeys_eq_spec(),
            old(self).keys_unique(),
        ensures
            final(self).keys_unique(),
            ({
                let i = key_index(old(self)@, &key);
                if i == -1 {
                    final(self)@ == old(self)@.push((key, value))
                } else {
                    final(self)@ == old(self)@.update(i, (old(self)@[i].0, value))
                }
            }),
    {
        let n = self.entries.len();
        let mut idx: usize = 0;
        while idx < n
            invariant
                K::obeys_eq_spec(),
                old(self).keys_unique(),
                idx <= n,
                n == self@.len(),
                self == old(self),
                forall|j: int| 0 <= j < idx ==> !(#[trigger] self@[j]).0.eq_spec(&key),
            decreases n - idx,
        {
            let entry = &self.entries[idx];
            if entry.0 == key {
                proof {
                    lemma_key_index_found(self@, &key, idx as int);
                }
                let (stored_key, _) = self.entries.remove(idx);
                self.entries.insert(idx, (stored_key, value));
                proof {
                    assert(self@ =~= old(self)@.update(idx as int, (
                        old(self)@[idx as int].0,
                        value,
                    )));
                    assert forall|i: int, j: int| 0 <= i < j < self@.len() implies !(
                    #[trigger] self@[i]).0.eq_spec(&(#[trigger] self@[j]).0) by {
                        assert(self@[i].0 == old(self)@[i].0);
                        assert(self@[j].0 == old(self)@[j].0);
                        assert(!(old(self)@[i]).0.eq_spec(&(old(self)@[j]).0));
                    }
                }
                return ;
            }
            idx = idx + 1;
        }
        proof {
            lemma_key_index(self@, &key);
            if key_index(self@, &key) != -1 {
                assert(false);
            }
        }
        self.entries.push((key, value));
        proof {
            assert forall|i: int, j: int| 0 <= i < j < self@.len() implies !(
            #[trigger] self@[i]).0.eq_spec(&(#[trigger] self@[j]).0) by {
                if j < self@.len() - 1 {
                    assert(self@[i] == old(self)@[i]);
                    assert(self@[j] == old(self)@[j]);
                } else {
                    assert(self@[i] == old(self)@[i]);
                    assert(self@[j].0 == key);
                }
            }
        }
    }

    /// Look a key up: `Some` exactly when an entry's key equals it, and then
    /// the stored value is returned.
    pub fn get<'a>(&'a self, key: &K) -> (r: Option<&'a V>)
        requires
            K::obeys_eq_spec(),
        ensures
            ({
                let i = key_index(self@, key);
                match r {
                    Some(value) => i != -1 && *value == self@[i].1,
                    None => i == -1,
                }
            }),
    {
        let n = self.entries.len();
        let mut idx: usize = 0;
        while idx < n
            invariant
                K::obeys_eq_spec(),
                idx <= n,
                n == self@.len(),
                forall|j: int| 0 <= j < idx ==> !(#[trigger] self@[j]).0.eq_spec(key),
            decreases n - idx,
        {
            let entry = &self.entries[idx];
            if entry.0 == *key {
                proof {
                    lemma_key_index_found(self@, key, idx as int);
                }
                return Some(&entry.1);
            }
            idx = idx + 1;
        }
        proof {
            lemma_key_index(self@, key);
            if key_index(self@, key) != -1 {
                assert(false);
            }
        }
        None
    }
}

impl<K: JSTraceable, V: JSTraceable> JSTraceable for TraceableMap<K, V> {
    open spec fn trace_view(&self) -> Seq<HeapHandle> {
        seq_handles(self@)
    }

    fn trace(&self, trc: &mut JSTracer) {
        trace_slice(self.entries.as_slice(), trc);
    }
}

} // verus!
