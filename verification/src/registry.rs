//! The root registry: the per-thread live set of traceable composites the
//! external collector consults during its mark phase.
//!
//! Each entry records the identity of a rooted composite (the address of its
//! stable native allocation, modeled as a nonzero `u64`) together with the
//! composite itself. Entries keep insertion order; removal looks the identity
//! up from the end, which matches the nested, mostly-LIFO discipline of
//! native scopes while tolerating reuse of an address after a prior removal.
//!
//! The registry is inherently single-threaded: each native thread that can
//! call into the external engine owns its own instance, passed explicitly to
//! every operation so that ownership and teardown order stay visible.

use vstd::prelude::*;

use crate::trace::{seq_handles, HeapHandle, JSTraceable, JSTracer};

verus! {

/// The identities of a sequence of registry entries, in entry order.
pub open spec fn entry_ids<T>(s: Seq<(u64, T)>) -> Seq<u64> {
    s.map_values(|e: (u64, T)| e.0)
}

/// The position of the most recently inserted entry with identity `ptr`,
/// or -1 when no entry has it.
pub open spec fn last_index_of(ids: Seq<u64>, ptr: u64) -> int
    decreases ids.len(),
{
    if ids.len() == 0 {
        -1
    } else if ids.last() == ptr {
        ids.len() - 1
    } else {
        last_index_of(ids.drop_last(), ptr)
    }
}

/// `last_index_of` finds an occurrence exactly when one exists, and what it
/// finds is the last one.
pub proof fn lemma_last_index_of(ids: Seq<u64>, ptr: u64)
    ensures
        ids.contains(ptr) <==> 0 <= last_index_of(ids, ptr),
        ids.contains(ptr) ==> {
            let i = last_index_of(ids, ptr);
            &&& i < ids.len()
            &&& ids[i] == ptr
            &&& forall|j: int| i < j < ids.len() ==> ids[j] != ptr
        },
    decreases ids.len(),
{
    if ids.len() == 0 {
    } else if ids.last() == ptr {
        assert(ids[ids.len() - 1] == ptr);
    } else {
        lemma_last_index_of(ids.drop_last(), ptr);
        assert(forall|j: int| 0 <= j < ids.len() - 1 ==> ids[j] == ids.drop_last()[j]);
        if ids.contains(ptr) {
            let w = choose|i: int| 0 <= i < ids.len() && ids[i] == ptr;
            assert(w < ids.len() - 1);
            assert(ids.drop_last()[w] == ptr);
            assert(ids.drop_last().contains(ptr));
        }
        if ids.drop_last().contains(ptr) {
            let w = choose|i: int|
                0 <= i < ids.drop_last().len() && ids.drop_last()[i] == ptr;
            assert(ids[w] == ptr);
            assert(ids.contains(ptr));
        }
    }
}

/// An occurrence with no later occurrence is the one `last_index_of` finds.
pub proof fn lemma_last_index_of_found(ids: Seq<u64>, ptr: u64, i: int)
    requires
        0 <= i < ids.len(),
        ids[i] == ptr,
        forall|j: int| i < j < ids.len() ==> ids[j] != ptr,
    ensures
        last_index_of(ids, ptr) == i,
    decreases ids.len(),
{
    if i == ids.len() - 1 {
    } else {
        assert(ids.last() == ids[ids.len() - 1]);
        assert(ids.drop_last()[i] == ids[i]);
        assert(forall|j: int|
            i < j < ids.drop_last().len() ==> ids.drop_last()[j] == ids[j]);
        lemma_last_index_of_found(ids.drop_last(), ptr, i);
    }
}

/// The visit events one full trace pass over a sequence of registry entries
/// produces: each entry's composite, traced in insertion order.
pub open spec fn entries_handles<T: JSTraceable>(s: Seq<(u64, T)>) -> Seq<HeapHandle>
    decreases s.len(),
{
    if s.len() == 0 {
        Seq::empty()
    } else {
        entries_handles(s.drop_last()) + s.last().1.trace_view()
    }
}

/// Tracing one more entry appends exactly that entry's visit events.
pub proof fn lemma_entries_handles_take_step<T: JSTraceable>(s: Seq<(u64, T)>, i: int)
    requires
        0 <= i < s.len(),
    ensures
        entries_handles(s.take(i + 1)) == entries_handles(s.take(i)) + s[i].1.trace_view(),
{
    assert(s.take(i + 1).drop_last() =~= s.take(i));
    assert(s.take(i + 1).last() == s[i]);
}

/// A set of traceable composites that are currently rooted: the live set the
/// external collector walks during its trace phase.
pub struct RootedTraceableSet<T> {
    entries: Vec<(u64, T)>,
}

impl<T> View for RootedTraceableSet<T> {
    type V = Seq<(u64, T)>;

    closed spec fn view(&self) -> Seq<(u64, T)> {
        self.entries@
    }
}

impl<T> RootedTraceableSet<T> {
    /// The identities of all live entries, in insertion order.
    pub open spec fn ids(&self) -> Seq<u64> {
        entry_ids(self@)
    }

    /// An empty registry: nothing is rooted.
    pub fn new() -> (set: RootedTraceableSet<T>)
        ensures
            set@ == Seq::<(u64, T)>::empty(),
    {
        RootedTraceableSet { entries: Vec::new() }
    }

    /// How many composites are currently rooted.
    pub fn len(&self) -> (n: usize)
        ensures
            n == self@.len(),
    {
        self.entries.len()
    }

    /// Whether some live entry has identity `ptr`.
    pub fn contains_ptr(&self, ptr: u64) -> (r: bool)
        ensures
            r == self.ids().contains(ptr),
    {
        let n = self.entries.len();
        let mut i: usize = 0;
        while i < n
            invariant
                i <= n,
                n == self@.len(),
                forall|j: int| 0 <= j < i ==> self@[j].0 != ptr,
            decreases n - i,
        {
            let entry = &self.entries[i];
            if entry.0 == ptr {
                proof {
                    assert(self.ids()[i as int] == ptr);
                }
                return true;
            }
            i = i + 1;
        }
        proof {
            assert(forall|j: int| 0 <= j < self.ids().len() ==> self.ids()[j] != ptr);
        }
        false
    }

    /// Root a composite under identity `ptr`. A null identity would record a
    /// composite that does not exist, which is an unrecoverable programming
    /// error, so the caller rules it out.
    pub fn add(&mut self, ptr: u64, value: T)
        requires
            ptr != 0,
        ensures
            final(self)@ == old(self)@.push((ptr, value)),
    {
        self.entries.push((ptr, value));
    }

    /// The position of the most recently inserted entry with identity `ptr`.
    fn last_position(&self, ptr: u64) -> (i: usize)
        requires
            self.ids().contains(ptr),
        ensures
            i == last_index_of(self.ids(), ptr),
            i < self@.len(),
            self@[i as int].0 == ptr,
    {
        let mut i = self.entries.len();
        while i > 0
            invariant
                i <= self@.len(),
                forall|j: int| i <= j < self@.len() ==> self@[j].0 != ptr,
            decreases i,
        {
            i = i - 1;
            let entry = &self.entries[i];
            if entry.0 == ptr {
                proof {
                    lemma_last_index_of_found(self.ids(), ptr, i as int);
                }
                return i;
            }
        }
        proof {
            lemma_last_index_of(self.ids(), ptr);
            assert(false);
        }
        0
    }

    /// Unroot the most recently inserted composite with identity `ptr` and
    /// hand it back.
    ///
    /// Removing an identity that is not live means a handle was torn down
    /// twice or the registry was corrupted; continuing would desynchronize
    /// liveness for every other composite on the thread, so that case is an
    /// unrecoverable programming error which the caller rules out. An
    /// embedding that cannot rule it out calls [`Self::try_remove`] and
    /// aborts on `None`.
    pub fn remove(&mut self, ptr: u64) -> (value: T)
        requires
            entry_ids(old(self)@).contains(ptr),
        ensures
            ({
                let i = last_index_of(entry_ids(old(self)@), ptr);
                &&& final(self)@ == old(self)@.remove(i)
                &&& value == old(self)@[i].1
            }),
    {
        let i = self.last_position(ptr);
        let entry = self.entries.remove(i);
        entry.1
    }

    /// Unroot the most recently inserted composite with identity `ptr`, or
    /// report that none is live: `None` is returned exactly when `ptr` is
    /// absent, and the registry is then unchanged. A `None` against an
    /// identity the embedding believes live is the double-deregistration
    /// signal on which it must abort.
    pub fn try_remove(&mut self, ptr: u64) -> (removed: Option<T>)
        ensures
            ({
                let ids = entry_ids(old(self)@);
                if ids.contains(ptr) {
                    let i = last_index_of(ids, ptr);
                    &&& removed == Some(old(self)@[i].1)
                    &&& final(self)@ == old(self)@.remove(i)
                } else {
                    &&& removed == None::<T>
                    &&& final(self)@ == old(self)@
                }
            }),
    {
        if self.contains_ptr(ptr) {
            Some(self.remove(ptr))
        } else {
            None
        }
    }

    /// Read the most recently inserted composite with identity `ptr`.
    pub fn borrow_last<'a>(&'a self, ptr: u64) -> (value: &'a T)
        requires
            self.ids().contains(ptr),
        ensures
            *value == self@[last_index_of(self.ids(), ptr)].1,
    {
        let i = self.last_position(ptr);
        let entry = &self.entries[i];
        &entry.1
    }

    /// Write access to the most recently inserted composite with identity
    /// `ptr`. The entry keeps its identity and position, so the composite
    /// stays continuously rooted while it is grown or rewritten in place.
    pub fn borrow_last_mut<'a>(&'a mut self, ptr: u64) -> (value: &'a mut T)
        requires
            entry_ids(old(self)@).contains(ptr),
        ensures
            ({
                let i = last_index_of(entry_ids(old(self)@), ptr);
                &&& *value == old(self)@[i].1
                &&& final(self)@ == old(self)@.update(i, (ptr, *final(value)))
            }),
    {
        let i = self.last_position(ptr);
        let entry = &mut self.entries[i];
        &mut entry.1
    }
}

impl<T: JSTraceable> RootedTraceableSet<T> {
    /// Trace every rooted composite, in insertion order. This is the fan-out
    /// the external collector drives during its mark phase; a composite
    /// missing from the visit record would be freed while native code still
    /// reaches it, so the record is exactly `entries_handles` of the live set.
    pub fn trace(&self, tracer: &mut JSTracer)
        ensures
            final(tracer)@ == old(tracer)@ + entries_handles(self@),
    {
        proof {
            crate::trace::lemma_no_visits(old(tracer)@);
            assert(entries_handles(self@.take(0)) =~= Seq::<HeapHandle>::empty());
        }
        let n = self.entries.len();
        let mut i: usize = 0;
        while i < n
            invariant
                i <= n,
                n == self@.len(),
                tracer@ == old(tracer)@ + entries_handles(self@.take(i as int)),
            decreases n - i,
        {
            proof {
                lemma_entries_handles_take_step(self@, i as int);
            }
            let entry = &self.entries[i];
            entry.1.trace(tracer);
            i = i + 1;
        }
        proof {
            assert(self@.take(n as int) =~= self@);
        }
    }
}

/// One scope event, as the contracts of [`RootedTraceableSet::add`] and
/// [`RootedTraceableSet::remove`] describe it on the identity sequence: a
/// handle construction roots an identity, a handle teardown unroots one.
pub enum RootOp {
    Root(u64),
    Unroot(u64),
}

/// How the registry's identity sequence evolves under one scope event:
/// rooting appends, unrooting removes the most recent occurrence. This is
/// exactly the shape the `add` and `remove` contracts give, projected to
/// identities.
pub open spec fn apply_op(ids: Seq<u64>, op: RootOp) -> Seq<u64> {
    match op {
        RootOp::Root(p) => ids.push(p),
        RootOp::Unroot(p) => if ids.contains(p) {
            ids.remove(last_index_of(ids, p))
        } else {
            ids
        },
    }
}

/// The identity sequence after a whole sequence of scope events.
pub open spec fn apply_ops(ids: Seq<u64>, ops: Seq<RootOp>) -> Seq<u64>
    decreases ops.len(),
{
    if ops.len() == 0 {
        ids
    } else {
        apply_ops(apply_op(ids, ops[0]), ops.drop_first())
    }
}

/// Strictly nested scope events: every construction roots a real identity,
/// and every teardown unroots the most recently rooted identity still live —
/// the native stack discipline.
pub open spec fn well_nested(ids: Seq<u64>, ops: Seq<RootOp>) -> bool
    decreases ops.len(),
{
    ops.len() == 0 || {
        &&& (match ops[0] {
            RootOp::Root(p) => p != 0,
            RootOp::Unroot(p) => ids.len() > 0 && ids.last() == p,
        })
        &&& well_nested(apply_op(ids, ops[0]), ops.drop_first())
    }
}

/// The net change in nesting depth over a sequence of scope events: one up
/// per construction, one down per teardown.
pub open spec fn depth_delta(ops: Seq<RootOp>) -> int
    decreases ops.len(),
{
    if ops.len() == 0 {
        0
    } else {
        (match ops[0] {
            RootOp::Root(_) => 1int,
            RootOp::Unroot(_) => -1int,
        }) + depth_delta(ops.drop_first())
    }
}

/// Rooting an entry appends its identity to the identity sequence.
pub proof fn lemma_entry_ids_push<T>(s: Seq<(u64, T)>, p: u64, v: T)
    ensures
        entry_ids(s.push((p, v))) == entry_ids(s).push(p),
{
    assert(entry_ids(s.push((p, v))) =~= entry_ids(s).push(p));
}

/// Registry balance at the entry level: rooting a composite and then
/// unrooting the same identity — the contract shapes of handle construction
/// and teardown — finds the new entry and restores the registry exactly,
/// whatever else it held.
pub proof fn lemma_root_unroot_round_trip<T>(s: Seq<(u64, T)>, ptr: u64, value: T)
    ensures
        ({
            let pushed = s.push((ptr, value));
            &&& entry_ids(pushed).contains(ptr)
            &&& last_index_of(entry_ids(pushed), ptr) == s.len()
            &&& pushed.remove(s.len() as int) == s
        }),
{
    let pushed = s.push((ptr, value));
    lemma_entry_ids_push(s, ptr, value);
    assert(entry_ids(pushed)[s.len() as int] == ptr);
    assert(entry_ids(pushed).contains(ptr));
    lemma_last_index_of_found(entry_ids(pushed), ptr, s.len() as int);
    assert(pushed.remove(s.len() as int) =~= s);
}

/// Registry balance: for any strictly nested sequence of handle
/// constructions and teardowns, the live set's size always equals its
/// starting size plus the current nesting depth — in particular, a registry
/// that starts empty is empty again exactly when every scope has unwound.
pub proof fn lemma_registry_balance(ids: Seq<u64>, ops: Seq<RootOp>)
    requires
        well_nested(ids, ops),
    ensures
        apply_ops(ids, ops).len() == ids.len() + depth_delta(ops),
    decreases ops.len(),
{
    if ops.len() == 0 {
    } else {
        match ops[0] {
            RootOp::Root(p) => {
                lemma_registry_balance(ids.push(p), ops.drop_first());
            },
            RootOp::Unroot(p) => {
                assert(ids[ids.len() - 1] == p);
                assert(ids.contains(p));
                lemma_last_index_of_found(ids, p, ids.len() - 1);
                assert(apply_op(ids, ops[0]) =~= ids.drop_last());
                lemma_registry_balance(apply_op(ids, ops[0]), ops.drop_first());
            },
        }
    }
}

/// A strictly nested event sequence is strictly nested in every prefix.
proof fn lemma_well_nested_take(ids: Seq<u64>, ops: Seq<RootOp>, k: int)
    requires
        well_nested(ids, ops),
        0 <= k <= ops.len(),
    ensures
        well_nested(ids, ops.take(k)),
    decreases ops.len(),
{
    if k == 0 {
        assert(ops.take(0).len() == 0);
    } else {
        assert(ops.take(k)[0] == ops[0]);
        lemma_well_nested_take(apply_op(ids, ops[0]), ops.drop_first(), k - 1);
        assert(ops.take(k).drop_first() =~= ops.drop_first().take(k - 1));
    }
}

/// Balance at every step: after any prefix of a strictly nested sequence of
/// handle constructions and teardowns, the live-set size equals its starting
/// size plus that prefix's nesting depth — the size always tracks the
/// current native nesting depth.
pub proof fn lemma_registry_balance_always(ids: Seq<u64>, ops: Seq<RootOp>, k: int)
    requires
        well_nested(ids, ops),
        0 <= k <= ops.len(),
    ensures
        apply_ops(ids, ops.take(k)).len() == ids.len() + depth_delta(ops.take(k)),
{
    lemma_well_nested_take(ids, ops, k);
    lemma_registry_balance(ids, ops.take(k));
}

/// Balance at rest: nested events whose depth change is zero leave the live
/// set exactly as large as it was, so with no handle in scope the live set
/// holds nothing beyond what was rooted before.
pub proof fn lemma_registry_balanced_at_rest(ids: Seq<u64>, ops: Seq<RootOp>)
    requires
        well_nested(ids, ops),
        depth_delta(ops) == 0,
    ensures
        apply_ops(ids, ops).len() == ids.len(),
{
    lemma_registry_balance(ids, ops);
}

/// The callback the external engine invokes during its mark phase: trace
/// every composite the registry holds live.
pub fn trace_traceables<T: JSTraceable>(set: &RootedTraceableSet<T>, tracer: &mut JSTracer)
    ensures
        final(tracer)@ == old(tracer)@ + entries_handles(set@),
{
    set.trace(tracer);
}

} // verus!
