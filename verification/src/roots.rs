//! Scoped root handles: the only legitimate way to keep a traceable
//! composite alive across turns of native control flow.
//!
//! A handle moves its composite into the registry under a stable nonzero
//! identity (the address of the composite's native allocation) and stands for
//! that entry until it is torn down. Teardown deregisters before the backing
//! storage is released, so no later trace pass can observe a freed composite.
//! Because the registry is passed explicitly, teardown is the explicit
//! `unroot` call; an embedding performs it on every exit path of the scope
//! that created the handle.

use vstd::prelude::*;

use core::marker::PhantomData;

use crate::registry::{entry_ids, last_index_of, RootedTraceableSet};
use crate::trace::{seq_handles, trace_slice, HeapHandle, JSTraceable, JSTracer};

verus! {

/// A handle to one rooted composite of type `T`. While the handle stands,
/// exactly one registry entry carries its identity and the composite is
/// reached by every trace pass.
pub struct RootedTraceableBox<T> {
    ptr: u64,
    composite: PhantomData<T>,
}

impl<T> RootedTraceableBox<T> {
    /// The identity under which this handle's composite is registered.
    pub closed spec fn id(&self) -> u64 {
        self.ptr
    }

    /// Root a composite for the life of the returned handle. `ptr` is the
    /// stable address of the composite's native allocation: nonzero, and not
    /// reused while this handle stands.
    pub fn new(set: &mut RootedTraceableSet<T>, ptr: u64, traceable: T) -> (handle:
        RootedTraceableBox<T>)
        requires
            ptr != 0,
        ensures
            final(set)@ == old(set)@.push((ptr, traceable)),
            handle.id() == ptr,
    {
        set.add(ptr, traceable);
        RootedTraceableBox { ptr, composite: PhantomData }
    }

    /// Consume an already-boxed composite and root it for the life of the
    /// returned handle.
    pub fn from_box(set: &mut RootedTraceableSet<T>, ptr: u64, boxed_traceable: Box<T>) -> (handle:
        RootedTraceableBox<T>)
        requires
            ptr != 0,
        ensures
            final(set)@ == old(set)@.push((ptr, *boxed_traceable)),
            handle.id() == ptr,
    {
        RootedTraceableBox::new(set, ptr, *boxed_traceable)
    }

    /// The stable identity of the rooted allocation, as the embedding passes
    /// it onward to the engine.
    pub fn handle(&self) -> (r: u64)
        ensures
            r == self.id(),
    {
        self.ptr
    }

    /// Read the rooted composite.
    pub fn borrow<'a>(&self, set: &'a RootedTraceableSet<T>) -> (value: &'a T)
        requires
            set.ids().contains(self.id()),
        ensures
            *value == set@[last_index_of(set.ids(), self.id())].1,
    {
        set.borrow_last(self.ptr)
    }

    /// Write access to the rooted composite. The entry keeps its identity and
    /// position, so the composite stays continuously rooted while rewritten.
    pub fn borrow_mut<'a>(&self, set: &'a mut RootedTraceableSet<T>) -> (value: &'a mut T)
        requires
            entry_ids(old(set)@).contains(self.id()),
        ensures
            ({
                let i = last_index_of(entry_ids(old(set)@), self.id());
                &&& *value == old(set)@[i].1
                &&& final(set)@ == old(set)@.update(i, (self.id(), *final(value)))
            }),
    {
        set.borrow_last_mut(self.ptr)
    }

    /// Tear the handle down: deregister the composite, then hand its value
    /// back so the backing storage is released only after no trace pass can
    /// reach it. An embedding calls this on every exit path of the scope.
    pub fn unroot(self, set: &mut RootedTraceableSet<T>) -> (value: T)
        requires
            entry_ids(old(set)@).contains(self.id()),
        ensures
            ({
                let i = last_index_of(entry_ids(old(set)@), self.id());
                &&& final(set)@ == old(set)@.remove(i)
                &&& value == old(set)@[i].1
            }),
    {
        set.remove(self.ptr)
    }
}

/// Backing storage for a growable sequence of traceable values. It is empty
/// whenever it is not rooted, so a trace pass can never reach stale contents
/// through it.
pub struct RootableVec<T> {
    v: Vec<T>,
}

impl<T> View for RootableVec<T> {
    type V = Seq<T>;

    closed spec fn view(&self) -> Seq<T> {
        self.v@
    }
}

impl<T> RootableVec<T> {
    /// Create empty storage that can be rooted later.
    pub fn new_unrooted() -> (root: RootableVec<T>)
        ensures
            root@ == Seq::<T>::empty(),
    {
        RootableVec { v: Vec::new() }
    }
}

impl<T: JSTraceable> JSTraceable for RootableVec<T> {
    open spec fn trace_view(&self) -> Seq<HeapHandle> {
        seq_handles(self@)
    }

    fn trace(&self, trc: &mut JSTracer) {
        trace_slice(self.v.as_slice(), trc);
    }
}

/// A handle to a rooted, growable sequence of traceable values: construct it
/// empty, then append items one at a time while every intermediate state
/// remains continuously traceable. Some call sites accumulate values of
/// statically unknown count before using them together; this is their rooted
/// accumulator.
pub struct RootedVec<T> {
    ptr: u64,
    items: PhantomData<T>,
}

impl<T> RootedVec<T> {
    /// The identity under which this handle's storage is registered.
    pub closed spec fn id(&self) -> u64 {
        self.ptr
    }

    /// Root empty storage for the life of the returned handle. `ptr` is the
    /// stable address of the storage: nonzero, and not reused while this
    /// handle stands.
    pub fn new(set: &mut RootedTraceableSet<RootableVec<T>>, ptr: u64, root: RootableVec<T>) -> (
        handle: RootedVec<T>)
        requires
            ptr != 0,
            root@.len() == 0,
        ensures
            final(set)@ == old(set)@.push((ptr, root)),
            handle.id() == ptr,
    {
        set.add(ptr, root);
        RootedVec { ptr, items: PhantomData }
    }

    /// Append one item to the rooted sequence. The entry keeps its identity
    /// and position, so the sequence stays continuously traceable while it
    /// grows.
    pub fn push(&self, set: &mut RootedTraceableSet<RootableVec<T>>, item: T)
        requires
            entry_ids(old(set)@).contains(self.id()),
        ensures
            ({
                let i = last_index_of(entry_ids(old(set)@), self.id());
                &&& final(set)@.len() == old(set)@.len()
                &&& final(set)@[i].0 == self.id()
                &&& final(set)@[i].1@ == old(set)@[i].1@.push(item)
                &&& forall|j: int|
                    0 <= j < old(set)@.len() && j != i ==> final(set)@[j] == old(set)@[j]
            }),
    {
        proof {
            crate::registry::lemma_last_index_of(entry_ids(old(set)@), self.id());
        }
        let root = set.borrow_last_mut(self.ptr);
        root.v.push(item);
    }

    /// How many items the rooted sequence currently holds.
    pub fn len(&self, set: &RootedTraceableSet<RootableVec<T>>) -> (n: usize)
        requires
            set.ids().contains(self.id()),
        ensures
            n == set@[last_index_of(set.ids(), self.id())].1@.len(),
    {
        let root = set.borrow_last(self.ptr);
        root.v.len()
    }

    /// Read the item at position `i` of the rooted sequence.
    pub fn get<'a>(&self, set: &'a RootedTraceableSet<RootableVec<T>>, i: usize) -> (item: &'a T)
        requires
            set.ids().contains(self.id()),
            i < set@[last_index_of(set.ids(), self.id())].1@.len(),
        ensures
            *item == set@[last_index_of(set.ids(), self.id())].1@[i as int],
    {
        let root = set.borrow_last(self.ptr);
        &root.v[i]
    }

    /// Tear the handle down: deregister the storage, then clear it, so that
    /// the storage is empty again whenever it is not rooted. The items are
    /// dropped with it.
    pub fn unroot(self, set: &mut RootedTraceableSet<RootableVec<T>>) -> (root: RootableVec<T>)
        requires
            entry_ids(old(set)@).contains(self.id()),
        ensures
            final(set)@ == old(set)@.remove(last_index_of(entry_ids(old(set)@), self.id())),
            root@ == Seq::<T>::empty(),
    {
        let mut root = set.remove(self.ptr);
        root.v = Vec::new();
        root
    }
}

} // verus!
