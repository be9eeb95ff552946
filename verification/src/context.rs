//! The execution-context handle and the GC-safety type state.
//!
//! Two borrow forms of the one context drive the discipline: operations that
//! can trigger a collection cycle demand `&mut JSContext`, while a [`NoGC`]
//! token is obtained from a shared borrow. The two borrow kinds are mutually
//! exclusive for their overlapping lifetimes, so while a token stands no
//! collection-triggering operation can be reached — purely statically, with
//! no runtime check. That is the only safe way to inspect a raw, unrooted
//! heap location for a bounded scope.

use vstd::prelude::*;

use core::marker::PhantomData;

use crate::registry::{entries_handles, trace_traceables, RootedTraceableSet};
use crate::trace::{JSTraceable, JSTracer};

verus! {

/// The handle to the external engine's execution context.
///
/// Exactly one is alive per thread: the embedding wraps the raw context
/// location the engine's context-creation call returned, and no other code
/// path constructs one. It is deliberately not `Clone`: a second handle would
/// let a collection-capable borrow coexist with a [`NoGC`] token.
pub struct JSContext {
    raw: u64,
}

impl JSContext {
    /// The raw context location this handle wraps.
    pub closed spec fn addr(&self) -> u64 {
        self.raw
    }

    /// A context handle always wraps a real engine context.
    #[verifier::type_invariant]
    pub closed spec fn valid(&self) -> bool {
        self.raw != 0
    }

    /// Wrap the raw context location received from the engine's
    /// context-creation call. The engine never hands out a null context, and
    /// a handle made from anything else would let every later operation run
    /// against a context that does not exist, so the caller rules that out.
    pub fn from_ptr(cx: u64) -> (context: JSContext)
        requires
            cx != 0,
        ensures
            context.addr() == cx,
    {
        JSContext { raw: cx }
    }

    /// The raw context location, as the embedding passes it back to engine
    /// entry points.
    pub fn raw(&self) -> (r: u64)
        ensures
            r == self.addr(),
            r != 0,
    {
        proof {
            use_type_invariant(self);
        }
        self.raw
    }

    /// Obtain a no-collection token bounded to this context borrow.
    ///
    /// While the token is alive, this context stays borrowed shared, so no
    /// operation that demands `&mut JSContext` — that is, no operation that
    /// can trigger a collection — can be called. The exclusion is enforced
    /// entirely by the borrow relationship.
    pub fn no_gc<'cx>(&'cx self) -> (token: NoGC<'cx>) {
        NoGC { context_borrow: PhantomData }
    }
}

/// Token proving that no collection cycle can start while it is alive.
///
/// Its lifetime is tied to the shared context borrow that produced it; every
/// collection-capable operation requires the mutable borrow instead, and the
/// two are mutually exclusive.
pub struct NoGC<'cx> {
    context_borrow: PhantomData<&'cx ()>,
}

/// A context restricted to engine entry points that are known not to trigger
/// collection. Because such calls cannot collect, this form may be held and
/// used while a [`NoGC`] token is alive.
pub struct NoGcJSContext<'cx> {
    raw: u64,
    no_gc: PhantomData<&'cx ()>,
}

impl<'cx> NoGcJSContext<'cx> {
    /// The raw context location this restricted handle wraps.
    pub closed spec fn addr(&self) -> u64 {
        self.raw
    }

    /// Derive the restricted form from the context and a live no-collection
    /// token. Demanding the token is what confines this handle to scopes in
    /// which collection is statically excluded.
    pub fn new(context: &'cx JSContext, token: &'cx NoGC<'cx>) -> (ncx: NoGcJSContext<'cx>)
        ensures
            ncx.addr() == context.addr(),
            ncx.addr() != 0,
    {
        let _ = token;
        NoGcJSContext { raw: context.raw(), no_gc: PhantomData }
    }

    /// The raw context location, as the embedding passes it to entry points
    /// that take a context together with a no-collection witness.
    pub fn raw(&self) -> (r: u64)
        ensures
            r == self.addr(),
    {
        self.raw
    }
}

/// A collection cycle as native code observes it.
///
/// Requiring the mutable context borrow is the type-state contract: this
/// cannot be reached while a [`NoGC`] token is alive. The cycle's mark phase
/// calls back into the thread's live set, which fans out over every rooted
/// composite, so the tracer records exactly the live set's handles; the
/// context itself is untouched.
pub fn collect<T: JSTraceable>(
    context: &mut JSContext,
    set: &RootedTraceableSet<T>,
    tracer: &mut JSTracer,
)
    ensures
        final(context).addr() == old(context).addr(),
        final(tracer)@ == old(tracer)@ + entries_handles(set@),
{
    let _ = context;
    trace_traceables(set, tracer);
}

} // verus!
