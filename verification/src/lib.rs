//! Rooting and tracing protocol for native values that hold references into
//! an external, garbage-collected heap.
//!
//! The external runtime may move or free heap values at every collection
//! cycle; native code keeps such values alive by registering the composites
//! that own them in a [`registry::RootedTraceableSet`] for exactly the scope
//! in which they are used. During the runtime's mark phase the registry fans
//! out over every registered composite through the [`trace::JSTraceable`]
//! protocol, which enumerates every reachable [`trace::HeapHandle`].
//! [`context::JSContext`] and [`context::NoGC`] encode, purely in the borrow
//! system, that no collection-triggering operation can run while an unrooted
//! heap location is being inspected.

pub mod context;
pub mod error;
pub mod registry;
pub mod roots;
pub mod trace;
