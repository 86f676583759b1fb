//! Test-support allocation instrumentation, modeled over opaque integer
//! addresses.
//!
//! The crate provides a tracking allocator that records every outstanding
//! allocation, validates each deallocation request against the record made
//! at allocation time, and checks at teardown that every allocation was
//! returned; an owning box that allocates on construction and frees on
//! release; and two fault-injection allocators (one that always fails, one
//! that fails with fixed probability) for exercising out-of-memory paths.
//!
//! Addresses are opaque nonzero integers handed out by a backing allocator
//! and are never dereferenced; the address `0` is the failure sentinel of
//! an allocation request. Contract violations (freeing an untracked
//! address, a descriptor mismatch, a leak at teardown) are reported as
//! [`Violation`] values rather than aborts, so that the conditions under
//! which each one arises are part of every function's contract.

pub mod allocator;
pub mod boxed;
pub mod layout;
pub mod track;

pub use allocator::BackingAlloc;
pub use allocator::MaybeAlloc;
pub use allocator::NeverAlloc;
pub use allocator::SystemAlloc;
pub use allocator::TestAlloc;
pub use boxed::TestBox;
pub use layout::Descriptor;
pub use layout::descriptor_of;
pub use track::TrackOp;
pub use track::Violation;
pub use track::alloc_record;
pub use track::dealloc_check;
pub use track::run_ops;
