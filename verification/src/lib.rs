//! Core of a cooperative single-core kernel runtime: a physical page
//! allocator, a first-fit heap allocator layered on top of it, and the
//! thread / scheduler state machine that a context-switch primitive drives.
//!
//! Everything here works on a plain-value model of the machine: addresses
//! and sizes are integers, the page bitmap is a vector of flags, and the
//! heap free list is a sequence of regions. The architecture-specific
//! pieces (register save/restore, MMIO) live outside this crate and are
//! driven through the contracts stated here.

pub mod allocator;
pub mod heap;
pub mod singleton;
pub mod thread;
pub mod utils;
