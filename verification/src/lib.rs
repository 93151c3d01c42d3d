//! Enclave lifecycle core of a RISC-V security monitor.
//!
//! The crate is a verified model of the state machine and resource
//! discipline that tie together four scarce resources: the enclave table,
//! PMP region reservations, cross-domain memory copies guarded by
//! PMP-overlap checks, and the per-enclave thread count. Physical memory
//! is modelled by [`memory::Memory`], the PMP driver by [`pmp::Pmp`], and
//! the monitor's global state by [`monitor::Monitor`]. Every lifecycle
//! operation carries a contract that pins its result and the new state,
//! and the monitor's well-formedness invariant is proved preserved by
//! every operation.
//!
//! The monitor's global lock serializes all transitions in the real
//! system; here exclusive access is expressed by `&mut` borrows, which
//! give the same atomicity to each check-and-update pair.

pub mod codes;
pub mod memory;
pub mod pmp;
pub mod monitor;
pub mod copy;
pub mod lifecycle;
pub mod attest;
