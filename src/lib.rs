//! Verified core of a connector that reads and writes the guest-physical memory
//! of a running KVM virtual machine through a kernel mediator.

pub mod error;
pub mod guard;
pub mod memmap;
pub mod slot;
pub mod target;
pub mod translator;
