//! The platform of a small x86_64 virtual machine, as its guest finds it at
//! boot: the ACPI tables in guest memory, and the interrupt controller that
//! lives in the kernel.
//!
//! Everything that is computed or decided stands here, with its contract.
//! Requests to the kernel are described as values and made by the caller.

pub mod acpi;
pub mod bytes;
pub mod fdt;
pub mod guest_memory;
pub mod ioapic;
pub mod ioctl;
pub mod irq_routing;
pub mod layout;
