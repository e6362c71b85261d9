//! What a device tells the machine description about itself.

use vstd::prelude::*;

verus! {

/// Trait for devices to be added to the Flattened Device Tree. What each method
/// returns is up to the device that implements it.
pub trait DeviceInfoForFDT {
    /// Returns the address where this device will be loaded.
    fn addr(&self) -> u64;

    /// Returns the associated interrupt for this device.
    fn irq(&self) -> u32;

    /// Returns the amount of memory that needs to be reserved for this device.
    fn length(&self) -> u64;
}

} // verus!
