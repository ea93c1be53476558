//! The table of known devices: names by vendor and device identifier.

use crate::pci::class::{DeviceId, VendorId};
use vstd::prelude::*;

verus! {

/// The names of a known device.
#[derive(Debug, Clone, Copy)]
pub struct PciDeviceInfo {
    pub vendor_name: &'static str,
    pub device_name: &'static str,
}

/// The key of a device in the table: the vendor identifier in the upper,
/// the device identifier in the lower half.
pub open spec fn key_of(vendor: VendorId, device: DeviceId) -> u32 {
    (vendor * 0x1_0000 + device) as u32
}

/// The key of a device in the table.
pub fn make_key(vendor: VendorId, device: DeviceId) -> (key: u32)
    ensures
        key == key_of(vendor, device),
{
    (vendor as u32) * 0x1_0000 + (device as u32)
}

/// Different devices have different keys.
pub proof fn lemma_keys_are_distinct(
    vendor: VendorId,
    device: DeviceId,
    other_vendor: VendorId,
    other_device: DeviceId,
)
    ensures
        key_of(vendor, device) == key_of(other_vendor, other_device) <==> vendor == other_vendor
            && device == other_device,
{
}

} // verus!
