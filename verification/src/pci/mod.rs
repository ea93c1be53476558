//! The PCI configuration-space model and the algorithms that run on it.

pub mod access;
pub mod address;
pub mod bar;
pub mod bits;
pub mod capability;
pub mod class;
pub mod device;
pub mod device_db;
pub mod header;
pub mod msix;
pub mod regfile;
pub mod scan;
pub mod text;

pub use access::PciInterface;
pub use address::PCIAddress;
pub use bar::{Bar, BarError, BarType};
pub use capability::{CapabilitiesIter, Capability, CapabilityId};
pub use class::{ClassCode, PciDeviceType};
pub use device::PciDevice;
pub use header::PCIHeader;
pub use msix::{CapabilityType, MsiX, MsiXTableEntry, MsiXTableError, MsiXTableRegion};
pub use regfile::RegisterFile;
pub use scan::{scan_bus, PciDeviceIterator};
