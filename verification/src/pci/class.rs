//! Header types and class codes.

use crate::pci::bits::u32_bits;
use vstd::prelude::*;

verus! {

pub type VendorId = u16;

pub type DeviceId = u16;

pub type DeviceRevision = u8;

pub type BaseClass = u8;

pub type SubClass = u8;

pub type Interface = u8;

pub type HeaderType = u8;

/// The layout of a function's configuration header.
#[derive(Debug, Clone, Copy, PartialEq, Eq, Structural)]
pub enum PciDeviceType {
    Endpoint,
    PciBridge,
    Unknown,
}

impl PciDeviceType {
    /// The header layout named by bits 16..23 of the word at offset `0x0c`.
    pub open spec fn from_header_word(word: u32) -> PciDeviceType {
        let layout = u32_bits(word, 16, 23);
        if layout == 0 {
            PciDeviceType::Endpoint
        } else if layout == 1 {
            PciDeviceType::PciBridge
        } else {
            PciDeviceType::Unknown
        }
    }

    /// The header-type code of a layout; `0xff` stands for every unknown one.
    pub open spec fn spec_code(self) -> HeaderType {
        match self {
            PciDeviceType::Endpoint => 0x00,
            PciDeviceType::PciBridge => 0x01,
            PciDeviceType::Unknown => 0xff,
        }
    }

    /// The header-type code of this layout.
    pub fn code(self) -> (code: HeaderType)
        ensures
            code == self.spec_code(),
    {
        match self {
            PciDeviceType::Endpoint => 0x00,
            PciDeviceType::PciBridge => 0x01,
            PciDeviceType::Unknown => 0xff,
        }
    }

    /// How many base-address registers a header of this layout has.
    pub open spec fn bar_count(self) -> u8 {
        match self {
            PciDeviceType::Endpoint => 6,
            PciDeviceType::PciBridge => 2,
            PciDeviceType::Unknown => 0,
        }
    }
}

/// The well-known device classes, keyed by base class and sub class.
#[derive(Debug, Clone, Copy, PartialEq, Eq, Structural)]
pub enum ClassCode {
    IDEController,
    SATAController,
    EthernetController,
    VGACompatibleController,
    RAMController,
    HostBridge,
    ISABridge,
    OtherBridge,
    Unknown,
}

impl ClassCode {
    /// The class with base class in the upper and sub class in the lower
    /// byte of `value`.
    pub open spec fn from_code(value: u16) -> ClassCode {
        if value == 0x0101 {
            ClassCode::IDEController
        } else if value == 0x0106 {
            ClassCode::SATAController
        } else if value == 0x0200 {
            ClassCode::EthernetController
        } else if value == 0x0300 {
            ClassCode::VGACompatibleController
        } else if value == 0x0500 {
            ClassCode::RAMController
        } else if value == 0x0600 {
            ClassCode::HostBridge
        } else if value == 0x0601 {
            ClassCode::ISABridge
        } else if value == 0x0680 {
            ClassCode::OtherBridge
        } else {
            ClassCode::Unknown
        }
    }
}

impl ClassCode {
    /// The class code of a class; `0xffff` stands for every unknown one.
    pub open spec fn spec_code(self) -> u16 {
        match self {
            ClassCode::IDEController => 0x0101,
            ClassCode::SATAController => 0x0106,
            ClassCode::EthernetController => 0x0200,
            ClassCode::VGACompatibleController => 0x0300,
            ClassCode::RAMController => 0x0500,
            ClassCode::HostBridge => 0x0600,
            ClassCode::ISABridge => 0x0601,
            ClassCode::OtherBridge => 0x0680,
            ClassCode::Unknown => 0xffff,
        }
    }

    /// The class code of this class.
    pub fn code(self) -> (code: u16)
        ensures
            code == self.spec_code(),
    {
        match self {
            ClassCode::IDEController => 0x0101,
            ClassCode::SATAController => 0x0106,
            ClassCode::EthernetController => 0x0200,
            ClassCode::VGACompatibleController => 0x0300,
            ClassCode::RAMController => 0x0500,
            ClassCode::HostBridge => 0x0600,
            ClassCode::ISABridge => 0x0601,
            ClassCode::OtherBridge => 0x0680,
            ClassCode::Unknown => 0xffff,
        }
    }
}

/// A class is the class that its code names.
pub proof fn lemma_class_code_names_the_class(class: ClassCode)
    ensures
        ClassCode::from_code(class.spec_code()) == class,
{
}

impl From<u16> for ClassCode {
    fn from(value: u16) -> (code: ClassCode) {
        match value {
            0x0101 => ClassCode::IDEController,
            0x0106 => ClassCode::SATAController,
            0x0200 => ClassCode::EthernetController,
            0x0300 => ClassCode::VGACompatibleController,
            0x0500 => ClassCode::RAMController,
            0x0600 => ClassCode::HostBridge,
            0x0601 => ClassCode::ISABridge,
            0x0680 => ClassCode::OtherBridge,
            _ => ClassCode::Unknown,
        }
    }
}

impl vstd::std_specs::convert::FromSpecImpl<u16> for ClassCode {
    open spec fn obeys_from_spec() -> bool {
        true
    }

    open spec fn from_spec(value: u16) -> ClassCode {
        ClassCode::from_code(value)
    }
}

} // verus!
