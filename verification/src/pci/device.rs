//! A PCI function and the queries that a driver makes of it.

use crate::pci::access::PciInterface;
use crate::pci::address::PCIAddress;
use crate::pci::bar::{bar_query, probe_size, Bar, BarError};
use crate::pci::bits::{get_bit_u16, get_bit_u32, get_bits_u32, set_bit_u32};
use crate::pci::bits::{high_u16, low_u16, low_u8, u32_bit, u32_bits, u32_with_bit};
use crate::pci::bits::{lower_half, lowest_byte, upper_half};
use crate::pci::capability::{capabilities_of, capabilities_pointer_of, first_with_id};
use crate::pci::capability::{CapabilitiesIter, Capability, CapabilityId};
use crate::pci::class::{BaseClass, ClassCode, DeviceId, DeviceRevision, Interface};
use crate::pci::class::{PciDeviceType, SubClass, VendorId};
use crate::pci::device_db::{key_of, make_key, PciDeviceInfo};
use crate::pci::header::{is_present, PCIHeader};
use crate::pci::msix::{bir_in, table_offset_in, table_region, table_size_in, with_msix_enabled};
use crate::pci::msix::{CapabilityType, MsiX, MsiXTableError, MsiXTableRegion};
use crate::pci::text::{address_text, lower_hex, push_lower_hex};
use std::collections::HashMap;
use vstd::prelude::*;
use vstd::string::StringExecFns;

verus! {

/// The class code of function `addr`: base class in the upper, sub class in
/// the lower byte.
pub open spec fn class_code_of<C: PciInterface>(s: C::State, addr: PCIAddress) -> u16 {
    let field = C::read_state(s, addr, 0x08);
    (low_u8(u32_bits(field, 24, 32)) as u16) << 8 | (low_u8(u32_bits(field, 16, 24)) as u16)
}

/// The MSI-X capability record of function `addr`: the first record of its
/// capability list with the MSI-X identifier.
pub open spec fn msix_capability_of<C: PciInterface>(s: C::State, addr: PCIAddress) -> Option<
    Capability,
> {
    first_with_id(capabilities_of::<C>(s, addr), CapabilityId::MsiX)
}

/// What locating the MSI-X table of function `addr` does in state `s`: the
/// state it leaves and what it returns.
///
/// Without an MSI-X capability nothing is written and there is no table.
/// Otherwise MSI-X is enabled unless it already is, the table word and the
/// message control are read, and the BAR that the table word names is
/// queried.
pub open spec fn msix_table_query<C: PciInterface>(s: C::State, addr: PCIAddress) -> (
    C::State,
    Result<Option<MsiXTableRegion>, MsiXTableError>,
) {
    match msix_capability_of::<C>(s, addr) {
        None => (s, Ok(None)),
        Some(cap) => {
            let offset = cap.offset as u32;
            let enabled = with_msix_enabled::<C>(s, addr, offset);
            let table_word = C::read_state(enabled, addr, (offset + 4) as u32);
            let control_word = C::read_state(enabled, addr, offset);
            let table_bar = bar_query::<C>(enabled, addr, bir_in(table_word));
            (
                table_bar.0,
                table_region(
                    table_bar.1,
                    table_offset_in(table_word),
                    table_size_in(control_word),
                ),
            )
        },
    }
}

/// The line that describes a device: its address, then the names of vendor
/// and device, or both identifiers in hexadecimal where the names are not
/// known.
pub open spec fn device_text(
    addr: PCIAddress,
    vendor: VendorId,
    device: DeviceId,
    names: Option<PciDeviceInfo>,
) -> Seq<char> {
    address_text(addr) + ": "@ + match names {
        Some(names) => names.vendor_name@ + " "@ + names.device_name@,
        None => "Unknown[0x"@ + lower_hex(vendor as nat) + "] Unknown[0x"@ + lower_hex(
            device as nat,
        ) + "]"@,
    }
}

/// A PCI function that answered when it was probed.
#[derive(Debug)]
pub struct PciDevice {
    header: PCIHeader,
}

impl PciDevice {
    /// The address of the function.
    pub closed spec fn address(&self) -> PCIAddress {
        self.header.address()
    }

    /// The word at byte `offset` of the function's configuration space.
    pub open spec fn register<C: PciInterface>(&self, io: &C, offset: u32) -> u32 {
        C::read_state(io.state(), self.address(), offset)
    }

    /// The function at the given address, if one answers there.
    pub fn new<C: PciInterface>(io: &C, bus: u8, device: u8, function: u8) -> (found: Option<
        Self,
    >)
        requires
            device <= 31,
            function <= 7,
        ensures
            found.is_some() == is_present::<C>(
                io.state(),
                PCIAddress { bus, dev: device, fun: function },
            ),
            found.is_some() ==> found.unwrap().address() == (PCIAddress {
                bus,
                dev: device,
                fun: function,
            }),
    {
        match PCIHeader::new(io, bus, device, function) {
            Some(header) => Some(PciDevice { header }),
            None => None,
        }
    }

    pub fn pci_address(&self) -> (addr: PCIAddress)
        ensures
            addr == self.address(),
            addr.wf(),
    {
        self.header.pci_address()
    }

    /// The header layout: bits 16..23 of the word at offset `0x0c`.
    pub fn device_type<C: PciInterface>(&self, io: &C) -> (layout: PciDeviceType)
        ensures
            layout == PciDeviceType::from_header_word(self.register(io, 0x0c)),
    {
        let header = io.read(self.header.pci_address(), 0x0c);

        match get_bits_u32(header, 16, 23) {
            0x00 => PciDeviceType::Endpoint,
            0x01 => PciDeviceType::PciBridge,
            _ => PciDeviceType::Unknown,
        }
    }

    /// The register block behind an MSI-X capability record.
    pub fn get_cap_region_mut<'s>(&'s mut self, cap: Capability) -> (region: CapabilityType<'s>)
        requires
            cap.id == CapabilityId::MsiX,
        ensures
            region matches CapabilityType::MsiX(msix) && msix.address() == old(self).address()
                && msix.cap_offset() == cap.offset && msix.wf(),
            *final(self) == *old(self),
    {
        CapabilityType::MsiX(MsiX::new(&self.header, cap.offset as u32))
    }

    /// The MSI-X capability of the device, if its capability list has one.
    pub fn get_msix_config<'s, C: PciInterface>(&'s mut self, io: &C) -> (config: Option<MsiX<'s>>)
        ensures
            *final(self) == *old(self),
            match msix_capability_of::<C>(io.state(), old(self).address()) {
                Some(cap) => config matches Some(msix) && msix.address() == old(self).address()
                    && msix.cap_offset() == cap.offset && msix.wf(),
                None => config.is_none(),
            },
    {
        let found = self.capabilities(io).find(io, CapabilityId::MsiX);
        match found {
            Some(cap) => Some(MsiX::new(&self.header, cap.offset as u32)),
            None => None,
        }
    }

    /// Locates the MSI-X table of the device in physical memory, enabling
    /// MSI-X on the way if it is not enabled yet.
    ///
    /// Returns `Ok(None)` for a device without an MSI-X capability, and an
    /// error with the outcome of the BAR query when the BAR that holds the
    /// table cannot be used. The table has one entry more than the
    /// table-size field of the message control says.
    pub fn msix_irq_table_region<C: PciInterface>(&mut self, io: &mut C) -> (region: Result<
        Option<MsiXTableRegion>,
        MsiXTableError,
    >)
        ensures
            *final(self) == *old(self),
            region == msix_table_query::<C>(old(io).state(), old(self).address()).1,
            final(io).state() == msix_table_query::<C>(old(io).state(), old(self).address()).0,
            region matches Ok(Some(found)) ==> msix_capability_of::<C>(
                old(io).state(),
                old(self).address(),
            ) matches Some(cap) && found.entries == table_size_in(
                C::read_state(
                    with_msix_enabled::<C>(old(io).state(), old(self).address(), cap.offset as u32),
                    old(self).address(),
                    cap.offset as u32,
                ),
            ) + 1,
    {
        let config = self.get_msix_config(io);
        match config {
            None => Ok(None),
            Some(mut msi) => {
                if !msi.enabled(io) {
                    msi.enable(io);
                }
                let table_bar = msi.bir(io);
                let table_offset = msi.table_offset(io);
                let table_size = msi.table_size(io);
                let bar = self.try_bar(io, table_bar);
                MsiXTableRegion::locate(bar, table_offset, table_size)
            },
        }
    }

    /// The vendor identifier: the low half of the word at offset `0x00`.
    pub fn vendor_id<C: PciInterface>(&self, io: &C) -> (id: VendorId)
        ensures
            id == low_u16(self.register(io, 0x00)),
    {
        lower_half(io.read(self.header.pci_address(), 0x00))
    }

    /// The device identifier: the upper half of the word at offset `0x00`.
    pub fn device_id<C: PciInterface>(&self, io: &C) -> (id: DeviceId)
        ensures
            id == high_u16(self.register(io, 0x00)),
    {
        upper_half(io.read(self.header.pci_address(), 0x00))
    }

    /// Whether the device may start transactions: bit 2 of the command
    /// register.
    pub fn is_bus_master<C: PciInterface>(&self, io: &C) -> (master: bool)
        ensures
            master == u32_bit(self.register(io, 0x04), 2),
    {
        get_bit_u32(io.read(self.header.pci_address(), 0x04), 2)
    }

    /// Sets bit 2 of the command register and writes the other bits of its
    /// word back as read.
    pub fn enable_bus_mastering<C: PciInterface>(&mut self, io: &mut C)
        ensures
            *final(self) == *old(self),
            final(io).state() == C::write_state(
                old(io).state(),
                old(self).address(),
                0x04,
                u32_with_bit(C::read_state(old(io).state(), old(self).address(), 0x04), 2, true),
            ),
    {
        let command = set_bit_u32(io.read(self.header.pci_address(), 0x04), 2, true);
        io.write(self.header.pci_address(), 0x04, command);
    }

    /// Decodes base-address register `index`, or says why it cannot be
    /// decoded; `Ok(None)` is a register that is not in use.
    ///
    /// The size of the region is found by writing all ones to the register
    /// and reading back; the register is restored at once, and so is the
    /// upper register of a 64-bit pair.
    pub fn try_bar<C: PciInterface>(&mut self, io: &mut C, index: u8) -> (outcome: Result<
        Option<Bar>,
        BarError,
    >)
        ensures
            *final(self) == *old(self),
            outcome == bar_query::<C>(old(io).state(), old(self).address(), index).1,
            final(io).state() == bar_query::<C>(old(io).state(), old(self).address(), index).0,
    {
        let addr = self.header.pci_address();
        let limit: u8 = match self.device_type(io) {
            PciDeviceType::Endpoint => 6,
            PciDeviceType::PciBridge => 2,
            PciDeviceType::Unknown => {
                return Ok(None);
            },
        };
        if index >= limit {
            return Err(BarError::IndexOutOfRange);
        }
        let offset: u32 = 0x10 + (index as u32) * 4;
        let base = io.read(addr, offset);
        let bartype_is_io = get_bit_u32(base, 0);

        if !bartype_is_io {
            let locatable = get_bits_u32(base, 1, 3);

            let size_encoded = probe_size(io, addr, offset, base);

            if size_encoded == 0x0 {
                return Ok(None);
            }
            match locatable {
                // 32-bit address
                0 => match Bar::decode_memory32(base, size_encoded) {
                    Ok(bar) => Ok(Some(bar)),
                    Err(e) => Err(e),
                },
                // 64-bit address
                2 => {
                    let next_offset = offset + 4;
                    let next_bar = io.read(addr, next_offset);

                    // Size for 64-bit Memory Space BARs:
                    let msb_size_encoded = probe_size(io, addr, next_offset, next_bar);
                    match Bar::decode_memory64(base, next_bar, size_encoded, msb_size_encoded) {
                        Ok(bar) => Ok(Some(bar)),
                        Err(e) => Err(e),
                    }
                },
                _ => Err(BarError::UnsupportedLocatable(lowest_byte(locatable))),
            }
        } else {
            Err(BarError::IoSpace)
        }
    }

    /// Decodes base-address register `index`; `None` is a register that is
    /// not in use, or any register of a header of unknown layout.
    ///
    /// The register must exist in the header's layout, map memory, and hold
    /// a type and a size that can be decoded.
    pub fn bar<C: PciInterface>(&mut self, io: &mut C, index: u8) -> (bar: Option<Bar>)
        requires
            bar_query::<C>(old(io).state(), old(self).address(), index).1.is_ok(),
        ensures
            *final(self) == *old(self),
            Ok::<Option<Bar>, BarError>(bar) == bar_query::<C>(
                old(io).state(),
                old(self).address(),
                index,
            ).1,
            final(io).state() == bar_query::<C>(old(io).state(), old(self).address(), index).0,
    {
        match self.try_bar(io, index) {
            Ok(bar) => bar,
            Err(_) => vstd::pervasive::unreached(),
        }
    }

    /// The status register: the upper half of the word at offset `0x04`.
    pub fn status<C: PciInterface>(&self, io: &C) -> (status: u16)
        ensures
            status == high_u16(self.register(io, 0x4)),
    {
        upper_half(io.read(self.header.pci_address(), 0x4))
    }

    /// Offset to capability pointer
    pub fn capabilities_pointer<C: PciInterface>(&self, io: &C) -> (pointer: Option<u8>)
        ensures
            pointer == capabilities_pointer_of::<C>(io.state(), self.address()),
    {
        let cap_ptr = lowest_byte(get_bits_u32(io.read(self.header.pci_address(), 0x34), 0, 8));
        if get_bit_u16(self.status(io), 4) && cap_ptr != 0x0 {
            Some(cap_ptr)
        } else {
            None
        }
    }

    /// A walk along the capability list of the device.
    pub fn capabilities<'s, C: PciInterface>(&'s self, io: &C) -> (iter: CapabilitiesIter<'s>)
        ensures
            iter.address() == self.address(),
            iter.cursor() == match capabilities_pointer_of::<C>(io.state(), self.address()) {
                Some(pointer) => pointer,
                None => 0,
            },
            iter.pending::<C>(io.state()) == capabilities_of::<C>(io.state(), self.address()),
    {
        match self.capabilities_pointer(io) {
            Some(cap_ptr) => CapabilitiesIter::new(&self.header, cap_ptr),
            None => CapabilitiesIter::new(&self.header, 0x0),
        }
    }

    /// Revision, base class, sub class and programming interface: the four
    /// bytes of the word at offset `0x08`, from the lowest byte, the
    /// highest, the second highest and the second lowest.
    pub fn revision_and_class<C: PciInterface>(&self, io: &C) -> (fields: (
        DeviceRevision,
        BaseClass,
        SubClass,
        Interface,
    ))
        ensures
            fields.0 == low_u8(u32_bits(self.register(io, 0x08), 0, 8)),
            fields.1 == low_u8(u32_bits(self.register(io, 0x08), 24, 32)),
            fields.2 == low_u8(u32_bits(self.register(io, 0x08), 16, 24)),
            fields.3 == low_u8(u32_bits(self.register(io, 0x08), 8, 16)),
    {
        let field = io.read(self.header.pci_address(), 0x08);
        (
            lowest_byte(get_bits_u32(field, 0, 8)),
            lowest_byte(get_bits_u32(field, 24, 32)),
            lowest_byte(get_bits_u32(field, 16, 24)),
            lowest_byte(get_bits_u32(field, 8, 16)),
        )
    }

    /// The device class that base class and sub class name.
    pub fn device_class<C: PciInterface>(&self, io: &C) -> (class: ClassCode)
        ensures
            class == ClassCode::from_code(class_code_of::<C>(io.state(), self.address())),
    {
        let (_revision, base_class, sub_class, _interface) = self.revision_and_class(io);
        let class: u16 = (base_class as u16) << 8 | (sub_class as u16);
        ClassCode::from(class)
    }

    /// The names of the device, if the table `devices` knows its vendor and
    /// device identifiers.
    pub fn info<'a, C: PciInterface>(
        &self,
        io: &C,
        devices: &'a HashMap<u32, PciDeviceInfo>,
    ) -> (names: Option<&'a PciDeviceInfo>)
        ensures
            names.is_some() == devices@.contains_key(
                key_of(low_u16(self.register(io, 0x00)), high_u16(self.register(io, 0x00))),
            ),
            names.is_some() ==> *names.unwrap() == devices@[key_of(
                low_u16(self.register(io, 0x00)),
                high_u16(self.register(io, 0x00)),
            )],
    {
        broadcast use vstd::std_specs::hash::group_hash_axioms;

        let key = make_key(self.vendor_id(io), self.device_id(io));
        devices.get(&key)
    }

    /// The line that describes the device: its address, then the names of
    /// vendor and device from the table `devices`, or both identifiers in
    /// hexadecimal where the table does not know them.
    pub fn describe<C: PciInterface>(
        &self,
        io: &C,
        devices: &HashMap<u32, PciDeviceInfo>,
    ) -> (text: String)
        ensures
            text@ == device_text(
                self.address(),
                low_u16(self.register(io, 0x00)),
                high_u16(self.register(io, 0x00)),
                devices@.get(
                    key_of(low_u16(self.register(io, 0x00)), high_u16(self.register(io, 0x00))),
                ),
            ),
    {
        let mut text = self.header.pci_address().to_text();
        text.append(": ");
        match self.info(io, devices) {
            Some(dev_info) => {
                text.append(dev_info.vendor_name);
                text.append(" ");
                text.append(dev_info.device_name);
            },
            None => {
                text.append("Unknown[0x");
                push_lower_hex(&mut text, self.vendor_id(io));
                text.append("] Unknown[0x");
                push_lower_hex(&mut text, self.device_id(io));
                text.append("]");
            },
        }
        assert(text@ =~= device_text(
            self.address(),
            low_u16(self.register(io, 0x00)),
            high_u16(self.register(io, 0x00)),
            devices@.get(
                key_of(low_u16(self.register(io, 0x00)), high_u16(self.register(io, 0x00))),
            ),
        ));
        text
    }
}

} // verus!
