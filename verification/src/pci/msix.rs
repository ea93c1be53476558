//! The MSI-X capability: message control, table and pending-bit locations.

use crate::pci::access::{latches, lemma_latches_after_write, lemma_latches_now, reads_back};
use crate::pci::access::{ConfigWrite, PciInterface};
use crate::pci::address::PCIAddress;
use crate::pci::bar::{Bar, BarError};
use crate::pci::bits::{get_bit_u16, get_bits_u16, high_u16, low_u8, lowest_byte, set_bit_u16};
use crate::pci::bits::{u16_bit, u16_bits, u16_with_bit, upper_half};
use crate::pci::capability::CapabilityId;
use crate::pci::header::PCIHeader;
use vstd::prelude::*;

verus! {

/// The size in bytes of one entry of an MSI-X table.
pub const MSIX_TABLE_ENTRY_SIZE: usize = 16;

/// Whether the message-control word in the upper half of `word` has MSI-X
/// enabled (bit 15).
pub open spec fn enabled_in(word: u32) -> bool {
    u16_bit(high_u16(word), 15)
}

/// Whether the message-control word in the upper half of `word` masks the
/// whole function (bit 14).
pub open spec fn function_mask_in(word: u32) -> bool {
    u16_bit(high_u16(word), 14)
}

/// The table-size field (bits 0..10) of the message-control word in the
/// upper half of `word`: the number of table entries less one.
pub open spec fn table_size_in(word: u32) -> usize {
    u16_bits(high_u16(word), 0, 10) as usize
}

/// The BAR indicator in the low three bits of a table or pending-bit word.
pub open spec fn bir_in(word: u32) -> u8 {
    low_u8(word & 0b111)
}

/// The byte offset in a table or pending-bit word: the word without its
/// low three bits.
pub open spec fn table_offset_in(word: u32) -> u32 {
    word & !0b111u32
}

/// The first word of the capability with MSI-X enabled in its message
/// control and its lower half as it was.
pub open spec fn enable_word(word: u32) -> u32 {
    (word & 0xFFFF) | ((u16_with_bit(high_u16(word), 15, true) as u32) << 16)
}

/// The state after enabling MSI-X in the capability at `offset`.
pub open spec fn enable_state<C: PciInterface>(s: C::State, addr: PCIAddress, offset: u32)
    -> C::State {
    C::write_state(s, addr, offset, enable_word(C::read_state(s, addr, offset)))
}

/// The state in which MSI-X is enabled in the capability at `offset`: `s`
/// itself where it already is, else the state after enabling it.
pub open spec fn with_msix_enabled<C: PciInterface>(s: C::State, addr: PCIAddress, offset: u32)
    -> C::State {
    if enabled_in(C::read_state(s, addr, offset)) {
        s
    } else {
        enable_state::<C>(s, addr, offset)
    }
}

/// The MSI-X capability of a device, borrowed from it.
#[derive(Debug)]
pub struct MsiX<'s> {
    /// A reference to the device's PCI header.
    header: &'s PCIHeader,
    /// The offset where the MSI-X config is located within the PCI header.
    pub offset: u32,
}

impl<'s> MsiX<'s> {
    /// The function that the capability belongs to.
    pub closed spec fn address(&self) -> PCIAddress {
        self.header.address()
    }

    /// The offset of the capability within configuration space.
    pub closed spec fn cap_offset(&self) -> u32 {
        self.offset
    }

    /// A capability lies within the 256 bytes that an 8-bit offset reaches.
    pub open spec fn wf(&self) -> bool {
        self.cap_offset() <= 0xFF
    }

    /// The first word of the capability in state `s`.
    pub open spec fn control_word<C: PciInterface>(&self, s: C::State) -> u32 {
        C::read_state(s, self.address(), self.cap_offset())
    }

    /// The table word of the capability in state `s`.
    pub open spec fn table_word<C: PciInterface>(&self, s: C::State) -> u32 {
        C::read_state(s, self.address(), (self.cap_offset() + 4) as u32)
    }

    /// The pending-bit word of the capability in state `s`.
    pub open spec fn pending_word<C: PciInterface>(&self, s: C::State) -> u32 {
        C::read_state(s, self.address(), (self.cap_offset() + 8) as u32)
    }

    /// The MSI-X capability at `offset` of the function of `header`.
    pub(crate) fn new(header: &'s PCIHeader, offset: u32) -> (msix: Self)
        ensures
            msix.address() == header.address(),
            msix.cap_offset() == offset,
    {
        MsiX { header, offset }
    }

    /// The message-control word: the upper half of the capability's first
    /// word.
    pub fn message_control<C: PciInterface>(&self, io: &C) -> (control: u16)
        ensures
            control == high_u16(self.control_word::<C>(io.state())),
    {
        upper_half(io.read(self.header.pci_address(), self.offset))
    }

    pub fn enabled<C: PciInterface>(&self, io: &C) -> (enabled: bool)
        ensures
            enabled == enabled_in(self.control_word::<C>(io.state())),
    {
        get_bit_u16(self.message_control(io), 15)
    }

    /// Sets the enable bit of the message control; the lower half of the
    /// capability's first word is written back as read.
    pub fn enable<C: PciInterface>(&mut self, io: &mut C)
        ensures
            *final(self) == *old(self),
            final(io).state() == enable_state::<C>(
                old(io).state(),
                old(self).address(),
                old(self).cap_offset(),
            ),
    {
        let ctrl = set_bit_u16(self.message_control(io), 15, true);

        let mut hdr = io.read(self.header.pci_address(), self.offset);
        hdr = (hdr & 0xFFFF) | ((ctrl as u32) << 16);
        io.write(self.header.pci_address(), self.offset, hdr);
    }

    pub fn function_mask<C: PciInterface>(&self, io: &C) -> (masked: bool)
        ensures
            masked == function_mask_in(self.control_word::<C>(io.state())),
    {
        get_bit_u16(self.message_control(io), 14)
    }

    /// Table Size is N - 1 encoded, and is the number of entries in the MSI-X
    /// table.
    ///
    /// This field is Read-Only.
    pub fn table_size<C: PciInterface>(&self, io: &C) -> (size: usize)
        ensures
            size == table_size_in(self.control_word::<C>(io.state())),
            size <= 0x3FF,
    {
        let control = self.message_control(io);
        proof {
            assert(u16_bits(control, 0, 10) <= 0x3FF) by (bit_vector);
        }
        get_bits_u16(control, 0, 10) as usize
    }

    /// BIR specifies which BAR is used for the Message Table.
    ///
    /// This may be a 64-bit BAR, and is zero-indexed (so BIR=0, BAR0, offset
    /// 0x10 into the header).
    pub fn bir<C: PciInterface>(&self, io: &C) -> (bir: u8)
        requires
            self.wf(),
        ensures
            bir == bir_in(self.table_word::<C>(io.state())),
            bir <= 7,
    {
        let word = io.read(self.header.pci_address(), self.offset + 4);
        proof {
            assert(((word & 0b111) & 0xFF) <= 7) by (bit_vector);
        }
        lowest_byte(word & 0b111)
    }

    /// Table Offset is an offset into that BAR where the Message Table lives.
    ///
    /// Note that it is 8-byte aligned.
    pub fn table_offset<C: PciInterface>(&self, io: &C) -> (offset: u32)
        requires
            self.wf(),
        ensures
            offset == table_offset_in(self.table_word::<C>(io.state())),
            offset % 8 == 0,
    {
        let word = io.read(self.header.pci_address(), self.offset + 4);
        proof {
            assert((word & !0b111u32) % 8 == 0) by (bit_vector);
        }
        word & !0b111
    }

    /// BIR specifies which BAR is used for the Pending Bit Array.
    pub fn pending_bit_bir<C: PciInterface>(&self, io: &C) -> (bir: u8)
        requires
            self.wf(),
        ensures
            bir == bir_in(self.pending_word::<C>(io.state())),
            bir <= 7,
    {
        let word = io.read(self.header.pci_address(), self.offset + 8);
        proof {
            assert(((word & 0b111) & 0xFF) <= 7) by (bit_vector);
        }
        lowest_byte(word & 0b111)
    }

    /// The offset into that BAR where the Pending Bit Array lives.
    ///
    /// Note that it is 8-byte aligned.
    pub fn pending_bit_table_offset<C: PciInterface>(&self, io: &C) -> (offset: u32)
        requires
            self.wf(),
        ensures
            offset == table_offset_in(self.pending_word::<C>(io.state())),
            offset % 8 == 0,
    {
        let word = io.read(self.header.pci_address(), self.offset + 8);
        proof {
            assert((word & !0b111u32) % 8 == 0) by (bit_vector);
        }
        word & !0b111
    }
}

/// The register block that a capability record gives access to.
pub enum CapabilityType<'s> {
    MsiX(MsiX<'s>),
    Unknown(CapabilityId),
}

/// One entry of an MSI-X table: 8 bytes of message address, 4 bytes of
/// message data and 4 bytes of vector control, in this order and without
/// padding.
#[derive(Debug, Clone, Copy, PartialEq, Eq, Structural)]
pub struct MsiXTableEntry {
    pub addr: u64,
    pub data: u32,
    pub vector_control: u32,
}

/// Where the MSI-X table of a device lies in physical memory.
#[derive(Debug, Clone, Copy, PartialEq, Eq, Structural)]
pub struct MsiXTableRegion {
    /// The physical address of the first entry.
    pub address: u64,
    /// The number of entries.
    pub entries: usize,
}

/// Why the MSI-X table of a device cannot be located.
#[derive(Debug, Clone, Copy, PartialEq, Eq, Structural)]
pub enum MsiXTableError {
    /// The BAR that the table's BAR indicator names cannot be decoded.
    Bar(BarError),
    /// The BAR that the table's BAR indicator names is not in use.
    BarUnused,
    /// The table offset leads past the end of the 64-bit address space.
    AddressOverflow,
}

/// The table region for the outcome `bar` of querying the table's BAR, the
/// table's byte offset and the table-size field.
pub open spec fn table_region(
    bar: Result<Option<Bar>, BarError>,
    table_offset: u32,
    table_size: usize,
) -> Result<Option<MsiXTableRegion>, MsiXTableError> {
    match bar {
        Err(e) => Err(MsiXTableError::Bar(e)),
        Ok(None) => Err(MsiXTableError::BarUnused),
        Ok(Some(bar)) => if bar.address + table_offset > u64::MAX {
            Err(MsiXTableError::AddressOverflow)
        } else {
            Ok(
                Some(
                    MsiXTableRegion {
                        address: (bar.address + table_offset) as u64,
                        entries: (table_size + 1) as usize,
                    },
                ),
            )
        },
    }
}

impl MsiXTableRegion {
    /// Locates the table from the outcome `bar` of querying the table's BAR,
    /// the table's byte offset in that BAR and the table-size field: the
    /// table starts `table_offset` bytes into the BAR and has one entry more
    /// than the field says.
    pub fn locate(
        bar: Result<Option<Bar>, BarError>,
        table_offset: u32,
        table_size: usize,
    ) -> (region: Result<Option<MsiXTableRegion>, MsiXTableError>)
        requires
            table_size < usize::MAX,
        ensures
            region == table_region(bar, table_offset, table_size),
            region matches Ok(Some(found)) ==> found.entries == table_size + 1,
    {
        match bar {
            Err(e) => Err(MsiXTableError::Bar(e)),
            Ok(None) => Err(MsiXTableError::BarUnused),
            Ok(Some(bar)) => match bar.address.checked_add(table_offset as u64) {
                Some(address) => Ok(Some(MsiXTableRegion { address, entries: table_size + 1 })),
                None => Err(MsiXTableError::AddressOverflow),
            },
        }
    }
}

/// Enabling MSI-X sets bit 31 of the capability's first word and nothing
/// else.
pub proof fn lemma_enable_word(word: u32)
    ensures
        enable_word(word) == word | 0x8000_0000,
        enabled_in(word | 0x8000_0000),
        table_size_in(word | 0x8000_0000) == table_size_in(word),
        function_mask_in(word | 0x8000_0000) == function_mask_in(word),
{
    assert(enable_word(word) == word | 0x8000_0000) by (bit_vector);
    assert(enabled_in(word | 0x8000_0000)) by (bit_vector);
    assert(u16_bits(high_u16(word | 0x8000_0000), 0, 10) == u16_bits(high_u16(word), 0, 10))
        by (bit_vector);
    assert(function_mask_in(word | 0x8000_0000) == function_mask_in(word)) by (bit_vector);
}

/// Enabling MSI-X twice is enabling it once: after either call the enable
/// bit is set, and table size, BAR indicator and table offset are what they
/// were. This holds where the capability's first word latches and its
/// enable bit can be written.
pub proof fn lemma_enable_twice<C: PciInterface>(
    s: C::State,
    addr: PCIAddress,
    offset: u32,
    writable: u32,
)
    requires
        offset <= 0xFF,
        latches::<C>(s, addr, offset, writable),
        writable & 0x8000_0000 != 0,
    ensures
        ({
            let once = enable_state::<C>(s, addr, offset);
            let twice = enable_state::<C>(once, addr, offset);
            let table = (offset + 4) as u32;
            &&& enabled_in(C::read_state(once, addr, offset))
            &&& enabled_in(C::read_state(twice, addr, offset))
            &&& C::read_state(twice, addr, offset) == C::read_state(once, addr, offset)
            &&& table_size_in(C::read_state(twice, addr, offset)) == table_size_in(
                C::read_state(s, addr, offset),
            )
            &&& bir_in(C::read_state(twice, addr, table)) == bir_in(C::read_state(s, addr, table))
            &&& table_offset_in(C::read_state(twice, addr, table)) == table_offset_in(
                C::read_state(s, addr, table),
            )
        }),
{
    let table = (offset + 4) as u32;
    let before = C::read_state(s, addr, offset);
    let first = enable_word(before);
    let once = enable_state::<C>(s, addr, offset);
    let after_once = C::read_state(once, addr, offset);
    let second = enable_word(after_once);
    let twice = enable_state::<C>(once, addr, offset);
    let after_twice = C::read_state(twice, addr, offset);
    lemma_enable_word(before);
    lemma_enable_word(after_once);
    lemma_latches_now::<C>(s, addr, offset, writable, first);
    lemma_latches_after_write::<C>(
        s,
        addr,
        offset,
        writable,
        ConfigWrite { addr, offset, value: first },
    );
    lemma_latches_now::<C>(once, addr, offset, writable, second);
    assert(reads_back::<C>(s, addr, offset, writable, first));
    assert(reads_back::<C>(once, addr, offset, writable, second));
    assert(after_once == before | 0x8000_0000 && after_twice == after_once) by (bit_vector)
        requires
            writable & 0x8000_0000 != 0,
            after_once == ((before | 0x8000_0000) & writable) | (before & !writable),
            after_twice == ((after_once | 0x8000_0000) & writable) | (after_once & !writable),
    ;
    C::write_is_local(s, addr, offset, first, addr, table);
    C::write_is_local(once, addr, offset, second, addr, table);
}

} // verus!
