//! The capability list of a function: a chain of records linked by 8-bit
//! offsets inside configuration space.

use crate::pci::access::PciInterface;
use crate::pci::address::PCIAddress;
use crate::pci::bits::{get_bits_u32, high_u16, low_u8, lowest_byte, u16_bit, u32_bits};
use crate::pci::header::PCIHeader;
use vstd::prelude::*;

verus! {

/// The identifier of a capability.
#[derive(Debug, Clone, Copy, PartialEq, Eq, Structural)]
pub enum CapabilityId {
    /// Null Capability
    ///
    /// This capability contains no registers other than those described below.
    /// It may be present in any Function. Functions may contain multiple
    /// instances of this capability. The Null Capability is 16 bits and
    /// contains an 8-bit Capability ID followed by an 8-bit Next Capability
    /// Pointer.
    Null,
    /// PCI Power Management Interface
    PowerManagement,
    /// Accelerated Graphics Port
    Agp,
    /// Vital Product Data
    Vdp,
    /// Slot Identification: a bridge that provides external expansion
    /// capabilities.
    SlotIdent,
    /// Message Signaled Interrupts
    Msi,
    /// CompactPCI Hot Swap
    CompactPci,
    /// PCI-X
    PciX,
    /// HyperTransport
    HyperTransport,
    /// Vendor Specific: the byte after the next pointer is the length of the
    /// structure; the rest is up to the vendor.
    VendorSpecific,
    /// Debug port
    DebugPort,
    /// CompactPCI central resource control
    CompactPCI,
    /// PCI Hot-Plug: the device conforms to the Standard Hot-Plug Controller
    /// model.
    HotPlug,
    /// PCI Bridge Subsystem Vendor ID
    BridgeSubsystemVendor,
    /// AGP 8x
    Agp8,
    /// Secure Device
    SecureDevice,
    /// PCI Express
    PCIExpress,
    /// MSI-X: an optional extension to the basic MSI functionality.
    MsiX,
    /// Serial ATA Data/Index Configuration
    SerialAtaConfiguration,
    /// Advanced Features (AF)
    AdvancedFeatures,
    /// Enhanced Allocation
    EnhancedAllocation,
    /// Flattening Portal Bridge
    FlatteningPortalBridge,
    /// Reserved: any identifier without a name of its own, kept as read.
    Unknown(u8),
}

impl CapabilityId {
    /// The capability that the identifier byte `capid` names.
    pub open spec fn from_code(capid: u8) -> CapabilityId {
        if capid == 0x00 {
            CapabilityId::Null
        } else if capid == 0x01 {
            CapabilityId::PowerManagement
        } else if capid == 0x02 {
            CapabilityId::Agp
        } else if capid == 0x03 {
            CapabilityId::Vdp
        } else if capid == 0x04 {
            CapabilityId::SlotIdent
        } else if capid == 0x05 {
            CapabilityId::Msi
        } else if capid == 0x06 {
            CapabilityId::CompactPci
        } else if capid == 0x07 {
            CapabilityId::PciX
        } else if capid == 0x08 {
            CapabilityId::HyperTransport
        } else if capid == 0x09 {
            CapabilityId::VendorSpecific
        } else if capid == 0x0A {
            CapabilityId::DebugPort
        } else if capid == 0x0B {
            CapabilityId::CompactPCI
        } else if capid == 0x0C {
            CapabilityId::HotPlug
        } else if capid == 0x0D {
            CapabilityId::BridgeSubsystemVendor
        } else if capid == 0x0E {
            CapabilityId::Agp8
        } else if capid == 0x0F {
            CapabilityId::SecureDevice
        } else if capid == 0x10 {
            CapabilityId::PCIExpress
        } else if capid == 0x11 {
            CapabilityId::MsiX
        } else if capid == 0x12 {
            CapabilityId::SerialAtaConfiguration
        } else if capid == 0x13 {
            CapabilityId::AdvancedFeatures
        } else if capid == 0x14 {
            CapabilityId::EnhancedAllocation
        } else if capid == 0x15 {
            CapabilityId::FlatteningPortalBridge
        } else {
            CapabilityId::Unknown(capid)
        }
    }

    /// The identifier byte of a capability.
    pub open spec fn spec_code(self) -> u8 {
        match self {
            CapabilityId::Null => 0x00,
            CapabilityId::PowerManagement => 0x01,
            CapabilityId::Agp => 0x02,
            CapabilityId::Vdp => 0x03,
            CapabilityId::SlotIdent => 0x04,
            CapabilityId::Msi => 0x05,
            CapabilityId::CompactPci => 0x06,
            CapabilityId::PciX => 0x07,
            CapabilityId::HyperTransport => 0x08,
            CapabilityId::VendorSpecific => 0x09,
            CapabilityId::DebugPort => 0x0A,
            CapabilityId::CompactPCI => 0x0B,
            CapabilityId::HotPlug => 0x0C,
            CapabilityId::BridgeSubsystemVendor => 0x0D,
            CapabilityId::Agp8 => 0x0E,
            CapabilityId::SecureDevice => 0x0F,
            CapabilityId::PCIExpress => 0x10,
            CapabilityId::MsiX => 0x11,
            CapabilityId::SerialAtaConfiguration => 0x12,
            CapabilityId::AdvancedFeatures => 0x13,
            CapabilityId::EnhancedAllocation => 0x14,
            CapabilityId::FlatteningPortalBridge => 0x15,
            CapabilityId::Unknown(capid) => capid,
        }
    }

    /// The identifier byte of this capability.
    pub fn code(self) -> (capid: u8)
        ensures
            capid == self.spec_code(),
    {
        match self {
            CapabilityId::Null => 0x00,
            CapabilityId::PowerManagement => 0x01,
            CapabilityId::Agp => 0x02,
            CapabilityId::Vdp => 0x03,
            CapabilityId::SlotIdent => 0x04,
            CapabilityId::Msi => 0x05,
            CapabilityId::CompactPci => 0x06,
            CapabilityId::PciX => 0x07,
            CapabilityId::HyperTransport => 0x08,
            CapabilityId::VendorSpecific => 0x09,
            CapabilityId::DebugPort => 0x0A,
            CapabilityId::CompactPCI => 0x0B,
            CapabilityId::HotPlug => 0x0C,
            CapabilityId::BridgeSubsystemVendor => 0x0D,
            CapabilityId::Agp8 => 0x0E,
            CapabilityId::SecureDevice => 0x0F,
            CapabilityId::PCIExpress => 0x10,
            CapabilityId::MsiX => 0x11,
            CapabilityId::SerialAtaConfiguration => 0x12,
            CapabilityId::AdvancedFeatures => 0x13,
            CapabilityId::EnhancedAllocation => 0x14,
            CapabilityId::FlatteningPortalBridge => 0x15,
            CapabilityId::Unknown(capid) => capid,
        }
    }
}

impl From<u8> for CapabilityId {
    fn from(capid: u8) -> (id: Self) {
        match capid {
            0x00 => CapabilityId::Null,
            0x01 => CapabilityId::PowerManagement,
            0x02 => CapabilityId::Agp,
            0x03 => CapabilityId::Vdp,
            0x04 => CapabilityId::SlotIdent,
            0x05 => CapabilityId::Msi,
            0x06 => CapabilityId::CompactPci,
            0x07 => CapabilityId::PciX,
            0x08 => CapabilityId::HyperTransport,
            0x09 => CapabilityId::VendorSpecific,
            0x0A => CapabilityId::DebugPort,
            0x0B => CapabilityId::CompactPCI,
            0x0C => CapabilityId::HotPlug,
            0x0D => CapabilityId::BridgeSubsystemVendor,
            0x0E => CapabilityId::Agp8,
            0x0F => CapabilityId::SecureDevice,
            0x10 => CapabilityId::PCIExpress,
            0x11 => CapabilityId::MsiX,
            0x12 => CapabilityId::SerialAtaConfiguration,
            0x13 => CapabilityId::AdvancedFeatures,
            0x14 => CapabilityId::EnhancedAllocation,
            0x15 => CapabilityId::FlatteningPortalBridge,
            x => CapabilityId::Unknown(x),
        }
    }
}

impl vstd::std_specs::convert::FromSpecImpl<u8> for CapabilityId {
    open spec fn obeys_from_spec() -> bool {
        true
    }

    open spec fn from_spec(capid: u8) -> CapabilityId {
        CapabilityId::from_code(capid)
    }
}

/// No identifier byte is lost: the byte of the capability that a byte names
/// is that byte, whether or not it has a name.
pub proof fn lemma_capability_id_keeps_code(capid: u8)
    ensures
        CapabilityId::from_code(capid).spec_code() == capid,
{
}

/// One record of a capability list.
#[derive(Debug, Clone, Copy, PartialEq, Eq, Structural)]
pub struct Capability {
    /// The (parsed) ID of the capability (read from bits 0..8 at offset).
    pub id: CapabilityId,
    /// The offset where the capability is located within the PCI header.
    pub offset: u8,
}

/// The most records of a capability list that a search looks at. A list
/// without a cycle holds each non-zero offset at most once, so a search
/// never stops short on it.
pub const MAX_CAPABILITIES: u8 = 255;

/// The record whose first word is `word`, found at `offset`.
pub open spec fn capability_at(word: u32, offset: u8) -> Capability {
    Capability { id: CapabilityId::from_code(low_u8(u32_bits(word, 0, 8))), offset }
}

/// The offset of the record that follows the one whose first word is `word`;
/// zero ends the list.
pub open spec fn next_pointer(word: u32) -> u8 {
    low_u8(u32_bits(word, 8, 16))
}

/// The records of the list that starts at offset `next`, in list order, cut
/// off after `budget` records.
pub open spec fn capability_chain<C: PciInterface>(
    s: C::State,
    addr: PCIAddress,
    next: u8,
    budget: nat,
) -> Seq<Capability>
    decreases budget,
{
    if next == 0 || budget == 0 {
        Seq::empty()
    } else {
        let word = C::read_state(s, addr, next as u32);
        seq![capability_at(word, next)] + capability_chain::<C>(
            s,
            addr,
            next_pointer(word),
            (budget - 1) as nat,
        )
    }
}

/// A budget that is not used up has reached the end of the list: a larger
/// budget gives the same records.
pub proof fn lemma_short_walk_is_complete<C: PciInterface>(
    s: C::State,
    addr: PCIAddress,
    next: u8,
    budget: nat,
    larger: nat,
)
    requires
        capability_chain::<C>(s, addr, next, budget).len() < budget,
        budget <= larger,
    ensures
        capability_chain::<C>(s, addr, next, larger) == capability_chain::<C>(
            s,
            addr,
            next,
            budget,
        ),
    decreases budget,
{
    if next != 0 && budget != 0 {
        let word = C::read_state(s, addr, next as u32);
        lemma_short_walk_is_complete::<C>(
            s,
            addr,
            next_pointer(word),
            (budget - 1) as nat,
            (larger - 1) as nat,
        );
    }
}

/// Every record of a list lies at a non-zero offset, and a budget gives no
/// more records than it allows.
pub proof fn lemma_walk_offsets<C: PciInterface>(
    s: C::State,
    addr: PCIAddress,
    next: u8,
    budget: nat,
)
    ensures
        capability_chain::<C>(s, addr, next, budget).len() <= budget,
        forall|i: int|
            0 <= i < capability_chain::<C>(s, addr, next, budget).len() ==> (
            #[trigger] capability_chain::<C>(s, addr, next, budget)[i]).offset != 0,
    decreases budget,
{
    if next != 0 && budget != 0 {
        let word = C::read_state(s, addr, next as u32);
        lemma_walk_offsets::<C>(s, addr, next_pointer(word), (budget - 1) as nat);
    }
}

/// One more record of budget gives one more record or changes nothing.
pub proof fn lemma_walk_grows_by_one<C: PciInterface>(
    s: C::State,
    addr: PCIAddress,
    next: u8,
    budget: nat,
)
    ensures
        capability_chain::<C>(s, addr, next, budget + 1) == capability_chain::<C>(
            s,
            addr,
            next,
            budget,
        ) || capability_chain::<C>(s, addr, next, budget + 1).len() == budget + 1,
    decreases budget,
{
    if next != 0 && budget != 0 {
        let word = C::read_state(s, addr, next as u32);
        lemma_walk_grows_by_one::<C>(s, addr, next_pointer(word), (budget - 1) as nat);
    } else if next != 0 {
        let word = C::read_state(s, addr, next as u32);
        assert(capability_chain::<C>(s, addr, next_pointer(word), 0).len() == 0);
    }
}

/// A search is cut short only on a list with a cycle: a budget above
/// [`MAX_CAPABILITIES`] gives the same records, unless two of the first
/// 256 records of the list lie at the same offset.
pub proof fn lemma_walk_is_cut_only_on_a_cycle<C: PciInterface>(
    s: C::State,
    addr: PCIAddress,
    start: u8,
    larger: nat,
)
    requires
        larger >= MAX_CAPABILITIES,
    ensures
        capability_chain::<C>(s, addr, start, larger) == capability_chain::<C>(
            s,
            addr,
            start,
            MAX_CAPABILITIES as nat,
        ) || exists|i: int, j: int|
            0 <= i < j < 256 && capability_chain::<C>(s, addr, start, 256).len() == 256 && (
            #[trigger] capability_chain::<C>(s, addr, start, 256)[i]).offset == (
            #[trigger] capability_chain::<C>(s, addr, start, 256)[j]).offset,
{
    let walk = capability_chain::<C>(s, addr, start, 256);
    lemma_walk_offsets::<C>(s, addr, start, 256);
    lemma_walk_grows_by_one::<C>(s, addr, start, 255);
    if larger == 255 {
    } else if walk.len() < 256 {
        lemma_short_walk_is_complete::<C>(s, addr, start, 256, larger);
    } else {
        let offsets = Seq::new(256, |i: int| walk[i].offset as int);
        if offsets.no_duplicates() {
            offsets.unique_seq_to_set();
            vstd::set_lib::lemma_int_range(1, 256);
            assert forall|offset: int| offsets.to_set().contains(offset) implies
                vstd::set_lib::set_int_range(1, 256).contains(offset) by {
                let i = choose|i: int| 0 <= i < 256 && offsets[i] == offset;
                assert(walk[i].offset != 0);
            }
            vstd::set_lib::lemma_len_subset(
                offsets.to_set(),
                vstd::set_lib::set_int_range(1, 256),
            );
            assert(false);
        }
        let (i, j) = choose|i: int, j: int|
            0 <= i < offsets.len() && 0 <= j < offsets.len() && i != j && offsets[i] == offsets[j];
        if i < j {
            assert(walk[i].offset == walk[j].offset);
        } else {
            assert(walk[j].offset == walk[i].offset);
        }
    }
}

/// Where the capability list of function `addr` starts: the pointer at
/// offset `0x34`, if bit 4 of the status register announces a list and the
/// pointer is not zero.
pub open spec fn capabilities_pointer_of<C: PciInterface>(s: C::State, addr: PCIAddress) -> Option<
    u8,
> {
    let pointer = low_u8(u32_bits(C::read_state(s, addr, 0x34), 0, 8));
    if u16_bit(high_u16(C::read_state(s, addr, 0x4)), 4) && pointer != 0 {
        Some(pointer)
    } else {
        None
    }
}

/// The capability list of function `addr`, as far as a search looks: its
/// first [`MAX_CAPABILITIES`] records.
pub open spec fn capabilities_of<C: PciInterface>(s: C::State, addr: PCIAddress) -> Seq<
    Capability,
> {
    match capabilities_pointer_of::<C>(s, addr) {
        Some(pointer) => capability_chain::<C>(s, addr, pointer, MAX_CAPABILITIES as nat),
        None => Seq::empty(),
    }
}

/// The first record of `caps` with identifier `id`.
pub open spec fn first_with_id(caps: Seq<Capability>, id: CapabilityId) -> Option<Capability>
    decreases caps.len(),
{
    if caps.len() == 0 {
        None
    } else if caps[0].id == id {
        Some(caps[0])
    } else {
        first_with_id(caps.drop_first(), id)
    }
}

/// Where a search for identifier `id` stops that starts at offset `next` and
/// looks at `budget` records at most: behind the first record with that
/// identifier, else at the end of the list, else where the budget ran out.
pub open spec fn search_end<C: PciInterface>(
    s: C::State,
    addr: PCIAddress,
    next: u8,
    id: CapabilityId,
    budget: nat,
) -> u8
    decreases budget,
{
    if next == 0 || budget == 0 {
        next
    } else {
        let word = C::read_state(s, addr, next as u32);
        if capability_at(word, next).id == id {
            next_pointer(word)
        } else {
            search_end::<C>(s, addr, next_pointer(word), id, (budget - 1) as nat)
        }
    }
}

/// A walk along the capability list of one function.
pub struct CapabilitiesIter<'s> {
    header: &'s PCIHeader,
    next: u8,
}

impl<'s> CapabilitiesIter<'s> {
    /// The function whose list is walked.
    pub closed spec fn address(&self) -> PCIAddress {
        self.header.address()
    }

    /// The offset of the record that comes next; zero at the end.
    pub closed spec fn cursor(&self) -> u8 {
        self.next
    }

    /// The records ahead of the walk, as far as a search looks.
    pub open spec fn pending<C: PciInterface>(&self, s: C::State) -> Seq<Capability> {
        capability_chain::<C>(s, self.address(), self.cursor(), MAX_CAPABILITIES as nat)
    }

    /// A walk of the list of `header` that starts at offset `start`.
    pub fn new(header: &'s PCIHeader, start: u8) -> (iter: Self)
        ensures
            iter.address() == header.address(),
            iter.cursor() == start,
    {
        CapabilitiesIter { header, next: start }
    }

    /// Returns the record at the cursor and moves on to the one it points
    /// to; `None` at the end of the list, where the cursor is zero.
    ///
    /// On a list with a cycle the walk never reaches the end.
    pub fn next<C: PciInterface>(&mut self, io: &C) -> (cap: Option<Capability>)
        ensures
            final(self).address() == old(self).address(),
            old(self).cursor() == 0 ==> cap.is_none() && final(self).cursor() == 0,
            old(self).cursor() != 0 ==> cap == Some(
                capability_at(
                    C::read_state(io.state(), old(self).address(), old(self).cursor() as u32),
                    old(self).cursor(),
                ),
            ) && final(self).cursor() == next_pointer(
                C::read_state(io.state(), old(self).address(), old(self).cursor() as u32),
            ),
    {
        if self.next == 0 {
            return None;
        }
        let cap_header = io.read(self.header.pci_address(), self.next as u32);
        let id = CapabilityId::from(lowest_byte(get_bits_u32(cap_header, 0, 8)));
        let cap = Capability { id, offset: self.next };

        self.next = lowest_byte(get_bits_u32(cap_header, 8, 16));
        Some(cap)
    }

    /// Returns the first record with identifier `id` among the
    /// [`MAX_CAPABILITIES`] records ahead, and leaves the walk behind it.
    ///
    /// The search gives up after [`MAX_CAPABILITIES`] records, so it ends
    /// on a list with a cycle too.
    pub fn find<C: PciInterface>(&mut self, io: &C, id: CapabilityId) -> (found: Option<
        Capability,
    >)
        ensures
            final(self).address() == old(self).address(),
            found == first_with_id(old(self).pending::<C>(io.state()), id),
            final(self).cursor() == search_end::<C>(
                io.state(),
                old(self).address(),
                old(self).cursor(),
                id,
                MAX_CAPABILITIES as nat,
            ),
    {
        let mut steps: u8 = 0;
        while steps < MAX_CAPABILITIES
            invariant
                steps <= MAX_CAPABILITIES,
                self.address() == old(self).address(),
                first_with_id(
                    capability_chain::<C>(
                        io.state(),
                        self.address(),
                        self.cursor(),
                        (MAX_CAPABILITIES - steps) as nat,
                    ),
                    id,
                ) == first_with_id(old(self).pending::<C>(io.state()), id),
                search_end::<C>(
                    io.state(),
                    self.address(),
                    self.cursor(),
                    id,
                    (MAX_CAPABILITIES - steps) as nat,
                ) == search_end::<C>(
                    io.state(),
                    old(self).address(),
                    old(self).cursor(),
                    id,
                    MAX_CAPABILITIES as nat,
                ),
            decreases MAX_CAPABILITIES - steps,
        {
            let ghost ahead = capability_chain::<C>(
                io.state(),
                self.address(),
                self.cursor(),
                (MAX_CAPABILITIES - steps) as nat,
            );
            match self.next(io) {
                None => {
                    return None;
                },
                Some(cap) => {
                    assert(ahead[0] == cap);
                    if cap.id == id {
                        return Some(cap);
                    }
                    assert(ahead.drop_first() =~= capability_chain::<C>(
                        io.state(),
                        self.address(),
                        self.cursor(),
                        (MAX_CAPABILITIES - steps - 1) as nat,
                    ));
                },
            }
            steps = steps + 1;
        }
        None
    }
}

} // verus!
