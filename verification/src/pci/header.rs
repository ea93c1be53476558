//! Configuration headers: an address at which a function answered.

use crate::pci::access::PciInterface;
use crate::pci::address::PCIAddress;
use vstd::prelude::*;

verus! {

/// Whether a function answers at `addr`: a read of its first word that
/// returns all ones is the bus's answer for an empty slot.
pub open spec fn is_present<C: PciInterface>(s: C::State, addr: PCIAddress) -> bool {
    C::read_state(s, addr, 0) != u32::MAX
}

/// The configuration header of a function.
#[derive(Debug)]
pub struct PCIHeader(PCIAddress);

impl PCIHeader {
    /// A header is never made for a slot that does not exist.
    #[verifier::type_invariant]
    spec fn in_range(self) -> bool {
        self.0.wf()
    }

    /// The address of the function that the header belongs to.
    pub closed spec fn address(&self) -> PCIAddress {
        self.0
    }

    /// The header of the function at the given address, if one answers there.
    pub fn new<C: PciInterface>(io: &C, bus: u8, device: u8, function: u8) -> (header: Option<
        Self,
    >)
        requires
            device <= 31,
            function <= 7,
        ensures
            header.is_some() == is_present::<C>(
                io.state(),
                PCIAddress { bus, dev: device, fun: function },
            ),
            header.is_some() ==> header.unwrap().address() == (PCIAddress {
                bus,
                dev: device,
                fun: function,
            }),
    {
        let addr = PCIAddress::new(bus, device, function);
        if PCIHeader::is_valid(io, addr) {
            Some(PCIHeader(addr))
        } else {
            None
        }
    }

    /// Whether a function answers at `addr`.
    pub fn is_valid<C: PciInterface>(io: &C, addr: PCIAddress) -> (valid: bool)
        ensures
            valid == is_present::<C>(io.state(), addr),
    {
        io.read(addr, 0) != u32::MAX
    }

    /// The address of the function that the header belongs to.
    pub fn pci_address(&self) -> (addr: PCIAddress)
        ensures
            addr == self.address(),
            addr.wf(),
    {
        proof {
            use_type_invariant(self);
        }
        self.0
    }
}

} // verus!
