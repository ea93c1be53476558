//! Bus/device/function addresses and their configuration-address encoding.

use crate::pci::bits::{get_bits_u32, lemma_u32_bits_as_masks, lowest_byte, u32_bits, low_u8};
use vstd::prelude::*;

verus! {

/// The address of one PCI function.
#[derive(Clone, Copy, PartialEq, Eq, Structural, Debug)]
pub struct PCIAddress {
    pub bus: u8,
    pub dev: u8,
    pub fun: u8,
}

impl PCIAddress {
    /// A bus has 32 device slots of 8 functions each.
    pub open spec fn wf(self) -> bool {
        self.dev <= 31 && self.fun <= 7
    }

    /// The configuration-address word of this function: the enable bit, the
    /// bus in bits 16..24, the device in bits 11..16 and the function in bits
    /// 8..11. The register offset occupies the low byte and is left zero.
    pub open spec fn spec_addr(self) -> u32 {
        (1u32 << 31) | ((self.bus as u32) << 16) | ((self.dev as u32) << 11) | ((self.fun as u32)
            << 8)
    }

    /// The function that a configuration-address word names.
    pub open spec fn spec_from_addr(word: u32) -> PCIAddress {
        PCIAddress {
            bus: low_u8(u32_bits(word, 16, 24)),
            dev: low_u8(u32_bits(word, 11, 16)),
            fun: low_u8(u32_bits(word, 8, 11)),
        }
    }

    /// The address of function `fun` of device `dev` on bus `bus`, where
    /// there is such a slot.
    pub open spec fn checked(bus: u8, dev: u8, fun: u8) -> Option<PCIAddress> {
        if dev <= 31 && fun <= 7 {
            Some(PCIAddress { bus, dev, fun })
        } else {
            None
        }
    }

    /// The address of function `fun` of device `dev` on bus `bus`.
    pub fn new(bus: u8, dev: u8, fun: u8) -> (address: Self)
        requires
            dev <= 31,
            fun <= 7,
        ensures
            address == (PCIAddress { bus, dev, fun }),
            address.wf(),
    {
        PCIAddress { bus, dev, fun }
    }

    /// The address of function `fun` of device `dev` on bus `bus`, or `None`
    /// when there is no such slot.
    pub fn try_new(bus: u8, dev: u8, fun: u8) -> (address: Option<Self>)
        ensures
            address == Self::checked(bus, dev, fun),
            dev > 31 || fun > 7 ==> address.is_none(),
            dev <= 31 && fun <= 7 ==> address == Some(PCIAddress { bus, dev, fun }),
    {
        if dev <= 31 && fun <= 7 {
            Some(PCIAddress { bus, dev, fun })
        } else {
            None
        }
    }

    /// Encodes the address as a configuration-address word.
    pub fn addr(&self) -> (word: u32)
        ensures
            word == self.spec_addr(),
    {
        (1 << 31) | ((self.bus as u32) << 16) | ((self.dev as u32) << 11) | ((self.fun as u32) << 8)
    }

    /// Decodes the bus, device and function fields of a configuration-address
    /// word; the enable bit and the register offset are ignored.
    pub fn from_addr(word: u32) -> (address: Self)
        ensures
            address == Self::spec_from_addr(word),
            address.wf(),
    {
        proof {
            lemma_u32_bits_as_masks(word);
            assert(((word >> 11) & 0x1F) & 0xFF <= 31) by (bit_vector);
            assert(((word >> 8) & 0x7) & 0xFF <= 7) by (bit_vector);
        }
        PCIAddress {
            bus: lowest_byte(get_bits_u32(word, 16, 24)),
            dev: lowest_byte(get_bits_u32(word, 11, 16)),
            fun: lowest_byte(get_bits_u32(word, 8, 11)),
        }
    }
}

/// No address is made for a device above 31 or a function above 7, and
/// every address that is made names a slot that exists.
pub proof fn lemma_out_of_range_is_rejected(bus: u8, dev: u8, fun: u8)
    ensures
        dev > 31 || fun > 7 ==> PCIAddress::checked(bus, dev, fun).is_none() && !(PCIAddress {
            bus,
            dev,
            fun,
        }).wf(),
        PCIAddress::checked(bus, dev, fun) matches Some(address) ==> address.wf() && address.bus
            == bus && address.dev == dev && address.fun == fun,
{
}

/// Decoding an encoded address gives the address back.
pub proof fn lemma_addr_round_trip(address: PCIAddress)
    requires
        address.wf(),
    ensures
        PCIAddress::spec_from_addr(address.spec_addr()) == address,
{
    let bus = address.bus;
    let dev = address.dev;
    let fun = address.fun;
    let word = address.spec_addr();
    lemma_u32_bits_as_masks(word);
    assert(((((1u32 << 31) | ((bus as u32) << 16) | ((dev as u32) << 11) | ((fun as u32) << 8))
        >> 16) & 0xFF) & 0xFF == bus as u32) by (bit_vector)
        requires
            dev <= 31,
            fun <= 7,
    ;
    assert(((((1u32 << 31) | ((bus as u32) << 16) | ((dev as u32) << 11) | ((fun as u32) << 8))
        >> 11) & 0x1F) & 0xFF == dev as u32) by (bit_vector)
        requires
            dev <= 31,
            fun <= 7,
    ;
    assert(((((1u32 << 31) | ((bus as u32) << 16) | ((dev as u32) << 11) | ((fun as u32) << 8))
        >> 8) & 0x7) & 0xFF == fun as u32) by (bit_vector)
        requires
            dev <= 31,
            fun <= 7,
    ;
}

/// The encoded word as a sum: the fields do not overlap.
pub proof fn lemma_addr_as_sum(address: PCIAddress)
    requires
        address.wf(),
    ensures
        address.spec_addr() == 0x8000_0000 + address.bus * 0x1_0000 + address.dev * 0x800
            + address.fun * 0x100,
{
    let bus = address.bus;
    let dev = address.dev;
    let fun = address.fun;
    assert(((1u32 << 31) | ((bus as u32) << 16) | ((dev as u32) << 11) | ((fun as u32) << 8))
        == 0x8000_0000u32 + (bus as u32) * 0x1_0000u32 + (dev as u32) * 0x800u32 + (fun as u32)
        * 0x100u32)
        by (bit_vector)
        requires
            dev <= 31,
            fun <= 7,
    ;
}

} // verus!
