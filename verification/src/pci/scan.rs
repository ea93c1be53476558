//! Enumeration of the functions on the bus.

use crate::pci::access::PciInterface;
use crate::pci::address::PCIAddress;
use crate::pci::device::PciDevice;
use crate::pci::header::is_present;
use vstd::prelude::*;

verus! {

/// The place of a slot in the order of the scan: by bus, then by device,
/// then by function. There are 65536 slots: 256 buses of 32 devices of 8
/// functions.
pub open spec fn slot_of(addr: PCIAddress) -> int {
    addr.bus * 256 + addr.dev * 8 + addr.fun
}

/// The slot at place `slot` of the scan.
pub open spec fn address_at(slot: int) -> PCIAddress {
    PCIAddress { bus: (slot / 256) as u8, dev: ((slot / 8) % 32) as u8, fun: (slot % 8) as u8 }
}

/// The first place at or after `slot` at which a function answers, or
/// 65536 if there is none.
pub open spec fn next_present<C: PciInterface>(s: C::State, slot: int) -> int
    decreases 65536 - slot,
{
    if slot >= 65536 {
        65536
    } else if is_present::<C>(s, address_at(slot)) {
        slot
    } else {
        next_present::<C>(s, slot + 1)
    }
}

/// The places at or after `slot` at which a function answers, in order.
pub open spec fn present_from<C: PciInterface>(s: C::State, slot: int) -> Seq<int>
    decreases 65536 - slot,
{
    if slot >= 65536 {
        Seq::empty()
    } else if is_present::<C>(s, address_at(slot)) {
        seq![slot] + present_from::<C>(s, slot + 1)
    } else {
        present_from::<C>(s, slot + 1)
    }
}

/// A scan of the bus in progress.
pub struct PciDeviceIterator {
    bus: u8,
    device: u8,
    function: u8,
}

impl PciDeviceIterator {
    #[verifier::type_invariant]
    spec fn inv(self) -> bool {
        self.device <= 31 && self.function <= 8
    }

    /// The place at which the scan goes on, from 0 to 65536.
    pub closed spec fn position(&self) -> int {
        self.bus * 256 + self.device * 8 + self.function
    }

    /// The places of the functions that the scan has yet to return.
    pub open spec fn pending<C: PciInterface>(&self, s: C::State) -> Seq<int> {
        present_from::<C>(s, self.position())
    }

    /// Returns the next function that answers, in the order of the scan,
    /// and goes on behind it; `None` once no slot is left, and from then on.
    pub fn next<C: PciInterface>(&mut self, io: &C) -> (found: Option<PciDevice>)
        ensures
            0 <= old(self).position() <= final(self).position() <= 65536,
            next_present::<C>(io.state(), old(self).position()) < 65536 ==> found.is_some()
                && found.unwrap().address() == address_at(
                next_present::<C>(io.state(), old(self).position()),
            ) && final(self).position() == next_present::<C>(io.state(), old(self).position())
                + 1,
            next_present::<C>(io.state(), old(self).position()) >= 65536 ==> found.is_none()
                && final(self).position() == 65536,
            old(self).pending::<C>(io.state()).len() == 0 ==> found.is_none()
                && final(self).pending::<C>(io.state()).len() == 0,
            old(self).pending::<C>(io.state()).len() > 0 ==> found.is_some()
                && found.unwrap().address() == address_at(old(self).pending::<C>(io.state())[0])
                && final(self).pending::<C>(io.state())
                == old(self).pending::<C>(io.state()).drop_first(),
    {
        proof {
            use_type_invariant(&*self);
        }
        let mut bus: u8 = self.bus;
        let mut device: u8 = self.device;
        let mut function: u8 = self.function;
        loop
            invariant
                device <= 31,
                function <= 8,
                old(self).position() <= bus * 256 + device * 8 + function,
                next_present::<C>(io.state(), bus * 256 + device * 8 + function) == next_present::<
                    C,
                >(io.state(), old(self).position()),
            decreases 65536 - (bus * 256 + device * 8 + function), function,
        {
            if function > 7 {
                if device < 31 {
                    device = device + 1;
                } else if bus < 255 {
                    bus = bus + 1;
                    device = 0;
                } else {
                    proof {
                        lemma_present_from_unfolds::<C>(io.state(), old(self).position());
                    }
                    *self = PciDeviceIterator { bus, device, function };
                    return None;
                }
                function = 0;
            } else {
                proof {
                    lemma_slot_of_address(PCIAddress { bus, dev: device, fun: function });
                }
                match PciDevice::new(io, bus, device, function) {
                    Some(pci_device) => {
                        proof {
                            lemma_present_from_unfolds::<C>(io.state(), old(self).position());
                        }
                        // Start with next function on next iteration
                        *self = PciDeviceIterator { bus, device, function: function + 1 };
                        return Some(pci_device);
                    },
                    None => {
                        function = function + 1;
                    },
                }
            }
        }
    }
}

/// Scans the PCI bus addresses from the first slot on.
pub fn scan_bus() -> (iter: PciDeviceIterator)
    ensures
        iter.position() == 0,
{
    PciDeviceIterator { bus: 0x0, device: 0x0, function: 0x0 }
}

/// Every slot has a place below 65536, and is the slot at its place.
pub proof fn lemma_slot_of_address(a: PCIAddress)
    requires
        a.wf(),
    ensures
        0 <= slot_of(a) < 65536,
        address_at(slot_of(a)) == a,
{
    let bus = a.bus as int;
    let dev = a.dev as int;
    let fun = a.fun as int;
    let slot = slot_of(a);
    assert(slot / 256 == bus && slot / 8 == bus * 32 + dev && slot % 8 == fun) by (nonlinear_arith)
        requires
            slot == bus * 256 + dev * 8 + fun,
            0 <= bus,
            0 <= dev <= 31,
            0 <= fun <= 7,
    ;
    assert((bus * 32 + dev) % 32 == dev) by (nonlinear_arith)
        requires
            0 <= bus,
            0 <= dev <= 31,
    ;
}

/// The scan visits the slots in lexicographic order of bus, device and
/// function: a slot comes earlier exactly if its bus is lower, or its
/// device on the same bus, or its function on the same device.
pub proof fn lemma_scan_order_is_lexicographic(a: PCIAddress, b: PCIAddress)
    requires
        a.wf(),
        b.wf(),
    ensures
        slot_of(a) < slot_of(b) <==> (a.bus < b.bus || (a.bus == b.bus && (a.dev < b.dev || (a.dev
            == b.dev && a.fun < b.fun)))),
{
}

/// Every place below 65536 is the place of one slot.
pub proof fn lemma_every_slot_has_a_place(slot: int)
    requires
        0 <= slot < 65536,
    ensures
        address_at(slot).wf(),
        slot_of(address_at(slot)) == slot,
{
    let bus = slot / 256;
    let dev = (slot / 8) % 32;
    let fun = slot % 8;
    assert(0 <= bus < 256 && 0 <= dev < 32 && 0 <= fun < 8 && slot == bus * 256 + dev * 8 + fun)
        by (nonlinear_arith)
        requires
            0 <= slot < 65536,
            bus == slot / 256,
            dev == (slot / 8) % 32,
            fun == slot % 8,
    ;
}

/// What `next_present` finds: a function answers there, and none answers
/// at any place that was passed over.
pub proof fn lemma_next_present<C: PciInterface>(s: C::State, slot: int)
    requires
        0 <= slot,
    ensures
        slot <= next_present::<C>(s, slot) || next_present::<C>(s, slot) == 65536,
        next_present::<C>(s, slot) <= 65536,
        next_present::<C>(s, slot) < 65536 ==> is_present::<C>(
            s,
            address_at(next_present::<C>(s, slot)),
        ),
        forall|passed: int|
            slot <= passed < next_present::<C>(s, slot) ==> !is_present::<C>(
                s,
                #[trigger] address_at(passed),
            ),
    decreases 65536 - slot,
{
    if slot < 65536 && !is_present::<C>(s, address_at(slot)) {
        lemma_next_present::<C>(s, slot + 1);
    }
}

/// The functions found from `slot` on are the next one that answers and
/// those found behind it.
pub proof fn lemma_present_from_unfolds<C: PciInterface>(s: C::State, slot: int)
    requires
        0 <= slot,
    ensures
        next_present::<C>(s, slot) >= 65536 ==> present_from::<C>(s, slot).len() == 0,
        next_present::<C>(s, slot) < 65536 ==> present_from::<C>(s, slot).len() > 0
            && present_from::<C>(s, slot)[0] == next_present::<C>(s, slot) && present_from::<C>(
            s,
            slot,
        ).drop_first() == present_from::<C>(s, next_present::<C>(s, slot) + 1),
        present_from::<C>(s, 65536).len() == 0,
    decreases 65536 - slot,
{
    if slot < 65536 {
        if is_present::<C>(s, address_at(slot)) {
            let rest = present_from::<C>(s, slot + 1);
            assert((seq![slot] + rest).drop_first() =~= rest);
        } else {
            lemma_present_from_unfolds::<C>(s, slot + 1);
        }
    }
}

/// A scan is complete and in order: it returns places at which a function
/// answers, each place at or after its start at which one answers, and
/// every place after all that it returned before.
pub proof fn lemma_scan_is_complete_and_ordered<C: PciInterface>(s: C::State, slot: int)
    requires
        0 <= slot,
    ensures
        forall|i: int|
            0 <= i < present_from::<C>(s, slot).len() ==> slot <= (#[trigger] present_from::<C>(
                s,
                slot,
            )[i]) < 65536 && is_present::<C>(s, address_at(present_from::<C>(s, slot)[i])),
        forall|i: int, j: int|
            0 <= i < j < present_from::<C>(s, slot).len() ==> (#[trigger] present_from::<C>(
                s,
                slot,
            )[i]) < (#[trigger] present_from::<C>(s, slot)[j]),
        forall|place: int|
            slot <= place < 65536 && is_present::<C>(s, #[trigger] address_at(place))
                ==> present_from::<C>(s, slot).contains(place),
    decreases 65536 - slot,
{
    if slot < 65536 {
        lemma_scan_is_complete_and_ordered::<C>(s, slot + 1);
        let rest = present_from::<C>(s, slot + 1);
        let all = present_from::<C>(s, slot);
        if is_present::<C>(s, address_at(slot)) {
            assert(all[0] == slot);
            assert forall|i: int| 1 <= i < all.len() implies #[trigger] all[i] == rest[i - 1] by {}
            assert forall|place: int|
                slot <= place < 65536 && is_present::<C>(
                    s,
                    #[trigger] address_at(place),
                ) implies all.contains(place) by {
                if place == slot {
                    assert(all[0] == place);
                } else {
                    let i = choose|i: int| 0 <= i < rest.len() && rest[i] == place;
                    assert(all[i + 1] == place);
                }
            }
        } else {
            assert forall|place: int|
                slot <= place < 65536 && is_present::<C>(
                    s,
                    #[trigger] address_at(place),
                ) implies all.contains(place) by {
                assert(place != slot);
            }
        }
    }
}

} // verus!
