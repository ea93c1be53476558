//! The configuration-space accessor and its ghost model.

use crate::pci::address::PCIAddress;
use vstd::prelude::*;

verus! {

/// Access to PCI configuration space, one 32-bit word at a time.
///
/// The hardware behind an accessor is modelled as a deterministic machine:
/// `State` is everything that decides what later reads return, `read_state`
/// is the word a read returns and `write_state` is the state a write leaves
/// behind. Reads do not change the state, and a write changes only what
/// reads of the bytes it addresses return.
pub trait PciInterface {
    /// The ghost state of configuration space.
    type State;

    /// The current state of configuration space.
    spec fn state(&self) -> Self::State;

    /// The word that function `addr` returns for a read at byte `offset`.
    spec fn read_state(s: Self::State, addr: PCIAddress, offset: u32) -> u32;

    /// The state after writing `value` at byte `offset` of function `addr`.
    spec fn write_state(s: Self::State, addr: PCIAddress, offset: u32, value: u32) -> Self::State;

    /// A write is local: a read of another function, or of four bytes that
    /// do not overlap the four written, returns what it returned before.
    proof fn write_is_local(
        s: Self::State,
        addr: PCIAddress,
        offset: u32,
        value: u32,
        other_addr: PCIAddress,
        other_offset: u32,
    )
        requires
            other_addr != addr || other_offset + 4 <= offset || offset + 4 <= other_offset,
        ensures
            Self::read_state(Self::write_state(s, addr, offset, value), other_addr, other_offset)
                == Self::read_state(s, other_addr, other_offset),
    ;

    /// Reads the word at byte `offset` of function `addr`.
    fn read(&self, addr: PCIAddress, offset: u32) -> (word: u32)
        ensures
            word == Self::read_state(self.state(), addr, offset),
    ;

    /// Writes `value` at byte `offset` of function `addr`.
    fn write(&mut self, addr: PCIAddress, offset: u32, value: u32)
        ensures
            final(self).state() == Self::write_state(old(self).state(), addr, offset, value),
    ;
}

/// One write to configuration space.
pub struct ConfigWrite {
    pub addr: PCIAddress,
    pub offset: u32,
    pub value: u32,
}

/// The state that the writes `writes`, applied in order, lead to from `s`.
pub open spec fn after_writes<C: PciInterface>(s: C::State, writes: Seq<ConfigWrite>) -> C::State
    decreases writes.len(),
{
    if writes.len() == 0 {
        s
    } else {
        let last = writes.last();
        C::write_state(
            after_writes::<C>(s, writes.drop_last()),
            last.addr,
            last.offset,
            last.value,
        )
    }
}

/// In state `s`, the word at `offset` of `addr` keeps the bits of a written
/// value that `writable` selects and keeps its own bits elsewhere.
pub open spec fn reads_back<C: PciInterface>(
    s: C::State,
    addr: PCIAddress,
    offset: u32,
    writable: u32,
    value: u32,
) -> bool {
    C::read_state(C::write_state(s, addr, offset, value), addr, offset) == (value & writable) | (
    C::read_state(s, addr, offset) & !writable)
}

/// The word at `offset` of `addr` is a plain register whose writable bits
/// are `writable`, in `s` and in every state that writes lead to from `s`.
pub open spec fn latches<C: PciInterface>(
    s: C::State,
    addr: PCIAddress,
    offset: u32,
    writable: u32,
) -> bool {
    forall|writes: Seq<ConfigWrite>, value: u32| #[trigger]
        reads_back::<C>(after_writes::<C>(s, writes), addr, offset, writable, value)
}

/// Writes applied after a first one are the writes applied to the state
/// that the first one leaves.
pub proof fn lemma_after_first_write<C: PciInterface>(
    s: C::State,
    first: ConfigWrite,
    rest: Seq<ConfigWrite>,
)
    ensures
        after_writes::<C>(s, seq![first] + rest) == after_writes::<C>(
            C::write_state(s, first.addr, first.offset, first.value),
            rest,
        ),
    decreases rest.len(),
{
    let all = seq![first] + rest;
    if rest.len() == 0 {
        assert(all.drop_last() =~= Seq::<ConfigWrite>::empty());
        assert(all.last() == first);
        assert(after_writes::<C>(s, all.drop_last()) == s);
    } else {
        assert(all.drop_last() =~= seq![first] + rest.drop_last());
        assert(all.last() == rest.last());
        lemma_after_first_write::<C>(s, first, rest.drop_last());
    }
}

/// A register that latches in `s` reads back in `s` itself.
pub proof fn lemma_latches_now<C: PciInterface>(
    s: C::State,
    addr: PCIAddress,
    offset: u32,
    writable: u32,
    value: u32,
)
    requires
        latches::<C>(s, addr, offset, writable),
    ensures
        reads_back::<C>(s, addr, offset, writable, value),
{
    assert(after_writes::<C>(s, Seq::<ConfigWrite>::empty()) == s);
    assert(reads_back::<C>(
        after_writes::<C>(s, Seq::<ConfigWrite>::empty()),
        addr,
        offset,
        writable,
        value,
    ));
}

/// A register that latches in `s` still latches after any write.
pub proof fn lemma_latches_after_write<C: PciInterface>(
    s: C::State,
    addr: PCIAddress,
    offset: u32,
    writable: u32,
    write: ConfigWrite,
)
    requires
        latches::<C>(s, addr, offset, writable),
    ensures
        latches::<C>(
            C::write_state(s, write.addr, write.offset, write.value),
            addr,
            offset,
            writable,
        ),
{
    let next = C::write_state(s, write.addr, write.offset, write.value);
    assert forall|writes: Seq<ConfigWrite>, value: u32| #[trigger]
        reads_back::<C>(after_writes::<C>(next, writes), addr, offset, writable, value) by {
        lemma_after_first_write::<C>(s, write, writes);
        assert(reads_back::<C>(
            after_writes::<C>(s, seq![write] + writes),
            addr,
            offset,
            writable,
            value,
        ));
    }
}

} // verus!
