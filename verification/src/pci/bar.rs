//! Base-address registers: decoding and size probing.

use crate::pci::access::{latches, lemma_latches_after_write, lemma_latches_now, reads_back};
use crate::pci::access::{ConfigWrite, PciInterface};
use crate::pci::address::PCIAddress;
use crate::pci::bits::{get_bit_u32, low_u8, u32_bit, u32_bits};
use crate::pci::class::PciDeviceType;
use vstd::prelude::*;

verus! {

/// The address space that a base-address register maps into.
#[derive(Debug, Clone, Copy, PartialEq, Eq, Structural)]
pub enum BarType {
    IO,
    Mem,
}

impl BarType {
    /// The space selected by bit 0 of a base-address register.
    pub open spec fn from_io_bit(value: bool) -> BarType {
        if value {
            BarType::IO
        } else {
            BarType::Mem
        }
    }
}

impl From<bool> for BarType {
    fn from(value: bool) -> (region_type: BarType) {
        match value {
            true => BarType::IO,
            false => BarType::Mem,
        }
    }
}

impl vstd::std_specs::convert::FromSpecImpl<bool> for BarType {
    open spec fn obeys_from_spec() -> bool {
        true
    }

    open spec fn from_spec(value: bool) -> BarType {
        BarType::from_io_bit(value)
    }
}

/// A decoded base-address register.
#[derive(Debug, Clone, Copy, PartialEq, Eq, Structural)]
pub struct Bar {
    pub region_type: BarType,
    pub prefetchable: bool,
    pub address: u64,
    pub size: u64,
}

/// Why a base-address register cannot be decoded.
#[derive(Debug, Clone, Copy, PartialEq, Eq, Structural)]
pub enum BarError {
    /// The header layout has no register with this index.
    IndexOutOfRange,
    /// The register maps into IO space.
    IoSpace,
    /// The register's type field holds a reserved encoding.
    UnsupportedLocatable(u8),
    /// The encoded size mask has no address bit set, so the region size
    /// does not fit the width of the register.
    UnrepresentableSize,
}

/// The byte offset of base-address register `index`.
pub open spec fn bar_offset(index: u8) -> u32 {
    (0x10 + 4 * index) as u32
}

/// The size that a 32-bit size mask encodes: clear the low four bits,
/// invert, add one.
pub open spec fn size_of_mask32(encoded: u32) -> int {
    !(encoded & !0xFu32) + 1
}

/// The size that a 64-bit size mask encodes: clear the low four bits,
/// invert, add one.
pub open spec fn size_of_mask64(encoded: u64) -> int {
    !(encoded & !0xFu64) + 1
}

/// The two halves of a 64-bit value, high half first.
pub open spec fn join_halves(high: u32, low: u32) -> u64 {
    ((high as u64) << 32) | (low as u64)
}

/// The region that a 32-bit memory register with value `base` and size
/// mask `size_encoded` describes.
pub open spec fn memory32(base: u32, size_encoded: u32) -> Result<Bar, BarError> {
    if size_of_mask32(size_encoded) > u32::MAX {
        Err(BarError::UnrepresentableSize)
    } else {
        Ok(
            Bar {
                region_type: BarType::from_io_bit(u32_bit(base, 0)),
                prefetchable: u32_bit(base, 3),
                address: (base & 0xFFFF_FFF0) as u64,
                size: size_of_mask32(size_encoded) as u64,
            },
        )
    }
}

/// The region that a 64-bit memory register pair describes: `base` and
/// `size_encoded` come from the low register, `next_bar` and
/// `msb_size_encoded` from the high one.
pub open spec fn memory64(base: u32, next_bar: u32, size_encoded: u32, msb_size_encoded: u32)
    -> Result<Bar, BarError> {
    let encoded = join_halves(msb_size_encoded, size_encoded);
    if size_of_mask64(encoded) > u64::MAX {
        Err(BarError::UnrepresentableSize)
    } else {
        Ok(
            Bar {
                region_type: BarType::from_io_bit(u32_bit(base, 0)),
                prefetchable: u32_bit(base, 3),
                address: join_halves(next_bar, base & 0xFFFF_FFF0),
                size: size_of_mask64(encoded) as u64,
            },
        )
    }
}

/// What a size probe of the register at `offset` does: the state after
/// writing all ones and then `saved` back, and the size mask read in
/// between.
pub open spec fn size_probe<C: PciInterface>(
    s: C::State,
    addr: PCIAddress,
    offset: u32,
    saved: u32,
) -> (C::State, u32) {
    let probing = C::write_state(s, addr, offset, u32::MAX);
    (C::write_state(probing, addr, offset, saved), C::read_state(probing, addr, offset))
}

/// What a query of base-address register `index` of function `addr` does in
/// state `s`: the state it leaves and what it returns.
///
/// A header of unknown layout has no registers. IO registers are refused
/// before anything is written. The low register is probed before its type
/// field is looked at, and a size mask of zero means that the register is
/// not in use.
pub open spec fn bar_query<C: PciInterface>(s: C::State, addr: PCIAddress, index: u8) -> (
    C::State,
    Result<Option<Bar>, BarError>,
) {
    let layout = PciDeviceType::from_header_word(C::read_state(s, addr, 0x0c));
    let offset = bar_offset(index);
    let base = C::read_state(s, addr, offset);
    if layout is Unknown {
        (s, Ok(None))
    } else if index >= layout.bar_count() {
        (s, Err(BarError::IndexOutOfRange))
    } else if u32_bit(base, 0) {
        (s, Err(BarError::IoSpace))
    } else {
        let low = size_probe::<C>(s, addr, offset, base);
        let locatable = u32_bits(base, 1, 3);
        if low.1 == 0 {
            (low.0, Ok(None))
        } else if locatable == 0 {
            (low.0, some_bar(memory32(base, low.1)))
        } else if locatable == 2 {
            let next_offset = (offset + 4) as u32;
            let next_bar = C::read_state(low.0, addr, next_offset);
            let high = size_probe::<C>(low.0, addr, next_offset, next_bar);
            (high.0, some_bar(memory64(base, next_bar, low.1, high.1)))
        } else {
            (low.0, Err(BarError::UnsupportedLocatable(low_u8(locatable))))
        }
    }
}

/// A decoded register as the result of a query.
pub open spec fn some_bar(decoded: Result<Bar, BarError>) -> Result<Option<Bar>, BarError> {
    match decoded {
        Ok(bar) => Ok(Some(bar)),
        Err(e) => Err(e),
    }
}

impl Bar {
    /// The size that a 32-bit size mask encodes, or `None` when no address
    /// bit of the mask is set.
    pub fn size32(encoded: u32) -> (size: Option<u32>)
        ensures
            size_of_mask32(encoded) <= u32::MAX ==> size == Some(size_of_mask32(encoded) as u32),
            size_of_mask32(encoded) > u32::MAX ==> size.is_none(),
    {
        let inverted: u32 = !(encoded & !0xF);
        inverted.checked_add(1)
    }

    /// The size that a 64-bit size mask encodes, or `None` when no address
    /// bit of the mask is set.
    pub fn size64(encoded: u64) -> (size: Option<u64>)
        ensures
            size_of_mask64(encoded) <= u64::MAX ==> size == Some(size_of_mask64(encoded) as u64),
            size_of_mask64(encoded) > u64::MAX ==> size.is_none(),
    {
        let inverted: u64 = !(encoded & !0xF);
        inverted.checked_add(1)
    }

    /// Decodes a 32-bit memory register from its value and its size mask.
    pub fn decode_memory32(base: u32, size_encoded: u32) -> (decoded: Result<Bar, BarError>)
        ensures
            decoded == memory32(base, size_encoded),
    {
        match Bar::size32(size_encoded) {
            Some(size) => Ok(
                Bar {
                    region_type: BarType::from(get_bit_u32(base, 0)),
                    prefetchable: get_bit_u32(base, 3),
                    address: (base & 0xFFFF_FFF0) as u64,
                    size: size as u64,
                },
            ),
            None => Err(BarError::UnrepresentableSize),
        }
    }

    /// Decodes a 64-bit memory register pair from the values and size masks
    /// of its low and high registers.
    pub fn decode_memory64(
        base: u32,
        next_bar: u32,
        size_encoded: u32,
        msb_size_encoded: u32,
    ) -> (decoded: Result<Bar, BarError>)
        ensures
            decoded == memory64(base, next_bar, size_encoded, msb_size_encoded),
    {
        let address: u64 = (base & 0xFFFF_FFF0) as u64
            | (next_bar as u64 & (u32::MAX as u64)) << 32;
        let encoded: u64 = (msb_size_encoded as u64) << 32 | size_encoded as u64;
        proof {
            let masked: u32 = base & 0xFFFF_FFF0;
            assert((masked as u64 | (next_bar as u64 & 0xFFFF_FFFFu64) << 32) == (((next_bar as u64)
                << 32) | (masked as u64))) by (bit_vector);
        }
        match Bar::size64(encoded) {
            Some(size) => Ok(
                Bar {
                    region_type: BarType::from(get_bit_u32(base, 0)),
                    prefetchable: get_bit_u32(base, 3),
                    address,
                    size,
                },
            ),
            None => Err(BarError::UnrepresentableSize),
        }
    }
}

/// Probes the size of the register at `offset`: writes all ones, reads the
/// size mask back and at once restores `saved`.
pub fn probe_size<C: PciInterface>(
    io: &mut C,
    addr: PCIAddress,
    offset: u32,
    saved: u32,
) -> (encoded: u32)
    ensures
        encoded == size_probe::<C>(old(io).state(), addr, offset, saved).1,
        final(io).state() == size_probe::<C>(old(io).state(), addr, offset, saved).0,
{
    io.write(addr, offset, u32::MAX);
    let encoded = io.read(addr, offset);
    io.write(addr, offset, saved);
    encoded
}

/// A size mask with its low four bits clear and an address bit set encodes
/// the two's complement of itself: the region is as large as the distance
/// from the mask to the end of the address space.
pub proof fn lemma_size_of_mask32(encoded: u32)
    requires
        encoded & 0xF == 0,
        encoded != 0,
    ensures
        size_of_mask32(encoded) == 0x1_0000_0000 - encoded,
{
    assert(!(encoded & !0xFu32) + 1 == 0x1_0000_0000u64 - encoded) by (bit_vector)
        requires
            encoded & 0xF == 0,
            encoded != 0,
    ;
}

/// The low four bits of a size mask do not count: they hold the register's
/// type bits, not address bits.
pub proof fn lemma_size_ignores_type_bits(encoded: u32)
    ensures
        size_of_mask32(encoded) == size_of_mask32(encoded & !0xFu32),
        size_of_mask32(encoded) == 0x1_0000_0000 - (encoded & !0xFu32),
{
    assert(!(encoded & !0xFu32) == !((encoded & !0xFu32) & !0xFu32)) by (bit_vector);
    assert(!(encoded & !0xFu32) + 1 == 0x1_0000_0000u64 - (encoded & !0xFu32)) by (bit_vector);
}

/// After a size probe, a register that latches holds what it held before.
pub proof fn lemma_size_probe_restores<C: PciInterface>(
    s: C::State,
    addr: PCIAddress,
    offset: u32,
    writable: u32,
)
    requires
        latches::<C>(s, addr, offset, writable),
    ensures
        C::read_state(
            size_probe::<C>(s, addr, offset, C::read_state(s, addr, offset)).0,
            addr,
            offset,
        ) == C::read_state(s, addr, offset),
        C::read_state(C::write_state(s, addr, offset, u32::MAX), addr, offset) == writable | (
        C::read_state(s, addr, offset) & !writable),
{
    let saved = C::read_state(s, addr, offset);
    let probing = C::write_state(s, addr, offset, u32::MAX);
    let mask = C::read_state(probing, addr, offset);
    let restored = C::read_state(C::write_state(probing, addr, offset, saved), addr, offset);
    lemma_latches_now::<C>(s, addr, offset, writable, u32::MAX);
    lemma_latches_after_write::<C>(
        s,
        addr,
        offset,
        writable,
        ConfigWrite { addr, offset, value: u32::MAX },
    );
    lemma_latches_now::<C>(probing, addr, offset, writable, saved);
    assert(reads_back::<C>(s, addr, offset, writable, u32::MAX));
    assert(reads_back::<C>(probing, addr, offset, writable, saved));
    assert(mask == writable | (saved & !writable)) by (bit_vector)
        requires
            mask == (0xFFFF_FFFFu32 & writable) | (saved & !writable),
    ;
    assert(restored == saved) by (bit_vector)
        requires
            mask == (0xFFFF_FFFFu32 & writable) | (saved & !writable),
            restored == (saved & writable) | (mask & !writable),
    ;
}

/// A query of a base-address register is local to it and to the register
/// that follows: any word that overlaps neither reads as it did before.
pub proof fn lemma_bar_query_is_local<C: PciInterface>(
    s: C::State,
    addr: PCIAddress,
    index: u8,
    other_addr: PCIAddress,
    other_offset: u32,
)
    requires
        other_addr != addr || other_offset + 4 <= bar_offset(index) || bar_offset(index) + 8
            <= other_offset,
    ensures
        C::read_state(bar_query::<C>(s, addr, index).0, other_addr, other_offset) == C::read_state(
            s,
            other_addr,
            other_offset,
        ),
{
    let offset = bar_offset(index);
    let next_offset = (offset + 4) as u32;
    let base = C::read_state(s, addr, offset);
    let probing = C::write_state(s, addr, offset, u32::MAX);
    let low = C::write_state(probing, addr, offset, base);
    C::write_is_local(s, addr, offset, u32::MAX, other_addr, other_offset);
    C::write_is_local(probing, addr, offset, base, other_addr, other_offset);
    let next_bar = C::read_state(low, addr, next_offset);
    let probing_next = C::write_state(low, addr, next_offset, u32::MAX);
    C::write_is_local(low, addr, next_offset, u32::MAX, other_addr, other_offset);
    C::write_is_local(probing_next, addr, next_offset, next_bar, other_addr, other_offset);
}

/// After a query of a base-address register, the register holds exactly
/// what it held before, provided that it latches.
pub proof fn lemma_bar_query_restores_register<C: PciInterface>(
    s: C::State,
    addr: PCIAddress,
    index: u8,
    writable: u32,
)
    requires
        latches::<C>(s, addr, bar_offset(index), writable),
    ensures
        C::read_state(bar_query::<C>(s, addr, index).0, addr, bar_offset(index)) == C::read_state(
            s,
            addr,
            bar_offset(index),
        ),
{
    let offset = bar_offset(index);
    let next_offset = (offset + 4) as u32;
    let base = C::read_state(s, addr, offset);
    let low = size_probe::<C>(s, addr, offset, base).0;
    lemma_size_probe_restores::<C>(s, addr, offset, writable);
    let next_bar = C::read_state(low, addr, next_offset);
    let probing_next = C::write_state(low, addr, next_offset, u32::MAX);
    C::write_is_local(low, addr, next_offset, u32::MAX, addr, offset);
    C::write_is_local(probing_next, addr, next_offset, next_bar, addr, offset);
}

/// After a query of a base-address register, the register that follows it,
/// which is the upper half of a 64-bit pair, holds exactly what it held
/// before, provided that it latches.
pub proof fn lemma_bar_query_restores_pair<C: PciInterface>(
    s: C::State,
    addr: PCIAddress,
    index: u8,
    writable: u32,
)
    requires
        latches::<C>(s, addr, (bar_offset(index) + 4) as u32, writable),
    ensures
        C::read_state(bar_query::<C>(s, addr, index).0, addr, (bar_offset(index) + 4) as u32)
            == C::read_state(s, addr, (bar_offset(index) + 4) as u32),
{
    let offset = bar_offset(index);
    let next_offset = (offset + 4) as u32;
    let base = C::read_state(s, addr, offset);
    let probing = C::write_state(s, addr, offset, u32::MAX);
    let low = C::write_state(probing, addr, offset, base);
    C::write_is_local(s, addr, offset, u32::MAX, addr, next_offset);
    C::write_is_local(probing, addr, offset, base, addr, next_offset);
    lemma_latches_after_write::<C>(
        s,
        addr,
        next_offset,
        writable,
        ConfigWrite { addr, offset, value: u32::MAX },
    );
    lemma_latches_after_write::<C>(
        probing,
        addr,
        next_offset,
        writable,
        ConfigWrite { addr, offset, value: base },
    );
    lemma_size_probe_restores::<C>(low, addr, next_offset, writable);
}

} // verus!
