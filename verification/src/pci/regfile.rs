//! A configuration space held in memory: every function has 256 bytes, and
//! every byte has a mask of the bits that a write can change.
//!
//! This is the accessor to run the driver against when there is no bus: a
//! base-address register is a word whose writable bits are its address
//! bits, a read-only field is a word with no writable bit, and a slot
//! without a function reads as all ones.

use crate::pci::access::{after_writes, latches, reads_back, ConfigWrite, PciInterface};
use crate::pci::address::PCIAddress;
use crate::pci::bar::{bar_offset, bar_query, lemma_bar_query_restores_pair};
use crate::pci::bar::lemma_bar_query_restores_register;
use vstd::prelude::*;

verus! {

/// The number of bytes in the configuration space of one function.
pub const BYTES_PER_FUNCTION: usize = 256;

/// The contents of a [`RegisterFile`]: function `i` is at `addresses[i]`
/// and owns the bytes `256 * i .. 256 * i + 256` of `values` and
/// `writable`.
pub struct RegisterFileState {
    pub addresses: Seq<PCIAddress>,
    pub values: Seq<u8>,
    pub writable: Seq<u8>,
}

/// The first index at or after `from` at which `addresses` holds `addr`,
/// or the length of `addresses` if there is none.
pub open spec fn position(addresses: Seq<PCIAddress>, addr: PCIAddress, from: int) -> int
    decreases addresses.len() - from,
{
    if from >= addresses.len() {
        addresses.len() as int
    } else if addresses[from] == addr {
        from
    } else {
        position(addresses, addr, from + 1)
    }
}

/// Byte `k` of a word, byte 0 being the lowest.
pub open spec fn byte_of(word: u32, k: u32) -> u8 {
    ((word >> ((8 * k) as u32)) & 0xFF) as u8
}

/// The word made of four bytes, lowest byte first.
pub open spec fn word_of(b0: u8, b1: u8, b2: u8, b3: u8) -> u32 {
    (b0 as u32) | ((b1 as u32) << 8) | ((b2 as u32) << 16) | ((b3 as u32) << 24)
}

impl RegisterFileState {
    /// The index of byte `offset` of the function in slot `slot`; `None`
    /// where there is no such function or the offset is past its 256 bytes.
    pub open spec fn index_in_slot(self, slot: int, offset: int) -> Option<int> {
        let index = 256 * slot + offset;
        if 0 <= slot < self.addresses.len() && 0 <= offset < 256 && index < self.values.len()
            && index < self.writable.len() {
            Some(index)
        } else {
            None
        }
    }

    /// The index of byte `offset` of function `addr`.
    pub open spec fn byte_index(self, addr: PCIAddress, offset: int) -> Option<int> {
        self.index_in_slot(position(self.addresses, addr, 0), offset)
    }

    /// Byte `offset` of function `addr`; all ones where nothing answers.
    pub open spec fn byte(self, addr: PCIAddress, offset: int) -> u8 {
        match self.byte_index(addr, offset) {
            Some(index) => self.values[index],
            None => 0xFF,
        }
    }

    /// The writable bits of byte `offset` of function `addr`; none where
    /// nothing answers.
    pub open spec fn mask(self, addr: PCIAddress, offset: int) -> u8 {
        match self.byte_index(addr, offset) {
            Some(index) => self.writable[index],
            None => 0,
        }
    }

    /// The contents after writing `value` to byte `offset` of function
    /// `addr`: the byte takes the writable bits of `value` and keeps its
    /// other bits; a write that reaches no byte is dropped.
    pub open spec fn write_byte(self, addr: PCIAddress, offset: int, value: u8)
        -> RegisterFileState {
        match self.byte_index(addr, offset) {
            Some(index) => RegisterFileState {
                addresses: self.addresses,
                values: self.values.update(
                    index,
                    (value & self.writable[index]) | (self.values[index] & !self.writable[index]),
                ),
                writable: self.writable,
            },
            None => self,
        }
    }

    /// The contents with byte `offset` of function `addr` set to `value`
    /// and its writable bits set to `writable`.
    pub open spec fn set_byte(self, addr: PCIAddress, offset: int, value: u8, writable: u8)
        -> RegisterFileState {
        match self.byte_index(addr, offset) {
            Some(index) => RegisterFileState {
                addresses: self.addresses,
                values: self.values.update(index, value),
                writable: self.writable.update(index, writable),
            },
            None => self,
        }
    }

    /// What a read returns: the four bytes from `offset` on, lowest first.
    pub open spec fn read(self, addr: PCIAddress, offset: u32) -> u32 {
        word_of(
            self.byte(addr, offset as int),
            self.byte(addr, offset + 1),
            self.byte(addr, offset + 2),
            self.byte(addr, offset + 3),
        )
    }

    /// The writable bits of the word at `offset` of function `addr`.
    pub open spec fn word_mask(self, addr: PCIAddress, offset: u32) -> u32 {
        word_of(
            self.mask(addr, offset as int),
            self.mask(addr, offset + 1),
            self.mask(addr, offset + 2),
            self.mask(addr, offset + 3),
        )
    }

    /// What a write leaves: the four bytes from `offset` on are written
    /// with the bytes of `value`, lowest first.
    pub open spec fn write(self, addr: PCIAddress, offset: u32, value: u32) -> RegisterFileState {
        self.write_byte(addr, offset as int, byte_of(value, 0)).write_byte(
            addr,
            offset + 1,
            byte_of(value, 1),
        ).write_byte(addr, offset + 2, byte_of(value, 2)).write_byte(
            addr,
            offset + 3,
            byte_of(value, 3),
        )
    }

    /// The contents with one more function at `addr`, all of its bytes zero
    /// and read-only. A function that is already there stays in front.
    pub open spec fn with_function(self, addr: PCIAddress) -> RegisterFileState {
        RegisterFileState {
            addresses: self.addresses.push(addr),
            values: self.values + Seq::new(256, |i: int| 0u8),
            writable: self.writable + Seq::new(256, |i: int| 0u8),
        }
    }

    /// The contents with the word at `offset` of `addr` set to `value` and
    /// its writable bits set to `writable`.
    pub open spec fn with_register(self, addr: PCIAddress, offset: u32, value: u32, writable: u32)
        -> RegisterFileState {
        self.set_byte(addr, offset as int, byte_of(value, 0), byte_of(writable, 0)).set_byte(
            addr,
            offset + 1,
            byte_of(value, 1),
            byte_of(writable, 1),
        ).set_byte(addr, offset + 2, byte_of(value, 2), byte_of(writable, 2)).set_byte(
            addr,
            offset + 3,
            byte_of(value, 3),
            byte_of(writable, 3),
        )
    }
}

/// Byte `k` of a word, byte 0 being the lowest.
fn word_byte(word: u32, k: u32) -> (byte: u8)
    requires
        k < 4,
    ensures
        byte == byte_of(word, k),
{
    ((word >> (8 * k)) & 0xFF) as u8
}

/// A configuration space held in memory.
pub struct RegisterFile {
    addresses: Vec<PCIAddress>,
    values: Vec<u8>,
    writable: Vec<u8>,
}

impl RegisterFile {
    /// The contents of the register file.
    pub closed spec fn view(&self) -> RegisterFileState {
        RegisterFileState {
            addresses: self.addresses@,
            values: self.values@,
            writable: self.writable@,
        }
    }

    /// A configuration space without any function.
    pub fn new() -> (file: Self)
        ensures
            file@.addresses.len() == 0,
            file@.values.len() == 0,
            file@.writable.len() == 0,
    {
        RegisterFile { addresses: Vec::new(), values: Vec::new(), writable: Vec::new() }
    }

    /// Adds a function at `addr` with all of its bytes zero and read-only.
    pub fn add_function(&mut self, addr: PCIAddress)
        ensures
            final(self)@ == old(self)@.with_function(addr),
    {
        let mut values: Vec<u8> = Vec::new();
        let mut writable: Vec<u8> = Vec::new();
        std::mem::swap(&mut values, &mut self.values);
        std::mem::swap(&mut writable, &mut self.writable);
        let mut added: usize = 0;
        while added < BYTES_PER_FUNCTION
            invariant
                added <= 256,
                values@ == old(self).values@ + Seq::new(added as nat, |i: int| 0u8),
                writable@ == old(self).writable@ + Seq::new(added as nat, |i: int| 0u8),
            decreases 256 - added,
        {
            values.push(0);
            writable.push(0);
            added = added + 1;
            assert(values@ =~= old(self).values@ + Seq::new(added as nat, |i: int| 0u8));
            assert(writable@ =~= old(self).writable@ + Seq::new(added as nat, |i: int| 0u8));
        }
        let mut addresses: Vec<PCIAddress> = Vec::new();
        std::mem::swap(&mut addresses, &mut self.addresses);
        addresses.push(addr);
        *self = RegisterFile { addresses, values, writable };
    }

    /// The slot of the first function at `addr`, or the number of functions
    /// if there is none.
    fn find(&self, addr: PCIAddress) -> (slot: usize)
        ensures
            slot == position(self@.addresses, addr, 0),
            slot <= self@.addresses.len(),
    {
        let mut slot: usize = 0;
        while slot < self.addresses.len()
            invariant
                slot <= self.addresses.len(),
                position(self.addresses@, addr, 0) == position(self.addresses@, addr, slot as int),
            decreases self.addresses.len() - slot,
        {
            if self.addresses[slot] == addr {
                return slot;
            }
            slot = slot + 1;
        }
        slot
    }

    /// The index of byte `offset + k` of the function in slot `slot`.
    fn locate(&self, slot: usize, offset: u32, k: u32) -> (index: Option<usize>)
        requires
            k < 4,
        ensures
            index.is_some() == self@.index_in_slot(slot as int, offset + k).is_some(),
            index.is_some() ==> index.unwrap() == self@.index_in_slot(
                slot as int,
                offset + k,
            ).unwrap(),
    {
        let bytes: usize = self.values.len();
        let masks: usize = self.writable.len();
        if slot >= self.addresses.len() || offset >= 256 - k {
            return None;
        }
        let byte: usize = (offset + k) as usize;
        match slot.checked_mul(256) {
            Some(first) => match first.checked_add(byte) {
                Some(index) => if index < bytes && index < masks {
                    Some(index)
                } else {
                    None
                },
                None => None,
            },
            None => None,
        }
    }

    /// Byte `offset + k` of the function in slot `slot`.
    fn byte_at(&self, addr: Ghost<PCIAddress>, slot: usize, offset: u32, k: u32) -> (byte: u8)
        requires
            k < 4,
            slot == position(self@.addresses, addr@, 0),
        ensures
            byte == self@.byte(addr@, offset + k),
    {
        match self.locate(slot, offset, k) {
            Some(index) => self.values[index],
            None => 0xFF,
        }
    }

    /// Writes `value` to byte `offset + k` of the function in slot `slot`.
    fn write_byte_at(
        &mut self,
        addr: Ghost<PCIAddress>,
        slot: usize,
        offset: u32,
        k: u32,
        value: u8,
    )
        requires
            k < 4,
            slot == position(old(self)@.addresses, addr@, 0),
        ensures
            final(self)@ == old(self)@.write_byte(addr@, offset + k, value),
    {
        match self.locate(slot, offset, k) {
            Some(index) => {
                let mask = self.writable[index];
                let kept = self.values[index];
                self.values.set(index, (value & mask) | (kept & !mask));
            },
            None => {},
        }
    }

    /// Sets byte `offset + k` of the function in slot `slot` and its
    /// writable bits.
    fn set_byte_at(
        &mut self,
        addr: Ghost<PCIAddress>,
        slot: usize,
        offset: u32,
        k: u32,
        value: u8,
        writable: u8,
    )
        requires
            k < 4,
            slot == position(old(self)@.addresses, addr@, 0),
        ensures
            final(self)@ == old(self)@.set_byte(addr@, offset + k, value, writable),
    {
        match self.locate(slot, offset, k) {
            Some(index) => {
                self.values.set(index, value);
                self.writable.set(index, writable);
            },
            None => {},
        }
    }

    /// Sets the word at byte `offset` of function `addr` to `value` and the
    /// bits of it that writes can change to `writable`. Returns whether
    /// the function has a byte at `offset`.
    pub fn set_register(
        &mut self,
        addr: PCIAddress,
        offset: u32,
        value: u32,
        writable: u32,
    ) -> (found: bool)
        ensures
            found == old(self)@.byte_index(addr, offset as int).is_some(),
            final(self)@ == old(self)@.with_register(addr, offset, value, writable),
    {
        let slot = self.find(addr);
        let found = self.locate(slot, offset, 0).is_some();
        self.set_byte_at(Ghost(addr), slot, offset, 0, word_byte(value, 0), word_byte(writable, 0));
        self.set_byte_at(Ghost(addr), slot, offset, 1, word_byte(value, 1), word_byte(writable, 1));
        self.set_byte_at(Ghost(addr), slot, offset, 2, word_byte(value, 2), word_byte(writable, 2));
        self.set_byte_at(Ghost(addr), slot, offset, 3, word_byte(value, 3), word_byte(writable, 3));
        found
    }
}

impl PciInterface for RegisterFile {
    type State = RegisterFileState;

    open spec fn state(&self) -> RegisterFileState {
        self@
    }

    open spec fn read_state(s: RegisterFileState, addr: PCIAddress, offset: u32) -> u32 {
        s.read(addr, offset)
    }

    open spec fn write_state(s: RegisterFileState, addr: PCIAddress, offset: u32, value: u32)
        -> RegisterFileState {
        s.write(addr, offset, value)
    }

    proof fn write_is_local(
        s: RegisterFileState,
        addr: PCIAddress,
        offset: u32,
        value: u32,
        other_addr: PCIAddress,
        other_offset: u32,
    ) {
        lemma_position(s.addresses, addr, 0);
        lemma_position(s.addresses, other_addr, 0);
    }

    fn read(&self, addr: PCIAddress, offset: u32) -> (word: u32) {
        let slot = self.find(addr);
        let b0 = self.byte_at(Ghost(addr), slot, offset, 0);
        let b1 = self.byte_at(Ghost(addr), slot, offset, 1);
        let b2 = self.byte_at(Ghost(addr), slot, offset, 2);
        let b3 = self.byte_at(Ghost(addr), slot, offset, 3);
        (b0 as u32) | ((b1 as u32) << 8) | ((b2 as u32) << 16) | ((b3 as u32) << 24)
    }

    fn write(&mut self, addr: PCIAddress, offset: u32, value: u32) {
        let slot = self.find(addr);
        self.write_byte_at(Ghost(addr), slot, offset, 0, word_byte(value, 0));
        self.write_byte_at(Ghost(addr), slot, offset, 1, word_byte(value, 1));
        self.write_byte_at(Ghost(addr), slot, offset, 2, word_byte(value, 2));
        self.write_byte_at(Ghost(addr), slot, offset, 3, word_byte(value, 3));
    }
}

/// `position` finds `addr` at or after `from`, or nothing.
pub proof fn lemma_position(addresses: Seq<PCIAddress>, addr: PCIAddress, from: int)
    requires
        0 <= from,
    ensures
        from <= position(addresses, addr, from) || position(addresses, addr, from)
            == addresses.len(),
        position(addresses, addr, from) <= addresses.len() || position(addresses, addr, from)
            == from,
        from <= position(addresses, addr, from) < addresses.len() ==> addresses[position(
            addresses,
            addr,
            from,
        )] == addr,
    decreases addresses.len() - from,
{
    if from < addresses.len() && addresses[from] != addr {
        lemma_position(addresses, addr, from + 1);
    }
}

/// Writes change values only: the functions, the number of bytes and their
/// writable bits stay as they are.
pub proof fn lemma_writes_keep_layout(s: RegisterFileState, writes: Seq<ConfigWrite>)
    ensures
        after_writes::<RegisterFile>(s, writes).addresses == s.addresses,
        after_writes::<RegisterFile>(s, writes).writable == s.writable,
        after_writes::<RegisterFile>(s, writes).values.len() == s.values.len(),
    decreases writes.len(),
{
    if writes.len() > 0 {
        lemma_writes_keep_layout(s, writes.drop_last());
    }
}

/// A byte that no write can change keeps its value.
proof fn lemma_read_only_byte(value: u8, kept: u8)
    by (bit_vector)
    ensures
        (value & 0u8) | (kept & !0u8) == kept,
{
}

/// What writing one byte does to every byte and to every mask.
pub proof fn lemma_write_byte(
    s: RegisterFileState,
    addr: PCIAddress,
    offset: int,
    value: u8,
    other_addr: PCIAddress,
    other_offset: int,
)
    ensures
        s.write_byte(addr, offset, value).addresses == s.addresses,
        s.write_byte(addr, offset, value).mask(other_addr, other_offset) == s.mask(
            other_addr,
            other_offset,
        ),
        other_addr == addr && other_offset == offset ==> s.write_byte(addr, offset, value).byte(
            other_addr,
            other_offset,
        ) == (value & s.mask(addr, offset)) | (s.byte(addr, offset) & !s.mask(addr, offset)),
        other_addr != addr || other_offset != offset ==> s.write_byte(addr, offset, value).byte(
            other_addr,
            other_offset,
        ) == s.byte(other_addr, other_offset),
{
    lemma_position(s.addresses, addr, 0);
    lemma_position(s.addresses, other_addr, 0);
    lemma_read_only_byte(value, 0xFF);
}

/// A write followed by a read of the same word: the word takes the bits of
/// the value that its mask selects and keeps the others, and its mask
/// stays.
pub proof fn lemma_register_file_reads_back(
    s: RegisterFileState,
    addr: PCIAddress,
    offset: u32,
    value: u32,
)
    ensures
        reads_back::<RegisterFile>(s, addr, offset, s.word_mask(addr, offset), value),
        s.write(addr, offset, value).word_mask(addr, offset) == s.word_mask(addr, offset),
{
    let b0 = s.byte(addr, offset as int);
    let b1 = s.byte(addr, offset + 1);
    let b2 = s.byte(addr, offset + 2);
    let b3 = s.byte(addr, offset + 3);
    let m0 = s.mask(addr, offset as int);
    let m1 = s.mask(addr, offset + 1);
    let m2 = s.mask(addr, offset + 2);
    let m3 = s.mask(addr, offset + 3);
    let s1 = s.write_byte(addr, offset as int, byte_of(value, 0));
    let s2 = s1.write_byte(addr, offset + 1, byte_of(value, 1));
    let s3 = s2.write_byte(addr, offset + 2, byte_of(value, 2));
    let t = s3.write_byte(addr, offset + 3, byte_of(value, 3));
    assert(t == s.write(addr, offset, value));
    assert forall|k: int| 0 <= k < 4 implies {
        &&& #[trigger] s1.byte(addr, offset + k) == if k == 0 {
            (byte_of(value, 0) & m0) | (b0 & !m0)
        } else {
            s.byte(addr, offset + k)
        }
        &&& s1.mask(addr, offset + k) == s.mask(addr, offset + k)
    } by {
        lemma_write_byte(s, addr, offset as int, byte_of(value, 0), addr, offset + k);
    }
    assert forall|k: int| 0 <= k < 4 implies {
        &&& #[trigger] s2.byte(addr, offset + k) == if k == 1 {
            (byte_of(value, 1) & m1) | (b1 & !m1)
        } else {
            s1.byte(addr, offset + k)
        }
        &&& s2.mask(addr, offset + k) == s.mask(addr, offset + k)
    } by {
        lemma_write_byte(s1, addr, offset + 1, byte_of(value, 1), addr, offset + k);
    }
    assert forall|k: int| 0 <= k < 4 implies {
        &&& #[trigger] s3.byte(addr, offset + k) == if k == 2 {
            (byte_of(value, 2) & m2) | (b2 & !m2)
        } else {
            s2.byte(addr, offset + k)
        }
        &&& s3.mask(addr, offset + k) == s.mask(addr, offset + k)
    } by {
        lemma_write_byte(s2, addr, offset + 2, byte_of(value, 2), addr, offset + k);
    }
    assert forall|k: int| 0 <= k < 4 implies {
        &&& #[trigger] t.byte(addr, offset + k) == if k == 3 {
            (byte_of(value, 3) & m3) | (b3 & !m3)
        } else {
            s3.byte(addr, offset + k)
        }
        &&& t.mask(addr, offset + k) == s.mask(addr, offset + k)
    } by {
        lemma_write_byte(s3, addr, offset + 3, byte_of(value, 3), addr, offset + k);
    }
    let n0 = t.byte(addr, offset + 0);
    let n1 = t.byte(addr, offset + 1);
    let n2 = t.byte(addr, offset + 2);
    let n3 = t.byte(addr, offset + 3);
    assert(s3.byte(addr, offset + 0) == s2.byte(addr, offset + 0));
    assert(s3.byte(addr, offset + 1) == s2.byte(addr, offset + 1));
    assert(s2.byte(addr, offset + 0) == s1.byte(addr, offset + 0));
    assert(s2.byte(addr, offset + 3) == s1.byte(addr, offset + 3));
    assert(t.mask(addr, offset + 0) == m0);
    assert(word_of(n0, n1, n2, n3) == (value & word_of(m0, m1, m2, m3)) | (word_of(b0, b1, b2, b3)
        & !word_of(m0, m1, m2, m3))) by (bit_vector)
        requires
            n0 == (byte_of(value, 0) & m0) | (b0 & !m0),
            n1 == (byte_of(value, 1) & m1) | (b1 & !m1),
            n2 == (byte_of(value, 2) & m2) | (b2 & !m2),
            n3 == (byte_of(value, 3) & m3) | (b3 & !m3),
    ;
}

/// Every word of a register file is a plain register: it latches with the
/// writable bits that it was given.
pub proof fn lemma_register_file_latches(s: RegisterFileState, addr: PCIAddress, offset: u32)
    ensures
        latches::<RegisterFile>(s, addr, offset, s.word_mask(addr, offset)),
{
    let mask = s.word_mask(addr, offset);
    assert forall|writes: Seq<ConfigWrite>, value: u32| #[trigger]
        reads_back::<RegisterFile>(
            after_writes::<RegisterFile>(s, writes),
            addr,
            offset,
            mask,
            value,
        ) by {
        lemma_writes_keep_layout(s, writes);
        let t = after_writes::<RegisterFile>(s, writes);
        assert(t.word_mask(addr, offset) == mask);
        lemma_register_file_reads_back(t, addr, offset, value);
    }
}

/// On a register file, a query of a base-address register leaves the
/// register, and the one that follows it, holding exactly what they held
/// before.
pub proof fn lemma_register_file_bar_query_restores(
    s: RegisterFileState,
    addr: PCIAddress,
    index: u8,
)
    ensures
        bar_query::<RegisterFile>(s, addr, index).0.read(addr, bar_offset(index)) == s.read(
            addr,
            bar_offset(index),
        ),
        bar_query::<RegisterFile>(s, addr, index).0.read(addr, (bar_offset(index) + 4) as u32)
            == s.read(addr, (bar_offset(index) + 4) as u32),
{
    let offset = bar_offset(index);
    let next_offset = (offset + 4) as u32;
    lemma_register_file_latches(s, addr, offset);
    lemma_register_file_latches(s, addr, next_offset);
    lemma_bar_query_restores_register::<RegisterFile>(s, addr, index, s.word_mask(addr, offset));
    lemma_bar_query_restores_pair::<RegisterFile>(s, addr, index, s.word_mask(addr, next_offset));
}

} // verus!
