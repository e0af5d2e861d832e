//! Flat byte-addressable memory image spanning the full 32-bit address
//! range, with little-endian 2- and 4-byte accessors and bulk segment
//! loading.
//!
//! The image is modelled as a total map from 32-bit addresses to bytes;
//! every address reads as 0 until it is written.  Address arithmetic for
//! multi-byte accesses wraps modulo 2^32, so an access near the top of the
//! address space continues at address 0.  The backing store is sparse and
//! allocates on first touch, which preserves the read/write semantics of a
//! fully allocated 4-GiB array while using memory proportional to the
//! touched region only.

use std::collections::HashMap;
use vstd::prelude::*;

verus! {

/// The address that is `k` bytes past `address`, wrapping modulo 2^32.
pub open spec fn wrap_add(address: u32, k: u32) -> u32 {
    if address + k > u32::MAX {
        (address + k - 0x1_0000_0000) as u32
    } else {
        (address + k) as u32
    }
}

/// The little-endian 2-byte value stored at `address`.
pub open spec fn half_at(mem: Map<u32, u8>, address: u32) -> u16 {
    (mem[address] + mem[wrap_add(address, 1)] * 0x100) as u16
}

/// The little-endian 4-byte value stored at `address`.
pub open spec fn word_at(mem: Map<u32, u8>, address: u32) -> u32 {
    (mem[address] + mem[wrap_add(address, 1)] * 0x100 + mem[wrap_add(address, 2)] * 0x1_0000
        + mem[wrap_add(address, 3)] * 0x100_0000) as u32
}

/// The memory image after storing `value` at `address` as two
/// little-endian bytes.
pub open spec fn put_half(mem: Map<u32, u8>, address: u32, value: u16) -> Map<u32, u8> {
    mem.insert(address, (value % 0x100) as u8).insert(wrap_add(address, 1), (value / 0x100) as u8)
}

/// The memory image after storing `value` at `address` as four
/// little-endian bytes.
pub open spec fn put_word(mem: Map<u32, u8>, address: u32, value: u32) -> Map<u32, u8> {
    mem.insert(address, (value % 0x100) as u8).insert(
        wrap_add(address, 1),
        ((value / 0x100) % 0x100) as u8,
    ).insert(wrap_add(address, 2), ((value / 0x1_0000) % 0x100) as u8).insert(
        wrap_add(address, 3),
        (value / 0x100_0000) as u8,
    )
}

/// True when `address` is one of the `len` consecutive (wrapping)
/// addresses starting at `base`.
pub open spec fn in_segment(base: u32, len: int, address: u32) -> bool {
    exists|i: u32| (i as int) < len && address == wrap_add(base, i)
}

/// Byte-addressable memory covering addresses 0 through 0xFFFF_FFFF.
pub struct RAM {
    memory: HashMap<u32, u8>,
}

impl View for RAM {
    type V = Map<u32, u8>;

    closed spec fn view(&self) -> Map<u32, u8> {
        Map::new(
            |address: u32| true,
            |address: u32|
                if self.memory@.contains_key(address) {
                    self.memory@[address]
                } else {
                    0u8
                },
        )
    }
}

impl RAM {
    /// A fresh image in which every address holds 0.
    pub fn new() -> (ram: RAM)
        ensures
            forall|address: u32| ram@[address] == 0u8,
    {
        let ram = RAM { memory: HashMap::new() };
        proof {
            assert(forall|address: u32| !ram.memory@.contains_key(address));
        }
        ram
    }

    /// The byte stored at `address`.
    pub fn read_byte(&self, address: u32) -> (byte: u8)
        ensures
            byte == self@[address],
    {
        match self.memory.get(&address) {
            Some(byte) => *byte,
            None => 0,
        }
    }

    /// Store `byte` at `address`; every other address is unchanged.
    pub fn write_byte(&mut self, address: u32, byte: u8)
        ensures
            final(self)@ == old(self)@.insert(address, byte),
    {
        self.memory.insert(address, byte);
        proof {
            assert(self@ =~= old(self)@.insert(address, byte));
        }
    }

    /// The little-endian 2-byte value at `address` and `address + 1`
    /// (wrapping).
    pub fn read_half(&self, address: u32) -> (half: u16)
        ensures
            half == half_at(self@, address),
    {
        let b0: u8 = self.read_byte(address);
        let b1: u8 = self.read_byte(address.wrapping_add(1));
        b0 as u16 + (b1 as u16) * 0x100
    }

    /// Store `half` at `address` as two little-endian bytes (wrapping).
    pub fn write_half(&mut self, address: u32, half: u16)
        ensures
            final(self)@ == put_half(old(self)@, address, half),
    {
        self.write_byte(address, (half % 0x100) as u8);
        self.write_byte(address.wrapping_add(1), (half / 0x100) as u8);
    }

    /// The little-endian 4-byte value at `address` through `address + 3`
    /// (wrapping).
    pub fn read_word(&self, address: u32) -> (word: u32)
        ensures
            word == word_at(self@, address),
    {
        let b0: u8 = self.read_byte(address);
        let b1: u8 = self.read_byte(address.wrapping_add(1));
        let b2: u8 = self.read_byte(address.wrapping_add(2));
        let b3: u8 = self.read_byte(address.wrapping_add(3));
        b0 as u32 + (b1 as u32) * 0x100 + (b2 as u32) * 0x1_0000 + (b3 as u32) * 0x100_0000
    }

    /// Store `word` at `address` as four little-endian bytes (wrapping).
    pub fn write_word(&mut self, address: u32, word: u32)
        ensures
            final(self)@ == put_word(old(self)@, address, word),
    {
        self.write_byte(address, (word % 0x100) as u8);
        self.write_byte(address.wrapping_add(1), ((word / 0x100) % 0x100) as u8);
        self.write_byte(address.wrapping_add(2), ((word / 0x1_0000) % 0x100) as u8);
        self.write_byte(address.wrapping_add(3), (word / 0x100_0000) as u8);
    }

    /// Copy `bytes` verbatim into the image starting at `base_address`
    /// (wrapping); addresses outside the copied segment are unchanged.
    pub fn load_segment(&mut self, bytes: &Vec<u8>, base_address: u32)
        requires
            bytes@.len() <= 0x1_0000_0000,
        ensures
            forall|i: u32|
                (i as int) < bytes@.len() ==> final(self)@[#[trigger] wrap_add(base_address, i)]
                    == bytes@[i as int],
            forall|address: u32|
                !in_segment(base_address, bytes@.len() as int, address) ==> final(self)@[address]
                    == old(self)@[address],
    {
        let mut i: usize = 0;
        while i < bytes.len()
            invariant
                i <= bytes@.len(),
                bytes@.len() <= 0x1_0000_0000,
                forall|j: u32|
                    (j as int) < i ==> self@[#[trigger] wrap_add(base_address, j)] == bytes@[j as int],
                forall|address: u32|
                    !in_segment(base_address, i as int, address) ==> self@[address] == old(
                        self,
                    )@[address],
            decreases bytes@.len() - i,
        {
            proof {
                lemma_wrap_add_distinct(base_address, i as u32);
            }
            self.write_byte(base_address.wrapping_add(i as u32), bytes[i]);
            proof {
                assert forall|address: u32|
                    !in_segment(base_address, (i + 1) as int, address) implies self@[address]
                    == old(self)@[address] by {
                    assert(address != wrap_add(base_address, i as u32)) by {
                        if address == wrap_add(base_address, i as u32) {
                            assert((i as u32 as int) < (i + 1) as int && address == wrap_add(
                                base_address,
                                i as u32,
                            ));
                        }
                    }
                    assert(!in_segment(base_address, i as int, address)) by {
                        if in_segment(base_address, i as int, address) {
                            let j = choose|j: u32|
                                (j as int) < i as int && address == wrap_add(base_address, j);
                            assert((j as int) < (i + 1) as int && address == wrap_add(
                                base_address,
                                j,
                            ));
                        }
                    }
                }
            }
            i = i + 1;
        }
    }
}

/// Distinct offsets below 2^32 land on distinct wrapped addresses.
proof fn lemma_wrap_add_distinct(base: u32, i: u32)
    ensures
        forall|j: u32| j != i ==> #[trigger] wrap_add(base, j) != wrap_add(base, i),
{
}

/// A value written to memory is read back unchanged: a byte at its own
/// address, and a 2- or 4-byte value at the address it was stored at,
/// little-endian, for every address including those whose trailing bytes
/// wrap past the top of the address space.
pub proof fn lemma_memory_round_trip(mem: Map<u32, u8>, address: u32, word: u32, half: u16, byte: u8)
    ensures
        mem.insert(address, byte)[address] == byte,
        half_at(put_half(mem, address, half), address) == half,
        word_at(put_word(mem, address, word), address) == word,
{
    assert(wrap_add(address, 1) != address && wrap_add(address, 2) != address && wrap_add(
        address,
        3,
    ) != address && wrap_add(address, 1) != wrap_add(address, 2) && wrap_add(address, 1)
        != wrap_add(address, 3) && wrap_add(address, 2) != wrap_add(address, 3));
}

} // verus!
