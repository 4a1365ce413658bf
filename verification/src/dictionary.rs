//! The dictionary: a chain of word headers in linear memory, newest first.
//!
//! A header at byte address `h` holds, from `h` on: one cell with the byte
//! address of the header before it (zero in the oldest), one byte of flags
//! and length, and the name. The code field is the first cell boundary after
//! the name. The search reads the low six bits of the flags byte as the
//! length, so the hidden bit counts as part of it; the code field is placed by
//! the low five bits alone.

use vstd::prelude::*;
use crate::fault::Fault;
use crate::machine::{agrees, Forth};
use crate::memory::{
    cell_at, copy_bytes, overlay, store_cell, HERE_ADDR, LATEST_ADDR, MEMORY_END, MEMORY_SIZE,
};

verus! {

/// Flag bit of an immediate word, which runs even while compiling.
pub const F_IMMED: u8 = 0x80;

/// Flag bit of a hidden word.
pub const F_HIDDEN: u8 = 0x20;

/// Mask of the name length, by which the code field is placed.
pub const F_LENMASK: u8 = 0x1F;

/// Mask of the bits that the search compares with a token's length: the
/// name length and the hidden bit.
pub const F_SEARCHMASK: u8 = 0x3F;

/// The byte address of the newest header, which `LATEST` holds.
pub open spec fn latest(mem: Seq<u8>) -> i32 {
    cell_at(mem, LATEST_ADDR as int)
}

/// The byte address of the next free dictionary cell, which `HERE` holds.
pub open spec fn here(mem: Seq<u8>) -> i32 {
    cell_at(mem, HERE_ADDR as int)
}

/// Whether a header at `header` has its link and its flags byte in memory.
pub open spec fn is_header(header: int) -> bool {
    0 <= header && header + 4 < MEMORY_SIZE
}

/// The flags byte of the header at `header`.
pub open spec fn flags_of(mem: Seq<u8>, header: int) -> u8 {
    mem[header + 4]
}

/// The link of the header at `header`: the header before it, or zero.
pub open spec fn link_of(mem: Seq<u8>, header: int) -> i32 {
    cell_at(mem, header / 4)
}

/// Whether the length that the search reads from the header at `header` is
/// `count`.
pub open spec fn length_matches(mem: Seq<u8>, header: int, count: i32) -> bool {
    (flags_of(mem, header) & F_SEARCHMASK) as int == count
}

/// Whether the `count` bytes at `name` and the name bytes of the header at
/// `header` both lie in memory.
pub open spec fn names_in_memory(header: int, count: i32, name: int) -> bool {
    0 <= name && name + count <= MEMORY_SIZE && header + 5 + count <= MEMORY_SIZE
}

/// Whether the header at `header` carries the `count` bytes at `name` as its
/// name, byte for byte.
pub open spec fn carries_name(mem: Seq<u8>, header: int, count: i32, name: int) -> bool {
    &&& length_matches(mem, header, count)
    &&& mem.subrange(header + 5, header + 5 + count) == mem.subrange(name, name + count)
}

/// The search for the `count` bytes at `name` from the header at `header`
/// on, along at most `fuel` links: the first header that matches, or zero
/// where the chain ends first. A header outside memory, or a name of the
/// sought length that reaches outside memory, is a fault, and so is a chain
/// that has not ended when the fuel is spent.
pub open spec fn search(mem: Seq<u8>, header: i32, count: i32, name: int, fuel: nat) -> Result<
    i32,
    Fault,
>
    decreases fuel,
{
    if header == 0 {
        Ok(0)
    } else if fuel == 0 {
        Err(Fault::EndlessDictionary)
    } else if !is_header(header as int) {
        Err(Fault::OutOfBounds)
    } else if length_matches(mem, header as int, count) && !names_in_memory(
        header as int,
        count,
        name,
    ) {
        Err(Fault::OutOfBounds)
    } else if carries_name(mem, header as int, count, name) {
        Ok(header)
    } else {
        search(mem, link_of(mem, header as int), count, name, (fuel - 1) as nat)
    }
}

/// What `find` returns: the search from `LATEST` on, with as much fuel as
/// memory has bytes. No chain of distinct headers is longer than that.
pub open spec fn find_spec(mem: Seq<u8>, count: i32, name: int) -> Result<i32, Fault> {
    search(mem, latest(mem), count, name, MEMORY_SIZE as nat)
}

/// `address` rounded down to a cell boundary.
pub open spec fn align_down(address: int) -> int {
    4 * (address / 4)
}

/// The byte address of the code field of the header at `header`: past the
/// link, the flags byte and as many name bytes as the low five bits of the
/// flags say, rounded up to a cell boundary.
pub open spec fn code_field(mem: Seq<u8>, header: i32) -> Result<i32, Fault> {
    if -4 <= header && header + 4 < MEMORY_SIZE {
        Ok(align_down(header + 8 + (flags_of(mem, header as int) & F_LENMASK)) as i32)
    } else {
        Err(Fault::OutOfBounds)
    }
}

/// Whether `create` can lay out a header for the `count` bytes at `name`:
/// nothing is negative, and the name and the new header lie in memory.
pub open spec fn can_create(mem: Seq<u8>, count: i32, name: i32) -> bool {
    &&& 0 <= count
    &&& 0 <= name
    &&& 0 <= here(mem)
    &&& name + count <= MEMORY_SIZE
    &&& here(mem) + 5 + count <= MEMORY_SIZE
}

/// Memory after `create`: a new header at `HERE`, linked to `LATEST`, with
/// the low eight bits of `count` as its flags byte and the `count` bytes at
/// `name` as its name. `HERE` moves to the new code field, which is left as
/// it was, and `LATEST` to the new header.
#[verifier::opaque]
pub open spec fn create_spec(mem: Seq<u8>, count: i32, name: i32) -> Result<Seq<u8>, Fault> {
    if can_create(mem, count, name) {
        let header = here(mem);
        let linked = store_cell(mem, header / 4, latest(mem));
        let flagged = linked.update(header + 4, count as u8);
        let named = overlay(flagged, header + 5, flagged.subrange(name as int, name + count));
        let after = align_down(header + 8 + ((count as u8) & F_LENMASK)) as i32;
        Ok(store_cell(store_cell(named, HERE_ADDR as int, after), LATEST_ADDR as int, header))
    } else {
        Err(Fault::OutOfBounds)
    }
}

/// Memory after `,`: `value` stored in the cell at `HERE`, and `HERE` moved
/// on by one cell.
#[verifier::opaque]
pub open spec fn comma_spec(mem: Seq<u8>, value: i32) -> Result<Seq<u8>, Fault> {
    let free = here(mem);
    if 0 <= free < MEMORY_SIZE {
        Ok(store_cell(store_cell(mem, free / 4, value), HERE_ADDR as int, (free + 4) as i32))
    } else {
        Err(Fault::OutOfBounds)
    }
}

/// The low six bits of a byte are at most 63, the low five at most 31.
pub proof fn lemma_mask_bounds(flags: u8)
    ensures
        flags & F_SEARCHMASK <= 63,
        flags & F_LENMASK <= 31,
{
    assert(flags & 0x3F <= 63) by (bit_vector);
    assert(flags & 0x1F <= 31) by (bit_vector);
}

impl Forth {
    /// Whether the `count` bytes at `a` equal those at `b`.
    fn same_bytes(&self, a: usize, b: usize, count: usize) -> (same: bool)
        requires
            self@.wf(),
            a + count <= MEMORY_SIZE,
            b + count <= MEMORY_SIZE,
        ensures
            same == (self@.mem.subrange(a as int, a + count) == self@.mem.subrange(
                b as int,
                b + count,
            )),
    {
        proof {
            self.lemma_view();
        }
        let ghost left = self@.mem.subrange(a as int, a + count);
        let ghost right = self@.mem.subrange(b as int, b + count);
        let mut k: usize = 0;
        while k < count
            invariant
                k <= count,
                a + count <= MEMORY_SIZE,
                b + count <= MEMORY_SIZE,
                self.memory@ == self@.mem,
                self@.mem.len() == MEMORY_SIZE,
                left == self@.mem.subrange(a as int, a + count),
                right == self@.mem.subrange(b as int, b + count),
                forall|j: int| 0 <= j < k ==> #[trigger] left[j] == right[j],
            decreases count - k,
        {
            if self.memory[a + k] != self.memory[b + k] {
                assert(left[k as int] != right[k as int]);
                return false;
            }
            assert(left[k as int] == right[k as int]);
            k += 1;
        }
        assert(left =~= right);
        true
    }

    /// Looks up the `count` bytes at byte address `name` in the dictionary
    /// and returns the byte address of the newest header that carries them as
    /// its name, or zero if there is none.
    pub fn find(&self, count: i32, name: usize) -> (found: Result<i32, Fault>)
        requires
            self@.wf(),
        ensures
            found == find_spec(self@.mem, count, name as int),
    {
        proof {
            self.lemma_view();
        }
        let mut word: i32 = self.read_i32(LATEST_ADDR);
        let mut fuel: usize = MEMORY_SIZE;
        while word != 0
            invariant
                self@.wf(),
                self.memory@ == self@.mem,
                search(self@.mem, word, count, name as int, fuel as nat) == find_spec(
                    self@.mem,
                    count,
                    name as int,
                ),
            decreases fuel,
        {
            if fuel == 0 {
                return Err(Fault::EndlessDictionary);
            }
            if word < 0 || word >= MEMORY_END - 4 {
                return Err(Fault::OutOfBounds);
            }
            let header: usize = word as usize;
            let flags: u8 = self.memory[header + 4];
            let length: u8 = flags & F_SEARCHMASK;
            proof {
                lemma_mask_bounds(flags);
            }
            if length as i32 == count {
                let size: usize = length as usize;
                if name > MEMORY_SIZE - size || header + 5 + size > MEMORY_SIZE {
                    return Err(Fault::OutOfBounds);
                }
                if self.same_bytes(header + 5, name, size) {
                    return Ok(word);
                }
            }
            word = self.read_i32(header / 4);
            fuel = fuel - 1;
        }
        Ok(0)
    }

    /// The byte address of the code field of the header at byte address
    /// `word`.
    pub fn code_field_address(&self, word: i32) -> (address: Result<i32, Fault>)
        requires
            self@.wf(),
        ensures
            address == code_field(self@.mem, word),
    {
        proof {
            self.lemma_view();
        }
        if word < -4 || word >= MEMORY_END - 4 {
            return Err(Fault::OutOfBounds);
        }
        let flags: u8 = self.memory[(word + 4) as usize];
        let length: u8 = flags & F_LENMASK;
        proof {
            lemma_mask_bounds(flags);
        }
        let end: i32 = word + 8 + length as i32;
        Ok(4 * (end / 4))
    }

    /// Starts a new word: appends a header for the `count` bytes at byte
    /// address `name` to the dictionary. Where that is not possible, nothing
    /// changes.
    pub fn create(&mut self, count: i32, name: i32) -> (done: Result<(), Fault>)
        requires
            old(self)@.wf(),
        ensures
            final(self)@.wf(),
            agrees(
                old(self)@,
                final(self)@,
                done,
                old(self)@.with_mem(create_spec(old(self)@.mem, count, name)),
            ),
    {
        proof {
            reveal(create_spec);
            self.lemma_view();
        }
        let free: i32 = self.read_i32(HERE_ADDR);
        if count < 0 || name < 0 || free < 0 || count > MEMORY_END {
            return Err(Fault::OutOfBounds);
        }
        if name > MEMORY_END - count || free > MEMORY_END - 5 - count {
            return Err(Fault::OutOfBounds);
        }
        let header: usize = free as usize;
        let newest: i32 = self.read_i32(LATEST_ADDR);
        self.write_i32(header / 4, newest);
        proof {
            self.lemma_view();
        }
        let flags: u8 = count as u8;
        self.memory[header + 4] = flags;
        copy_bytes(self.memory.as_mut_slice(), name as usize, header + 5, count as usize);
        let length: u8 = flags & F_LENMASK;
        proof {
            lemma_mask_bounds(flags);
            self.lemma_view();
        }
        let end: i32 = free + 8 + length as i32;
        self.write_i32(HERE_ADDR, 4 * (end / 4));
        self.write_i32(LATEST_ADDR, free);
        Ok(())
    }

    /// Appends `value` to the dictionary as one cell. Where `HERE` does not
    /// name a cell of memory, nothing changes.
    pub fn comma(&mut self, value: i32) -> (done: Result<(), Fault>)
        requires
            old(self)@.wf(),
        ensures
            final(self)@.wf(),
            agrees(
                old(self)@,
                final(self)@,
                done,
                old(self)@.with_mem(comma_spec(old(self)@.mem, value)),
            ),
    {
        proof {
            reveal(comma_spec);
        }
        let free: i32 = self.read_i32(HERE_ADDR);
        if free < 0 || free >= MEMORY_END {
            return Err(Fault::OutOfBounds);
        }
        self.write_i32(free as usize / 4, value);
        self.write_i32(HERE_ADDR, free + 4);
        Ok(())
    }
}

} // verus!
