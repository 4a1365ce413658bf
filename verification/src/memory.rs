//! Linear memory: one flat array of bytes that is also read and written as
//! four-byte cells. Cell `i` occupies the bytes `4 * i .. 4 * i + 4`, lowest
//! byte first, and holds a signed value in two's complement.

use vstd::prelude::*;

verus! {

/// Number of cells in linear memory.
pub const CELL_COUNT: usize = 0x10000;

/// Number of bytes in linear memory.
pub const MEMORY_SIZE: usize = 0x40000;

/// Number of bytes in linear memory, as a cell value.
pub const MEMORY_END: i32 = 0x40000;

/// First byte of the input buffer.
pub const BUFFER_START: usize = 0x4000;

/// Length of the input buffer in bytes.
pub const BUFFER_SIZE: usize = 0x1000;

/// First byte of the word buffer, where the lexer leaves the latest token.
pub const WORD_BUFFER: usize = 0x5014;

/// Cell that holds `STATE`: zero while executing, nonzero while compiling.
pub const STATE_ADDR: usize = 0x1400;

/// Cell that holds `HERE`, the byte address of the next free dictionary cell.
pub const HERE_ADDR: usize = 0x1401;

/// Cell that holds `LATEST`, the byte address of the newest word header.
pub const LATEST_ADDR: usize = 0x1402;

/// Cell that holds `S0`, the byte address of the base of the data stack.
pub const S0_ADDR: usize = 0x1403;

/// Cell that holds `BASE`, the radix for number parsing.
pub const BASE_ADDR: usize = 0x1404;

/// Cell index just above the data stack: the stack pointer of an empty stack.
pub const DATA_STACK_BASE: usize = 0x0800;

/// Cell index just above the return stack.
pub const RETURN_STACK_BASE: usize = 0x1000;

/// The unsigned number that four bytes spell, lowest byte first.
pub open spec fn unsigned_of_bytes(b0: u8, b1: u8, b2: u8, b3: u8) -> int {
    b0 as int + 256 * (b1 as int) + 65536 * (b2 as int) + 16777216 * (b3 as int)
}

/// The signed cell value that four bytes spell, lowest byte first.
pub open spec fn cell_value(b0: u8, b1: u8, b2: u8, b3: u8) -> i32 {
    let unsigned = unsigned_of_bytes(b0, b1, b2, b3);
    if unsigned >= 0x8000_0000 {
        (unsigned - 0x1_0000_0000) as i32
    } else {
        unsigned as i32
    }
}

/// The unsigned number with the same 32 bits as `value`.
pub open spec fn unsigned_of_cell(value: i32) -> int {
    if value < 0 {
        value + 0x1_0000_0000
    } else {
        value as int
    }
}

/// The four bytes of a cell value, lowest first.
pub open spec fn cell_bytes(value: i32) -> Seq<u8> {
    let unsigned = unsigned_of_cell(value);
    seq![
        (unsigned % 256) as u8,
        ((unsigned / 256) % 256) as u8,
        ((unsigned / 65536) % 256) as u8,
        ((unsigned / 16777216) % 256) as u8,
    ]
}

/// The value of cell `index` of `mem`.
pub open spec fn cell_at(mem: Seq<u8>, index: int) -> i32 {
    cell_value(mem[4 * index], mem[4 * index + 1], mem[4 * index + 2], mem[4 * index + 3])
}

/// `mem` with `value` stored in cell `index`.
pub open spec fn store_cell(mem: Seq<u8>, index: int, value: i32) -> Seq<u8> {
    let bytes = cell_bytes(value);
    mem.update(4 * index, bytes[0]).update(4 * index + 1, bytes[1]).update(
        4 * index + 2,
        bytes[2],
    ).update(4 * index + 3, bytes[3])
}

/// `mem` with `bytes` laid over it from `at` on.
pub open spec fn overlay(mem: Seq<u8>, at: int, bytes: Seq<u8>) -> Seq<u8> {
    Seq::new(
        mem.len(),
        |i: int|
            if at <= i < at + bytes.len() {
                bytes[i - at]
            } else {
                mem[i]
            },
    )
}

/// Whether `index` names a cell of linear memory.
pub open spec fn is_cell(index: int) -> bool {
    0 <= index < CELL_COUNT
}

/// Whether `index` names a cell of linear memory or its end, where a stack
/// that holds nothing may stand.
pub open spec fn is_pointer(index: int) -> bool {
    0 <= index <= CELL_COUNT
}

/// Whether `address` names a byte of linear memory.
pub open spec fn is_byte(address: int) -> bool {
    0 <= address < MEMORY_SIZE
}

/// Reading back the bytes of a value gives the value.
pub proof fn lemma_cell_bytes_value(value: i32)
    ensures
        cell_bytes(value).len() == 4,
        cell_value(
            cell_bytes(value)[0],
            cell_bytes(value)[1],
            cell_bytes(value)[2],
            cell_bytes(value)[3],
        ) == value,
{
    let u = unsigned_of_cell(value);
    assert(0 <= u < 0x1_0000_0000);
    assert(u == (u % 256) + 256 * ((u / 256) % 256) + 65536 * ((u / 65536) % 256) + 16777216 * (
    (u / 16777216) % 256));
}

/// A store is seen by a load of the same cell.
pub proof fn lemma_store_cell_same(mem: Seq<u8>, index: int, value: i32)
    requires
        0 <= index,
        4 * index + 4 <= mem.len(),
    ensures
        store_cell(mem, index, value).len() == mem.len(),
        cell_at(store_cell(mem, index, value), index) == value,
{
    lemma_cell_bytes_value(value);
}

/// A store leaves every byte outside the cell as it was.
pub proof fn lemma_store_cell_bytes(mem: Seq<u8>, index: int, value: i32, address: int)
    requires
        0 <= index,
        4 * index + 4 <= mem.len(),
        0 <= address < mem.len(),
        address < 4 * index || 4 * index + 4 <= address,
    ensures
        store_cell(mem, index, value)[address] == mem[address],
{
}

/// A store leaves every other cell as it was.
pub proof fn lemma_store_cell_other(mem: Seq<u8>, index: int, value: i32, other: int)
    requires
        0 <= index,
        4 * index + 4 <= mem.len(),
        0 <= other,
        4 * other + 4 <= mem.len(),
        other != index,
    ensures
        cell_at(store_cell(mem, index, value), other) == cell_at(mem, other),
{
}

/// Loads cell `index` of `mem`.
pub fn load_cell(mem: &[u8], index: usize) -> (value: i32)
    requires
        index < CELL_COUNT,
        4 * index + 4 <= mem@.len(),
    ensures
        value == cell_at(mem@, index as int),
{
    let base: usize = 4 * index;
    let b0: i64 = mem[base] as i64;
    let b1: i64 = mem[base + 1] as i64;
    let b2: i64 = mem[base + 2] as i64;
    let b3: i64 = mem[base + 3] as i64;
    let unsigned: i64 = b0 + 256 * b1 + 65536 * b2 + 16777216 * b3;
    if unsigned >= 0x8000_0000 {
        (unsigned - 0x1_0000_0000) as i32
    } else {
        unsigned as i32
    }
}

/// Stores `value` in cell `index` of `mem`.
pub fn put_cell(mem: &mut [u8], index: usize, value: i32)
    requires
        index < CELL_COUNT,
        4 * index + 4 <= old(mem)@.len(),
    ensures
        final(mem)@ == store_cell(old(mem)@, index as int, value),
{
    let base: usize = 4 * index;
    let unsigned: i64 = if value < 0 {
        value as i64 + 0x1_0000_0000
    } else {
        value as i64
    };
    mem[base] = (unsigned % 256) as u8;
    mem[base + 1] = ((unsigned / 256) % 256) as u8;
    mem[base + 2] = ((unsigned / 65536) % 256) as u8;
    mem[base + 3] = ((unsigned / 16777216) % 256) as u8;
}

/// Copies the `count` bytes at `src` to `dst`, as if through a buffer: the
/// bytes that arrive are those that stood at `src` before, also where the
/// two ranges overlap.
pub fn copy_bytes(mem: &mut [u8], src: usize, dst: usize, count: usize)
    requires
        src + count <= old(mem)@.len(),
        dst + count <= old(mem)@.len(),
    ensures
        final(mem)@ == overlay(old(mem)@, dst as int, old(mem)@.subrange(src as int, src + count)),
{
    let length: usize = mem.len();
    let mut taken: Vec<u8> = Vec::new();
    let mut k: usize = 0;
    while k < count
        invariant
            k <= count,
            src + count <= length,
            mem@.len() == length,
            mem@ == old(mem)@,
            taken@ == mem@.subrange(src as int, src + k),
        decreases count - k,
    {
        taken.push(mem[src + k]);
        k += 1;
    }
    k = 0;
    while k < count
        invariant
            k <= count,
            src + count <= length,
            dst + count <= length,
            mem@.len() == length,
            old(mem)@.len() == length,
            taken@ == old(mem)@.subrange(src as int, src + count),
            mem@ == overlay(old(mem)@, dst as int, taken@.take(k as int)),
        decreases count - k,
    {
        mem[dst + k] = taken[k];
        k += 1;
    }
}

} // verus!
