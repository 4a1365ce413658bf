//! The machine: linear memory, the registers of the interpreter and the state
//! of the lexer, with the mathematical state that contracts speak of.

use vstd::prelude::*;
use crate::fault::Fault;
use crate::host::HostConstants;
use crate::dictionary::latest;
use crate::image::{
    holds_image, in_image, lemma_image_holds_a_dictionary, BOOT_WORDS, QUIT_CODE_FIELD,
};
use crate::lookup::is_dictionary;
use crate::memory::{
    cell_at, copy_bytes, is_cell, is_pointer, load_cell, overlay, put_cell, store_cell, BUFFER_SIZE,
    BUFFER_START, CELL_COUNT, DATA_STACK_BASE, MEMORY_SIZE, RETURN_STACK_BASE, WORD_BUFFER,
};

verus! {

/// Where the lexer stands between two bytes of input.
#[derive(Clone, Copy, PartialEq, Eq, Debug, Structural)]
pub enum Phase {
    /// Before a token: white space is being skipped.
    Skipping,
    /// Inside a comment, which runs to the end of the line.
    Comment,
    /// Inside a token, which is being copied to the word buffer.
    Token,
}

/// The state of a machine as contracts see it.
pub struct State {
    /// Linear memory.
    pub mem: Seq<u8>,
    /// Data stack pointer: the cell index of the top of the data stack.
    pub sp: int,
    /// Return stack pointer: the cell index of the top of the return stack.
    pub rsp: int,
    /// Cell index of the code field that is dispatched next.
    pub cfa: int,
    /// Instruction pointer: a cell index into the body that is executing.
    pub ip: int,
    /// Whether the next code field is still to be fetched from the body at
    /// `ip` before anything is dispatched.
    pub fetch: bool,
    /// Byte address of the next unread byte of the input buffer.
    pub currkey: int,
    /// Byte address just after the last byte that was read into the buffer.
    pub buftop: int,
    /// Where the lexer stands.
    pub phase: Phase,
    /// Byte address just after the part of a token that was copied so far.
    pub word_end: int,
    /// The constants of the host.
    pub host: HostConstants,
}

impl State {
    /// Memory has its full size, the code field that is dispatched next is a
    /// cell of it, the other registers name cells of it or its end, and the
    /// lexer's addresses lie where they belong.
    pub open spec fn wf(self) -> bool {
        &&& self.mem.len() == MEMORY_SIZE
        &&& is_pointer(self.sp)
        &&& is_pointer(self.rsp)
        &&& is_cell(self.cfa)
        &&& is_pointer(self.ip)
        &&& BUFFER_START <= self.currkey <= self.buftop <= BUFFER_START + BUFFER_SIZE
        &&& WORD_BUFFER <= self.word_end <= MEMORY_SIZE
    }

    /// The value of cell `index`.
    pub open spec fn cell(self, index: int) -> i32 {
        cell_at(self.mem, index)
    }

    /// The cell of the data stack that lies `depth` cells below its top.
    pub open spec fn top(self, depth: int) -> i32 {
        cell_at(self.mem, self.sp + depth)
    }

    /// The state with other memory, where there is one.
    pub open spec fn with_mem(self, mem: Result<Seq<u8>, Fault>) -> Result<State, Fault> {
        match mem {
            Ok(mem) => Ok(State { mem, ..self }),
            Err(fault) => Err(fault),
        }
    }

    /// The state in which a machine starts: memory holds the bootstrap image
    /// and zeroes, both stacks and the input buffer are empty, and `QUIT` is
    /// about to be dispatched.
    pub open spec fn is_boot(self) -> bool {
        &&& self.mem.len() == MEMORY_SIZE
        &&& holds_image(self.mem)
        &&& forall|a: int| 0 <= a < MEMORY_SIZE && !in_image(a) ==> self.mem[a] == 0
        &&& self.sp == DATA_STACK_BASE
        &&& self.rsp == RETURN_STACK_BASE
        &&& self.cfa == QUIT_CODE_FIELD
        &&& self.ip == 0
        &&& !self.fetch
        &&& self.currkey == BUFFER_START
        &&& self.buftop == BUFFER_START
        &&& self.phase == Phase::Skipping
        &&& self.word_end == WORD_BUFFER
    }
}

/// Whether an operation did what was expected of it: it got from `before` to
/// the expected state and reported success, or it reported the expected fault
/// and left the state as it was.
pub open spec fn agrees(
    before: State,
    after: State,
    done: Result<(), Fault>,
    expected: Result<State, Fault>,
) -> bool {
    match expected {
        Ok(next) => done == Ok::<(), Fault>(()) && after == next,
        Err(fault) => done == Err::<(), Fault>(fault) && after == before,
    }
}

/// A Forth virtual machine.
pub struct Forth {
    pub(crate) memory: Vec<u8>,
    pub(crate) currkey: usize,
    pub(crate) buftop: usize,
    pub(crate) sp: usize,
    pub(crate) rsp: usize,
    pub(crate) cfa: usize,
    pub(crate) ip: usize,
    pub(crate) fetch: bool,
    pub(crate) phase: Phase,
    pub(crate) word_end: usize,
    pub(crate) host: HostConstants,
}

impl View for Forth {
    type V = State;

    closed spec fn view(&self) -> State {
        State {
            mem: self.memory@,
            sp: self.sp as int,
            rsp: self.rsp as int,
            cfa: self.cfa as int,
            ip: self.ip as int,
            fetch: self.fetch,
            currkey: self.currkey as int,
            buftop: self.buftop as int,
            phase: self.phase,
            word_end: self.word_end as int,
            host: self.host,
        }
    }
}

impl Forth {
    /// What the view of a machine is made of.
    pub(crate) proof fn lemma_view(self)
        ensures
            self@ == (State {
                mem: self.memory@,
                sp: self.sp as int,
                rsp: self.rsp as int,
                cfa: self.cfa as int,
                ip: self.ip as int,
                fetch: self.fetch,
                currkey: self.currkey as int,
                buftop: self.buftop as int,
                phase: self.phase,
                word_end: self.word_end as int,
                host: self.host,
            }),
    {
    }

    /// A machine in its initial state, for a host with the given constants.
    pub fn with_host(host: HostConstants) -> (vm: Forth)
        ensures
            vm@.is_boot(),
            vm@.host == host,
            vm@.wf(),
            is_dictionary(vm@.mem, latest(vm@.mem), BOOT_WORDS as nat),
    {
        let mut memory: Vec<u8> = vec![0u8; MEMORY_SIZE];
        Self::init_rodata(memory.as_mut_slice());
        proof {
            lemma_image_holds_a_dictionary(memory@);
        }
        Forth {
            memory,
            currkey: BUFFER_START,
            buftop: BUFFER_START,
            sp: DATA_STACK_BASE,
            rsp: RETURN_STACK_BASE,
            cfa: QUIT_CODE_FIELD,
            ip: 0,
            fetch: false,
            phase: Phase::Skipping,
            word_end: WORD_BUFFER,
            host,
        }
    }

    /// A machine in its initial state, with the constants of this host.
    pub fn new() -> (vm: Forth)
        ensures
            vm@.is_boot(),
            vm@.wf(),
            is_dictionary(vm@.mem, latest(vm@.mem), BOOT_WORDS as nat),
    {
        Forth::with_host(HostConstants::of_host())
    }

    /// The value of cell `addr`.
    pub fn read_i32(&self, addr: usize) -> (value: i32)
        requires
            self@.wf(),
            addr < CELL_COUNT,
        ensures
            value == cell_at(self@.mem, addr as int),
    {
        load_cell(self.memory.as_slice(), addr)
    }

    /// Stores `value` in cell `addr`.
    pub fn write_i32(&mut self, addr: usize, value: i32)
        requires
            old(self)@.wf(),
            addr < CELL_COUNT,
        ensures
            final(self)@ == (State {
                mem: store_cell(old(self)@.mem, addr as int, value),
                ..old(self)@
            }),
            final(self)@.wf(),
    {
        put_cell(self.memory.as_mut_slice(), addr, value);
    }

    /// The byte at `address`.
    pub fn read_byte(&self, address: usize) -> (value: u8)
        requires
            self@.wf(),
            address < MEMORY_SIZE,
        ensures
            value == self@.mem[address as int],
    {
        self.memory[address]
    }

    /// Stores `value` in the byte at `address`.
    pub fn write_byte(&mut self, address: usize, value: u8)
        requires
            old(self)@.wf(),
            address < MEMORY_SIZE,
        ensures
            final(self)@ == (State {
                mem: old(self)@.mem.update(address as int, value),
                ..old(self)@
            }),
            final(self)@.wf(),
    {
        self.memory[address] = value;
    }

    /// Copies the `count` bytes at `src` to `dst`.
    pub(crate) fn move_bytes(&mut self, src: usize, dst: usize, count: usize)
        requires
            old(self)@.wf(),
            src + count <= MEMORY_SIZE,
            dst + count <= MEMORY_SIZE,
        ensures
            final(self)@ == (State {
                mem: overlay(
                    old(self)@.mem,
                    dst as int,
                    old(self)@.mem.subrange(src as int, src + count),
                ),
                ..old(self)@
            }),
            final(self)@.wf(),
    {
        copy_bytes(self.memory.as_mut_slice(), src, dst, count);
    }

    /// A copy of the `count` bytes at `start`.
    pub(crate) fn bytes(&self, start: usize, count: usize) -> (copy: Vec<u8>)
        requires
            self@.wf(),
            start + count <= MEMORY_SIZE,
        ensures
            copy@ == self@.mem.subrange(start as int, start + count),
    {
        let mut copy: Vec<u8> = Vec::new();
        let mut k: usize = 0;
        while k < count
            invariant
                k <= count,
                start + count <= MEMORY_SIZE,
                self.memory@.len() == MEMORY_SIZE,
                copy@ == self.memory@.subrange(start as int, start + k),
            decreases count - k,
        {
            copy.push(self.memory[start + k]);
            k += 1;
        }
        copy
    }

    /// The cell of the data stack that lies `depth` cells below its top.
    pub(crate) fn peek(&self, depth: usize) -> (value: i32)
        requires
            self@.wf(),
            self@.sp + depth < CELL_COUNT,
        ensures
            value == self@.top(depth as int),
    {
        load_cell(self.memory.as_slice(), self.sp + depth)
    }

    /// Sets the data stack pointer.
    pub(crate) fn set_sp(&mut self, sp: usize)
        requires
            old(self)@.wf(),
            sp <= CELL_COUNT,
        ensures
            final(self)@ == (State { sp: sp as int, ..old(self)@ }),
            final(self)@.wf(),
    {
        self.sp = sp;
    }

    /// Sets the return stack pointer.
    pub(crate) fn set_rsp(&mut self, rsp: usize)
        requires
            old(self)@.wf(),
            rsp <= CELL_COUNT,
        ensures
            final(self)@ == (State { rsp: rsp as int, ..old(self)@ }),
            final(self)@.wf(),
    {
        self.rsp = rsp;
    }

    /// Sets the instruction pointer.
    pub(crate) fn set_ip(&mut self, ip: usize)
        requires
            old(self)@.wf(),
            ip <= CELL_COUNT,
        ensures
            final(self)@ == (State { ip: ip as int, ..old(self)@ }),
            final(self)@.wf(),
    {
        self.ip = ip;
    }

    /// Sets the code field that is dispatched next.
    pub(crate) fn set_cfa(&mut self, cfa: usize)
        requires
            old(self)@.wf(),
            cfa < CELL_COUNT,
        ensures
            final(self)@ == (State { cfa: cfa as int, ..old(self)@ }),
            final(self)@.wf(),
    {
        self.cfa = cfa;
    }

    /// Says whether the next code field is still to be fetched.
    pub(crate) fn set_fetch(&mut self, fetch: bool)
        requires
            old(self)@.wf(),
        ensures
            final(self)@ == (State { fetch, ..old(self)@ }),
            final(self)@.wf(),
    {
        self.fetch = fetch;
    }

    /// Whether the next code field is still to be fetched from the body.
    pub fn fetch(&self) -> (fetch: bool)
        ensures
            fetch == self@.fetch,
    {
        self.fetch
    }

    /// Linear memory.
    pub fn memory(&self) -> (bytes: &[u8])
        ensures
            bytes@ == self@.mem,
    {
        self.memory.as_slice()
    }

    /// The data stack pointer, a cell index.
    pub fn sp(&self) -> (sp: usize)
        ensures
            sp == self@.sp,
    {
        self.sp
    }

    /// The return stack pointer, a cell index.
    pub fn rsp(&self) -> (rsp: usize)
        ensures
            rsp == self@.rsp,
    {
        self.rsp
    }

    /// The instruction pointer, a cell index.
    pub fn ip(&self) -> (ip: usize)
        ensures
            ip == self@.ip,
    {
        self.ip
    }

    /// The cell index of the code field that is dispatched next.
    pub fn cfa(&self) -> (cfa: usize)
        ensures
            cfa == self@.cfa,
    {
        self.cfa
    }

    /// The constants of the host that the machine was made for.
    pub fn host(&self) -> (host: HostConstants)
        ensures
            host == self@.host,
    {
        self.host
    }
}

} // verus!
