//! The threaded-code interpreter: one step at a time, each step one
//! primitive. A step never waits and never touches the outside world; it
//! returns what the host has to do before the next one.

use vstd::prelude::*;
use crate::dictionary::{comma_spec, F_HIDDEN, F_IMMED};
use crate::fault::Fault;
use crate::image::LIT_CODE_FIELD;
use crate::lexer::NEWLINE;
use crate::machine::{agrees, Forth, State};
use crate::memory::{
    is_byte, is_cell, is_pointer, lemma_store_cell_same, store_cell, CELL_COUNT, HERE_ADDR, LATEST_ADDR,
    MEMORY_END, MEMORY_SIZE, STATE_ADDR, WORD_BUFFER,
};
use crate::operators::{cell_of, divide, quarter};
use crate::primitive::{Binary, Constant, Primitive, Shuffle, Unary};
use crate::semantics::{
    execute, interpret_token, parse_error, resume_spec, step_spec, store_below, transition,
    Outcome, PARSE_ERROR_PREFIX,
};

verus! {

/// What a step asks of the host.
#[derive(PartialEq, Eq, Debug)]
pub enum Action {
    /// Nothing: the machine can take its next step.
    Continue,
    /// The input buffer is empty: refill it, then step again.
    NeedInput,
    /// Bytes for the output stream, to be written and flushed at once.
    Output(Vec<u8>),
    /// Bytes for the error stream.
    Diagnostic(Vec<u8>),
    /// A system call to make. Its result goes to `complete_syscall` before
    /// the next step.
    Syscall { number: i32, arguments: Vec<i32> },
    /// The machine has given up.
    Fault(Fault),
}

impl View for Action {
    type V = Outcome;

    open spec fn view(&self) -> Outcome {
        match self {
            Action::Continue => Outcome::Continue,
            Action::NeedInput => Outcome::NeedInput,
            Action::Output(bytes) => Outcome::Output(bytes@),
            Action::Diagnostic(bytes) => Outcome::Diagnostic(bytes@),
            Action::Syscall { number, arguments } => Outcome::Syscall {
                number: *number,
                arguments: arguments@,
            },
            Action::Fault(fault) => Outcome::Fault(*fault),
        }
    }
}

/// The cell that a byte address falls into, if it lies in memory.
fn cell_index(address: i32) -> (index: Option<usize>)
    ensures
        match index {
            Some(i) => is_cell(cell_of(address)) && i == cell_of(address),
            None => !is_cell(cell_of(address)),
        },
{
    if 0 <= address && address < MEMORY_END {
        Some((address / 4) as usize)
    } else {
        None
    }
}

/// A byte address as an index, if it lies in memory.
fn byte_index(address: i32) -> (index: Option<usize>)
    ensures
        match index {
            Some(i) => is_byte(address as int) && i == address,
            None => !is_byte(address as int),
        },
{
    if 0 <= address && address < MEMORY_END {
        Some(address as usize)
    } else {
        None
    }
}

/// A register value, if it names a cell of memory or its end.
fn pointer(value: i64) -> (index: Option<usize>)
    ensures
        match index {
            Some(i) => is_pointer(value as int) && i == value,
            None => !is_pointer(value as int),
        },
{
    if 0 <= value && value <= CELL_COUNT as i64 {
        Some(value as usize)
    } else {
        None
    }
}

/// The cell that a byte address falls into, or the end of memory, if it is
/// one of the two.
fn pointer_of(address: i32) -> (index: Option<usize>)
    ensures
        match index {
            Some(i) => is_pointer(cell_of(address)) && i == cell_of(address),
            None => !is_pointer(cell_of(address)),
        },
{
    if 0 <= address && address <= MEMORY_END + 3 {
        Some((address / 4) as usize)
    } else {
        None
    }
}

impl Forth {
    /// The `count` top cells of the data stack, deepest first.
    fn operands(&self, count: usize) -> (cells: Vec<i32>)
        requires
            self@.wf(),
            self@.sp + count <= CELL_COUNT,
        ensures
            cells@ == self@.operands(count as int),
    {
        let mut cells: Vec<i32> = Vec::new();
        let mut k: usize = 0;
        while k < count
            invariant
                k <= count,
                self@.wf(),
                self@.sp + count <= CELL_COUNT,
                cells@.len() == k,
                forall|j: int| 0 <= j < k ==> cells@[j] == self@.top(count - 1 - j),
            decreases count - k,
        {
            cells.push(self.peek(count - 1 - k));
            k += 1;
        }
        assert(cells@ =~= self@.operands(count as int));
        cells
    }

    /// Replaces the `count` top cells of the data stack by `values`.
    fn replace(&mut self, count: usize, values: &Vec<i32>) -> (done: Result<(), Fault>)
        requires
            old(self)@.wf(),
            count <= 4,
            values@.len() <= 4,
        ensures
            final(self)@.wf(),
            agrees(old(self)@, final(self)@, done, old(self)@.replace(count as int, values@)),
    {
        let floor: usize = self.sp() + count;
        let length: usize = values.len();
        if floor > CELL_COUNT || length > floor {
            return Err(Fault::OutOfBounds);
        }
        assert(values@.skip(0) =~= values@);
        let mut k: usize = 0;
        while k < length
            invariant
                k <= length <= floor <= CELL_COUNT,
                length == values@.len(),
                self@.wf(),
                self@ == (State { mem: self@.mem, ..old(self)@ }),
                store_below(self@.mem, floor - k, values@.skip(k as int)) == store_below(
                    old(self)@.mem,
                    floor as int,
                    values@,
                ),
            decreases length - k,
        {
            assert(values@.skip(k as int).drop_first() =~= values@.skip(k + 1));
            self.write_i32(floor - 1 - k, values[k]);
            k += 1;
        }
        self.set_sp(floor - length);
        Ok(())
    }

    /// Pushes `value` on the data stack.
    fn push(&mut self, value: i32) -> (done: Result<(), Fault>)
        requires
            old(self)@.wf(),
        ensures
            final(self)@.wf(),
            agrees(old(self)@, final(self)@, done, old(self)@.push(value)),
    {
        let sp: usize = self.sp();
        if sp < 1 {
            return Err(Fault::OutOfBounds);
        }
        self.write_i32(sp - 1, value);
        self.set_sp(sp - 1);
        Ok(())
    }

    /// Changes the bits of `mask` in the cell after the one that `header`
    /// falls into.
    fn toggle(&mut self, header: i32, mask: i32) -> (done: Result<(), Fault>)
        requires
            old(self)@.wf(),
        ensures
            final(self)@.wf(),
            agrees(old(self)@, final(self)@, done, old(self)@.toggle(header, mask)),
    {
        match cell_index(header) {
            Some(index) => {
                if index + 1 >= CELL_COUNT {
                    return Err(Fault::OutOfBounds);
                }
                let cell: i32 = self.read_i32(index + 1);
                self.write_i32(index + 1, cell ^ mask);
                Ok(())
            },
            None => Err(Fault::OutOfBounds),
        }
    }

    /// A rearrangement of the top of the data stack.
    fn shuffle(&mut self, op: Shuffle) -> (done: Result<(), Fault>)
        requires
            old(self)@.wf(),
        ensures
            final(self)@.wf(),
            agrees(
                old(self)@,
                final(self)@,
                done,
                transition(old(self)@, Primitive::Shuffle(op)),
            ),
    {
        proof {
            reveal(transition);
        }
        let count: usize = op.count();
        if self.sp() + count > CELL_COUNT {
            return Err(Fault::OutOfBounds);
        }
        let taken = self.operands(count);
        let values = op.compute(&taken);
        self.replace(count, &values)
    }

    /// A function of the top of the data stack.
    fn unary(&mut self, op: Unary) -> (done: Result<(), Fault>)
        requires
            old(self)@.wf(),
        ensures
            final(self)@.wf(),
            agrees(old(self)@, final(self)@, done, transition(old(self)@, Primitive::Unary(op))),
    {
        proof {
            reveal(transition);
        }
        if self.sp() >= CELL_COUNT {
            return Err(Fault::OutOfBounds);
        }
        let x: i32 = self.peek(0);
        self.write_i32(self.sp(), op.compute(x));
        Ok(())
    }

    /// A function of the two top cells of the data stack.
    fn binary(&mut self, op: Binary) -> (done: Result<(), Fault>)
        requires
            old(self)@.wf(),
        ensures
            final(self)@.wf(),
            agrees(old(self)@, final(self)@, done, transition(old(self)@, Primitive::Binary(op))),
    {
        proof {
            reveal(transition);
        }
        let sp: usize = self.sp();
        if sp + 1 >= CELL_COUNT {
            return Err(Fault::OutOfBounds);
        }
        let y: i32 = self.peek(0);
        let x: i32 = self.peek(1);
        self.write_i32(sp + 1, op.compute(x, y));
        self.set_sp(sp + 1);
        Ok(())
    }

    /// Pushes a constant.
    fn constant(&mut self, op: Constant) -> (done: Result<(), Fault>)
        requires
            old(self)@.wf(),
        ensures
            final(self)@.wf(),
            agrees(
                old(self)@,
                final(self)@,
                done,
                transition(old(self)@, Primitive::Constant(op)),
            ),
    {
        proof {
            reveal(transition);
        }
        let value: i32 = op.compute(self.host());
        self.push(value)
    }

    /// Enters the body behind the code field that was dispatched.
    fn enter(&mut self) -> (done: Result<(), Fault>)
        requires
            old(self)@.wf(),
        ensures
            final(self)@.wf(),
            agrees(old(self)@, final(self)@, done, transition(old(self)@, Primitive::Enter)),
    {
        proof {
            reveal(transition);
        }
        let rsp: usize = self.rsp();
        let cfa: usize = self.cfa();
        if rsp < 1 {
            return Err(Fault::OutOfBounds);
        }
        self.write_i32(rsp - 1, self.ip() as i32);
        self.set_rsp(rsp - 1);
        self.set_ip(cfa + 1);
        Ok(())
    }

    /// `/MOD`: remainder and quotient of the two top cells.
    fn div_mod(&mut self) -> (done: Result<(), Fault>)
        requires
            old(self)@.wf(),
        ensures
            final(self)@.wf(),
            agrees(old(self)@, final(self)@, done, transition(old(self)@, Primitive::DivMod)),
    {
        proof {
            reveal(transition);
        }
        let sp: usize = self.sp();
        if sp + 1 >= CELL_COUNT {
            return Err(Fault::OutOfBounds);
        }
        let b: i32 = self.peek(0);
        let a: i32 = self.peek(1);
        if b == 0 {
            return Err(Fault::DivisionByZero);
        }
        let (rest, whole) = divide(a, b);
        self.write_i32(sp + 1, rest);
        self.write_i32(sp, whole);
        Ok(())
    }

    /// `EXIT`: takes the instruction pointer back from the return stack.
    fn exit(&mut self) -> (done: Result<(), Fault>)
        requires
            old(self)@.wf(),
        ensures
            final(self)@.wf(),
            agrees(old(self)@, final(self)@, done, transition(old(self)@, Primitive::Exit)),
    {
        proof {
            reveal(transition);
        }
        let rsp: usize = self.rsp();
        if rsp >= CELL_COUNT {
            return Err(Fault::OutOfBounds);
        }
        let saved: i32 = self.read_i32(rsp);
        match pointer(saved as i64) {
            Some(ip) => {
                self.set_ip(ip);
                self.set_rsp(rsp + 1);
                Ok(())
            },
            None => Err(Fault::OutOfBounds),
        }
    }

    /// `LIT` and `'`: both push the cell that follows in the body.
    fn literal(&mut self) -> (done: Result<(), Fault>)
        requires
            old(self)@.wf(),
        ensures
            final(self)@.wf(),
            agrees(old(self)@, final(self)@, done, transition(old(self)@, Primitive::Lit)),
            agrees(old(self)@, final(self)@, done, transition(old(self)@, Primitive::Tick)),
    {
        proof {
            reveal(transition);
        }
        let sp: usize = self.sp();
        let ip: usize = self.ip();
        if sp < 1 || ip >= CELL_COUNT {
            return Err(Fault::OutOfBounds);
        }
        let value: i32 = self.read_i32(ip);
        self.write_i32(sp - 1, value);
        self.set_sp(sp - 1);
        self.set_ip(ip + 1);
        Ok(())
    }

    /// `!`: stores the second cell at the address on top.
    fn store(&mut self) -> (done: Result<(), Fault>)
        requires
            old(self)@.wf(),
        ensures
            final(self)@.wf(),
            agrees(old(self)@, final(self)@, done, transition(old(self)@, Primitive::Store)),
    {
        proof {
            reveal(transition);
        }
        let sp: usize = self.sp();
        if sp + 1 >= CELL_COUNT {
            return Err(Fault::OutOfBounds);
        }
        match cell_index(self.peek(0)) {
            Some(index) => {
                let value: i32 = self.peek(1);
                self.write_i32(index, value);
                self.set_sp(sp + 2);
                Ok(())
            },
            None => Err(Fault::OutOfBounds),
        }
    }

    /// `@`: replaces the address on top by the cell it names.
    fn fetch_cell(&mut self) -> (done: Result<(), Fault>)
        requires
            old(self)@.wf(),
        ensures
            final(self)@.wf(),
            agrees(old(self)@, final(self)@, done, transition(old(self)@, Primitive::Fetch)),
    {
        proof {
            reveal(transition);
        }
        if self.sp() >= CELL_COUNT {
            return Err(Fault::OutOfBounds);
        }
        match cell_index(self.peek(0)) {
            Some(index) => {
                let value: i32 = self.read_i32(index);
                self.write_i32(self.sp(), value);
                Ok(())
            },
            None => Err(Fault::OutOfBounds),
        }
    }

    /// `+!` and `-!`: adds the second cell to the cell that the top names, or
    /// subtracts it.
    fn adjust(&mut self, subtract: bool) -> (done: Result<(), Fault>)
        requires
            old(self)@.wf(),
        ensures
            final(self)@.wf(),
            agrees(
                old(self)@,
                final(self)@,
                done,
                transition(
                    old(self)@,
                    if subtract {
                        Primitive::SubStore
                    } else {
                        Primitive::AddStore
                    },
                ),
            ),
    {
        proof {
            reveal(transition);
        }
        let sp: usize = self.sp();
        if sp + 1 >= CELL_COUNT {
            return Err(Fault::OutOfBounds);
        }
        match cell_index(self.peek(0)) {
            Some(index) => {
                let amount: i32 = self.peek(1);
                let cell: i32 = self.read_i32(index);
                let value: i32 = if subtract {
                    cell.wrapping_sub(amount)
                } else {
                    cell.wrapping_add(amount)
                };
                self.write_i32(index, value);
                self.set_sp(sp + 2);
                Ok(())
            },
            None => Err(Fault::OutOfBounds),
        }
    }

    /// `C!`: stores the low byte of the second cell at the address on top.
    fn store_byte(&mut self) -> (done: Result<(), Fault>)
        requires
            old(self)@.wf(),
        ensures
            final(self)@.wf(),
            agrees(old(self)@, final(self)@, done, transition(old(self)@, Primitive::StoreByte)),
    {
        proof {
            reveal(transition);
        }
        let sp: usize = self.sp();
        if sp + 1 >= CELL_COUNT {
            return Err(Fault::OutOfBounds);
        }
        match byte_index(self.peek(0)) {
            Some(address) => {
                let value: i32 = self.peek(1);
                self.write_byte(address, value as u8);
                self.set_sp(sp + 2);
                Ok(())
            },
            None => Err(Fault::OutOfBounds),
        }
    }

    /// `C@`: replaces the address on top by the byte it names.
    fn fetch_byte(&mut self) -> (done: Result<(), Fault>)
        requires
            old(self)@.wf(),
        ensures
            final(self)@.wf(),
            agrees(old(self)@, final(self)@, done, transition(old(self)@, Primitive::FetchByte)),
    {
        proof {
            reveal(transition);
        }
        if self.sp() >= CELL_COUNT {
            return Err(Fault::OutOfBounds);
        }
        match byte_index(self.peek(0)) {
            Some(address) => {
                let value: u8 = self.read_byte(address);
                self.write_i32(self.sp(), value as i32);
                Ok(())
            },
            None => Err(Fault::OutOfBounds),
        }
    }

    /// `C@C!`: copies the byte at the address on top to the address below it.
    fn copy_byte(&mut self) -> (done: Result<(), Fault>)
        requires
            old(self)@.wf(),
        ensures
            final(self)@.wf(),
            agrees(old(self)@, final(self)@, done, transition(old(self)@, Primitive::CopyByte)),
    {
        proof {
            reveal(transition);
        }
        let sp: usize = self.sp();
        if sp + 1 >= CELL_COUNT {
            return Err(Fault::OutOfBounds);
        }
        let from = byte_index(self.peek(0));
        let to = byte_index(self.peek(1));
        match (from, to) {
            (Some(src), Some(dst)) => {
                let value: u8 = self.read_byte(src);
                self.write_byte(dst, value);
                self.set_sp(sp + 1);
                Ok(())
            },
            _ => Err(Fault::OutOfBounds),
        }
    }

    /// `CMOVE`: copies a range of bytes.
    fn cmove(&mut self) -> (done: Result<(), Fault>)
        requires
            old(self)@.wf(),
        ensures
            final(self)@.wf(),
            agrees(old(self)@, final(self)@, done, transition(old(self)@, Primitive::CMove)),
    {
        proof {
            reveal(transition);
        }
        let sp: usize = self.sp();
        if sp + 2 >= CELL_COUNT {
            return Err(Fault::OutOfBounds);
        }
        let length: i32 = self.peek(0);
        let dst: i32 = self.peek(1);
        let src: i32 = self.peek(2);
        if length < 0 || dst < 0 || src < 0 || length > MEMORY_END {
            return Err(Fault::OutOfBounds);
        }
        if src > MEMORY_END - length || dst > MEMORY_END - length {
            return Err(Fault::OutOfBounds);
        }
        self.move_bytes(src as usize, dst as usize, length as usize);
        self.set_sp(sp + 2);
        Ok(())
    }

    /// `>R`: moves the top of the data stack to the return stack.
    fn to_r(&mut self) -> (done: Result<(), Fault>)
        requires
            old(self)@.wf(),
        ensures
            final(self)@.wf(),
            agrees(old(self)@, final(self)@, done, transition(old(self)@, Primitive::ToR)),
    {
        proof {
            reveal(transition);
        }
        let sp: usize = self.sp();
        let rsp: usize = self.rsp();
        if rsp < 1 || sp >= CELL_COUNT {
            return Err(Fault::OutOfBounds);
        }
        let value: i32 = quarter(self.peek(0));
        self.write_i32(rsp - 1, value);
        self.set_rsp(rsp - 1);
        self.set_sp(sp + 1);
        Ok(())
    }

    /// `R>`: moves the top of the return stack to the data stack.
    fn from_r(&mut self) -> (done: Result<(), Fault>)
        requires
            old(self)@.wf(),
        ensures
            final(self)@.wf(),
            agrees(old(self)@, final(self)@, done, transition(old(self)@, Primitive::FromR)),
    {
        proof {
            reveal(transition);
        }
        let sp: usize = self.sp();
        let rsp: usize = self.rsp();
        if sp < 1 || rsp >= CELL_COUNT {
            return Err(Fault::OutOfBounds);
        }
        let value: i32 = self.read_i32(rsp).wrapping_mul(4);
        self.write_i32(sp - 1, value);
        self.set_sp(sp - 1);
        self.set_rsp(rsp + 1);
        Ok(())
    }

    /// `RSP@`: pushes the return stack pointer as a byte address.
    fn rsp_fetch(&mut self) -> (done: Result<(), Fault>)
        requires
            old(self)@.wf(),
        ensures
            final(self)@.wf(),
            agrees(old(self)@, final(self)@, done, transition(old(self)@, Primitive::RspFetch)),
    {
        proof {
            reveal(transition);
        }
        let value: i32 = (4 * self.rsp()) as i32;
        self.push(value)
    }

    /// `RSP!`: sets the return stack pointer from the byte address on top.
    fn rsp_store(&mut self) -> (done: Result<(), Fault>)
        requires
            old(self)@.wf(),
        ensures
            final(self)@.wf(),
            agrees(old(self)@, final(self)@, done, transition(old(self)@, Primitive::RspStore)),
    {
        proof {
            reveal(transition);
        }
        let sp: usize = self.sp();
        if sp >= CELL_COUNT {
            return Err(Fault::OutOfBounds);
        }
        match pointer_of(self.peek(0)) {
            Some(rsp) => {
                self.set_rsp(rsp);
                self.set_sp(sp + 1);
                Ok(())
            },
            None => Err(Fault::OutOfBounds),
        }
    }

    /// `RDROP`: drops the top of the return stack.
    fn rdrop(&mut self) -> (done: Result<(), Fault>)
        requires
            old(self)@.wf(),
        ensures
            final(self)@.wf(),
            agrees(old(self)@, final(self)@, done, transition(old(self)@, Primitive::RDrop)),
    {
        proof {
            reveal(transition);
        }
        let rsp: usize = self.rsp();
        if rsp >= CELL_COUNT {
            return Err(Fault::OutOfBounds);
        }
        self.set_rsp(rsp + 1);
        Ok(())
    }

    /// `DSP@`: pushes the data stack pointer as a byte address.
    fn dsp_fetch(&mut self) -> (done: Result<(), Fault>)
        requires
            old(self)@.wf(),
        ensures
            final(self)@.wf(),
            agrees(old(self)@, final(self)@, done, transition(old(self)@, Primitive::DspFetch)),
    {
        proof {
            reveal(transition);
        }
        let value: i32 = (4 * self.sp()) as i32;
        self.push(value)
    }

    /// `DSP!`: sets the data stack pointer from the byte address on top.
    fn dsp_store(&mut self) -> (done: Result<(), Fault>)
        requires
            old(self)@.wf(),
        ensures
            final(self)@.wf(),
            agrees(old(self)@, final(self)@, done, transition(old(self)@, Primitive::DspStore)),
    {
        proof {
            reveal(transition);
        }
        if self.sp() >= CELL_COUNT {
            return Err(Fault::OutOfBounds);
        }
        match pointer_of(self.peek(0)) {
            Some(sp) => {
                self.set_sp(sp);
                Ok(())
            },
            None => Err(Fault::OutOfBounds),
        }
    }

    /// `NUMBER`: parses the token that the two top cells name.
    fn parse_number(&mut self) -> (done: Result<(), Fault>)
        requires
            old(self)@.wf(),
        ensures
            final(self)@.wf(),
            agrees(old(self)@, final(self)@, done, transition(old(self)@, Primitive::Number)),
    {
        proof {
            reveal(transition);
        }
        let sp: usize = self.sp();
        if sp + 1 >= CELL_COUNT {
            return Err(Fault::OutOfBounds);
        }
        let count: i32 = self.peek(0);
        let address: i32 = self.peek(1);
        if address < 0 {
            return Err(Fault::OutOfBounds);
        }
        match self.number(count, address as usize) {
            Ok(found) => {
                self.write_i32(sp + 1, found.result);
                self.write_i32(sp, found.remaining);
                Ok(())
            },
            Err(fault) => Err(fault),
        }
    }

    /// `FIND`: looks up the token that the two top cells name.
    fn find_word(&mut self) -> (done: Result<(), Fault>)
        requires
            old(self)@.wf(),
        ensures
            final(self)@.wf(),
            agrees(old(self)@, final(self)@, done, transition(old(self)@, Primitive::Find)),
    {
        proof {
            reveal(transition);
        }
        let sp: usize = self.sp();
        if sp + 1 >= CELL_COUNT {
            return Err(Fault::OutOfBounds);
        }
        let count: i32 = self.peek(0);
        let address: i32 = self.peek(1);
        if address < 0 {
            return Err(Fault::OutOfBounds);
        }
        match self.find(count, address as usize) {
            Ok(header) => {
                self.write_i32(sp + 1, header);
                self.set_sp(sp + 1);
                Ok(())
            },
            Err(fault) => Err(fault),
        }
    }

    /// `>CFA`: replaces the header on top by its code field.
    fn to_code_field(&mut self) -> (done: Result<(), Fault>)
        requires
            old(self)@.wf(),
        ensures
            final(self)@.wf(),
            agrees(old(self)@, final(self)@, done, transition(old(self)@, Primitive::Tcfa)),
    {
        proof {
            reveal(transition);
        }
        if self.sp() >= CELL_COUNT {
            return Err(Fault::OutOfBounds);
        }
        match self.code_field_address(self.peek(0)) {
            Ok(address) => {
                self.write_i32(self.sp(), address);
                Ok(())
            },
            Err(fault) => Err(fault),
        }
    }

    /// `CREATE`: appends a header for the token that the two top cells name.
    fn create_word(&mut self) -> (done: Result<(), Fault>)
        requires
            old(self)@.wf(),
        ensures
            final(self)@.wf(),
            agrees(old(self)@, final(self)@, done, transition(old(self)@, Primitive::Create)),
    {
        proof {
            reveal(transition);
        }
        let sp: usize = self.sp();
        if sp + 1 >= CELL_COUNT {
            return Err(Fault::OutOfBounds);
        }
        let count: i32 = self.peek(0);
        let name: i32 = self.peek(1);
        match self.create(count, name) {
            Ok(()) => {
                self.set_sp(sp + 2);
                Ok(())
            },
            Err(fault) => Err(fault),
        }
    }

    /// `,`: appends the top of the data stack to the dictionary.
    fn append_cell(&mut self) -> (done: Result<(), Fault>)
        requires
            old(self)@.wf(),
        ensures
            final(self)@.wf(),
            agrees(old(self)@, final(self)@, done, transition(old(self)@, Primitive::Comma)),
    {
        proof {
            reveal(transition);
        }
        let sp: usize = self.sp();
        if sp >= CELL_COUNT {
            return Err(Fault::OutOfBounds);
        }
        let value: i32 = self.peek(0);
        match self.comma(value) {
            Ok(()) => {
                self.set_sp(sp + 1);
                Ok(())
            },
            Err(fault) => Err(fault),
        }
    }

    /// `[` and `]`: sets `STATE`.
    fn set_state(&mut self, compiling: bool) -> (done: Result<(), Fault>)
        requires
            old(self)@.wf(),
        ensures
            final(self)@.wf(),
            agrees(
                old(self)@,
                final(self)@,
                done,
                transition(
                    old(self)@,
                    if compiling {
                        Primitive::RBrac
                    } else {
                        Primitive::LBrac
                    },
                ),
            ),
    {
        proof {
            reveal(transition);
        }
        self.write_i32(
            STATE_ADDR,
            if compiling {
                1
            } else {
                0
            },
        );
        Ok(())
    }

    /// `IMMEDIATE`: toggles the immediate flag of the newest word.
    fn immediate(&mut self) -> (done: Result<(), Fault>)
        requires
            old(self)@.wf(),
        ensures
            final(self)@.wf(),
            agrees(old(self)@, final(self)@, done, transition(old(self)@, Primitive::Immediate)),
    {
        proof {
            reveal(transition);
        }
        let newest: i32 = self.read_i32(LATEST_ADDR);
        self.toggle(newest, F_IMMED as i32)
    }

    /// `HIDDEN`: toggles the hidden flag of the header on top.
    fn hidden(&mut self) -> (done: Result<(), Fault>)
        requires
            old(self)@.wf(),
        ensures
            final(self)@.wf(),
            agrees(old(self)@, final(self)@, done, transition(old(self)@, Primitive::Hidden)),
    {
        proof {
            reveal(transition);
        }
        let sp: usize = self.sp();
        if sp >= CELL_COUNT {
            return Err(Fault::OutOfBounds);
        }
        let header: i32 = self.peek(0);
        match self.toggle(header, F_HIDDEN as i32) {
            Ok(()) => {
                self.set_sp(sp + 1);
                Ok(())
            },
            Err(fault) => Err(fault),
        }
    }

    /// `BRANCH`: moves the instruction pointer by the offset in the body.
    fn branch(&mut self) -> (done: Result<(), Fault>)
        requires
            old(self)@.wf(),
        ensures
            final(self)@.wf(),
            agrees(old(self)@, final(self)@, done, transition(old(self)@, Primitive::Branch)),
    {
        proof {
            reveal(transition);
        }
        let ip: usize = self.ip();
        if ip >= CELL_COUNT {
            return Err(Fault::OutOfBounds);
        }
        let offset: i32 = quarter(self.read_i32(ip));
        match pointer(ip as i64 + offset as i64) {
            Some(target) => {
                self.set_ip(target);
                Ok(())
            },
            None => Err(Fault::OutOfBounds),
        }
    }

    /// `0BRANCH`: branches if the top of the data stack is zero.
    fn zbranch(&mut self) -> (done: Result<(), Fault>)
        requires
            old(self)@.wf(),
        ensures
            final(self)@.wf(),
            agrees(old(self)@, final(self)@, done, transition(old(self)@, Primitive::ZBranch)),
    {
        proof {
            reveal(transition);
        }
        let sp: usize = self.sp();
        let ip: usize = self.ip();
        if sp >= CELL_COUNT {
            return Err(Fault::OutOfBounds);
        }
        let offset: i32 = if self.peek(0) != 0 {
            1
        } else if ip < CELL_COUNT {
            quarter(self.read_i32(ip))
        } else {
            return Err(Fault::OutOfBounds);
        };
        match pointer(ip as i64 + offset as i64) {
            Some(target) => {
                self.set_ip(target);
                self.set_sp(sp + 1);
                Ok(())
            },
            None => Err(Fault::OutOfBounds),
        }
    }

    /// `LITSTRING`: pushes address and length of the string in the body.
    fn lit_string(&mut self) -> (done: Result<(), Fault>)
        requires
            old(self)@.wf(),
        ensures
            final(self)@.wf(),
            agrees(old(self)@, final(self)@, done, transition(old(self)@, Primitive::LitString)),
    {
        proof {
            reveal(transition);
        }
        let sp: usize = self.sp();
        let ip: usize = self.ip();
        if ip >= CELL_COUNT {
            return Err(Fault::OutOfBounds);
        }
        let length: i32 = self.read_i32(ip);
        let padded: i64 = length as i64 + 3;
        assert(padded >> 2 == padded / 4) by (bit_vector);
        match pointer(ip as i64 + 1 + (padded >> 2)) {
            Some(target) => {
                if sp < 2 {
                    return Err(Fault::OutOfBounds);
                }
                self.write_i32(sp - 1, (4 * (ip + 1)) as i32);
                self.write_i32(sp - 2, length);
                self.set_sp(sp - 2);
                self.set_ip(target);
                Ok(())
            },
            None => Err(Fault::OutOfBounds),
        }
    }

    /// Carries out a primitive that touches nothing but memory and
    /// registers.
    fn transition(&mut self, primitive: Primitive) -> (done: Result<(), Fault>)
        requires
            old(self)@.wf(),
        ensures
            final(self)@.wf(),
            agrees(old(self)@, final(self)@, done, transition(old(self)@, primitive)),
    {
        proof {
            reveal(transition);
        }
        match primitive {
            Primitive::Shuffle(op) => self.shuffle(op),
            Primitive::Unary(op) => self.unary(op),
            Primitive::Binary(op) => self.binary(op),
            Primitive::Constant(op) => self.constant(op),
            Primitive::Enter => self.enter(),
            Primitive::DivMod => self.div_mod(),
            Primitive::Exit => self.exit(),
            Primitive::Lit | Primitive::Tick => self.literal(),
            Primitive::Store => self.store(),
            Primitive::Fetch => self.fetch_cell(),
            Primitive::AddStore => self.adjust(false),
            Primitive::SubStore => self.adjust(true),
            Primitive::StoreByte => self.store_byte(),
            Primitive::FetchByte => self.fetch_byte(),
            Primitive::CopyByte => self.copy_byte(),
            Primitive::CMove => self.cmove(),
            Primitive::ToR => self.to_r(),
            Primitive::FromR => self.from_r(),
            Primitive::RspFetch => self.rsp_fetch(),
            Primitive::RspStore => self.rsp_store(),
            Primitive::RDrop => self.rdrop(),
            Primitive::DspFetch => self.dsp_fetch(),
            Primitive::DspStore => self.dsp_store(),
            Primitive::Number => self.parse_number(),
            Primitive::Find => self.find_word(),
            Primitive::Tcfa => self.to_code_field(),
            Primitive::Create => self.create_word(),
            Primitive::Comma => self.append_cell(),
            Primitive::LBrac => self.set_state(false),
            Primitive::RBrac => self.set_state(true),
            Primitive::Immediate => self.immediate(),
            Primitive::Hidden => self.hidden(),
            Primitive::Branch => self.branch(),
            Primitive::ZBranch => self.zbranch(),
            Primitive::LitString => self.lit_string(),
            _ => Ok(()),
        }
    }

    /// Closes a primitive: where it went through, the next code field is
    /// left to be fetched.
    fn conclude(&mut self, done: Result<(), Fault>) -> (action: Action)
        requires
            old(self)@.wf(),
        ensures
            final(self)@.wf(),
            match done {
                Ok(_) => final(self)@ == (State { fetch: true, ..old(self)@ }) && action@
                    == Outcome::Continue,
                Err(fault) => final(self)@ == old(self)@ && action@ == Outcome::Fault(fault),
            },
    {
        match done {
            Ok(_) => {
                self.set_fetch(true);
                Action::Continue
            },
            Err(fault) => Action::Fault(fault),
        }
    }

    /// `KEY`: pushes the next byte of input.
    fn read_key(&mut self) -> (action: Action)
        requires
            old(self)@.wf(),
        ensures
            final(self)@.wf(),
            (final(self)@, action@) == execute(old(self)@, Primitive::Key),
    {
        if self.sp() < 1 {
            return Action::Fault(Fault::OutOfBounds);
        }
        match self.key() {
            Some(byte) => {
                let done = self.push(byte as i32);
                self.conclude(done)
            },
            None => Action::NeedInput,
        }
    }

    /// `EMIT`: hands the low byte of the top of the data stack to the host.
    fn emit(&mut self) -> (action: Action)
        requires
            old(self)@.wf(),
        ensures
            final(self)@.wf(),
            (final(self)@, action@) == execute(old(self)@, Primitive::Emit),
    {
        let sp: usize = self.sp();
        if sp >= CELL_COUNT {
            return Action::Fault(Fault::OutOfBounds);
        }
        let byte: u8 = self.peek(0) as u8;
        self.set_sp(sp + 1);
        self.set_fetch(true);
        let bytes: Vec<u8> = vec![byte];
        assert(bytes@ =~= seq![byte]);
        Action::Output(bytes)
    }

    /// `TELL`: hands the bytes that the two top cells name to the host.
    fn tell(&mut self) -> (action: Action)
        requires
            old(self)@.wf(),
        ensures
            final(self)@.wf(),
            (final(self)@, action@) == execute(old(self)@, Primitive::Tell),
    {
        let sp: usize = self.sp();
        if sp + 1 >= CELL_COUNT {
            return Action::Fault(Fault::OutOfBounds);
        }
        let length: i32 = self.peek(0);
        let address: i32 = self.peek(1);
        if length < 0 || address < 0 || length > MEMORY_END || address > MEMORY_END - length {
            return Action::Fault(Fault::OutOfBounds);
        }
        let bytes: Vec<u8> = self.bytes(address as usize, length as usize);
        self.set_sp(sp + 2);
        self.set_fetch(true);
        Action::Output(bytes)
    }

    /// `WORD`: reads a token and pushes where it stands and how long it is.
    fn read_word(&mut self) -> (action: Action)
        requires
            old(self)@.wf(),
        ensures
            final(self)@.wf(),
            (final(self)@, action@) == execute(old(self)@, Primitive::Word),
    {
        if self.sp() < 2 {
            return Action::Fault(Fault::OutOfBounds);
        }
        match self.word() {
            Ok(Some(length)) => {
                let values: Vec<i32> = vec![WORD_BUFFER as i32, length];
                assert(values@ =~= seq![WORD_BUFFER as i32, length]);
                let done = self.replace(0, &values);
                self.conclude(done)
            },
            Ok(None) => Action::NeedInput,
            Err(fault) => Action::Fault(fault),
        }
    }

    /// `CHAR`: reads a token and pushes its first byte.
    fn read_char(&mut self) -> (action: Action)
        requires
            old(self)@.wf(),
        ensures
            final(self)@.wf(),
            (final(self)@, action@) == execute(old(self)@, Primitive::Char),
    {
        if self.sp() < 1 {
            return Action::Fault(Fault::OutOfBounds);
        }
        match self.word() {
            Ok(Some(_)) => {
                let first: u8 = self.read_byte(WORD_BUFFER);
                let done = self.push(first as i32);
                self.conclude(done)
            },
            Ok(None) => Action::NeedInput,
            Err(fault) => Action::Fault(fault),
        }
    }

    /// The diagnostic for the token of `length` bytes in the word buffer.
    fn parse_error(&self, length: usize) -> (message: Vec<u8>)
        requires
            self@.wf(),
            WORD_BUFFER + length <= MEMORY_SIZE,
        ensures
            message@ == parse_error(
                self@.mem.subrange(WORD_BUFFER as int, WORD_BUFFER + length),
            ),
    {
        let mut message: Vec<u8> = Vec::new();
        let mut k: usize = 0;
        while k < 13
            invariant
                k <= 13,
                message@ == PARSE_ERROR_PREFIX@.take(k as int),
            decreases 13 - k,
        {
            message.push(PARSE_ERROR_PREFIX[k]);
            k += 1;
        }
        assert(PARSE_ERROR_PREFIX@.take(13) =~= PARSE_ERROR_PREFIX@);
        let mut token: Vec<u8> = self.bytes(WORD_BUFFER, length);
        message.append(&mut token);
        message.push(NEWLINE);
        message
    }

    /// `INTERPRET`, once the token of `length` bytes stands in the word
    /// buffer.
    fn interpret_token(&mut self, length: i32) -> (action: Action)
        requires
            old(self)@.wf(),
            0 <= length <= MEMORY_SIZE - WORD_BUFFER,
        ensures
            final(self)@.wf(),
            (final(self)@, action@) == interpret_token(old(self)@, length),
    {
        proof {
            reveal(interpret_token);
        }
        let compiling: bool = self.read_i32(STATE_ADDR) != 0;
        let header: i32 = match self.find(length, WORD_BUFFER) {
            Ok(header) => header,
            Err(fault) => {
                return Action::Fault(fault);
            },
        };
        if header != 0 {
            let address: i32 = match self.code_field_address(header) {
                Ok(address) => address,
                Err(fault) => {
                    return Action::Fault(fault);
                },
            };
            let flags: u8 = self.read_byte((header + 4) as usize);
            if flags & F_IMMED != 0 || !compiling {
                match cell_index(address) {
                    Some(cfa) => {
                        self.set_cfa(cfa);
                        self.set_fetch(false);
                        Action::Continue
                    },
                    None => Action::Fault(Fault::OutOfBounds),
                }
            } else {
                let done = self.comma(address);
                self.conclude(done)
            }
        } else {
            let found = match self.number(length, WORD_BUFFER) {
                Ok(found) => found,
                Err(fault) => {
                    return Action::Fault(fault);
                },
            };
            if found.remaining != 0 {
                let message: Vec<u8> = self.parse_error(length as usize);
                self.set_fetch(true);
                Action::Diagnostic(message)
            } else if compiling {
                // Both cells are appended or none: the second one fits if
                // `HERE` leaves room for it now.
                let free: i32 = self.read_i32(HERE_ADDR);
                proof {
                    reveal(comma_spec);
                    if 0 <= free < MEMORY_SIZE {
                        lemma_store_cell_same(
                            store_cell(old(self)@.mem, free as int / 4, LIT_CODE_FIELD),
                            HERE_ADDR as int,
                            (free + 4) as i32,
                        );
                    }
                }
                if free < 0 || free >= MEMORY_END - 4 {
                    return Action::Fault(Fault::OutOfBounds);
                }
                let done = match self.comma(LIT_CODE_FIELD) {
                    Ok(()) => self.comma(found.result),
                    Err(fault) => Err(fault),
                };
                self.conclude(done)
            } else {
                let done = self.push(found.result);
                self.conclude(done)
            }
        }
    }

    /// `INTERPRET`: reads a token and executes or compiles it.
    fn interpret(&mut self) -> (action: Action)
        requires
            old(self)@.wf(),
        ensures
            final(self)@.wf(),
            (final(self)@, action@) == execute(old(self)@, Primitive::Interpret),
    {
        match self.word() {
            Ok(Some(length)) => self.interpret_token(length),
            Ok(None) => Action::NeedInput,
            Err(fault) => Action::Fault(fault),
        }
    }

    /// `EXECUTE`: dispatches the code field on top of the data stack next.
    fn run_code_field(&mut self) -> (action: Action)
        requires
            old(self)@.wf(),
        ensures
            final(self)@.wf(),
            (final(self)@, action@) == execute(old(self)@, Primitive::Execute),
    {
        let sp: usize = self.sp();
        if sp >= CELL_COUNT {
            return Action::Fault(Fault::OutOfBounds);
        }
        match cell_index(self.peek(0)) {
            Some(cfa) => {
                self.set_cfa(cfa);
                self.set_sp(sp + 1);
                self.set_fetch(false);
                Action::Continue
            },
            None => Action::Fault(Fault::OutOfBounds),
        }
    }

    /// Asks the host for the system call whose number lies on top of the
    /// data stack, with the `count` cells below it as arguments.
    fn request_syscall(&self, count: usize) -> (action: Action)
        requires
            self@.wf(),
            1 <= count <= 3,
        ensures
            action@ == if self@.sp + count + 1 <= CELL_COUNT {
                Outcome::Syscall {
                    number: self@.top(0),
                    arguments: Seq::new(count as nat, |j: int| self@.top(j + 1)),
                }
            } else {
                Outcome::Fault(Fault::OutOfBounds)
            },
    {
        if self.sp() + count + 1 > CELL_COUNT {
            return Action::Fault(Fault::OutOfBounds);
        }
        let number: i32 = self.peek(0);
        let mut arguments: Vec<i32> = Vec::new();
        let mut k: usize = 0;
        while k < count
            invariant
                k <= count <= 3,
                self@.wf(),
                self@.sp + count + 1 <= CELL_COUNT,
                arguments@.len() == k,
                forall|j: int| 0 <= j < k ==> arguments@[j] == self@.top(j + 1),
            decreases count - k,
        {
            arguments.push(self.peek(k + 1));
            k += 1;
        }
        assert(arguments@ =~= Seq::new(count as nat, |j: int| self@.top(j + 1)));
        Action::Syscall { number, arguments }
    }

    /// Carries out the primitive in the code field that was dispatched.
    fn execute(&mut self, primitive: Primitive) -> (action: Action)
        requires
            old(self)@.wf(),
        ensures
            final(self)@.wf(),
            (final(self)@, action@) == execute(old(self)@, primitive),
    {
        match primitive {
            Primitive::Key => self.read_key(),
            Primitive::Emit => self.emit(),
            Primitive::Tell => self.tell(),
            Primitive::Word => self.read_word(),
            Primitive::Char => self.read_char(),
            Primitive::Interpret => self.interpret(),
            Primitive::Execute => self.run_code_field(),
            Primitive::Syscall1 => {
                let action = self.request_syscall(1);
                assert(Seq::new(1, |j: int| self@.top(j + 1)) =~= seq![self@.top(1)]);
                action
            },
            Primitive::Syscall2 => {
                let action = self.request_syscall(2);
                assert(Seq::new(2, |j: int| self@.top(j + 1)) =~= seq![self@.top(1), self@.top(2)]);
                action
            },
            Primitive::Syscall3 => {
                let action = self.request_syscall(3);
                assert(Seq::new(3, |j: int| self@.top(j + 1)) =~= seq![
                    self@.top(1),
                    self@.top(2),
                    self@.top(3),
                ]);
                action
            },
            _ => {
                let done = self.transition(primitive);
                self.conclude(done)
            },
        }
    }

    /// Takes one step: fetches the next code field where the step before
    /// left that to do, and carries out the primitive that it names. The
    /// result says what the host has to do before the next step.
    pub fn step(&mut self) -> (action: Action)
        requires
            old(self)@.wf(),
        ensures
            final(self)@.wf(),
            (final(self)@, action@) == step_spec(old(self)@),
    {
        if self.fetch() {
            let ip: usize = self.ip();
            if ip >= CELL_COUNT {
                return Action::Fault(Fault::OutOfBounds);
            }
            match cell_index(self.read_i32(ip)) {
                Some(cfa) => {
                    self.set_cfa(cfa);
                    self.set_ip(ip + 1);
                    self.set_fetch(false);
                },
                None => {
                    return Action::Fault(Fault::OutOfBounds);
                },
            }
        }
        let code: i32 = self.read_i32(self.cfa());
        match Primitive::decode(code) {
            Some(primitive) => self.execute(primitive),
            None => Action::Fault(Fault::UnknownOpcode(code)),
        }
    }

    /// Takes the result of the system call that the last step asked for.
    /// `base` is the address of linear memory in the host, which `brk`
    /// results are made relative to.
    pub fn complete_syscall(&mut self, result: i64, base: i64) -> (action: Action)
        requires
            old(self)@.wf(),
        ensures
            final(self)@.wf(),
            (final(self)@, action@) == resume_spec(old(self)@, result, base),
    {
        if self.fetch() {
            return Action::Fault(Fault::NoSyscallPending);
        }
        let count: usize = match Primitive::decode(self.read_i32(self.cfa())) {
            Some(Primitive::Syscall1) => 1,
            Some(Primitive::Syscall2) => 2,
            Some(Primitive::Syscall3) => 3,
            _ => {
                return Action::Fault(Fault::NoSyscallPending);
            },
        };
        let sp: usize = self.sp();
        if sp + count + 1 > CELL_COUNT {
            return Action::Fault(Fault::OutOfBounds);
        }
        let value: i32 = if count == 1 && self.peek(0) == self.host().syscalls.brk {
            (result as i32).wrapping_sub(base as i32)
        } else {
            result as i32
        };
        self.write_i32(sp + count, value);
        self.set_sp(sp + count);
        self.set_fetch(true);
        Action::Continue
    }
}

} // verus!
