//! What the machine does, stated over its mathematical state: the meaning of
//! every primitive and of one step of the interpreter.
//!
//! A primitive either goes through as a whole or faults and leaves the state
//! as it found it; only the lexer keeps what it has consumed. A stack
//! pointer or the instruction pointer may stand at the end of memory, as the
//! pointer of an empty stack at the top of memory does; a primitive that
//! would move one further, or read or write a cell outside memory, faults.

use vstd::prelude::*;
use crate::dictionary::{
    code_field, comma_spec, create_spec, find_spec, flags_of, latest, F_HIDDEN, F_IMMED,
};
use crate::fault::Fault;
use crate::image::LIT_CODE_FIELD;
use crate::lexer::{key_spec, lex, NEWLINE};
use crate::machine::State;
use crate::memory::{
    is_byte, is_cell, is_pointer, lemma_store_cell_other, lemma_store_cell_same, overlay, store_cell,
    CELL_COUNT, MEMORY_SIZE, STATE_ADDR, WORD_BUFFER,
};
use crate::number::number_spec;
use crate::operators::{cell_of, quotient, remainder};
use crate::primitive::{primitive_of, Primitive};

verus! {

/// What the diagnostic for a token that is neither a word nor a number
/// starts with: `PARSE ERROR: `.
pub const PARSE_ERROR_PREFIX: [u8; 13] = [80, 65, 82, 83, 69, 32, 69, 82, 82, 79, 82, 58, 32];

/// What a step asks of the host.
pub enum Outcome {
    /// Nothing: the machine can take its next step.
    Continue,
    /// The input buffer is empty: refill it, then step again.
    NeedInput,
    /// Bytes for the output stream.
    Output(Seq<u8>),
    /// Bytes for the error stream.
    Diagnostic(Seq<u8>),
    /// A system call to make; its result is handed back before the next step.
    Syscall { number: i32, arguments: Seq<i32> },
    /// The machine has given up.
    Fault(Fault),
}

/// `mem` with the cells `values` stored below cell `floor`: the first of them
/// in cell `floor - 1`, each next one a cell lower.
pub open spec fn store_below(mem: Seq<u8>, floor: int, values: Seq<i32>) -> Seq<u8>
    decreases values.len(),
{
    if values.len() == 0 {
        mem
    } else {
        store_below(store_cell(mem, floor - 1, values[0]), floor - 1, values.drop_first())
    }
}

impl State {
    /// The `count` top cells of the data stack, deepest first.
    pub open spec fn operands(self, count: int) -> Seq<i32> {
        Seq::new(count as nat, |j: int| self.top(count - 1 - j))
    }

    /// The state with `value` pushed on the data stack.
    pub open spec fn push(self, value: i32) -> Result<State, Fault> {
        if self.sp >= 1 {
            Ok(State { sp: self.sp - 1, mem: store_cell(self.mem, self.sp - 1, value), ..self })
        } else {
            Err(Fault::OutOfBounds)
        }
    }

    /// The state with the `count` top cells of the data stack replaced by
    /// `values`, which lists the deepest cell first.
    pub open spec fn replace(self, count: int, values: Seq<i32>) -> Result<State, Fault> {
        if self.sp + count <= CELL_COUNT && 0 <= self.sp + count - values.len() {
            Ok(
                State {
                    sp: self.sp + count - values.len(),
                    mem: store_below(self.mem, self.sp + count, values),
                    ..self
                },
            )
        } else {
            Err(Fault::OutOfBounds)
        }
    }

    /// The state with the cell after the one that `header` falls into
    /// changed in the bits of `mask`. In a header that starts at a cell
    /// boundary the lowest byte of that cell is the flags byte.
    pub open spec fn toggle(self, header: i32, mask: i32) -> Result<State, Fault> {
        let index = cell_of(header) + 1;
        if is_cell(index - 1) && is_cell(index) {
            Ok(State { mem: store_cell(self.mem, index, self.cell(index) ^ mask), ..self })
        } else {
            Err(Fault::OutOfBounds)
        }
    }
}

/// What a primitive does that touches nothing but memory and registers: the
/// state after it, or the fault that it ends in. The primitives that read
/// input, write output, call the host or choose the next code field
/// themselves are not among them.
#[verifier::opaque]
pub open spec fn transition(s: State, primitive: Primitive) -> Result<State, Fault> {
    match primitive {
        Primitive::Shuffle(op) => s.replace(op.arity(), op.apply(s.operands(op.arity()))),
        Primitive::Unary(op) => if is_cell(s.sp) {
            Ok(State { mem: store_cell(s.mem, s.sp, op.apply(s.top(0))), ..s })
        } else {
            Err(Fault::OutOfBounds)
        },
        Primitive::Binary(op) => if is_cell(s.sp + 1) {
            Ok(
                State {
                    mem: store_cell(s.mem, s.sp + 1, op.apply(s.top(1), s.top(0))),
                    sp: s.sp + 1,
                    ..s
                },
            )
        } else {
            Err(Fault::OutOfBounds)
        },
        Primitive::Constant(op) => s.push(op.value(s.host)),
        Primitive::Enter => if s.rsp >= 1 {
            Ok(
                State {
                    rsp: s.rsp - 1,
                    mem: store_cell(s.mem, s.rsp - 1, s.ip as i32),
                    ip: s.cfa + 1,
                    ..s
                },
            )
        } else {
            Err(Fault::OutOfBounds)
        },
        Primitive::DivMod => if !is_cell(s.sp + 1) {
            Err(Fault::OutOfBounds)
        } else if s.top(0) == 0 {
            Err(Fault::DivisionByZero)
        } else {
            Ok(
                State {
                    mem: store_cell(
                        store_cell(s.mem, s.sp + 1, remainder(s.top(1), s.top(0))),
                        s.sp,
                        quotient(s.top(1), s.top(0)),
                    ),
                    ..s
                },
            )
        },
        Primitive::Exit => if is_cell(s.rsp) && is_pointer(s.cell(s.rsp) as int) {
            Ok(State { ip: s.cell(s.rsp) as int, rsp: s.rsp + 1, ..s })
        } else {
            Err(Fault::OutOfBounds)
        },
        Primitive::Lit | Primitive::Tick => if s.sp >= 1 && is_cell(s.ip) {
            Ok(
                State {
                    sp: s.sp - 1,
                    mem: store_cell(s.mem, s.sp - 1, s.cell(s.ip)),
                    ip: s.ip + 1,
                    ..s
                },
            )
        } else {
            Err(Fault::OutOfBounds)
        },
        Primitive::Store => if is_cell(s.sp + 1) && is_cell(cell_of(s.top(0))) {
            Ok(State { mem: store_cell(s.mem, cell_of(s.top(0)), s.top(1)), sp: s.sp + 2, ..s })
        } else {
            Err(Fault::OutOfBounds)
        },
        Primitive::Fetch => if is_cell(s.sp) && is_cell(cell_of(s.top(0))) {
            Ok(State { mem: store_cell(s.mem, s.sp, s.cell(cell_of(s.top(0)))), ..s })
        } else {
            Err(Fault::OutOfBounds)
        },
        Primitive::AddStore => if is_cell(s.sp + 1) && is_cell(cell_of(s.top(0))) {
            Ok(
                State {
                    mem: store_cell(
                        s.mem,
                        cell_of(s.top(0)),
                        s.cell(cell_of(s.top(0))).wrapping_add(s.top(1)),
                    ),
                    sp: s.sp + 2,
                    ..s
                },
            )
        } else {
            Err(Fault::OutOfBounds)
        },
        Primitive::SubStore => if is_cell(s.sp + 1) && is_cell(cell_of(s.top(0))) {
            Ok(
                State {
                    mem: store_cell(
                        s.mem,
                        cell_of(s.top(0)),
                        s.cell(cell_of(s.top(0))).wrapping_sub(s.top(1)),
                    ),
                    sp: s.sp + 2,
                    ..s
                },
            )
        } else {
            Err(Fault::OutOfBounds)
        },
        Primitive::StoreByte => if is_cell(s.sp + 1) && is_byte(s.top(0) as int) {
            Ok(State { mem: s.mem.update(s.top(0) as int, s.top(1) as u8), sp: s.sp + 2, ..s })
        } else {
            Err(Fault::OutOfBounds)
        },
        Primitive::FetchByte => if is_cell(s.sp) && is_byte(s.top(0) as int) {
            Ok(State { mem: store_cell(s.mem, s.sp, s.mem[s.top(0) as int] as i32), ..s })
        } else {
            Err(Fault::OutOfBounds)
        },
        Primitive::CopyByte => if is_cell(s.sp + 1) && is_byte(s.top(0) as int) && is_byte(
            s.top(1) as int,
        ) {
            Ok(
                State {
                    mem: s.mem.update(s.top(1) as int, s.mem[s.top(0) as int]),
                    sp: s.sp + 1,
                    ..s
                },
            )
        } else {
            Err(Fault::OutOfBounds)
        },
        Primitive::CMove => if is_cell(s.sp + 2) && 0 <= s.top(0) && 0 <= s.top(1) && 0
            <= s.top(2) && s.top(2) + s.top(0) <= MEMORY_SIZE && s.top(1) + s.top(0)
            <= MEMORY_SIZE {
            Ok(
                State {
                    mem: overlay(
                        s.mem,
                        s.top(1) as int,
                        s.mem.subrange(s.top(2) as int, s.top(2) + s.top(0)),
                    ),
                    sp: s.sp + 2,
                    ..s
                },
            )
        } else {
            Err(Fault::OutOfBounds)
        },
        Primitive::ToR => if s.rsp >= 1 && is_cell(s.sp) {
            Ok(
                State {
                    rsp: s.rsp - 1,
                    mem: store_cell(s.mem, s.rsp - 1, cell_of(s.top(0)) as i32),
                    sp: s.sp + 1,
                    ..s
                },
            )
        } else {
            Err(Fault::OutOfBounds)
        },
        Primitive::FromR => if s.sp >= 1 && is_cell(s.rsp) {
            Ok(
                State {
                    sp: s.sp - 1,
                    mem: store_cell(s.mem, s.sp - 1, s.cell(s.rsp).wrapping_mul(4i32)),
                    rsp: s.rsp + 1,
                    ..s
                },
            )
        } else {
            Err(Fault::OutOfBounds)
        },
        Primitive::RspFetch => s.push((4 * s.rsp) as i32),
        Primitive::RspStore => if is_cell(s.sp) && is_pointer(cell_of(s.top(0))) {
            Ok(State { rsp: cell_of(s.top(0)), sp: s.sp + 1, ..s })
        } else {
            Err(Fault::OutOfBounds)
        },
        Primitive::RDrop => if is_cell(s.rsp) {
            Ok(State { rsp: s.rsp + 1, ..s })
        } else {
            Err(Fault::OutOfBounds)
        },
        Primitive::DspFetch => s.push((4 * s.sp) as i32),
        Primitive::DspStore => if is_cell(s.sp) && is_pointer(cell_of(s.top(0))) {
            Ok(State { sp: cell_of(s.top(0)), ..s })
        } else {
            Err(Fault::OutOfBounds)
        },
        Primitive::Number => if !is_cell(s.sp + 1) {
            Err(Fault::OutOfBounds)
        } else {
            match number_spec(s.mem, s.top(0), s.top(1) as int) {
                Ok(found) => Ok(
                    State {
                        mem: store_cell(
                            store_cell(s.mem, s.sp + 1, found.result),
                            s.sp,
                            found.remaining,
                        ),
                        ..s
                    },
                ),
                Err(fault) => Err(fault),
            }
        },
        Primitive::Find => if !is_cell(s.sp + 1) || s.top(1) < 0 {
            Err(Fault::OutOfBounds)
        } else {
            match find_spec(s.mem, s.top(0), s.top(1) as int) {
                Ok(header) => Ok(
                    State { mem: store_cell(s.mem, s.sp + 1, header), sp: s.sp + 1, ..s },
                ),
                Err(fault) => Err(fault),
            }
        },
        Primitive::Tcfa => if !is_cell(s.sp) {
            Err(Fault::OutOfBounds)
        } else {
            match code_field(s.mem, s.top(0)) {
                Ok(address) => Ok(State { mem: store_cell(s.mem, s.sp, address), ..s }),
                Err(fault) => Err(fault),
            }
        },
        Primitive::Create => if is_cell(s.sp + 1) {
            State { sp: s.sp + 2, ..s }.with_mem(create_spec(s.mem, s.top(0), s.top(1)))
        } else {
            Err(Fault::OutOfBounds)
        },
        Primitive::Comma => if is_cell(s.sp) {
            State { sp: s.sp + 1, ..s }.with_mem(comma_spec(s.mem, s.top(0)))
        } else {
            Err(Fault::OutOfBounds)
        },
        Primitive::LBrac => Ok(State { mem: store_cell(s.mem, STATE_ADDR as int, 0), ..s }),
        Primitive::RBrac => Ok(State { mem: store_cell(s.mem, STATE_ADDR as int, 1), ..s }),
        Primitive::Immediate => s.toggle(latest(s.mem), F_IMMED as i32),
        Primitive::Hidden => if is_cell(s.sp) {
            State { sp: s.sp + 1, ..s }.toggle(s.top(0), F_HIDDEN as i32)
        } else {
            Err(Fault::OutOfBounds)
        },
        Primitive::Branch => if is_cell(s.ip) && is_pointer(s.ip + cell_of(s.cell(s.ip))) {
            Ok(State { ip: s.ip + cell_of(s.cell(s.ip)), ..s })
        } else {
            Err(Fault::OutOfBounds)
        },
        Primitive::ZBranch => {
            let target = if s.top(0) != 0 {
                s.ip + 1
            } else {
                s.ip + cell_of(s.cell(s.ip))
            };
            if is_cell(s.sp) && (s.top(0) == 0 ==> is_cell(s.ip)) && is_pointer(target) {
                Ok(State { ip: target, sp: s.sp + 1, ..s })
            } else {
                Err(Fault::OutOfBounds)
            }
        },
        Primitive::LitString => {
            let length = s.cell(s.ip);
            let target = s.ip + 1 + (length + 3) / 4;
            if s.sp >= 2 && is_cell(s.ip) && is_pointer(target) {
                Ok(
                    State {
                        sp: s.sp - 2,
                        mem: store_cell(
                            store_cell(s.mem, s.sp - 1, (4 * (s.ip + 1)) as i32),
                            s.sp - 2,
                            length,
                        ),
                        ip: target,
                        ..s
                    },
                )
            } else {
                Err(Fault::OutOfBounds)
            }
        },
        // The remaining primitives are given their meaning by `execute`.
        _ => Ok(s),
    }
}

/// The state after a primitive that went through, with the next code field
/// still to be fetched, or the untouched state and the fault.
pub open spec fn conclude(s: State, after: Result<State, Fault>) -> (State, Outcome) {
    match after {
        Ok(next) => (State { fetch: true, ..next }, Outcome::Continue),
        Err(fault) => (s, Outcome::Fault(fault)),
    }
}

/// The diagnostic for a token that is neither a word nor a number.
pub open spec fn parse_error(token: Seq<u8>) -> Seq<u8> {
    PARSE_ERROR_PREFIX@ + token + seq![NEWLINE]
}

/// What `INTERPRET` does with a token of `length` bytes in the word buffer.
/// A word that is found is dispatched next if it is immediate or the machine
/// is executing, and compiled otherwise. A token that is no word is parsed as
/// a number, which is pushed or, while compiling, compiled behind the code
/// field of `LIT`. A token that is neither draws a diagnostic and is dropped.
#[verifier::opaque]
pub open spec fn interpret_token(s: State, length: i32) -> (State, Outcome) {
    let compiling = s.cell(STATE_ADDR as int) != 0;
    match find_spec(s.mem, length, WORD_BUFFER as int) {
        Err(fault) => (s, Outcome::Fault(fault)),
        Ok(header) => if header != 0 {
            match code_field(s.mem, header) {
                Err(fault) => (s, Outcome::Fault(fault)),
                Ok(address) => if flags_of(s.mem, header as int) & F_IMMED != 0 || !compiling {
                    if is_cell(cell_of(address)) {
                        (State { cfa: cell_of(address), fetch: false, ..s }, Outcome::Continue)
                    } else {
                        (s, Outcome::Fault(Fault::OutOfBounds))
                    }
                } else {
                    conclude(s, s.with_mem(comma_spec(s.mem, address)))
                },
            }
        } else {
            match number_spec(s.mem, length, WORD_BUFFER as int) {
                Err(fault) => (s, Outcome::Fault(fault)),
                Ok(found) => if found.remaining != 0 {
                    (
                        State { fetch: true, ..s },
                        Outcome::Diagnostic(
                            parse_error(
                                s.mem.subrange(WORD_BUFFER as int, WORD_BUFFER + length),
                            ),
                        ),
                    )
                } else if compiling {
                    match comma_spec(s.mem, LIT_CODE_FIELD) {
                        Err(fault) => (s, Outcome::Fault(fault)),
                        Ok(mem) => conclude(s, s.with_mem(comma_spec(mem, found.result))),
                    }
                } else {
                    conclude(s, s.push(found.result))
                },
            }
        },
    }
}

/// What the primitive in the code field at `s.cfa` does, and what it asks of
/// the host.
pub open spec fn execute(s: State, primitive: Primitive) -> (State, Outcome) {
    match primitive {
        Primitive::Key => if s.sp < 1 {
            (s, Outcome::Fault(Fault::OutOfBounds))
        } else {
            match key_spec(s).1 {
                Some(byte) => conclude(s, key_spec(s).0.push(byte as i32)),
                None => (s, Outcome::NeedInput),
            }
        },
        Primitive::Emit => if is_cell(s.sp) {
            (
                State { sp: s.sp + 1, fetch: true, ..s },
                Outcome::Output(seq![s.top(0) as u8]),
            )
        } else {
            (s, Outcome::Fault(Fault::OutOfBounds))
        },
        Primitive::Tell => if is_cell(s.sp + 1) && 0 <= s.top(0) && 0 <= s.top(1) && s.top(1)
            + s.top(0) <= MEMORY_SIZE {
            (
                State { sp: s.sp + 2, fetch: true, ..s },
                Outcome::Output(s.mem.subrange(s.top(1) as int, s.top(1) + s.top(0))),
            )
        } else {
            (s, Outcome::Fault(Fault::OutOfBounds))
        },
        Primitive::Word => if s.sp < 2 {
            (s, Outcome::Fault(Fault::OutOfBounds))
        } else {
            let lexed = lex(s).0;
            match lex(s).1 {
                Ok(Some(length)) => conclude(
                    lexed,
                    lexed.replace(0, seq![WORD_BUFFER as i32, length]),
                ),
                Ok(None) => (lexed, Outcome::NeedInput),
                Err(fault) => (lexed, Outcome::Fault(fault)),
            }
        },
        Primitive::Char => if s.sp < 1 {
            (s, Outcome::Fault(Fault::OutOfBounds))
        } else {
            let lexed = lex(s).0;
            match lex(s).1 {
                Ok(Some(_)) => conclude(
                    lexed,
                    lexed.push(lexed.mem[WORD_BUFFER as int] as i32),
                ),
                Ok(None) => (lexed, Outcome::NeedInput),
                Err(fault) => (lexed, Outcome::Fault(fault)),
            }
        },
        Primitive::Interpret => {
            let lexed = lex(s).0;
            match lex(s).1 {
                Ok(Some(length)) => interpret_token(lexed, length),
                Ok(None) => (lexed, Outcome::NeedInput),
                Err(fault) => (lexed, Outcome::Fault(fault)),
            }
        },
        Primitive::Execute => if is_cell(s.sp) && is_cell(cell_of(s.top(0))) {
            (State { cfa: cell_of(s.top(0)), sp: s.sp + 1, fetch: false, ..s }, Outcome::Continue)
        } else {
            (s, Outcome::Fault(Fault::OutOfBounds))
        },
        Primitive::Syscall1 => if s.sp + 2 <= CELL_COUNT {
            (s, Outcome::Syscall { number: s.top(0), arguments: seq![s.top(1)] })
        } else {
            (s, Outcome::Fault(Fault::OutOfBounds))
        },
        Primitive::Syscall2 => if s.sp + 3 <= CELL_COUNT {
            (s, Outcome::Syscall { number: s.top(0), arguments: seq![s.top(1), s.top(2)] })
        } else {
            (s, Outcome::Fault(Fault::OutOfBounds))
        },
        Primitive::Syscall3 => if s.sp + 4 <= CELL_COUNT {
            (
                s,
                Outcome::Syscall {
                    number: s.top(0),
                    arguments: seq![s.top(1), s.top(2), s.top(3)],
                },
            )
        } else {
            (s, Outcome::Fault(Fault::OutOfBounds))
        },
        _ => conclude(s, transition(s, primitive)),
    }
}

/// The state with the next code field fetched from the body at `ip`, where
/// that is still to be done. A code field or an instruction pointer outside
/// memory is a fault.
pub open spec fn fetched(s: State) -> Result<State, Fault> {
    if !s.fetch {
        Ok(s)
    } else if is_cell(s.ip) && is_cell(cell_of(s.cell(s.ip))) {
        Ok(State { cfa: cell_of(s.cell(s.ip)), ip: s.ip + 1, fetch: false, ..s })
    } else {
        Err(Fault::OutOfBounds)
    }
}

/// One step of the machine: the next code field is fetched where the step
/// before left that to do, and the primitive that it names is carried out.
/// A number that names no primitive is a fault.
pub open spec fn step_spec(s: State) -> (State, Outcome) {
    match fetched(s) {
        Err(fault) => (s, Outcome::Fault(fault)),
        Ok(ready) => match primitive_of(ready.cell(ready.cfa)) {
            Some(primitive) => execute(ready, primitive),
            None => (ready, Outcome::Fault(Fault::UnknownOpcode(ready.cell(ready.cfa)))),
        },
    }
}

/// What entering a body does: the instruction pointer goes to the return
/// stack, and the body behind the code field becomes what executes.
proof fn lemma_enter(s: State)
    ensures
        transition(s, Primitive::Enter) == if s.rsp >= 1 {
            Ok::<State, Fault>(
                State {
                    rsp: s.rsp - 1,
                    mem: store_cell(s.mem, s.rsp - 1, s.ip as i32),
                    ip: s.cfa + 1,
                    ..s
                },
            )
        } else {
            Err::<State, Fault>(Fault::OutOfBounds)
        },
{
    reveal(transition);
}

/// What `EXIT` does: the instruction pointer comes back from the return
/// stack.
proof fn lemma_exit(s: State)
    ensures
        transition(s, Primitive::Exit) == if is_cell(s.rsp) && is_pointer(s.cell(s.rsp) as int) {
            Ok::<State, Fault>(State { ip: s.cell(s.rsp) as int, rsp: s.rsp + 1, ..s })
        } else {
            Err::<State, Fault>(Fault::OutOfBounds)
        },
{
    reveal(transition);
}

/// Dispatching a code field that holds zero enters the body behind it: the
/// instruction pointer is saved on the return stack, and the step after
/// fetches its code field from the first cell of the body, unless that cell
/// is the one where the return stack grew.
pub proof fn lemma_zero_enters_the_body(s: State)
    requires
        s.wf(),
        !s.fetch,
        s.cell(s.cfa) == 0,
        s.rsp >= 1,
    ensures
        ({
            let (entered, outcome) = step_spec(s);
            &&& outcome == Outcome::Continue
            &&& entered == (State {
                rsp: s.rsp - 1,
                mem: store_cell(s.mem, s.rsp - 1, s.ip as i32),
                ip: s.cfa + 1,
                fetch: true,
                ..s
            })
            &&& entered.cell(entered.rsp) == s.ip
            &&& s.rsp - 1 != s.cfa + 1 && is_cell(s.cfa + 1) && is_cell(
                cell_of(s.cell(s.cfa + 1)),
            ) ==> fetched(entered) == Ok::<State, Fault>(
                State { cfa: cell_of(s.cell(s.cfa + 1)), ip: s.cfa + 2, fetch: false, ..entered },
            )
        }),
{
    lemma_enter(s);
    assert(primitive_of(0) == Some(Primitive::Enter));
    assert(step_spec(s) == execute(s, Primitive::Enter));
    lemma_store_cell_same(s.mem, s.rsp - 1, s.ip as i32);
    if s.rsp - 1 != s.cfa + 1 && is_cell(s.cfa + 1) {
        lemma_store_cell_other(s.mem, s.rsp - 1, s.ip as i32, s.cfa + 1);
    }
}

/// `EXIT` undoes what entering a body did: it takes the instruction pointer
/// back from the return stack.
pub proof fn lemma_exit_leaves_the_body(s: State)
    requires
        s.wf(),
        !s.fetch,
        primitive_of(s.cell(s.cfa)) == Some(Primitive::Exit),
        is_cell(s.rsp),
        is_pointer(s.cell(s.rsp) as int),
    ensures
        step_spec(s) == (
            State { ip: s.cell(s.rsp) as int, rsp: s.rsp + 1, fetch: true, ..s },
            Outcome::Continue,
        ),
{
    lemma_exit(s);
}

/// What the machine does with the result of the system call that it asked
/// for: the result takes the place of the call's number and arguments on the
/// data stack, cut to the low 32 bits. After `brk` the address of linear
/// memory in the host, `base`, is taken off, so that the program sees an
/// address of its own. With no system call pending this is a fault.
pub open spec fn resume_spec(s: State, result: i64, base: i64) -> (State, Outcome) {
    let count: int = match primitive_of(s.cell(s.cfa)) {
        Some(Primitive::Syscall1) => 1,
        Some(Primitive::Syscall2) => 2,
        Some(Primitive::Syscall3) => 3,
        _ => 0,
    };
    let value = if count == 1 && s.top(0) == s.host.syscalls.brk {
        (result as i32).wrapping_sub(base as i32)
    } else {
        result as i32
    };
    if s.fetch || count == 0 {
        (s, Outcome::Fault(Fault::NoSyscallPending))
    } else if s.sp + count + 1 <= CELL_COUNT {
        (
            State {
                mem: store_cell(s.mem, s.sp + count, value),
                sp: s.sp + count,
                fetch: true,
                ..s
            },
            Outcome::Continue,
        )
    } else {
        (s, Outcome::Fault(Fault::OutOfBounds))
    }
}

} // verus!
