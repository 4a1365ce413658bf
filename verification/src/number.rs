//! The number parser: signed integers in the radix that `BASE` holds.

use vstd::prelude::*;
use crate::fault::Fault;
use crate::machine::Forth;
use crate::memory::{cell_at, BASE_ADDR, MEMORY_SIZE};

verus! {

/// The byte of a leading minus sign.
pub const MINUS: u8 = 45;

/// The byte of a leading plus sign.
pub const PLUS: u8 = 43;

/// What the parser found: the value it accumulated and the number of bytes
/// that it did not consume. A token is a number only if nothing remains;
/// otherwise the value is that of the digits before the offending byte,
/// already scaled by the radix for the digit that did not come.
#[derive(Clone, Copy, PartialEq, Eq, Debug, Structural)]
pub struct NumResult {
    pub result: i32,
    pub remaining: i32,
}

/// The value of a byte as a digit: `0` to `9` count from zero, `A` and the
/// bytes after it count from ten. Other bytes are no digits.
pub open spec fn digit_value(ch: u8) -> Option<int> {
    if 48 <= ch <= 57 {
        Some(ch - 48)
    } else if 65 <= ch {
        Some(ch - 55)
    } else {
        None
    }
}

/// Whether `ch` is a digit of radix `base`.
pub open spec fn is_digit(ch: u8, base: i32) -> bool {
    digit_value(ch) matches Some(d) && d < base
}

/// Parses up to `remaining` digits from `pos` on, on top of the value `acc`,
/// and stops at the first byte that is no digit of the radix. Arithmetic
/// wraps. Reading past the end of memory is a fault.
pub open spec fn digits(mem: Seq<u8>, pos: int, remaining: int, base: i32, acc: i32) -> Result<
    NumResult,
    Fault,
>
    decreases remaining,
{
    if remaining <= 0 {
        Ok(NumResult { result: acc, remaining: remaining as i32 })
    } else if pos >= mem.len() {
        Err(Fault::OutOfBounds)
    } else if is_digit(mem[pos], base) {
        digits(
            mem,
            pos + 1,
            remaining - 1,
            base,
            acc.wrapping_mul(base).wrapping_add(digit_value(mem[pos]).unwrap() as i32),
        )
    } else {
        Ok(NumResult { result: acc.wrapping_mul(base), remaining: remaining as i32 })
    }
}

/// What `number` returns for the `n` bytes at `s`: an optional sign, which
/// is not counted among the digits, then digits in the radix of `BASE`. The
/// byte at `s` is looked at even where `n` is zero.
pub open spec fn number_spec(mem: Seq<u8>, n: i32, s: int) -> Result<NumResult, Fault> {
    if !(0 <= s < mem.len()) {
        Err(Fault::OutOfBounds)
    } else {
        let signed = mem[s] == MINUS || mem[s] == PLUS;
        let base = cell_at(mem, BASE_ADDR as int);
        let parsed = if signed {
            digits(mem, s + 1, n.wrapping_sub(1) as int, base, 0)
        } else {
            digits(mem, s, n as int, base, 0)
        };
        with_sign(parsed, mem[s] == MINUS)
    }
}

/// The parsed digits with their sign: a negative number is the wrapped
/// product of the value and minus one.
pub open spec fn with_sign(parsed: Result<NumResult, Fault>, negative: bool) -> Result<
    NumResult,
    Fault,
> {
    match parsed {
        Ok(found) => Ok(
            NumResult {
                result: if negative {
                    found.result.wrapping_mul(-1i32)
                } else {
                    found.result
                },
                remaining: found.remaining,
            },
        ),
        Err(fault) => Err(fault),
    }
}

/// How many of the `count` bytes from `pos` on are digits of radix `base`
/// before the first that is none.
pub open spec fn leading_digits(mem: Seq<u8>, pos: int, count: int, base: i32) -> int
    decreases count,
{
    if count <= 0 || !(0 <= pos < mem.len()) || !is_digit(mem[pos], base) {
        0
    } else {
        1 + leading_digits(mem, pos + 1, count - 1, base)
    }
}

/// The number that the `count` digits from `pos` on spell in radix `base`,
/// on top of the value `acc` of the digits before them. This is the true
/// number: nothing wraps.
pub open spec fn exact_value(mem: Seq<u8>, pos: int, count: int, base: int, acc: int) -> int
    decreases count,
{
    if count <= 0 {
        acc
    } else {
        exact_value(
            mem,
            pos + 1,
            count - 1,
            base,
            acc * base + digit_value(mem[pos]).unwrap(),
        )
    }
}

/// How many bytes the sign at `s` takes: one if there is one, else none.
pub open spec fn sign_length(mem: Seq<u8>, s: int) -> int {
    if mem[s] == MINUS || mem[s] == PLUS {
        1
    } else {
        0
    }
}

/// The parser consumes the digits up to the first byte that is none, and
/// `remaining` counts the rest.
pub proof fn lemma_remaining_counts_the_rest(
    mem: Seq<u8>,
    pos: int,
    count: int,
    base: i32,
    acc: i32,
)
    requires
        0 <= pos,
        0 <= count <= i32::MAX,
        pos + count <= mem.len(),
    ensures
        digits(mem, pos, count, base, acc) is Ok,
        digits(mem, pos, count, base, acc)->Ok_0.remaining == count - leading_digits(
            mem,
            pos,
            count,
            base,
        ),
        0 <= leading_digits(mem, pos, count, base) <= count,
    decreases count,
{
    if count > 0 && is_digit(mem[pos], base) {
        lemma_remaining_counts_the_rest(
            mem,
            pos + 1,
            count - 1,
            base,
            acc.wrapping_mul(base).wrapping_add(digit_value(mem[pos]).unwrap() as i32),
        );
    }
}

/// A token in memory is a number exactly if every byte after its sign is a
/// digit of the radix: `remaining` is the number of bytes from the first
/// that is none on.
pub proof fn lemma_number_stops_at_the_first_other_byte(mem: Seq<u8>, n: i32, s: int)
    requires
        0 <= s,
        1 <= n,
        s + n <= mem.len(),
    ensures
        number_spec(mem, n, s) is Ok,
        number_spec(mem, n, s)->Ok_0.remaining == n - sign_length(mem, s) - leading_digits(
            mem,
            s + sign_length(mem, s),
            n - sign_length(mem, s),
            cell_at(mem, BASE_ADDR as int),
        ),
        number_spec(mem, n, s)->Ok_0.remaining >= 0,
{
    lemma_remaining_counts_the_rest(
        mem,
        s + sign_length(mem, s),
        n - sign_length(mem, s),
        cell_at(mem, BASE_ADDR as int),
        0,
    );
}

/// Digits on top of a value that is not negative spell a number that is no
/// smaller.
proof fn lemma_exact_value_grows(mem: Seq<u8>, pos: int, count: int, base: i32, acc: int)
    requires
        0 <= pos,
        0 <= count,
        pos + count <= mem.len(),
        leading_digits(mem, pos, count, base) == count,
        0 <= acc,
    ensures
        acc <= exact_value(mem, pos, count, base as int, acc),
    decreases count,
{
    if count > 0 {
        let digit = digit_value(mem[pos]).unwrap();
        assert(acc <= acc * base + digit) by (nonlinear_arith)
            requires
                0 <= acc,
                1 <= base,
                0 <= digit,
        ;
        lemma_exact_value_grows(mem, pos + 1, count - 1, base, acc * base + digit);
    }
}

/// Digits that spell a number within the range of a cell are parsed to that
/// number: nothing wraps on the way.
pub proof fn lemma_digits_spell_their_value(
    mem: Seq<u8>,
    pos: int,
    count: int,
    base: i32,
    acc: i32,
)
    requires
        0 <= pos,
        0 <= count <= i32::MAX,
        pos + count <= mem.len(),
        leading_digits(mem, pos, count, base) == count,
        0 <= acc,
        exact_value(mem, pos, count, base as int, acc as int) <= i32::MAX,
    ensures
        digits(mem, pos, count, base, acc) == Ok::<NumResult, Fault>(
            NumResult {
                result: exact_value(mem, pos, count, base as int, acc as int) as i32,
                remaining: 0,
            },
        ),
    decreases count,
{
    if count > 0 {
        let digit = digit_value(mem[pos]).unwrap();
        let next = acc * base + digit;
        assert(0 <= acc * base <= next) by (nonlinear_arith)
            requires
                0 <= acc,
                1 <= base,
                0 <= digit,
                next == acc * base + digit,
        ;
        lemma_exact_value_grows(mem, pos + 1, count - 1, base, next);
        assert(acc.wrapping_mul(base) == acc * base);
        assert(acc.wrapping_mul(base).wrapping_add(digit as i32) == next);
        lemma_digits_spell_their_value(mem, pos + 1, count - 1, base, next as i32);
    }
}

impl Forth {
    /// Parses the `n` bytes at byte address `s` as a number.
    pub fn number(&self, n: i32, s: usize) -> (parsed: Result<NumResult, Fault>)
        requires
            self@.wf(),
        ensures
            parsed == number_spec(self@.mem, n, s as int),
    {
        proof {
            self.lemma_view();
        }
        if s >= MEMORY_SIZE {
            return Err(Fault::OutOfBounds);
        }
        let base: i32 = self.read_i32(BASE_ADDR);
        let first: u8 = self.memory[s];
        let negative: bool = first == MINUS;
        let mut pos: usize = s;
        let mut remaining: i32 = n;
        if first == MINUS || first == PLUS {
            pos = s + 1;
            remaining = n.wrapping_sub(1);
        }
        let mut result: i32 = 0;
        while remaining > 0
            invariant
                pos <= MEMORY_SIZE,
                self.memory@ == self@.mem,
                self@.mem.len() == MEMORY_SIZE,
                number_spec(self@.mem, n, s as int) == with_sign(
                    digits(self@.mem, pos as int, remaining as int, base, result),
                    negative,
                ),
            decreases remaining,
        {
            if pos >= MEMORY_SIZE {
                return Err(Fault::OutOfBounds);
            }
            let ch: u8 = self.memory[pos];
            let scaled: i32 = result.wrapping_mul(base);
            if ch < 48 || (57 < ch && ch < 65) {
                return Ok(finish(scaled, remaining, negative));
            }
            let digit: i32 = if ch <= 57 {
                (ch - 48) as i32
            } else {
                (ch - 55) as i32
            };
            if digit >= base {
                return Ok(finish(scaled, remaining, negative));
            }
            result = scaled.wrapping_add(digit);
            remaining = remaining - 1;
            pos = pos + 1;
        }
        Ok(finish(result, remaining, negative))
    }
}

/// Puts the sign on the accumulated value.
fn finish(value: i32, remaining: i32, negative: bool) -> (found: NumResult)
    ensures
        found.remaining == remaining,
        found.result == if negative {
            value.wrapping_mul(-1i32)
        } else {
            value
        },
{
    let result: i32 = if negative {
        value.wrapping_mul(-1i32)
    } else {
        value
    };
    NumResult { result, remaining }
}

} // verus!
