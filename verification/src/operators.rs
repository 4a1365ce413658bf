//! The primitives that compute: what each makes of the cells it takes from
//! the data stack. Arithmetic is that of 32-bit two's complement and wraps;
//! truth values are all bits set or zero.

use vstd::prelude::*;
use crate::dictionary::{F_HIDDEN, F_IMMED, F_LENMASK};
use crate::host::HostConstants;
use crate::memory::{
    BASE_ADDR, HERE_ADDR, LATEST_ADDR, RETURN_STACK_BASE, S0_ADDR, STATE_ADDR,
};
use crate::primitive::{Binary, Constant, Shuffle, Unary};

verus! {

/// The number that `VERSION` pushes.
pub const VERSION: i32 = 47;

/// A truth value as a cell: all bits set for true, zero for false.
pub open spec fn flag(truth: bool) -> i32 {
    if truth {
        -1i32
    } else {
        0
    }
}

/// The cell index that a byte address falls into, rounded down.
pub open spec fn cell_of(address: i32) -> int {
    address as int / 4
}

/// The distance from zero.
pub open spec fn magnitude(x: int) -> int {
    if x < 0 {
        -x
    } else {
        x
    }
}

/// The quotient of a division that rounds toward zero. The one quotient that
/// does not fit a cell wraps.
pub open spec fn quotient(a: i32, b: i32) -> i32
    recommends
        b != 0,
{
    let size = magnitude(a as int) / magnitude(b as int);
    if a == i32::MIN && b == -1 {
        i32::MIN
    } else if (a < 0) != (b < 0) {
        (-size) as i32
    } else {
        size as i32
    }
}

/// The remainder of a division that rounds toward zero: it has the sign of
/// the dividend.
pub open spec fn remainder(a: i32, b: i32) -> i32
    recommends
        b != 0,
{
    let size = magnitude(a as int) % magnitude(b as int);
    if a < 0 {
        (-size) as i32
    } else {
        size as i32
    }
}

impl Shuffle {
    /// How many cells the primitive takes from the data stack.
    pub open spec fn arity(self) -> int {
        match self {
            Shuffle::Drop | Shuffle::Dup | Shuffle::QDup => 1,
            Shuffle::Swap | Shuffle::Over | Shuffle::TwoDrop | Shuffle::TwoDup => 2,
            Shuffle::Rot | Shuffle::NegRot => 3,
            Shuffle::TwoSwap => 4,
        }
    }

    /// What the primitive puts in place of the cells `a` that it took. Both
    /// sequences list the deepest cell first and the top last.
    #[verifier::opaque]
    pub open spec fn apply(self, a: Seq<i32>) -> Seq<i32> {
        match self {
            Shuffle::Drop => seq![],
            Shuffle::Swap => seq![a[1], a[0]],
            Shuffle::Dup => seq![a[0], a[0]],
            Shuffle::Over => seq![a[0], a[1], a[0]],
            Shuffle::Rot => seq![a[1], a[2], a[0]],
            Shuffle::NegRot => seq![a[2], a[0], a[1]],
            Shuffle::TwoDrop => seq![],
            Shuffle::TwoDup => seq![a[0], a[1], a[0], a[1]],
            Shuffle::TwoSwap => seq![a[2], a[3], a[0], a[1]],
            Shuffle::QDup => if a[0] != 0 {
                seq![a[0], a[0]]
            } else {
                seq![a[0]]
            },
        }
    }
}

impl Unary {
    /// What the primitive makes of the top of the stack. Arithmetic wraps.
    pub open spec fn apply(self, x: i32) -> i32 {
        match self {
            Unary::Incr => x.wrapping_add(1i32),
            Unary::Decr => x.wrapping_sub(1i32),
            Unary::Incr4 => x.wrapping_add(4i32),
            Unary::Decr4 => x.wrapping_sub(4i32),
            Unary::ZEqu => flag(x == 0),
            Unary::ZNequ => flag(x != 0),
            Unary::ZLt => flag(x < 0),
            Unary::ZGt => flag(x > 0),
            Unary::ZLe => flag(x <= 0),
            Unary::ZGe => flag(x >= 0),
            Unary::Invert => !x,
        }
    }
}

impl Binary {
    /// What the primitive makes of the second cell `x` and the top `y` of the
    /// stack. Arithmetic wraps.
    pub open spec fn apply(self, x: i32, y: i32) -> i32 {
        match self {
            Binary::Add => x.wrapping_add(y),
            Binary::Sub => x.wrapping_sub(y),
            Binary::Mul => x.wrapping_mul(y),
            Binary::Equ => flag(x == y),
            Binary::Nequ => flag(x != y),
            Binary::Lt => flag(x < y),
            Binary::Gt => flag(x > y),
            Binary::Le => flag(x <= y),
            Binary::Ge => flag(x >= y),
            Binary::And => x & y,
            Binary::Or => x | y,
            Binary::Xor => x ^ y,
        }
    }
}

impl Constant {
    /// The constant that the primitive pushes on a host with the given
    /// constants.
    pub open spec fn value(self, host: HostConstants) -> i32 {
        match self {
            Constant::State => (4 * STATE_ADDR) as i32,
            Constant::Here => (4 * HERE_ADDR) as i32,
            Constant::Latest => (4 * LATEST_ADDR) as i32,
            Constant::SZ => (4 * S0_ADDR) as i32,
            Constant::Base => (4 * BASE_ADDR) as i32,
            Constant::Version => VERSION,
            Constant::RZ => (4 * RETURN_STACK_BASE) as i32,
            Constant::Docol => 0,
            Constant::FImmed => F_IMMED as i32,
            Constant::FHidden => F_HIDDEN as i32,
            Constant::FLenmask => F_LENMASK as i32,
            Constant::SysExit => host.syscalls.exit,
            Constant::SysOpen => host.syscalls.open,
            Constant::SysClose => host.syscalls.close,
            Constant::SysRead => host.syscalls.read,
            Constant::SysWrite => host.syscalls.write,
            Constant::SysCreat => host.syscalls.creat,
            Constant::SysBrk => host.syscalls.brk,
            Constant::ORdonly => host.flags.rdonly,
            Constant::OWronly => host.flags.wronly,
            Constant::ORdwr => host.flags.rdwr,
            Constant::OCreat => host.flags.creat,
            Constant::OExcl => host.flags.excl,
            Constant::OTrunc => host.flags.trunc,
            Constant::OAppend => host.flags.append,
            Constant::ONonblock => host.flags.nonblock,
        }
    }
}

/// Sums, differences and products never trap: each is the exact result
/// brought back into the range of a cell by a multiple of 2^32.
pub proof fn lemma_arithmetic_wraps(x: i32, y: i32)
    ensures
        (Binary::Add.apply(x, y) - (x + y)) % 0x1_0000_0000 == 0,
        (Binary::Sub.apply(x, y) - (x - y)) % 0x1_0000_0000 == 0,
        (Binary::Mul.apply(x, y) - x * y) % 0x1_0000_0000 == 0,
        x + y <= i32::MAX ==> x + y >= i32::MIN ==> Binary::Add.apply(x, y) == x + y,
        x - y <= i32::MAX ==> x - y >= i32::MIN ==> Binary::Sub.apply(x, y) == x - y,
        x * y <= i32::MAX ==> x * y >= i32::MIN ==> Binary::Mul.apply(x, y) == x * y,
{
    let product = x * y;
    let reduced = product % 0x1_0000_0000;
    assert((reduced - product) % 0x1_0000_0000 == 0);
    assert((reduced - 0x1_0000_0000 - product) % 0x1_0000_0000 == 0);
    if i32::MIN <= product <= i32::MAX {
        assert(reduced == if product < 0 {
            product + 0x1_0000_0000
        } else {
            product
        });
    }
}

/// A comparison leaves all bits set where it holds and zero where it does
/// not.
pub proof fn lemma_comparisons_are_flags(x: i32, y: i32)
    ensures
        flag(true) == !0i32,
        flag(false) == 0,
        Binary::Equ.apply(x, y) == flag(x == y),
        Binary::Nequ.apply(x, y) == flag(x != y),
        Binary::Lt.apply(x, y) == flag(x < y),
        Binary::Gt.apply(x, y) == flag(x > y),
        Binary::Le.apply(x, y) == flag(x <= y),
        Binary::Ge.apply(x, y) == flag(x >= y),
        Unary::ZEqu.apply(x) == flag(x == 0),
        Unary::ZNequ.apply(x) == flag(x != 0),
        Unary::ZLt.apply(x) == flag(x < 0),
        Unary::ZGt.apply(x) == flag(x > 0),
        Unary::ZLe.apply(x) == flag(x <= 0),
        Unary::ZGe.apply(x) == flag(x >= 0),
{
    assert(!0i32 == -1i32) by (bit_vector);
}

/// A truth value as a cell.
pub fn truth(value: bool) -> (cell: i32)
    ensures
        cell == flag(value),
{
    if value {
        -1
    } else {
        0
    }
}

/// The cell index that a byte address falls into, rounded down.
pub fn quarter(address: i32) -> (index: i32)
    ensures
        index == cell_of(address),
{
    assert(address >> 2 == address / 4) by (bit_vector);
    address >> 2
}

/// Remainder and quotient of a division that rounds toward zero.
pub fn divide(a: i32, b: i32) -> (parts: (i32, i32))
    requires
        b != 0,
    ensures
        parts.0 == remainder(a, b),
        parts.1 == quotient(a, b),
{
    if a == i32::MIN && b == -1 {
        return (0, i32::MIN);
    }
    let x: i64 = a as i64;
    let y: i64 = b as i64;
    let x_size: i64 = if x < 0 {
        -x
    } else {
        x
    };
    let y_size: i64 = if y < 0 {
        -y
    } else {
        y
    };
    let size: i64 = x_size / y_size;
    let rest: i64 = x_size % y_size;
    assert(0 <= size <= x_size && (y_size >= 2 ==> 2 * size <= x_size)) by (nonlinear_arith)
        requires
            0 <= x_size,
            1 <= y_size,
            size == x_size / y_size,
    ;
    assert(0 <= rest < y_size);
    let q: i64 = if (x < 0) != (y < 0) {
        -size
    } else {
        size
    };
    let r: i64 = if x < 0 {
        -rest
    } else {
        rest
    };
    (r as i32, q as i32)
}

impl Shuffle {
    /// How many cells the primitive takes from the data stack.
    pub fn count(self) -> (count: usize)
        ensures
            count == self.arity(),
    {
        match self {
            Shuffle::Drop | Shuffle::Dup | Shuffle::QDup => 1,
            Shuffle::Swap | Shuffle::Over | Shuffle::TwoDrop | Shuffle::TwoDup => 2,
            Shuffle::Rot | Shuffle::NegRot => 3,
            Shuffle::TwoSwap => 4,
        }
    }

    /// What the primitive puts in place of the cells `a` that it took.
    pub fn compute(self, a: &Vec<i32>) -> (values: Vec<i32>)
        requires
            a@.len() == self.arity(),
        ensures
            values@ == self.apply(a@),
            values@.len() <= 4,
    {
        let values = match self {
            Shuffle::Drop => Vec::new(),
            Shuffle::Swap => vec![a[1], a[0]],
            Shuffle::Dup => vec![a[0], a[0]],
            Shuffle::Over => vec![a[0], a[1], a[0]],
            Shuffle::Rot => vec![a[1], a[2], a[0]],
            Shuffle::NegRot => vec![a[2], a[0], a[1]],
            Shuffle::TwoDrop => Vec::new(),
            Shuffle::TwoDup => vec![a[0], a[1], a[0], a[1]],
            Shuffle::TwoSwap => vec![a[2], a[3], a[0], a[1]],
            Shuffle::QDup => if a[0] != 0 {
                vec![a[0], a[0]]
            } else {
                vec![a[0]]
            },
        };
        assert(values@ =~= self.apply(a@)) by {
            reveal(Shuffle::apply);
        }
        values
    }
}

impl Unary {
    /// What the primitive makes of the top of the stack.
    pub fn compute(self, x: i32) -> (value: i32)
        ensures
            value == self.apply(x),
    {
        match self {
            Unary::Incr => x.wrapping_add(1),
            Unary::Decr => x.wrapping_sub(1),
            Unary::Incr4 => x.wrapping_add(4),
            Unary::Decr4 => x.wrapping_sub(4),
            Unary::ZEqu => truth(x == 0),
            Unary::ZNequ => truth(x != 0),
            Unary::ZLt => truth(x < 0),
            Unary::ZGt => truth(x > 0),
            Unary::ZLe => truth(x <= 0),
            Unary::ZGe => truth(x >= 0),
            Unary::Invert => !x,
        }
    }
}

impl Binary {
    /// What the primitive makes of the second cell `x` and the top `y` of the
    /// stack.
    pub fn compute(self, x: i32, y: i32) -> (value: i32)
        ensures
            value == self.apply(x, y),
    {
        match self {
            Binary::Add => x.wrapping_add(y),
            Binary::Sub => x.wrapping_sub(y),
            Binary::Mul => x.wrapping_mul(y),
            Binary::Equ => truth(x == y),
            Binary::Nequ => truth(x != y),
            Binary::Lt => truth(x < y),
            Binary::Gt => truth(x > y),
            Binary::Le => truth(x <= y),
            Binary::Ge => truth(x >= y),
            Binary::And => x & y,
            Binary::Or => x | y,
            Binary::Xor => x ^ y,
        }
    }
}

impl Constant {
    /// The constant that the primitive pushes on a host with the given
    /// constants.
    pub fn compute(self, host: HostConstants) -> (value: i32)
        ensures
            value == self.value(host),
    {
        match self {
            Constant::State => (4 * STATE_ADDR) as i32,
            Constant::Here => (4 * HERE_ADDR) as i32,
            Constant::Latest => (4 * LATEST_ADDR) as i32,
            Constant::SZ => (4 * S0_ADDR) as i32,
            Constant::Base => (4 * BASE_ADDR) as i32,
            Constant::Version => VERSION,
            Constant::RZ => (4 * RETURN_STACK_BASE) as i32,
            Constant::Docol => 0,
            Constant::FImmed => F_IMMED as i32,
            Constant::FHidden => F_HIDDEN as i32,
            Constant::FLenmask => F_LENMASK as i32,
            Constant::SysExit => host.syscalls.exit,
            Constant::SysOpen => host.syscalls.open,
            Constant::SysClose => host.syscalls.close,
            Constant::SysRead => host.syscalls.read,
            Constant::SysWrite => host.syscalls.write,
            Constant::SysCreat => host.syscalls.creat,
            Constant::SysBrk => host.syscalls.brk,
            Constant::ORdonly => host.flags.rdonly,
            Constant::OWronly => host.flags.wronly,
            Constant::ORdwr => host.flags.rdwr,
            Constant::OCreat => host.flags.creat,
            Constant::OExcl => host.flags.excl,
            Constant::OTrunc => host.flags.trunc,
            Constant::OAppend => host.flags.append,
            Constant::ONonblock => host.flags.nonblock,
        }
    }
}

} // verus!
