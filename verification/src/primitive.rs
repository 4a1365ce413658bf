//! The instruction set: the primitives that a code field can name, and the
//! numbers under which the bootstrap image knows them.

use vstd::prelude::*;

verus! {

/// Primitives that only rearrange the top of the data stack.
#[derive(Clone, Copy, PartialEq, Eq, Debug, Structural)]
pub enum Shuffle {
    /// `DROP` ( a -- )
    Drop,
    /// `SWAP` ( a b -- b a )
    Swap,
    /// `DUP` ( a -- a a )
    Dup,
    /// `OVER` ( a b -- a b a )
    Over,
    /// `ROT` ( a b c -- b c a )
    Rot,
    /// `-ROT` ( a b c -- c a b )
    NegRot,
    /// `2DROP` ( a b -- )
    TwoDrop,
    /// `2DUP` ( a b -- a b a b )
    TwoDup,
    /// `2SWAP` ( a b c d -- c d a b )
    TwoSwap,
    /// `?DUP` ( a -- a a ), or ( 0 -- 0 )
    QDup,
}

/// Primitives that replace the top of the data stack by a function of it.
#[derive(Clone, Copy, PartialEq, Eq, Debug, Structural)]
pub enum Unary {
    /// `1+` adds one
    Incr,
    /// `1-` subtracts one
    Decr,
    /// `4+` adds four
    Incr4,
    /// `4-` subtracts four
    Decr4,
    /// `0=` is zero
    ZEqu,
    /// `0<>` is not zero
    ZNequ,
    /// `0<` is negative
    ZLt,
    /// `0>` is positive
    ZGt,
    /// `0<=` is not positive
    ZLe,
    /// `0>=` is not negative
    ZGe,
    /// `INVERT` flips every bit
    Invert,
}

/// Primitives that replace the two top cells of the data stack by a function of
/// them.
#[derive(Clone, Copy, PartialEq, Eq, Debug, Structural)]
pub enum Binary {
    /// `+` sum
    Add,
    /// `-` difference
    Sub,
    /// `*` product
    Mul,
    /// `=` equal
    Equ,
    /// `<>` not equal
    Nequ,
    /// `<` less
    Lt,
    /// `>` greater
    Gt,
    /// `<=` less or equal
    Le,
    /// `>=` greater or equal
    Ge,
    /// `AND` bitwise and
    And,
    /// `OR` bitwise or
    Or,
    /// `XOR` bitwise exclusive or
    Xor,
}

/// Primitives that push a constant.
#[derive(Clone, Copy, PartialEq, Eq, Debug, Structural)]
pub enum Constant {
    /// `STATE` byte address of `STATE`
    State,
    /// `HERE` byte address of `HERE`
    Here,
    /// `LATEST` byte address of `LATEST`
    Latest,
    /// `S0` byte address of `S0`
    SZ,
    /// `BASE` byte address of `BASE`
    Base,
    /// `VERSION` version of the machine
    Version,
    /// `R0` byte address of the base of the return stack
    RZ,
    /// `DOCOL` code field content of a colon definition
    Docol,
    /// `F_IMMED` the immediate flag
    FImmed,
    /// `F_HIDDEN` the hidden flag
    FHidden,
    /// `F_LENMASK` the mask of the name length
    FLenmask,
    /// `SYS_EXIT` number of the `exit` system call
    SysExit,
    /// `SYS_OPEN` number of the `open` system call
    SysOpen,
    /// `SYS_CLOSE` number of the `close` system call
    SysClose,
    /// `SYS_READ` number of the `read` system call
    SysRead,
    /// `SYS_WRITE` number of the `write` system call
    SysWrite,
    /// `SYS_CREAT` number of the `creat` system call
    SysCreat,
    /// `SYS_BRK` number of the `brk` system call
    SysBrk,
    /// `O_RDONLY` `open` flag
    ORdonly,
    /// `O_WRONLY` `open` flag
    OWronly,
    /// `O_RDWR` `open` flag
    ORdwr,
    /// `O_CREAT` `open` flag
    OCreat,
    /// `O_EXCL` `open` flag
    OExcl,
    /// `O_TRUNC` `open` flag
    OTrunc,
    /// `O_APPEND` `open` flag
    OAppend,
    /// `O_NONBLOCK` `open` flag
    ONonblock,
}

/// A primitive of the machine.
#[derive(Clone, Copy, PartialEq, Eq, Debug, Structural)]
pub enum Primitive {
    /// A rearrangement of the data stack.
    Shuffle(Shuffle),
    /// A function of the top of the data stack.
    Unary(Unary),
    /// A function of the two top cells of the data stack.
    Binary(Binary),
    /// A constant.
    Constant(Constant),
    /// Enters a colon definition: the code field of every word that has a body.
    Enter,
    /// `/MOD` ( a b -- remainder quotient )
    DivMod,
    /// `EXIT` leaves a colon definition
    Exit,
    /// `LIT` pushes the cell that follows in the body
    Lit,
    /// `!` ( x addr -- ) stores a cell
    Store,
    /// `@` ( addr -- x ) loads a cell
    Fetch,
    /// `+!` ( n addr -- ) adds to a cell
    AddStore,
    /// `-!` ( n addr -- ) subtracts from a cell
    SubStore,
    /// `C!` ( x addr -- ) stores a byte
    StoreByte,
    /// `C@` ( addr -- x ) loads a byte
    FetchByte,
    /// `C@C!` ( dst src -- dst ) copies a byte
    CopyByte,
    /// `CMOVE` ( src dst len -- src ) copies a range of bytes
    CMove,
    /// `>R` moves a byte address to the return stack, as a cell index
    ToR,
    /// `R>` moves a cell index from the return stack, as a byte address
    FromR,
    /// `RSP@` pushes the return stack pointer as a byte address
    RspFetch,
    /// `RSP!` sets the return stack pointer
    RspStore,
    /// `RDROP` drops the top of the return stack
    RDrop,
    /// `DSP@` pushes the data stack pointer as a byte address
    DspFetch,
    /// `DSP!` sets the data stack pointer
    DspStore,
    /// `KEY` ( -- byte ) reads a byte of input
    Key,
    /// `EMIT` ( byte -- ) writes a byte of output
    Emit,
    /// `WORD` ( -- addr len ) reads a token
    Word,
    /// `NUMBER` ( addr len -- value unparsed ) parses a number
    Number,
    /// `FIND` ( addr len -- header ) searches the dictionary
    Find,
    /// `>CFA` ( header -- code field )
    Tcfa,
    /// `CREATE` ( addr len -- ) appends a header
    Create,
    /// `,` ( x -- ) appends a cell
    Comma,
    /// `[` switches to executing
    LBrac,
    /// `]` switches to compiling
    RBrac,
    /// `IMMEDIATE` toggles the immediate flag of the newest word
    Immediate,
    /// `HIDDEN` ( header -- ) toggles the hidden flag
    Hidden,
    /// `'` pushes the cell that follows in the body
    Tick,
    /// `BRANCH` jumps by the offset that follows in the body
    Branch,
    /// `0BRANCH` ( flag -- ) jumps if the flag is zero
    ZBranch,
    /// `LITSTRING` ( -- addr len ) pushes the string that follows in the body
    LitString,
    /// `TELL` ( addr len -- ) writes a range of bytes as output
    Tell,
    /// `INTERPRET` reads a token and executes or compiles it
    Interpret,
    /// `CHAR` ( -- byte ) reads a token and pushes its first byte
    Char,
    /// `EXECUTE` ( code field -- ) dispatches a code field
    Execute,
    /// `SYSCALL3` ( c b a number -- result )
    Syscall3,
    /// `SYSCALL2` ( b a number -- result )
    Syscall2,
    /// `SYSCALL1` ( a number -- result )
    Syscall1,
}

/// The primitive that the number `code` names in a code field, if any.
pub open spec fn primitive_of(code: i32) -> Option<Primitive> {
    match code {
        0 => Some(Primitive::Enter),
        1 => Some(Primitive::Shuffle(Shuffle::Drop)),
        2 => Some(Primitive::Shuffle(Shuffle::Swap)),
        3 => Some(Primitive::Shuffle(Shuffle::Dup)),
        4 => Some(Primitive::Shuffle(Shuffle::Over)),
        5 => Some(Primitive::Shuffle(Shuffle::Rot)),
        6 => Some(Primitive::Shuffle(Shuffle::NegRot)),
        7 => Some(Primitive::Shuffle(Shuffle::TwoDrop)),
        8 => Some(Primitive::Shuffle(Shuffle::TwoDup)),
        9 => Some(Primitive::Shuffle(Shuffle::TwoSwap)),
        10 => Some(Primitive::Shuffle(Shuffle::QDup)),
        11 => Some(Primitive::Unary(Unary::Incr)),
        12 => Some(Primitive::Unary(Unary::Decr)),
        13 => Some(Primitive::Unary(Unary::Incr4)),
        14 => Some(Primitive::Unary(Unary::Decr4)),
        15 => Some(Primitive::Binary(Binary::Add)),
        16 => Some(Primitive::Binary(Binary::Sub)),
        17 => Some(Primitive::Binary(Binary::Mul)),
        18 => Some(Primitive::DivMod),
        19 => Some(Primitive::Binary(Binary::Equ)),
        20 => Some(Primitive::Binary(Binary::Nequ)),
        21 => Some(Primitive::Binary(Binary::Lt)),
        22 => Some(Primitive::Binary(Binary::Gt)),
        23 => Some(Primitive::Binary(Binary::Le)),
        24 => Some(Primitive::Binary(Binary::Ge)),
        25 => Some(Primitive::Unary(Unary::ZEqu)),
        26 => Some(Primitive::Unary(Unary::ZNequ)),
        27 => Some(Primitive::Unary(Unary::ZLt)),
        28 => Some(Primitive::Unary(Unary::ZGt)),
        29 => Some(Primitive::Unary(Unary::ZLe)),
        30 => Some(Primitive::Unary(Unary::ZGe)),
        31 => Some(Primitive::Binary(Binary::And)),
        32 => Some(Primitive::Binary(Binary::Or)),
        33 => Some(Primitive::Binary(Binary::Xor)),
        34 => Some(Primitive::Unary(Unary::Invert)),
        35 => Some(Primitive::Exit),
        36 => Some(Primitive::Lit),
        37 => Some(Primitive::Store),
        38 => Some(Primitive::Fetch),
        39 => Some(Primitive::AddStore),
        40 => Some(Primitive::SubStore),
        41 => Some(Primitive::StoreByte),
        42 => Some(Primitive::FetchByte),
        43 => Some(Primitive::CopyByte),
        44 => Some(Primitive::CMove),
        45 => Some(Primitive::Constant(Constant::State)),
        46 => Some(Primitive::Constant(Constant::Here)),
        47 => Some(Primitive::Constant(Constant::Latest)),
        48 => Some(Primitive::Constant(Constant::SZ)),
        49 => Some(Primitive::Constant(Constant::Base)),
        50 => Some(Primitive::Constant(Constant::Version)),
        51 => Some(Primitive::Constant(Constant::RZ)),
        52 => Some(Primitive::Constant(Constant::Docol)),
        53 => Some(Primitive::Constant(Constant::FImmed)),
        54 => Some(Primitive::Constant(Constant::FHidden)),
        55 => Some(Primitive::Constant(Constant::FLenmask)),
        56 => Some(Primitive::Constant(Constant::SysExit)),
        57 => Some(Primitive::Constant(Constant::SysOpen)),
        58 => Some(Primitive::Constant(Constant::SysClose)),
        59 => Some(Primitive::Constant(Constant::SysRead)),
        60 => Some(Primitive::Constant(Constant::SysWrite)),
        61 => Some(Primitive::Constant(Constant::SysCreat)),
        62 => Some(Primitive::Constant(Constant::SysBrk)),
        63 => Some(Primitive::Constant(Constant::ORdonly)),
        64 => Some(Primitive::Constant(Constant::OWronly)),
        65 => Some(Primitive::Constant(Constant::ORdwr)),
        66 => Some(Primitive::Constant(Constant::OCreat)),
        67 => Some(Primitive::Constant(Constant::OExcl)),
        68 => Some(Primitive::Constant(Constant::OTrunc)),
        69 => Some(Primitive::Constant(Constant::OAppend)),
        70 => Some(Primitive::Constant(Constant::ONonblock)),
        71 => Some(Primitive::ToR),
        72 => Some(Primitive::FromR),
        73 => Some(Primitive::RspFetch),
        74 => Some(Primitive::RspStore),
        75 => Some(Primitive::RDrop),
        76 => Some(Primitive::DspFetch),
        77 => Some(Primitive::DspStore),
        78 => Some(Primitive::Key),
        79 => Some(Primitive::Emit),
        80 => Some(Primitive::Word),
        81 => Some(Primitive::Number),
        82 => Some(Primitive::Find),
        83 => Some(Primitive::Tcfa),
        84 => Some(Primitive::Create),
        85 => Some(Primitive::Comma),
        86 => Some(Primitive::LBrac),
        87 => Some(Primitive::RBrac),
        88 => Some(Primitive::Immediate),
        89 => Some(Primitive::Hidden),
        90 => Some(Primitive::Tick),
        91 => Some(Primitive::Branch),
        92 => Some(Primitive::ZBranch),
        93 => Some(Primitive::LitString),
        94 => Some(Primitive::Tell),
        95 => Some(Primitive::Interpret),
        96 => Some(Primitive::Char),
        97 => Some(Primitive::Execute),
        98 => Some(Primitive::Syscall3),
        99 => Some(Primitive::Syscall2),
        100 => Some(Primitive::Syscall1),
        _ => None,
    }
}

impl Primitive {
    /// The primitive that the number `code` names in a code field, if any.
    pub fn decode(code: i32) -> (primitive: Option<Primitive>)
        ensures
            primitive == primitive_of(code),
    {
        match code {
            0 => Some(Primitive::Enter),
            1 => Some(Primitive::Shuffle(Shuffle::Drop)),
            2 => Some(Primitive::Shuffle(Shuffle::Swap)),
            3 => Some(Primitive::Shuffle(Shuffle::Dup)),
            4 => Some(Primitive::Shuffle(Shuffle::Over)),
            5 => Some(Primitive::Shuffle(Shuffle::Rot)),
            6 => Some(Primitive::Shuffle(Shuffle::NegRot)),
            7 => Some(Primitive::Shuffle(Shuffle::TwoDrop)),
            8 => Some(Primitive::Shuffle(Shuffle::TwoDup)),
            9 => Some(Primitive::Shuffle(Shuffle::TwoSwap)),
            10 => Some(Primitive::Shuffle(Shuffle::QDup)),
            11 => Some(Primitive::Unary(Unary::Incr)),
            12 => Some(Primitive::Unary(Unary::Decr)),
            13 => Some(Primitive::Unary(Unary::Incr4)),
            14 => Some(Primitive::Unary(Unary::Decr4)),
            15 => Some(Primitive::Binary(Binary::Add)),
            16 => Some(Primitive::Binary(Binary::Sub)),
            17 => Some(Primitive::Binary(Binary::Mul)),
            18 => Some(Primitive::DivMod),
            19 => Some(Primitive::Binary(Binary::Equ)),
            20 => Some(Primitive::Binary(Binary::Nequ)),
            21 => Some(Primitive::Binary(Binary::Lt)),
            22 => Some(Primitive::Binary(Binary::Gt)),
            23 => Some(Primitive::Binary(Binary::Le)),
            24 => Some(Primitive::Binary(Binary::Ge)),
            25 => Some(Primitive::Unary(Unary::ZEqu)),
            26 => Some(Primitive::Unary(Unary::ZNequ)),
            27 => Some(Primitive::Unary(Unary::ZLt)),
            28 => Some(Primitive::Unary(Unary::ZGt)),
            29 => Some(Primitive::Unary(Unary::ZLe)),
            30 => Some(Primitive::Unary(Unary::ZGe)),
            31 => Some(Primitive::Binary(Binary::And)),
            32 => Some(Primitive::Binary(Binary::Or)),
            33 => Some(Primitive::Binary(Binary::Xor)),
            34 => Some(Primitive::Unary(Unary::Invert)),
            35 => Some(Primitive::Exit),
            36 => Some(Primitive::Lit),
            37 => Some(Primitive::Store),
            38 => Some(Primitive::Fetch),
            39 => Some(Primitive::AddStore),
            40 => Some(Primitive::SubStore),
            41 => Some(Primitive::StoreByte),
            42 => Some(Primitive::FetchByte),
            43 => Some(Primitive::CopyByte),
            44 => Some(Primitive::CMove),
            45 => Some(Primitive::Constant(Constant::State)),
            46 => Some(Primitive::Constant(Constant::Here)),
            47 => Some(Primitive::Constant(Constant::Latest)),
            48 => Some(Primitive::Constant(Constant::SZ)),
            49 => Some(Primitive::Constant(Constant::Base)),
            50 => Some(Primitive::Constant(Constant::Version)),
            51 => Some(Primitive::Constant(Constant::RZ)),
            52 => Some(Primitive::Constant(Constant::Docol)),
            53 => Some(Primitive::Constant(Constant::FImmed)),
            54 => Some(Primitive::Constant(Constant::FHidden)),
            55 => Some(Primitive::Constant(Constant::FLenmask)),
            56 => Some(Primitive::Constant(Constant::SysExit)),
            57 => Some(Primitive::Constant(Constant::SysOpen)),
            58 => Some(Primitive::Constant(Constant::SysClose)),
            59 => Some(Primitive::Constant(Constant::SysRead)),
            60 => Some(Primitive::Constant(Constant::SysWrite)),
            61 => Some(Primitive::Constant(Constant::SysCreat)),
            62 => Some(Primitive::Constant(Constant::SysBrk)),
            63 => Some(Primitive::Constant(Constant::ORdonly)),
            64 => Some(Primitive::Constant(Constant::OWronly)),
            65 => Some(Primitive::Constant(Constant::ORdwr)),
            66 => Some(Primitive::Constant(Constant::OCreat)),
            67 => Some(Primitive::Constant(Constant::OExcl)),
            68 => Some(Primitive::Constant(Constant::OTrunc)),
            69 => Some(Primitive::Constant(Constant::OAppend)),
            70 => Some(Primitive::Constant(Constant::ONonblock)),
            71 => Some(Primitive::ToR),
            72 => Some(Primitive::FromR),
            73 => Some(Primitive::RspFetch),
            74 => Some(Primitive::RspStore),
            75 => Some(Primitive::RDrop),
            76 => Some(Primitive::DspFetch),
            77 => Some(Primitive::DspStore),
            78 => Some(Primitive::Key),
            79 => Some(Primitive::Emit),
            80 => Some(Primitive::Word),
            81 => Some(Primitive::Number),
            82 => Some(Primitive::Find),
            83 => Some(Primitive::Tcfa),
            84 => Some(Primitive::Create),
            85 => Some(Primitive::Comma),
            86 => Some(Primitive::LBrac),
            87 => Some(Primitive::RBrac),
            88 => Some(Primitive::Immediate),
            89 => Some(Primitive::Hidden),
            90 => Some(Primitive::Tick),
            91 => Some(Primitive::Branch),
            92 => Some(Primitive::ZBranch),
            93 => Some(Primitive::LitString),
            94 => Some(Primitive::Tell),
            95 => Some(Primitive::Interpret),
            96 => Some(Primitive::Char),
            97 => Some(Primitive::Execute),
            98 => Some(Primitive::Syscall3),
            99 => Some(Primitive::Syscall2),
            100 => Some(Primitive::Syscall1),
            _ => None,
        }
    }
}

} // verus!
