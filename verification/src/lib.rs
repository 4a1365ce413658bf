//! A resident Forth virtual machine: a flat memory of four-byte cells, a
//! dictionary of word headers threaded through it, a lexer, a number parser
//! and the threaded-code interpreter that runs and extends the dictionary.
//!
//! The machine never touches the outside world itself. Each call of
//! [`machine::Forth::step`] carries out one primitive and says what the host
//! has to do next: hand over more input, write some bytes, or make a system
//! call and report its result.
//!
//! The functions are verified against contracts over the mathematical state
//! of the machine, [`machine::State`]:
//!
//! - [`memory`] reads and writes linear memory as bytes and as cells;
//! - [`image`] holds the bootstrap dictionary and puts it into memory;
//! - [`machine`] holds the machine, its registers and its state;
//! - [`lexer`] hands out input bytes and cuts them into tokens;
//! - [`number`] parses numbers in the current radix;
//! - [`dictionary`] searches the dictionary and appends to it;
//! - [`lookup`] proves what the search finds;
//! - [`primitive`] names the instruction set, [`operators`] computes its
//!   arithmetic, and [`semantics`] says what each primitive does;
//! - [`interpreter`] takes the steps;
//! - [`host`] reads what the machine takes from the C library, which is
//!   believed and not proved, and [`fault`] lists the ways in which the
//!   machine gives up.

pub mod dictionary;
pub mod fault;
pub mod host;
pub mod image;
pub mod interpreter;
pub mod lexer;
pub mod lookup;
pub mod machine;
pub mod memory;
pub mod number;
pub mod operators;
pub mod primitive;
pub mod semantics;
