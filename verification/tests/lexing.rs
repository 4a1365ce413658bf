//! The reader and the lexer.

use jansforth::fault::Fault;
use jansforth::machine::Forth;

const WORD_BUFFER: usize = 0x5014;
const BUFFER_START: usize = 0x4000;

/// The token that `word` left in the word buffer.
fn token(vm: &Forth, length: i32) -> Vec<u8> {
    vm.memory()[WORD_BUFFER..WORD_BUFFER + length as usize].to_vec()
}

#[test]
fn key_hands_out_the_buffer_byte_by_byte() {
    let mut vm = Forth::new();
    assert_eq!(vm.key(), None);
    assert_eq!(vm.refill(b"AB"), 2);
    assert_eq!(vm.key(), Some(b'A'));
    assert_eq!(vm.key(), Some(b'B'));
    assert_eq!(vm.key(), None);
    assert_eq!(vm.key(), None);
}

#[test]
fn refill_writes_to_the_input_buffer() {
    let mut vm = Forth::new();
    assert_eq!(vm.refill(b"xyz"), 3);
    assert_eq!(&vm.memory()[BUFFER_START..BUFFER_START + 3], b"xyz");
    assert_eq!(vm.memory()[BUFFER_START + 3], 0);
}

#[test]
fn refill_waits_until_the_buffer_is_read() {
    let mut vm = Forth::new();
    assert_eq!(vm.refill(b"AB"), 2);
    assert_eq!(vm.key(), Some(b'A'));
    assert_eq!(vm.refill(b"CD"), 0);
    assert_eq!(vm.key(), Some(b'B'));
    assert_eq!(vm.key(), None);
    assert_eq!(vm.refill(b"CD"), 2);
    assert_eq!(vm.key(), Some(b'C'));
}

#[test]
fn refill_takes_no_more_than_the_buffer_holds() {
    let mut vm = Forth::new();
    let input = vec![b'x'; 5000];
    assert_eq!(vm.refill(&input), 4096);
    assert_eq!(vm.memory()[BUFFER_START + 4095], b'x');
    assert_eq!(vm.memory()[BUFFER_START + 4096], 0);
    let mut count = 0;
    while vm.key().is_some() {
        count += 1;
    }
    assert_eq!(count, 4096);
}

#[test]
fn an_empty_refill_leaves_the_buffer_empty() {
    let mut vm = Forth::new();
    assert_eq!(vm.refill(b""), 0);
    assert_eq!(vm.key(), None);
    assert_eq!(vm.word(), Ok(None));
}

#[test]
fn word_cuts_tokens_at_white_space() {
    let mut vm = Forth::new();
    vm.refill(b"  FOO BAR\n");
    assert_eq!(vm.word(), Ok(Some(3)));
    assert_eq!(token(&vm, 3), b"FOO");
    assert_eq!(vm.word(), Ok(Some(3)));
    assert_eq!(token(&vm, 3), b"BAR");
    assert_eq!(vm.word(), Ok(None));
}

#[test]
fn word_consumes_the_byte_that_ends_the_token() {
    let mut vm = Forth::new();
    vm.refill(b"AB CD");
    assert_eq!(vm.word(), Ok(Some(2)));
    assert_eq!(vm.key(), Some(b'C'));
}

#[test]
fn every_byte_up_to_the_space_is_white_space() {
    let mut vm = Forth::new();
    vm.refill(b"\t\r\x00\x1fX!\x01");
    assert_eq!(vm.word(), Ok(Some(2)));
    assert_eq!(token(&vm, 2), b"X!");
}

#[test]
fn bytes_above_the_space_belong_to_tokens() {
    let mut vm = Forth::new();
    vm.refill(&[b'!', 0x7f, 0xff, b' ']);
    assert_eq!(vm.word(), Ok(Some(3)));
    assert_eq!(token(&vm, 3), &[b'!', 0x7f, 0xff]);
}

#[test]
fn word_skips_comments() {
    let mut vm = Forth::new();
    vm.refill(b"\\ nothing to see\n  X \\ more\\\nY ");
    assert_eq!(vm.word(), Ok(Some(1)));
    assert_eq!(token(&vm, 1), b"X");
    assert_eq!(vm.word(), Ok(Some(1)));
    assert_eq!(token(&vm, 1), b"Y");
}

#[test]
fn a_backslash_inside_a_token_starts_no_comment() {
    let mut vm = Forth::new();
    vm.refill(b"A\\B C");
    assert_eq!(vm.word(), Ok(Some(3)));
    assert_eq!(token(&vm, 3), b"A\\B");
}

#[test]
fn word_goes_on_with_a_token_after_a_refill() {
    let mut vm = Forth::new();
    vm.refill(b" HEL");
    assert_eq!(vm.word(), Ok(None));
    assert_eq!(vm.refill(b"LO WORLD"), 8);
    assert_eq!(vm.word(), Ok(Some(5)));
    assert_eq!(token(&vm, 5), b"HELLO");
    assert_eq!(vm.word(), Ok(None));
    vm.refill(b"\n");
    assert_eq!(vm.word(), Ok(Some(5)));
    assert_eq!(token(&vm, 5), b"WORLD");
}

#[test]
fn word_goes_on_with_a_comment_after_a_refill() {
    let mut vm = Forth::new();
    vm.refill(b"\\ half a");
    assert_eq!(vm.word(), Ok(None));
    vm.refill(b" comment\nX ");
    assert_eq!(vm.word(), Ok(Some(1)));
    assert_eq!(token(&vm, 1), b"X");
}

#[test]
fn the_word_buffer_is_overwritten_by_the_next_token() {
    let mut vm = Forth::new();
    vm.refill(b"LONGER AB ");
    assert_eq!(vm.word(), Ok(Some(6)));
    assert_eq!(vm.word(), Ok(Some(2)));
    assert_eq!(token(&vm, 6), b"ABNGER");
}

#[test]
fn a_token_that_runs_past_memory_is_a_fault() {
    let mut vm = Forth::new();
    let chunk = vec![b'A'; 4096];
    let mut outcome = Ok(None);
    for _ in 0..64 {
        assert_eq!(vm.refill(&chunk), 4096);
        outcome = vm.word();
        if outcome != Ok(None) {
            break;
        }
    }
    assert_eq!(outcome, Err(Fault::OutOfBounds));
    assert_eq!(vm.memory()[0x3ffff], b'A');
}
