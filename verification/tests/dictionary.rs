//! The dictionary: search, code fields, and the primitives that extend it.

use jansforth::fault::Fault;
use jansforth::machine::Forth;

const WORD_BUFFER: usize = 0x5014;
const HERE_ADDR: usize = 0x1401;
const LATEST_ADDR: usize = 0x1402;
const FIRST_FREE: i32 = 22236;
const NEWEST: i32 = 22216;

/// Reads `name` into the word buffer of `vm`.
fn read_token(vm: &mut Forth, name: &str) {
    assert_eq!(vm.refill(format!("{} ", name).as_bytes()), name.len() + 1);
    assert_eq!(vm.word(), Ok(Some(name.len() as i32)));
}

/// The header that `find` returns for `name` on `vm`.
fn lookup(vm: &mut Forth, name: &str) -> i32 {
    read_token(vm, name);
    vm.find(name.len() as i32, WORD_BUFFER).unwrap()
}

#[test]
fn find_returns_the_header_of_the_word() {
    let mut vm = Forth::new();
    assert_eq!(lookup(&mut vm, "DROP"), 4 * 5133);
    assert_eq!(lookup(&mut vm, "DUP"), 4 * 5141);
    assert_eq!(lookup(&mut vm, "SYSCALL1"), NEWEST);
    assert_eq!(lookup(&mut vm, ";"), 4 * 5491);
}

#[test]
fn find_compares_length_and_bytes() {
    let mut vm = Forth::new();
    read_token(&mut vm, "DUPLICATE");
    assert_eq!(vm.find(3, WORD_BUFFER), Ok(4 * 5141));
    assert_eq!(vm.find(2, WORD_BUFFER), Ok(0));
    assert_eq!(vm.find(4, WORD_BUFFER), Ok(0));
    assert_eq!(vm.find(9, WORD_BUFFER), Ok(0));
    assert_eq!(vm.find(0, WORD_BUFFER), Ok(0));
    assert_eq!(vm.find(-1, WORD_BUFFER), Ok(0));
    assert_eq!(vm.find(259, WORD_BUFFER), Ok(0));
}

#[test]
fn find_reads_the_name_wherever_it_stands() {
    let mut vm = Forth::new();
    for (k, byte) in b"SWAP".iter().enumerate() {
        vm.write_byte(0x9001 + k, *byte);
    }
    assert_eq!(vm.find(4, 0x9001), Ok(4 * 5137));
    assert_eq!(vm.find(4, 4 * 5137 + 5), Ok(4 * 5137));
}

#[test]
fn a_name_outside_memory_is_a_fault_once_a_length_matches() {
    let vm = Forth::new();
    assert_eq!(vm.find(4, 0x40000 - 3), Err(Fault::OutOfBounds));
    assert_eq!(vm.find(4, 0x40000 - 4), Ok(0));
    assert_eq!(vm.find(40, 0x40000), Ok(0));
}

#[test]
fn find_gives_up_on_a_chain_that_runs_in_a_circle() {
    let mut vm = Forth::new();
    vm.write_i32(0x2000, 0x8000);
    vm.write_i32(LATEST_ADDR, 0x8000);
    assert_eq!(vm.find(1, WORD_BUFFER), Err(Fault::EndlessDictionary));
    assert_eq!(vm.find(0, WORD_BUFFER), Ok(0x8000));
}

#[test]
fn a_link_that_leaves_memory_is_a_fault() {
    let mut vm = Forth::new();
    vm.write_i32(LATEST_ADDR, 0x40000 - 4);
    assert_eq!(vm.find(1, WORD_BUFFER), Err(Fault::OutOfBounds));
    vm.write_i32(LATEST_ADDR, -8);
    assert_eq!(vm.find(1, WORD_BUFFER), Err(Fault::OutOfBounds));
    vm.write_i32(LATEST_ADDR, 0);
    assert_eq!(vm.find(1, WORD_BUFFER), Ok(0));
}

#[test]
fn code_field_follows_the_padded_name() {
    let vm = Forth::new();
    // DROP: link, then 1 + 4 bytes, padded to 8.
    assert_eq!(vm.code_field_address(4 * 5133), Ok(4 * 5136));
    // DUP: link, then 1 + 3 bytes.
    assert_eq!(vm.code_field_address(4 * 5141), Ok(4 * 5143));
    // IMMEDIATE: the immediate flag is no part of the length.
    assert_eq!(vm.code_field_address(4 * 5461), Ok(4 * 5465));
    // O_NONBLOCK: 1 + 10 bytes, padded to 12.
    assert_eq!(vm.code_field_address(4 * 5387), Ok(4 * 5391));
}

#[test]
fn code_field_of_any_address() {
    let mut vm = Forth::new();
    assert_eq!(vm.code_field_address(0), Ok(8));
    assert_eq!(vm.code_field_address(-4), Ok(4));
    assert_eq!(vm.code_field_address(-5), Err(Fault::OutOfBounds));
    assert_eq!(vm.code_field_address(0x40000 - 5), Ok(0x40000));
    assert_eq!(vm.code_field_address(0x40000 - 4), Err(Fault::OutOfBounds));
    assert_eq!(vm.code_field_address(i32::MAX), Err(Fault::OutOfBounds));
    assert_eq!(vm.code_field_address(i32::MIN), Err(Fault::OutOfBounds));
    vm.write_byte(0x8004, 0xff);
    assert_eq!(vm.code_field_address(0x8000), Ok(0x8000 + 8 + 28));
    vm.write_byte(0x8004, 0x20 | 3);
    assert_eq!(vm.code_field_address(0x8000), Ok(0x8008));
    vm.write_byte(0x8005, 1);
    assert_eq!(vm.code_field_address(0x8001), Ok(0x8008));
    vm.write_byte(0x8005, 3);
    assert_eq!(vm.code_field_address(0x8001), Ok(0x800c));
}

#[test]
fn create_appends_a_header() {
    let mut vm = Forth::new();
    read_token(&mut vm, "FOO");
    assert_eq!(vm.create(3, WORD_BUFFER as i32), Ok(()));
    assert_eq!(vm.read_i32(LATEST_ADDR), FIRST_FREE);
    assert_eq!(vm.read_i32(HERE_ADDR), FIRST_FREE + 8);
    assert_eq!(vm.read_i32(FIRST_FREE as usize / 4), NEWEST);
    let header = FIRST_FREE as usize;
    assert_eq!(&vm.memory()[header + 4..header + 8], &[3, b'F', b'O', b'O']);
    assert_eq!(vm.find(3, WORD_BUFFER), Ok(FIRST_FREE));
    assert_eq!(vm.code_field_address(FIRST_FREE), Ok(FIRST_FREE + 8));
}

#[test]
fn create_pads_the_name_to_a_cell() {
    let mut vm = Forth::new();
    read_token(&mut vm, "HELLO");
    assert_eq!(vm.create(5, WORD_BUFFER as i32), Ok(()));
    assert_eq!(vm.read_i32(HERE_ADDR), FIRST_FREE + 12);
    read_token(&mut vm, "ABCDEFG");
    assert_eq!(vm.create(7, WORD_BUFFER as i32), Ok(()));
    assert_eq!(vm.read_i32(LATEST_ADDR), FIRST_FREE + 12);
    assert_eq!(vm.read_i32((FIRST_FREE as usize + 12) / 4), FIRST_FREE);
    assert_eq!(vm.read_i32(HERE_ADDR), FIRST_FREE + 24);
    assert_eq!(lookup(&mut vm, "HELLO"), FIRST_FREE);
    assert_eq!(lookup(&mut vm, "ABCDEFG"), FIRST_FREE + 12);
}

#[test]
fn create_with_an_empty_name() {
    let mut vm = Forth::new();
    assert_eq!(vm.create(0, 0), Ok(()));
    assert_eq!(vm.read_i32(HERE_ADDR), FIRST_FREE + 8);
    assert_eq!(vm.find(0, 0), Ok(FIRST_FREE));
}

#[test]
fn create_leaves_the_code_field_as_it_was() {
    let mut vm = Forth::new();
    vm.write_i32(FIRST_FREE as usize / 4 + 2, 0x1234567);
    read_token(&mut vm, "FOO");
    assert_eq!(vm.create(3, WORD_BUFFER as i32), Ok(()));
    assert_eq!(vm.read_i32(FIRST_FREE as usize / 4 + 2), 0x1234567);
}

#[test]
fn create_copies_a_name_that_overlaps_its_place() {
    let mut vm = Forth::new();
    for (k, byte) in b"ABCDEF".iter().enumerate() {
        vm.write_byte(FIRST_FREE as usize + 7 + k, *byte);
    }
    assert_eq!(vm.create(6, FIRST_FREE + 7), Ok(()));
    assert_eq!(&vm.memory()[FIRST_FREE as usize + 5..FIRST_FREE as usize + 11], b"ABCDEF");
}

#[test]
fn create_that_does_not_fit_changes_nothing() {
    let mut vm = Forth::new();
    let before = vm.memory().to_vec();
    assert_eq!(vm.create(-1, WORD_BUFFER as i32), Err(Fault::OutOfBounds));
    assert_eq!(vm.create(3, -1), Err(Fault::OutOfBounds));
    assert_eq!(vm.create(3, 0x40000 - 2), Err(Fault::OutOfBounds));
    assert_eq!(vm.create(0x40000, 0), Err(Fault::OutOfBounds));
    assert_eq!(vm.create(i32::MAX, i32::MAX), Err(Fault::OutOfBounds));
    assert_eq!(vm.memory(), &before[..]);
    vm.write_i32(HERE_ADDR, -4);
    assert_eq!(vm.create(3, WORD_BUFFER as i32), Err(Fault::OutOfBounds));
    vm.write_i32(HERE_ADDR, 0x40000 - 7);
    assert_eq!(vm.create(3, WORD_BUFFER as i32), Err(Fault::OutOfBounds));
    vm.write_i32(HERE_ADDR, 0x40000 - 8);
    assert_eq!(vm.create(3, WORD_BUFFER as i32), Ok(()));
    assert_eq!(vm.read_i32(HERE_ADDR), 0x40000);
}

#[test]
fn a_long_name_keeps_its_low_bits_as_length() {
    let mut vm = Forth::new();
    let name = [b'N'; 300];
    for (k, byte) in name.iter().enumerate() {
        vm.write_byte(0x9000 + k, *byte);
    }
    // 40 bytes: the search takes 40 for the length, the code field 8.
    assert_eq!(vm.create(40, 0x9000), Ok(()));
    assert_eq!(vm.memory()[FIRST_FREE as usize + 4], 40);
    assert_eq!(vm.find(40, 0x9000), Ok(FIRST_FREE));
    assert_eq!(vm.find(8, 0x9000), Ok(0));
    assert_eq!(vm.read_i32(HERE_ADDR), FIRST_FREE + 16);
    // 300 bytes: the flags byte holds 300 - 256 = 44.
    vm.write_i32(HERE_ADDR, 0x10000);
    assert_eq!(vm.create(300, 0x9000), Ok(()));
    assert_eq!(vm.memory()[0x10004], 44);
    assert_eq!(vm.memory()[0x10005 + 299], b'N');
    assert_eq!(vm.read_i32(HERE_ADDR), 0x10000 + 20);
    assert_eq!(vm.find(300, 0x9000), Ok(0));
    assert_eq!(vm.find(44, 0x9000), Ok(0x10000));
}

#[test]
fn comma_appends_a_cell() {
    let mut vm = Forth::new();
    assert_eq!(vm.comma(42), Ok(()));
    assert_eq!(vm.read_i32(FIRST_FREE as usize / 4), 42);
    assert_eq!(vm.read_i32(HERE_ADDR), FIRST_FREE + 4);
    assert_eq!(vm.comma(-1), Ok(()));
    assert_eq!(vm.read_i32(FIRST_FREE as usize / 4 + 1), -1);
    assert_eq!(vm.read_i32(HERE_ADDR), FIRST_FREE + 8);
}

#[test]
fn comma_rounds_here_down_to_its_cell() {
    let mut vm = Forth::new();
    vm.write_i32(HERE_ADDR, 0x8003);
    assert_eq!(vm.comma(7), Ok(()));
    assert_eq!(vm.read_i32(0x2000), 7);
    assert_eq!(vm.read_i32(HERE_ADDR), 0x8007);
}

#[test]
fn comma_outside_memory_changes_nothing() {
    let mut vm = Forth::new();
    vm.write_i32(HERE_ADDR, 0x40000);
    let before = vm.memory().to_vec();
    assert_eq!(vm.comma(7), Err(Fault::OutOfBounds));
    assert_eq!(vm.memory(), &before[..]);
    vm.write_i32(HERE_ADDR, -1);
    assert_eq!(vm.comma(7), Err(Fault::OutOfBounds));
    vm.write_i32(HERE_ADDR, 0x40000 - 1);
    assert_eq!(vm.comma(7), Ok(()));
    assert_eq!(vm.read_i32(0xffff), 7);
    assert_eq!(vm.read_i32(HERE_ADDR), 0x40003);
}

#[test]
fn a_new_word_shadows_an_old_one_of_its_name() {
    let mut vm = Forth::new();
    read_token(&mut vm, "DUP");
    assert_eq!(vm.find(3, WORD_BUFFER), Ok(4 * 5141));
    assert_eq!(vm.create(3, WORD_BUFFER as i32), Ok(()));
    assert_eq!(vm.find(3, WORD_BUFFER), Ok(FIRST_FREE));
    assert_eq!(vm.read_i32(FIRST_FREE as usize / 4), NEWEST);
}

#[test]
fn a_hidden_word_answers_to_a_longer_token_only() {
    let mut vm = Forth::new();
    read_token(&mut vm, "FOO");
    assert_eq!(vm.create(3, WORD_BUFFER as i32), Ok(()));
    let flags = vm.read_byte(FIRST_FREE as usize + 4);
    vm.write_byte(FIRST_FREE as usize + 4, flags ^ 0x20);
    assert_eq!(vm.find(3, WORD_BUFFER), Ok(0));
    assert_eq!(vm.find(35, FIRST_FREE as usize + 5), Ok(FIRST_FREE));
    assert_eq!(vm.code_field_address(FIRST_FREE), Ok(FIRST_FREE + 8));
    // A second word of the name is found; the hidden one stays passed over.
    assert_eq!(vm.create(3, WORD_BUFFER as i32), Ok(()));
    assert_eq!(vm.find(3, WORD_BUFFER), Ok(FIRST_FREE + 8));
    // Shown again, the first word is shadowed by the second.
    vm.write_byte(FIRST_FREE as usize + 4, flags);
    assert_eq!(vm.find(3, WORD_BUFFER), Ok(FIRST_FREE + 8));
}
