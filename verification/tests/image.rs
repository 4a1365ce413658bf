//! The machine as it starts: registers, system variables and the bootstrap
//! dictionary.

use jansforth::fault::Fault;
use jansforth::machine::Forth;

const WORD_BUFFER: usize = 0x5014;

/// The header that `find` returns for `name` on `vm`.
fn lookup(vm: &mut Forth, name: &str) -> i32 {
    assert_eq!(vm.refill(format!("{} ", name).as_bytes()), name.len() + 1);
    assert_eq!(vm.word(), Ok(Some(name.len() as i32)));
    vm.find(name.len() as i32, WORD_BUFFER).unwrap()
}

#[test]
fn memory_has_its_full_size() {
    let vm = Forth::new();
    assert_eq!(vm.memory().len(), 0x40000);
}

#[test]
fn registers_start_at_quit() {
    let vm = Forth::new();
    assert_eq!(vm.sp(), 0x0800);
    assert_eq!(vm.rsp(), 0x1000);
    assert_eq!(vm.cfa(), 5530);
    assert_eq!(vm.ip(), 0);
    assert!(!vm.fetch());
}

#[test]
fn system_variables_have_their_initial_values() {
    let vm = Forth::new();
    assert_eq!(vm.read_i32(0x1400), 0);
    assert_eq!(vm.read_i32(0x1401), 22236);
    assert_eq!(vm.read_i32(0x1402), 22216);
    assert_eq!(vm.read_i32(0x1403), 8192);
    assert_eq!(vm.read_i32(0x1404), 10);
}

#[test]
fn first_header_is_drop() {
    let vm = Forth::new();
    assert_eq!(vm.read_i32(5133), 0);
    assert_eq!(vm.read_i32(5134), 0x4f524404);
    assert_eq!(vm.read_i32(5135), 0x50);
    assert_eq!(vm.read_i32(5136), 1);
    assert_eq!(&vm.memory()[20536..20541], &[4, b'D', b'R', b'O', b'P']);
}

#[test]
fn quit_resets_the_return_stack_and_interprets_forever() {
    let vm = Forth::new();
    assert_eq!(vm.read_i32(5527), 4 * 5522);
    assert_eq!(&vm.memory()[22112..22117], &[4, b'Q', b'U', b'I', b'T']);
    assert_eq!(vm.read_i32(5530), 0);
    assert_eq!(vm.read_i32(5531), 4 * 5303);
    assert_eq!(vm.read_i32(5532), 4 * 5405);
    assert_eq!(vm.read_i32(5533), 4 * 5526);
    assert_eq!(vm.read_i32(5534), 4 * 5508);
    assert_eq!(vm.read_i32(5535), -8);
}

#[test]
fn image_digest() {
    let vm = Forth::new();
    let memory = vm.memory();
    let sum: u64 = memory.iter().map(|b| *b as u64).sum();
    let used = memory.iter().filter(|b| **b != 0).count();
    assert_eq!(sum, 67142);
    assert_eq!(used, 927);
    let mut weighted: u32 = 0;
    let mut folded: u32 = 0;
    for cell in 0..0x10000usize {
        let value = vm.read_i32(cell) as u32;
        weighted = weighted.wrapping_add(value.wrapping_mul(cell as u32));
        folded ^= value;
    }
    assert_eq!(weighted, 2597676559);
    assert_eq!(folded, 3570785833);
}

#[test]
fn nothing_outside_the_image_is_set() {
    let vm = Forth::new();
    let memory = vm.memory();
    assert!(memory[..4 * 5120].iter().all(|b| *b == 0));
    assert!(memory[4 * 5125..4 * 5133].iter().all(|b| *b == 0));
    assert!(memory[4 * 5559..].iter().all(|b| *b == 0));
}

#[test]
fn init_rodata_leaves_other_bytes_alone() {
    let mut memory = vec![0xAAu8; 0x40000];
    Forth::init_rodata(&mut memory);
    let fresh = Forth::new();
    assert_eq!(&memory[4 * 5120..4 * 5125], &fresh.memory()[4 * 5120..4 * 5125]);
    assert_eq!(&memory[4 * 5133..4 * 5559], &fresh.memory()[4 * 5133..4 * 5559]);
    assert!(memory[..4 * 5120].iter().all(|b| *b == 0xAA));
    assert!(memory[4 * 5125..4 * 5133].iter().all(|b| *b == 0xAA));
    assert!(memory[4 * 5559..].iter().all(|b| *b == 0xAA));
}

#[test]
fn every_primitive_is_in_the_dictionary_under_its_number() {
    let names = [
        "DROP", "SWAP", "DUP", "OVER", "ROT", "-ROT", "2DROP", "2DUP", "2SWAP", "?DUP", "1+",
        "1-", "4+", "4-", "+", "-", "*", "/MOD", "=", "<>", "<", ">", "<=", ">=", "0=", "0<>",
        "0<", "0>", "0<=", "0>=", "AND", "OR", "XOR", "INVERT", "EXIT", "LIT", "!", "@", "+!",
        "-!", "C!", "C@", "C@C!", "CMOVE", "STATE", "HERE", "LATEST", "S0", "BASE", "VERSION",
        "R0", "DOCOL", "F_IMMED", "F_HIDDEN", "F_LENMASK", "SYS_EXIT", "SYS_OPEN", "SYS_CLOSE",
        "SYS_READ", "SYS_WRITE", "SYS_CREAT", "SYS_BRK", "O_RDONLY", "O_WRONLY", "O_RDWR",
        "O_CREAT", "O_EXCL", "O_TRUNC", "O_APPEND", "O_NONBLOCK", ">R", "R>", "RSP@", "RSP!",
        "RDROP", "DSP@", "DSP!", "KEY", "EMIT", "WORD", "NUMBER", "FIND", ">CFA", "CREATE", ",",
        "[", "]", "IMMEDIATE", "HIDDEN", "'", "BRANCH", "0BRANCH", "LITSTRING", "TELL",
        "INTERPRET", "CHAR", "EXECUTE", "SYSCALL3", "SYSCALL2", "SYSCALL1",
    ];
    assert_eq!(names.len(), 100);
    let mut vm = Forth::new();
    for (index, name) in names.iter().enumerate() {
        let header = lookup(&mut vm, name);
        assert_ne!(header, 0, "{}", name);
        let code_field = vm.code_field_address(header).unwrap();
        assert_eq!(code_field % 4, 0);
        assert_eq!(vm.read_i32(code_field as usize / 4), index as i32 + 1, "{}", name);
    }
}

#[test]
fn colon_words_of_the_image_enter_their_bodies() {
    let mut vm = Forth::new();
    for name in [">DFA", "HIDE", ":", ";", "QUIT"] {
        let header = lookup(&mut vm, name);
        assert_ne!(header, 0, "{}", name);
        let code_field = vm.code_field_address(header).unwrap();
        assert_eq!(vm.read_i32(code_field as usize / 4), 0, "{}", name);
    }
}

#[test]
fn immediate_words_of_the_image() {
    let mut vm = Forth::new();
    let words = [("[", true), (";", true), ("IMMEDIATE", true), ("]", false), (":", false)];
    for (name, immediate) in words {
        let header = lookup(&mut vm, name);
        let flags = vm.read_byte(header as usize + 4);
        assert_eq!(flags & 0x80 != 0, immediate, "{}", name);
    }
}

#[test]
fn a_name_that_is_not_in_the_image_is_not_found() {
    let mut vm = Forth::new();
    assert_eq!(lookup(&mut vm, "NOPE"), 0);
    assert_eq!(lookup(&mut vm, "dup"), 0);
    assert_eq!(lookup(&mut vm, "DU"), 0);
    assert_eq!(lookup(&mut vm, "DUPP"), 0);
}

#[test]
fn the_dictionary_of_the_image_ends() {
    let vm = Forth::new();
    let mut header = vm.read_i32(0x1402);
    let mut count = 0;
    while header != 0 {
        count += 1;
        assert!(count <= 105);
        header = vm.read_i32(header as usize / 4);
    }
    assert_eq!(count, 105);
    assert_ne!(vm.find(200, WORD_BUFFER), Err(Fault::EndlessDictionary));
}
