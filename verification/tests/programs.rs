//! Whole programs, run from source text to output.

use jansforth::interpreter::Action;
use jansforth::machine::Forth;

/// Definitions that the programs below build on, in the machine's own
/// language: arithmetic helpers, control flow and number output.
const PRELUDE: &str = r#"
: / /MOD SWAP DROP ;
: '\n' 10 ;
: BL 32 ;
: CR '\n' EMIT ;
: SPACE BL EMIT ;
: NEGATE 0 SWAP - ;
: TRUE -1 ;
: FALSE 0 ;
: NOT 0= ;
: LITERAL IMMEDIATE ' LIT , , ;
: ':' [ CHAR : ] LITERAL ;
: ';' [ CHAR ; ] LITERAL ;
: '"' [ CHAR " ] LITERAL ;
: 'A' [ CHAR A ] LITERAL ;
: '0' [ CHAR 0 ] LITERAL ;
: '-' [ CHAR - ] LITERAL ;
: [COMPILE] IMMEDIATE WORD FIND >CFA , ;
: RECURSE IMMEDIATE LATEST @ >CFA , ;
: IF IMMEDIATE ' 0BRANCH , HERE @ 0 , ;
: THEN IMMEDIATE DUP HERE @ SWAP - SWAP ! ;
: ELSE IMMEDIATE ' BRANCH , HERE @ 0 , SWAP DUP HERE @ SWAP - SWAP ! ;
: BEGIN IMMEDIATE HERE @ ;
: AGAIN IMMEDIATE ' BRANCH , HERE @ - , ;
: WHILE IMMEDIATE ' 0BRANCH , HERE @ 0 , ;
: REPEAT IMMEDIATE ' BRANCH , SWAP HERE @ - , DUP HERE @ SWAP - SWAP ! ;
: NIP SWAP DROP ;
: PICK 1+ 4 * DSP@ + @ ;
: SPACES BEGIN DUP 0> WHILE SPACE 1- REPEAT DROP ;
: U. BASE @ /MOD ?DUP IF RECURSE THEN DUP 10 < IF '0' ELSE 10 - 'A' THEN + EMIT ;
: .S DSP@ BEGIN DUP S0 @ < WHILE DUP @ U. 4+ SPACE REPEAT DROP ;
: UWIDTH BASE @ / ?DUP IF RECURSE 1+ ELSE 1 THEN ;
: U.R SWAP DUP UWIDTH ROT SWAP - SPACES U. ;
: .R SWAP DUP 0< IF NEGATE 1 SWAP ROT 1- ELSE 0 SWAP ROT THEN SWAP DUP
  UWIDTH ROT SWAP - SPACES SWAP IF '-' EMIT THEN U. ;
: . 0 .R SPACE ;
: U. U. SPACE ;
: WITHIN -ROT OVER <= IF > IF TRUE ELSE FALSE THEN ELSE 2DROP FALSE THEN ;
: ALIGNED 3 + -4 AND ;
: ALIGN HERE @ ALIGNED HERE ! ;
: C, HERE @ C! 1 HERE +! ;
: S" IMMEDIATE STATE @ IF
  ' LITSTRING , HERE @ 0 , BEGIN KEY DUP '"' <> WHILE
  C, REPEAT DROP DUP HERE @ SWAP - 4- SWAP ! ALIGN ELSE
  HERE @ BEGIN KEY DUP '"' <> WHILE OVER C! 1+ REPEAT DROP HERE @ - HERE @ SWAP THEN ;
: ." IMMEDIATE STATE @ IF [COMPILE] S" ' TELL , ELSE BEGIN KEY DUP '"' = IF
  DROP EXIT THEN EMIT AGAIN THEN ;
: CELLS 4 * ;
: ID. 4+ DUP C@ F_LENMASK AND BEGIN DUP 0> WHILE SWAP 1+ DUP C@ EMIT SWAP 1- REPEAT
  2DROP ;
"#;

/// Runs `source` on a fresh machine until it wants input that is not there,
/// and returns what it wrote to the output and to the error stream.
fn run(source: &str) -> (Vec<u8>, Vec<u8>) {
    let mut vm = Forth::new();
    let input = source.as_bytes();
    let mut offset = 0;
    let mut output = Vec::new();
    let mut diagnostics = Vec::new();
    for _ in 0..20_000_000u64 {
        match vm.step() {
            Action::Continue => {}
            Action::NeedInput => {
                if offset == input.len() {
                    return (output, diagnostics);
                }
                offset += vm.refill(&input[offset..]);
            }
            Action::Output(bytes) => output.extend(bytes),
            Action::Diagnostic(bytes) => diagnostics.extend(bytes),
            Action::Syscall { number, .. } => panic!("unexpected system call {}", number),
            Action::Fault(fault) => panic!("fault: {:?}", fault),
        }
    }
    panic!("the program did not come to an end");
}

/// The output of `source`, with nothing on the error stream.
fn output_of(source: &str) -> String {
    let (output, diagnostics) = run(source);
    assert_eq!(String::from_utf8(diagnostics).unwrap(), "");
    String::from_utf8(output).unwrap()
}

/// The output of `source` run after the prelude.
fn output_with_prelude(source: &str) -> String {
    output_of(&format!("{} {}\n", PRELUDE, source))
}

#[test]
fn emit_writes_one_byte() {
    assert_eq!(output_of("65 EMIT\n"), "A");
}

#[test]
fn stack_below_the_top_is_left_alone() {
    assert_eq!(output_of("777 65 EMIT\n"), "A");
}

#[test]
fn arithmetic_feeds_emit() {
    assert_eq!(output_of("32 DUP + 1+ EMIT\n"), "A");
    assert_eq!(output_of("16 DUP 2DUP + + + 1+ EMIT\n"), "A");
    assert_eq!(output_of("8 DUP * 1+ EMIT\n"), "A");
}

#[test]
fn char_pushes_the_first_byte_of_the_next_token() {
    assert_eq!(output_of("CHAR A EMIT\n"), "A");
}

#[test]
fn colon_definition_runs_its_body() {
    assert_eq!(output_with_prelude(": FOO 1 2 + ; FOO ."), "3 ");
}

#[test]
fn comparisons_push_zero_or_all_bits() {
    assert_eq!(output_with_prelude("0 1 > . 1 0 > ."), "0 -1 ");
    assert_eq!(output_with_prelude("0 1 >= . 0 0 >= ."), "0 -1 ");
    assert_eq!(output_with_prelude("0 0<> . 1 0<> ."), "0 -1 ");
    assert_eq!(output_with_prelude("1 0<= . 0 0<= ."), "0 -1 ");
    assert_eq!(output_with_prelude("-1 0>= . 0 0>= ."), "0 -1 ");
}

#[test]
fn bitwise_primitives() {
    assert_eq!(output_with_prelude("0 0 OR . 0 -1 OR ."), "0 -1 ");
    assert_eq!(output_with_prelude("-1 -1 XOR . 0 -1 XOR ."), "0 -1 ");
    assert_eq!(output_with_prelude("-1 INVERT . 0 INVERT ."), "0 -1 ");
    assert_eq!(output_with_prelude("12 10 AND . 12 10 OR . 12 10 XOR ."), "8 14 6 ");
}

#[test]
fn equality_primitives() {
    assert_eq!(output_with_prelude("3 3 = . 3 4 = . 3 3 <> . 3 4 <> ."), "-1 0 0 -1 ");
    assert_eq!(output_with_prelude("3 4 < . 4 3 < . 3 3 <= . 4 3 <= ."), "-1 0 -1 0 ");
    assert_eq!(
        output_with_prelude("0 0= . 5 0= . -5 0< . 5 0< . 5 0> . 0 0> ."),
        "-1 0 -1 0 -1 0 "
    );
}

#[test]
fn sums_wrap_at_the_ends_of_the_range() {
    assert_eq!(output_with_prelude("2147483647 1+ -2147483648 = ."), "-1 ");
    assert_eq!(output_with_prelude("2147483647 1 + -2147483648 = ."), "-1 ");
    assert_eq!(output_with_prelude("-2147483648 1- 2147483647 = ."), "-1 ");
    assert_eq!(output_with_prelude("-2147483648 1 - ."), "2147483647 ");
    assert_eq!(output_with_prelude("65536 65536 * ."), "0 ");
    assert_eq!(output_with_prelude("65537 65537 * ."), "131073 ");
    assert_eq!(output_with_prelude("2147483647 4+ 2147483647 4- - ."), "8 ");
}

#[test]
fn division_rounds_toward_zero() {
    assert_eq!(output_with_prelude("7 2 /MOD . ."), "3 1 ");
    assert_eq!(output_with_prelude("-7 2 /MOD . ."), "-3 -1 ");
    assert_eq!(output_with_prelude("7 -2 /MOD . ."), "-3 1 ");
    assert_eq!(output_with_prelude("-7 -2 /MOD . ."), "3 -1 ");
    assert_eq!(output_with_prelude("6 3 /MOD . ."), "2 0 ");
    assert_eq!(output_with_prelude("0 5 /MOD . ."), "0 0 ");
    assert_eq!(output_with_prelude("-2147483648 -1 /MOD -2147483648 = . ."), "-1 0 ");
    assert_eq!(output_with_prelude("-2147483648 1 /MOD -2147483648 = . ."), "-1 0 ");
    assert_eq!(output_with_prelude("-2147483648 2 /MOD . ."), "-1073741824 0 ");
}

#[test]
fn stack_shuffles() {
    assert_eq!(output_with_prelude("3 4 5 .S"), "5 4 3 ");
    assert_eq!(output_with_prelude("1 2 3 4 2SWAP .S"), "2 1 4 3 ");
    assert_eq!(output_with_prelude("1 2 SWAP .S"), "1 2 ");
    assert_eq!(output_with_prelude("1 2 OVER .S"), "1 2 1 ");
    assert_eq!(output_with_prelude("1 2 3 ROT .S"), "1 3 2 ");
    assert_eq!(output_with_prelude("1 2 3 -ROT .S"), "2 1 3 ");
    assert_eq!(output_with_prelude("1 2 2DUP .S"), "2 1 2 1 ");
    assert_eq!(output_with_prelude("1 2 3 2DROP .S"), "1 ");
    assert_eq!(output_with_prelude("1 2 DROP .S"), "1 ");
    assert_eq!(output_with_prelude("7 ?DUP .S"), "7 7 ");
    assert_eq!(output_with_prelude("0 ?DUP .S"), "0 ");
}

#[test]
fn constants_of_the_dictionary_format() {
    assert_eq!(output_with_prelude("F_IMMED F_HIDDEN .S"), "32 128 ");
    assert_eq!(output_with_prelude("F_LENMASK ."), "31 ");
    assert_eq!(output_with_prelude("VERSION ."), "47 ");
    assert_eq!(output_with_prelude("DOCOL ."), "0 ");
}

#[test]
fn words_of_the_prelude() {
    assert_eq!(output_with_prelude("CR"), "\n");
    assert_eq!(output_with_prelude("LATEST @ ID."), "ID.");
    assert_eq!(output_with_prelude("3 4 5 WITHIN ."), "0 ");
    assert_eq!(output_with_prelude("4 3 5 WITHIN ."), "-1 ");
    assert_eq!(output_with_prelude("-123 . 456 ."), "-123 456 ");
    assert_eq!(output_with_prelude("255 16 BASE ! . 10 ."), "FF 10 ");
    assert_eq!(output_with_prelude("5 3 U.R"), "  5");
}

#[test]
fn strings() {
    assert_eq!(
        output_with_prelude(": GREET .\" hello, world\" ; GREET GREET"),
        "hello, worldhello, world"
    );
    assert_eq!(output_with_prelude(".\" now\""), "now");
    assert_eq!(output_with_prelude(": ODD S\" abc\" ; ODD . DROP ODD TELL"), "3 abc");
    assert_eq!(output_with_prelude(": FIVE S\" 12345\" 65 EMIT TELL 66 EMIT ; FIVE"), "A12345B");
}

#[test]
fn loops_and_branches() {
    assert_eq!(
        output_with_prelude(": COUNT 0 BEGIN DUP 5 < WHILE DUP . 1+ REPEAT DROP ; COUNT"),
        "0 1 2 3 4 "
    );
    assert_eq!(
        output_with_prelude(
            ": SIGN DUP 0< IF DROP 45 ELSE 0> IF 43 ELSE 48 THEN THEN EMIT ; -3 SIGN 0 SIGN 9 SIGN"
        ),
        "-0+"
    );
    assert_eq!(
        output_with_prelude(": FACT DUP 1 > IF DUP 1- RECURSE * THEN ; 10 FACT ."),
        "3628800 "
    );
}

#[test]
fn memory_primitives() {
    assert_eq!(output_with_prelude("1129535827 DSP@ 4 TELL"), "SYSC");
    assert_eq!(
        output_with_prelude("1129535827 DSP@ HERE @ 4 CMOVE HERE @ 4 TELL"),
        "SYSC"
    );
    assert_eq!(output_with_prelude("13622 DSP@ 2 NUMBER DROP EMIT"), "A");
    assert_eq!(
        output_with_prelude("7 HERE @ ! 5 HERE @ +! HERE @ @ . 2 HERE @ -! HERE @ @ ."),
        "12 10 "
    );
    assert_eq!(output_with_prelude("HERE @ 321 OVER C! C@ ."), "65 ");
    assert_eq!(
        output_with_prelude("66 HERE @ C! HERE @ 1+ HERE @ C@C! C@ EMIT HERE @ 1+ C@ EMIT"),
        "BB"
    );
}

#[test]
fn return_stack_primitives() {
    assert_eq!(output_with_prelude(": PARK >R 7 . R> . ; 64 PARK"), "7 64 ");
    assert_eq!(output_with_prelude(": PARK >R 7 . R> . ; 67 PARK"), "7 64 ");
    assert_eq!(output_with_prelude(": SKIP >R RDROP 7 . ; 64 SKIP"), "7 ");
    assert_eq!(output_with_prelude("RSP@ R0 = ."), "-1 ");
    assert_eq!(output_with_prelude("DSP@ S0 @ = . 5 DSP@ S0 @ 4- = ."), "-1 -1 ");
}

#[test]
fn a_word_found_by_name_can_be_executed() {
    assert_eq!(output_of(": SLOW WORD FIND >CFA EXECUTE ; 65 SLOW EMIT\n"), "A");
}

#[test]
fn a_word_built_from_create_and_comma_runs_like_its_body() {
    let build = ": BUILD WORD CREATE DOCOL , ' LIT , , ' EMIT , ' EXIT , ;";
    assert_eq!(output_of(&format!("{} 65 BUILD LETTER LETTER\n", build)), "A");
    let lookup = ": SLOW WORD FIND >CFA EXECUTE ;";
    assert_eq!(output_of(&format!("{} 65 BUILD LETTER {} SLOW LETTER\n", build, lookup)), "A");
    assert_eq!(output_of("65 EMIT\n"), "A");
}

#[test]
fn a_hidden_word_is_passed_over() {
    let (output, diagnostics) = run(": FOO 65 EMIT ; FOO HIDE FOO FOO\n");
    assert_eq!(output, b"A");
    assert_eq!(diagnostics, b"PARSE ERROR: FOO\n");
}

#[test]
fn a_name_can_be_used_again_after_its_word_was_hidden() {
    assert_eq!(output_of(": FOO 65 EMIT ; HIDE FOO : FOO 66 EMIT ; FOO\n"), "B");
    let twice = ": FOO 65 EMIT ; HIDE FOO : FOO 66 EMIT ;";
    assert_eq!(output_of(&format!(": SEEK WORD FIND ; {} SEEK FOO >CFA EXECUTE\n", twice)), "B");
    assert_eq!(
        output_of(": SEEK WORD FIND ; : FOO 65 EMIT ; HIDE FOO SEEK FOO 0= 49 + EMIT\n"),
        "0"
    );
}

#[test]
fn a_definition_does_not_see_itself() {
    assert_eq!(output_of(": EMIT 66 EMIT ; 65 EMIT\n"), "B");
    assert_eq!(output_with_prelude(": DUP DUP DUP ; 1 DUP .S"), "1 1 1 ");
}

#[test]
fn immediate_words_run_while_compiling() {
    assert_eq!(output_of(": NOW IMMEDIATE 65 EMIT ; : LATER NOW 66 EMIT ; LATER\n"), "AB");
    assert_eq!(output_of(": LATER [ 65 EMIT ] 66 EMIT ; LATER\n"), "AB");
}

#[test]
fn comments_are_skipped() {
    assert_eq!(output_of("65 \\ 66 EMIT\n EMIT\n"), "A");
}

#[test]
fn input_can_arrive_in_pieces() {
    let mut vm = Forth::new();
    let mut output = Vec::new();
    for piece in ["6", "5 EM", "IT 6", "6 EMIT", "\n"] {
        let mut offered = false;
        loop {
            match vm.step() {
                Action::Continue => {}
                Action::NeedInput if !offered => {
                    assert_eq!(vm.refill(piece.as_bytes()), piece.len());
                    offered = true;
                }
                Action::NeedInput => break,
                Action::Output(bytes) => output.extend(bytes),
                other => panic!("{:?}", other),
            }
        }
    }
    assert_eq!(output, b"AB");
}
