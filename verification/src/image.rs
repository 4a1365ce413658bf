//! The bootstrap image: the system variables and the first dictionary, as the
//! cells that linear memory holds before the machine runs.
//!
//! The dictionary is a chain of 105 word headers. A header starts with a link
//! to the header before it (a byte address, zero in the first), then a byte of
//! flags and name length, the name, and padding up to the next cell. The cell
//! after that is the code field: the number of a primitive, or zero for a word
//! whose body of code-field addresses follows.

use vstd::prelude::*;
use crate::dictionary::latest;
use crate::lookup::is_dictionary;
use crate::memory::{
    cell_at, lemma_store_cell_bytes, lemma_store_cell_other, lemma_store_cell_same, put_cell,
    CELL_COUNT, LATEST_ADDR, MEMORY_SIZE,
};
use crate::machine::Forth;

verus! {

/// First cell of the system variables, in the order `STATE`, `HERE`, `LATEST`,
/// `S0`, `BASE`.
pub const SYSTEM_CELL: usize = 5120;

/// First cell of the bootstrap dictionary.
pub const DICTIONARY_CELL: usize = 5133;

/// First free cell after the bootstrap dictionary.
pub const DICTIONARY_END: usize = 5559;

/// Cell index of the code field of `QUIT`, where execution starts.
pub const QUIT_CODE_FIELD: usize = 5530;

/// Byte address of the code field of `LIT`, compiled in front of a literal.
pub const LIT_CODE_FIELD: i32 = 4 * 5251;

/// Initial values of the system variables: executing, `HERE` after the last
/// word, `LATEST` at the header of `SYSCALL1`, the data stack base, radix ten.
pub const SYSTEM_IMAGE: [i32; 5] = [0, 4 * 5559, 4 * 5554, 4 * 2048, 10];

/// The bootstrap dictionary, cell by cell from `DICTIONARY_CELL`. Each group
/// is one word, headed by the cell index of its header and its name.
pub const DICTIONARY_IMAGE: [i32; 426] = [
    // 5133  DROP
    0, 0x4f524404, 0x00000050, 1,
    // 5137  SWAP
    4 * 5133, 0x41575304, 0x00000050, 2,
    // 5141  DUP
    4 * 5137, 0x50554403, 3,
    // 5144  OVER
    4 * 5141, 0x45564f04, 0x00000052, 4,
    // 5148  ROT
    4 * 5144, 0x544f5203, 5,
    // 5151  -ROT
    4 * 5148, 0x4f522d04, 0x00000054, 6,
    // 5155  2DROP
    4 * 5151, 0x52443205, 0x0000504f, 7,
    // 5159  2DUP
    4 * 5155, 0x55443204, 0x00000050, 8,
    // 5163  2SWAP
    4 * 5159, 0x57533205, 0x00005041, 9,
    // 5167  ?DUP
    4 * 5163, 0x55443f04, 0x00000050, 10,
    // 5171  1+
    4 * 5167, 0x002b3102, 11,
    // 5174  1-
    4 * 5171, 0x002d3102, 12,
    // 5177  4+
    4 * 5174, 0x002b3402, 13,
    // 5180  4-
    4 * 5177, 0x002d3402, 14,
    // 5183  +
    4 * 5180, 0x00002b01, 15,
    // 5186  -
    4 * 5183, 0x00002d01, 16,
    // 5189  *
    4 * 5186, 0x00002a01, 17,
    // 5192  /MOD
    4 * 5189, 0x4f4d2f04, 0x00000044, 18,
    // 5196  =
    4 * 5192, 0x00003d01, 19,
    // 5199  <>
    4 * 5196, 0x003e3c02, 20,
    // 5202  <
    4 * 5199, 0x00003c01, 21,
    // 5205  >
    4 * 5202, 0x00003e01, 22,
    // 5208  <=
    4 * 5205, 0x003d3c02, 23,
    // 5211  >=
    4 * 5208, 0x003d3e02, 24,
    // 5214  0=
    4 * 5211, 0x003d3002, 25,
    // 5217  0<>
    4 * 5214, 0x3e3c3003, 26,
    // 5220  0<
    4 * 5217, 0x003c3002, 27,
    // 5223  0>
    4 * 5220, 0x003e3002, 28,
    // 5226  0<=
    4 * 5223, 0x3d3c3003, 29,
    // 5229  0>=
    4 * 5226, 0x3d3e3003, 30,
    // 5232  AND
    4 * 5229, 0x444e4103, 31,
    // 5235  OR
    4 * 5232, 0x00524f02, 32,
    // 5238  XOR
    4 * 5235, 0x524f5803, 33,
    // 5241  INVERT
    4 * 5238, 0x564e4906, 0x00545245, 34,
    // 5245  EXIT
    4 * 5241, 0x49584504, 0x00000054, 35,
    // 5249  LIT
    4 * 5245, 0x54494c03, 36,
    // 5252  !
    4 * 5249, 0x00002101, 37,
    // 5255  @
    4 * 5252, 0x00004001, 38,
    // 5258  +!
    4 * 5255, 0x00212b02, 39,
    // 5261  -!
    4 * 5258, 0x00212d02, 40,
    // 5264  C!
    4 * 5261, 0x00214302, 41,
    // 5267  C@
    4 * 5264, 0x00404302, 42,
    // 5270  C@C!
    4 * 5267, 0x43404304, 0x00000021, 43,
    // 5274  CMOVE
    4 * 5270, 0x4f4d4305, 0x00004556, 44,
    // 5278  STATE
    4 * 5274, 0x41545305, 0x00004554, 45,
    // 5282  HERE
    4 * 5278, 0x52454804, 0x00000045, 46,
    // 5286  LATEST
    4 * 5282, 0x54414c06, 0x00545345, 47,
    // 5290  S0
    4 * 5286, 0x00305302, 48,
    // 5293  BASE
    4 * 5290, 0x53414204, 0x00000045, 49,
    // 5297  VERSION
    4 * 5293, 0x52455607, 0x4e4f4953, 50,
    // 5301  R0
    4 * 5297, 0x00305202, 51,
    // 5304  DOCOL
    4 * 5301, 0x434f4405, 0x00004c4f, 52,
    // 5308  F_IMMED
    4 * 5304, 0x495f4607, 0x44454d4d, 53,
    // 5312  F_HIDDEN
    4 * 5308, 0x485f4608, 0x45444449, 0x0000004e, 54,
    // 5317  F_LENMASK
    4 * 5312, 0x4c5f4609, 0x414d4e45, 0x00004b53, 55,
    // 5322  SYS_EXIT
    4 * 5317, 0x53595308, 0x4958455f, 0x00000054, 56,
    // 5327  SYS_OPEN
    4 * 5322, 0x53595308, 0x45504f5f, 0x0000004e, 57,
    // 5332  SYS_CLOSE
    4 * 5327, 0x53595309, 0x4f4c435f, 0x00004553, 58,
    // 5337  SYS_READ
    4 * 5332, 0x53595308, 0x4145525f, 0x00000044, 59,
    // 5342  SYS_WRITE
    4 * 5337, 0x53595309, 0x4952575f, 0x00004554, 60,
    // 5347  SYS_CREAT
    4 * 5342, 0x53595309, 0x4552435f, 0x00005441, 61,
    // 5352  SYS_BRK
    4 * 5347, 0x53595307, 0x4b52425f, 62,
    // 5356  O_RDONLY
    4 * 5352, 0x525f4f08, 0x4c4e4f44, 0x00000059, 63,
    // 5361  O_WRONLY
    4 * 5356, 0x575f4f08, 0x4c4e4f52, 0x00000059, 64,
    // 5366  O_RDWR
    4 * 5361, 0x525f4f06, 0x00525744, 65,
    // 5370  O_CREAT
    4 * 5366, 0x435f4f07, 0x54414552, 66,
    // 5374  O_EXCL
    4 * 5370, 0x455f4f06, 0x004c4358, 67,
    // 5378  O_TRUNC
    4 * 5374, 0x545f4f07, 0x434e5552, 68,
    // 5382  O_APPEND
    4 * 5378, 0x415f4f08, 0x4e455050, 0x00000044, 69,
    // 5387  O_NONBLOCK
    4 * 5382, 0x4e5f4f0a, 0x4c424e4f, 0x004b434f, 70,
    // 5392  >R
    4 * 5387, 0x00523e02, 71,
    // 5395  R>
    4 * 5392, 0x003e5202, 72,
    // 5398  RSP@
    4 * 5395, 0x50535204, 0x00000040, 73,
    // 5402  RSP!
    4 * 5398, 0x50535204, 0x00000021, 74,
    // 5406  RDROP
    4 * 5402, 0x52445205, 0x0000504f, 75,
    // 5410  DSP@
    4 * 5406, 0x50534404, 0x00000040, 76,
    // 5414  DSP!
    4 * 5410, 0x50534404, 0x00000021, 77,
    // 5418  KEY
    4 * 5414, 0x59454b03, 78,
    // 5421  EMIT
    4 * 5418, 0x494d4504, 0x00000054, 79,
    // 5425  WORD
    4 * 5421, 0x524f5704, 0x00000044, 80,
    // 5429  NUMBER
    4 * 5425, 0x4d554e06, 0x00524542, 81,
    // 5433  FIND
    4 * 5429, 0x4e494604, 0x00000044, 82,
    // 5437  >CFA
    4 * 5433, 0x46433e04, 0x00000041, 83,
    // 5441  >DFA  =  >CFA 4+ EXIT
    4 * 5437, 0x46443e04, 0x00000041, 0, 4 * 5440, 4 * 5179, 4 * 5248,
    // 5448  CREATE
    4 * 5441, 0x45524306, 0x00455441, 84,
    // 5452  ,
    4 * 5448, 0x00002c01, 85,
    // 5455  [  (immediate)
    4 * 5452, 0x00005b81, 86,
    // 5458  ]
    4 * 5455, 0x00005d01, 87,
    // 5461  IMMEDIATE  (immediate)
    4 * 5458, 0x4d4d4989, 0x41494445, 0x00004554, 88,
    // 5466  HIDDEN
    4 * 5461, 0x44494806, 0x004e4544, 89,
    // 5470  HIDE  =  WORD FIND HIDDEN EXIT
    4 * 5466, 0x44494804, 0x00000045, 0, 4 * 5428, 4 * 5436, 4 * 5469, 4 * 5248,
    // 5478  :  =  WORD CREATE LIT 0 , LATEST @ HIDDEN ] EXIT
    4 * 5470, 0x00003a01, 0, 4 * 5428, 4 * 5451, 4 * 5251, 0, 4 * 5454, 4 * 5289, 4 * 5257,
    4 * 5469, 4 * 5460, 4 * 5248,
    // 5491  ;  (immediate)  =  LIT EXIT , LATEST @ HIDDEN [ EXIT
    4 * 5478, 0x00003b81, 0, 4 * 5251, 4 * 5248, 4 * 5454, 4 * 5289, 4 * 5257, 4 * 5469, 4 * 5457,
    4 * 5248,
    // 5502  '
    4 * 5491, 0x00002701, 90,
    // 5505  BRANCH
    4 * 5502, 0x41524206, 0x0048434e, 91,
    // 5509  0BRANCH
    4 * 5505, 0x52423007, 0x48434e41, 92,
    // 5513  LITSTRING
    4 * 5509, 0x54494c09, 0x49525453, 0x0000474e, 93,
    // 5518  TELL
    4 * 5513, 0x4c455404, 0x0000004c, 94,
    // 5522  INTERPRET
    4 * 5518, 0x544e4909, 0x52505245, 0x00005445, 95,
    // 5527  QUIT  =  R0 RSP! INTERPRET BRANCH -8
    4 * 5522, 0x49555104, 0x00000054, 0, 4 * 5303, 4 * 5405, 4 * 5526, 4 * 5508, -8,
    // 5536  CHAR
    4 * 5527, 0x41484304, 0x00000052, 96,
    // 5540  EXECUTE
    4 * 5536, 0x45584507, 0x45545543, 97,
    // 5544  SYSCALL3
    4 * 5540, 0x53595308, 0x4c4c4143, 0x00000033, 98,
    // 5549  SYSCALL2
    4 * 5544, 0x53595308, 0x4c4c4143, 0x00000032, 99,
    // 5554  SYSCALL1
    4 * 5549, 0x53595308, 0x4c4c4143, 0x00000031, 100,
];

/// Whether the byte at `address` belongs to a cell that the image fills.
pub open spec fn in_image(address: int) -> bool {
    ||| 4 * SYSTEM_CELL <= address < 4 * (SYSTEM_CELL + 5)
    ||| 4 * DICTIONARY_CELL <= address < 4 * DICTIONARY_END
}

/// The initial values of the system variables, as a sequence.
#[verifier::opaque]
pub open spec fn system_image() -> Seq<i32> {
    SYSTEM_IMAGE@
}

/// The bootstrap dictionary, as a sequence of cell values.
#[verifier::opaque]
pub open spec fn dictionary_image() -> Seq<i32> {
    DICTIONARY_IMAGE@
}

/// Whether `mem` holds the bootstrap image in its place.
pub open spec fn holds_image(mem: Seq<u8>) -> bool {
    &&& forall|k: int|
        0 <= k < 5 ==> cell_at(mem, SYSTEM_CELL + k) == #[trigger] system_image()[k]
    &&& forall|k: int|
        0 <= k < 426 ==> cell_at(mem, DICTIONARY_CELL + k) == #[trigger] dictionary_image()[k]
}

fn system_cells() -> (cells: [i32; 5])
    ensures
        cells@ == system_image(),
{
    reveal(system_image);
    SYSTEM_IMAGE
}

fn dictionary_cells() -> (cells: [i32; 426])
    ensures
        cells@ == dictionary_image(),
{
    reveal(dictionary_image);
    DICTIONARY_IMAGE
}

/// Stores `values` in consecutive cells from `first` on.
fn store_cells<const N: usize>(memory: &mut [u8], first: usize, values: &[i32; N])
    requires
        first + N <= CELL_COUNT,
        4 * (first + N) <= old(memory)@.len(),
    ensures
        final(memory)@.len() == old(memory)@.len(),
        forall|k: int| 0 <= k < N ==> cell_at(final(memory)@, first + k) == #[trigger] values@[k],
        forall|a: int|
            0 <= a < old(memory)@.len() && !(4 * first <= a < 4 * (first + N))
                ==> final(memory)@[a] == old(memory)@[a],
{
    let mut k: usize = 0;
    while k < N
        invariant
            k <= N,
            first + N <= CELL_COUNT,
            4 * (first + N) <= memory@.len(),
            memory@.len() == old(memory)@.len(),
            forall|j: int| 0 <= j < k ==> cell_at(memory@, first + j) == #[trigger] values@[j],
            forall|a: int|
                0 <= a < memory@.len() && !(4 * first <= a < 4 * (first + k)) ==> memory@[a]
                    == old(memory)@[a],
        decreases N - k,
    {
        let ghost before = memory@;
        put_cell(memory, first + k, values[k]);
        proof {
            lemma_store_cell_same(before, first + k, values@[k as int]);
            assert forall|j: int| 0 <= j < k implies cell_at(memory@, first + j) == values@[j] by {
                lemma_store_cell_other(before, first + k, values@[k as int], first + j);
            }
            assert forall|a: int|
                0 <= a < memory@.len() && !(4 * first <= a < 4 * (first + k + 1)) implies memory@[a]
                == old(memory)@[a] by {
                lemma_store_cell_bytes(before, first + k, values@[k as int], a);
            }
        }
        k += 1;
    }
}

/// Number of words in the bootstrap dictionary.
pub const BOOT_WORDS: usize = 105;

/// Byte address of the header of `SYSCALL1`, the newest word of the image.
pub const NEWEST_HEADER: i32 = 4 * 5554;

/// Byte address of the header of `O_NONBLOCK`, word 70 of the image.
const O_NONBLOCK_HEADER: i32 = 4 * 5387;

/// Byte address of the header of `EXIT`, word 35 of the image.
const EXIT_HEADER: i32 = 4 * 5245;

/// The cells of the dictionary image, as memory that holds the image has
/// them.
proof fn lemma_image_cells(mem: Seq<u8>)
    requires
        holds_image(mem),
    ensures
        forall|i: int|
            DICTIONARY_CELL <= i < DICTIONARY_END ==> #[trigger] cell_at(mem, i)
                == DICTIONARY_IMAGE@[i - DICTIONARY_CELL],
        cell_at(mem, LATEST_ADDR as int) == NEWEST_HEADER,
{
    reveal(dictionary_image);
    reveal(system_image);
    assert forall|i: int| DICTIONARY_CELL <= i < DICTIONARY_END implies #[trigger] cell_at(mem, i)
        == DICTIONARY_IMAGE@[i - DICTIONARY_CELL] by {
        assert(cell_at(mem, DICTIONARY_CELL + (i - DICTIONARY_CELL)) == dictionary_image()[i
            - DICTIONARY_CELL]);
    }
    assert(cell_at(mem, SYSTEM_CELL + 2) == system_image()[2]);
}

/// The length that the search reads from a flags byte is at most 63.
proof fn lemma_search_length()
    by (bit_vector)
    ensures
        forall|flags: u8| #[trigger] (flags & 0x3F) <= 63,
{
}

/// The 35 oldest words of the image, from `DROP` to `EXIT`, form a
/// dictionary. The links are followed 35 at a time, which is what the solver
/// manages in one go.
proof fn lemma_oldest_words(mem: Seq<u8>)
    requires
        mem.len() == MEMORY_SIZE,
        holds_image(mem),
    ensures
        is_dictionary(mem, EXIT_HEADER, 35),
{
    lemma_image_cells(mem);
    lemma_search_length();
    reveal_with_fuel(is_dictionary, 36);
}

/// The 70 oldest words of the image, from `DROP` to `O_NONBLOCK`, form a
/// dictionary.
proof fn lemma_older_words(mem: Seq<u8>)
    requires
        mem.len() == MEMORY_SIZE,
        holds_image(mem),
    ensures
        is_dictionary(mem, O_NONBLOCK_HEADER, 70),
{
    lemma_oldest_words(mem);
    lemma_image_cells(mem);
    lemma_search_length();
    reveal_with_fuel(is_dictionary, 36);
}

/// The bootstrap image holds a dictionary of `BOOT_WORDS` words, the newest
/// of which is `SYSCALL1`.
pub proof fn lemma_image_holds_a_dictionary(mem: Seq<u8>)
    requires
        mem.len() == MEMORY_SIZE,
        holds_image(mem),
    ensures
        latest(mem) == NEWEST_HEADER,
        is_dictionary(mem, latest(mem), BOOT_WORDS as nat),
{
    lemma_older_words(mem);
    lemma_image_cells(mem);
    lemma_search_length();
    reveal_with_fuel(is_dictionary, 36);
}

impl Forth {
    /// Writes the bootstrap image into `memory`, which is long enough to
    /// hold it, and leaves every other byte as it was.
    pub fn init_rodata(memory: &mut [u8])
        requires
            old(memory)@.len() >= 4 * DICTIONARY_END,
        ensures
            final(memory)@.len() == old(memory)@.len(),
            holds_image(final(memory)@),
            forall|a: int|
                0 <= a < old(memory)@.len() && !in_image(a)
                    ==> final(memory)@[a] == old(memory)@[a],
    {
        let system = system_cells();
        store_cells(memory, SYSTEM_CELL, &system);
        let ghost middle = memory@;
        let dictionary = dictionary_cells();
        store_cells(memory, DICTIONARY_CELL, &dictionary);
        proof {
            assert forall|k: int| 0 <= k < 5 implies cell_at(memory@, SYSTEM_CELL + k)
                == #[trigger] system_image()[k] by {
                assert(cell_at(middle, SYSTEM_CELL + k) == system@[k]);
            }
        }
    }
}

} // verus!
