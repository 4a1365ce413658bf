//! What the dictionary search finds: the dictionary as a chain of headers,
//! and theorems on the search along it, on a word that was just created and
//! on hidden words.

use vstd::prelude::*;
use vstd::set_lib::{lemma_int_range, lemma_len_subset, lemma_map_size, set_int_range};
use crate::dictionary::{
    align_down, can_create, carries_name, code_field, comma_spec, create_spec, find_spec, flags_of,
    here, is_header, latest, lemma_mask_bounds, length_matches, link_of, names_in_memory, search,
    F_HIDDEN, F_LENMASK, F_SEARCHMASK,
};
use crate::fault::Fault;
use crate::machine::State;
use crate::memory::{
    cell_at, cell_bytes, cell_value, lemma_cell_bytes_value, lemma_store_cell_bytes,
    lemma_store_cell_other, lemma_store_cell_same, overlay, store_cell, unsigned_of_bytes,
    unsigned_of_cell, HERE_ADDR, LATEST_ADDR, MEMORY_SIZE,
};

verus! {

/// The header that the search looks at after it has followed `k` links from
/// the header at `first`.
pub open spec fn nth_header(mem: Seq<u8>, first: i32, k: nat) -> i32
    decreases k,
{
    if k == 0 {
        first
    } else {
        nth_header(mem, link_of(mem, first as int), (k - 1) as nat)
    }
}

/// Whether the header at `header` lies in memory together with the longest
/// name that the search compares it with.
pub open spec fn is_entry(mem: Seq<u8>, header: i32) -> bool {
    &&& header != 0
    &&& is_header(header as int)
    &&& header + 5 + (flags_of(mem, header as int) & F_SEARCHMASK) <= MEMORY_SIZE
}

/// Whether the headers from `first` on form a dictionary of `n` words: `n`
/// entries, each linked to the next, the link of the last of which is zero.
pub open spec fn is_dictionary(mem: Seq<u8>, first: i32, n: nat) -> bool
    decreases n,
{
    if n == 0 {
        first == 0
    } else {
        is_entry(mem, first) && is_dictionary(mem, link_of(mem, first as int), (n - 1) as nat)
    }
}

/// Whether the `count` bytes at `name` lie in memory.
pub open spec fn is_token(count: i32, name: int) -> bool {
    0 <= count && 0 <= name && name + count <= MEMORY_SIZE
}

/// Whether the ranges `a_start .. a_end` and `b_start .. b_end` share no
/// address.
pub open spec fn apart(a_start: int, a_end: int, b_start: int, b_end: int) -> bool {
    a_end <= b_start || b_end <= a_start
}

/// The words of a dictionary by their number: the search reaches an entry
/// after each number of links below `n`, and zero after `n` links.
pub proof fn lemma_words_of_dictionary(mem: Seq<u8>, first: i32, n: nat)
    requires
        is_dictionary(mem, first, n),
    ensures
        forall|k: nat| k < n ==> is_entry(mem, #[trigger] nth_header(mem, first, k)),
        nth_header(mem, first, n) == 0,
    decreases n,
{
    if n > 0 {
        let rest = link_of(mem, first as int);
        lemma_words_of_dictionary(mem, rest, (n - 1) as nat);
        assert forall|k: nat| k < n implies is_entry(mem, #[trigger] nth_header(mem, first, k)) by {
            if k > 0 {
                assert(is_entry(mem, nth_header(mem, rest, (k - 1) as nat)));
            }
        }
    }
}

/// The words of the rest of a dictionary are its words but the first.
proof fn lemma_rest_of_dictionary(mem: Seq<u8>, first: i32, n: nat)
    requires
        is_dictionary(mem, first, n),
        n > 0,
    ensures
        is_entry(mem, first),
        is_dictionary(mem, link_of(mem, first as int), (n - 1) as nat),
        forall|k: nat|
            nth_header(mem, link_of(mem, first as int), k) == #[trigger] nth_header(
                mem,
                first,
                k + 1,
            ),
{
    let rest = link_of(mem, first as int);
    assert forall|k: nat| nth_header(mem, rest, k) == #[trigger] nth_header(mem, first, k + 1) by {
        assert(nth_header(mem, first, k + 1) == nth_header(mem, rest, (k + 1 - 1) as nat));
    }
}

/// Following `a` links and then `b` more is following `a + b` links.
proof fn lemma_links_add(mem: Seq<u8>, first: i32, a: nat, b: nat)
    ensures
        nth_header(mem, first, a + b) == nth_header(mem, nth_header(mem, first, a), b),
    decreases a,
{
    if a > 0 {
        lemma_links_add(mem, link_of(mem, first as int), (a - 1) as nat, b);
    }
}

/// No header occurs twice in a dictionary: past a header that did, the
/// chain would run in a circle and never reach its end.
proof fn lemma_no_header_twice(mem: Seq<u8>, first: i32, n: nat, i: nat, j: nat)
    requires
        is_dictionary(mem, first, n),
        i < j < n,
    ensures
        nth_header(mem, first, i) != nth_header(mem, first, j),
{
    lemma_words_of_dictionary(mem, first, n);
    if nth_header(mem, first, i) == nth_header(mem, first, j) {
        let rest = (n - j) as nat;
        lemma_links_add(mem, first, i, rest);
        lemma_links_add(mem, first, j, rest);
        assert(is_entry(mem, nth_header(mem, first, i + rest)));
    }
}

/// A dictionary has fewer words than memory has bytes, so the fuel of
/// `find` never runs out on one.
pub proof fn lemma_dictionary_is_short(mem: Seq<u8>, first: i32, n: nat)
    requires
        is_dictionary(mem, first, n),
    ensures
        n <= MEMORY_SIZE,
{
    let header = |k: int| nth_header(mem, first, k as nat) as int;
    let indices = set_int_range(0, n as int);
    let headers = indices.map(header);
    let addresses = set_int_range(0, MEMORY_SIZE as int);
    lemma_int_range(0, n as int);
    lemma_int_range(0, MEMORY_SIZE as int);
    assert forall|i: int, j: int|
        indices.contains(i) && indices.contains(j) && #[trigger] header(i) == #[trigger] header(
            j,
        ) implies i == j by {
        if i < j {
            lemma_no_header_twice(mem, first, n, i as nat, j as nat);
        } else if j < i {
            lemma_no_header_twice(mem, first, n, j as nat, i as nat);
        }
    }
    lemma_map_size(indices, headers, header);
    lemma_words_of_dictionary(mem, first, n);
    assert forall|address: int| headers.contains(address) implies addresses.contains(address) by {
        let k = choose|k: int| indices.contains(k) && header(k) == address;
        assert(is_entry(mem, nth_header(mem, first, k as nat)));
    }
    lemma_len_subset(headers, addresses);
}

/// The search along a dictionary of `n` words that holds no match before its
/// word `k`: it returns that word where `k < n` and the word matches, and
/// zero where `k == n`.
proof fn lemma_search_along(
    mem: Seq<u8>,
    first: i32,
    count: i32,
    name: int,
    fuel: nat,
    n: nat,
    k: nat,
)
    requires
        is_dictionary(mem, first, n),
        n <= fuel,
        is_token(count, name),
        k <= n,
        forall|j: nat|
            j < k ==> !carries_name(
                mem,
                #[trigger] nth_header(mem, first, j) as int,
                count,
                name,
            ),
        k < n ==> carries_name(mem, nth_header(mem, first, k) as int, count, name),
    ensures
        search(mem, first, count, name, fuel) == Ok::<i32, Fault>(
            if k < n {
                nth_header(mem, first, k)
            } else {
                0
            },
        ),
    decreases n,
{
    assert(nth_header(mem, first, 0) == first);
    if n > 0 {
        lemma_rest_of_dictionary(mem, first, n);
        lemma_mask_bounds(flags_of(mem, first as int));
        assert(length_matches(mem, first as int, count) ==> names_in_memory(
            first as int,
            count,
            name,
        ));
        if k > 0 {
            let rest = link_of(mem, first as int);
            assert(!carries_name(mem, nth_header(mem, first, 0) as int, count, name));
            assert forall|j: nat| j < k - 1 implies !carries_name(
                mem,
                #[trigger] nth_header(mem, rest, j) as int,
                count,
                name,
            ) by {
                assert(!carries_name(mem, nth_header(mem, first, j + 1) as int, count, name));
            }
            assert(nth_header(mem, rest, (k - 1) as nat) == nth_header(
                mem,
                first,
                (k - 1 + 1) as nat,
            ));
            lemma_search_along(
                mem,
                rest,
                count,
                name,
                (fuel - 1) as nat,
                (n - 1) as nat,
                (k - 1) as nat,
            );
        }
    }
}

/// On a dictionary the search comes to an end: its fuel does not run out.
pub proof fn lemma_search_ends_on_a_dictionary(
    mem: Seq<u8>,
    first: i32,
    count: i32,
    name: int,
    fuel: nat,
    n: nat,
)
    requires
        is_dictionary(mem, first, n),
        n <= fuel,
    ensures
        search(mem, first, count, name, fuel) != Err::<i32, Fault>(Fault::EndlessDictionary),
    decreases n,
{
    assert(nth_header(mem, first, 0) == first);
    if n > 0 {
        lemma_rest_of_dictionary(mem, first, n);
        lemma_search_ends_on_a_dictionary(
            mem,
            link_of(mem, first as int),
            count,
            name,
            (fuel - 1) as nat,
            (n - 1) as nat,
        );
    }
}

/// `find` gives up on an endless chain only: where the headers from `LATEST`
/// on form a dictionary, of whatever length, it comes to an end.
pub proof fn lemma_find_ends_on_a_dictionary(mem: Seq<u8>, count: i32, name: int, n: nat)
    requires
        is_dictionary(mem, latest(mem), n),
    ensures
        find_spec(mem, count, name) != Err::<i32, Fault>(Fault::EndlessDictionary),
{
    lemma_dictionary_is_short(mem, latest(mem), n);
    lemma_search_ends_on_a_dictionary(mem, latest(mem), count, name, MEMORY_SIZE as nat, n);
}

/// A token that no word of the dictionary carries as its name is not found:
/// the search returns zero.
pub proof fn lemma_absent_name_is_not_found(mem: Seq<u8>, count: i32, name: int, n: nat)
    requires
        is_dictionary(mem, latest(mem), n),
        is_token(count, name),
        forall|k: nat|
            k < n ==> !carries_name(
                mem,
                #[trigger] nth_header(mem, latest(mem), k) as int,
                count,
                name,
            ),
    ensures
        find_spec(mem, count, name) == Ok::<i32, Fault>(0),
{
    lemma_dictionary_is_short(mem, latest(mem), n);
    lemma_search_along(mem, latest(mem), count, name, MEMORY_SIZE as nat, n, n);
}

/// Of the words that carry a token as their name the search returns the
/// newest: a later definition shadows the earlier ones.
pub proof fn lemma_newest_match_is_found(mem: Seq<u8>, count: i32, name: int, n: nat, k: nat)
    requires
        is_dictionary(mem, latest(mem), n),
        is_token(count, name),
        k < n,
        carries_name(mem, nth_header(mem, latest(mem), k) as int, count, name),
        forall|j: nat|
            j < k ==> !carries_name(
                mem,
                #[trigger] nth_header(mem, latest(mem), j) as int,
                count,
                name,
            ),
    ensures
        find_spec(mem, count, name) == Ok::<i32, Fault>(nth_header(mem, latest(mem), k)),
{
    lemma_dictionary_is_short(mem, latest(mem), n);
    lemma_search_along(mem, latest(mem), count, name, MEMORY_SIZE as nat, n, k);
}

/// A token that exactly one word of the dictionary carries as its name is
/// found at that word.
pub proof fn lemma_unique_name_is_found(mem: Seq<u8>, count: i32, name: int, n: nat, k: nat)
    requires
        is_dictionary(mem, latest(mem), n),
        is_token(count, name),
        k < n,
        forall|j: nat|
            j < n ==> (carries_name(
                mem,
                #[trigger] nth_header(mem, latest(mem), j) as int,
                count,
                name,
            ) <==> j == k),
    ensures
        find_spec(mem, count, name) == Ok::<i32, Fault>(nth_header(mem, latest(mem), k)),
{
    lemma_newest_match_is_found(mem, count, name, n, k);
}

/// A match tells the token's length from the low six bits of the flags byte:
/// the name length and, for a hidden word, 32 more. So a hidden word does not
/// answer to its own name, but to a token that is 32 bytes longer.
pub proof fn lemma_hidden_bit_counts_as_length(mem: Seq<u8>, header: int, count: i32, name: int)
    requires
        carries_name(mem, header, count, name),
    ensures
        count == (flags_of(mem, header) & F_LENMASK) + (flags_of(mem, header) & F_HIDDEN),
        flags_of(mem, header) & F_HIDDEN == 0 || flags_of(mem, header) & F_HIDDEN == 32,
{
    let flags = flags_of(mem, header);
    assert(flags & 0x3F == (flags & 0x1F) + (flags & 0x20)) by (bit_vector);
    assert(flags & 0x20 == 0 || flags & 0x20 == 32) by (bit_vector);
}

/// The lowest byte of a cell after some of its low eight bits were toggled
/// is the lowest byte of before with those bits toggled.
proof fn lemma_toggle_low_byte(cell: i32, mask: u8)
    ensures
        cell_bytes(cell ^ (mask as i32))[0] == cell_bytes(cell)[0] ^ mask,
{
    let toggled = cell ^ (mask as i32);
    assert((unsigned_of_cell(cell) % 256) as u8 == cell as u8) by {
        assert((if cell < 0 {
            cell + 0x1_0000_0000
        } else {
            cell as int
        }) % 256 == (cell as u8) as int) by (bit_vector);
    }
    assert((unsigned_of_cell(toggled) % 256) as u8 == toggled as u8) by {
        assert((if toggled < 0 {
            toggled + 0x1_0000_0000
        } else {
            toggled as int
        }) % 256 == (toggled as u8) as int) by (bit_vector);
    }
    assert((cell ^ (mask as i32)) as u8 == (cell as u8) ^ mask) by (bit_vector);
}

/// Toggling the hidden flag of a header that starts at a cell boundary
/// toggles that bit of its flags byte, and with it the length that the
/// search reads: the header stops answering to the token that it answered
/// to. Hiding a word takes it out of the search, and showing it again takes
/// the hidden word out that answered to the longer token.
pub proof fn lemma_hidden_flag_changes_the_name(s: State, header: i32, count: i32, name: int)
    requires
        s.wf(),
        header % 4 == 0,
        s.toggle(header, F_HIDDEN as i32) is Ok,
        carries_name(s.mem, header as int, count, name),
    ensures
        ({
            let toggled = s.toggle(header, F_HIDDEN as i32)->Ok_0.mem;
            &&& flags_of(toggled, header as int) == flags_of(s.mem, header as int) ^ F_HIDDEN
            &&& !carries_name(toggled, header as int, count, name)
        }),
{
    let index = header as int / 4 + 1;
    let cell = cell_at(s.mem, index);
    let flags = flags_of(s.mem, header as int);
    lemma_cell_bytes_value(cell);
    assert(cell_bytes(cell)[0] == flags) by {
        lemma_bytes_of_cell(s.mem, index);
    }
    lemma_toggle_low_byte(cell, F_HIDDEN);
    assert((flags ^ 0x20) & 0x3F != flags & 0x3F) by (bit_vector);
}

/// The bytes of a cell in memory are the bytes of its value.
proof fn lemma_bytes_of_cell(mem: Seq<u8>, index: int)
    requires
        0 <= index,
        4 * index + 4 <= mem.len(),
    ensures
        cell_bytes(cell_at(mem, index)) =~= mem.subrange(4 * index, 4 * index + 4),
{
    let b0 = mem[4 * index];
    let b1 = mem[4 * index + 1];
    let b2 = mem[4 * index + 2];
    let b3 = mem[4 * index + 3];
    let unsigned = unsigned_of_bytes(b0, b1, b2, b3);
    assert(unsigned_of_cell(cell_value(b0, b1, b2, b3)) == unsigned);
    assert(unsigned % 256 == b0);
    assert((unsigned / 256) % 256 == b1);
    assert((unsigned / 65536) % 256 == b2);
    assert((unsigned / 16777216) % 256 == b3);
}

/// Whether `create` for the `count` bytes at `name` keeps clear of what it
/// reads and of the system variables: the token shares no byte with the new
/// header, and neither of them shares a byte with `HERE` or `LATEST`.
pub open spec fn creates_cleanly(mem: Seq<u8>, count: i32, name: i32) -> bool {
    let header = here(mem);
    let start = 4 * (header / 4);
    let end = header + 5 + count;
    &&& apart(name as int, name + count, start, end)
    &&& apart(name as int, name + count, 4 * HERE_ADDR, 4 * LATEST_ADDR + 4)
    &&& apart(start, end, 4 * HERE_ADDR, 4 * LATEST_ADDR + 4)
}

/// What `create` leaves in memory: the new header is the newest, carries
/// the token as its name, and `HERE` stands at its code field.
proof fn lemma_created_header(mem: Seq<u8>, count: i32, name: i32)
    requires
        mem.len() == MEMORY_SIZE,
        can_create(mem, count, name),
        creates_cleanly(mem, count, name),
        count <= 63,
    ensures
        create_spec(mem, count, name) is Ok,
        ({
            let created = create_spec(mem, count, name)->Ok_0;
            &&& created.len() == MEMORY_SIZE
            &&& latest(created) == here(mem)
            &&& here(created) == align_down(here(mem) + 8 + ((count as u8) & F_LENMASK))
            &&& flags_of(created, here(mem) as int) == count
            &&& carries_name(created, here(mem) as int, count, name as int)
        }),
{
    reveal(create_spec);
    let header = here(mem);
    let flags = count as u8;
    let linked = store_cell(mem, header / 4, latest(mem));
    let flagged = linked.update(header + 4, flags);
    let named = overlay(flagged, header + 5, flagged.subrange(name as int, name + count));
    assert(flags & 0x1F <= 31) by (bit_vector);
    let after = (4 * ((header + 8 + (flags & F_LENMASK)) / 4)) as i32;
    let moved = store_cell(named, HERE_ADDR as int, after);
    let done = store_cell(moved, LATEST_ADDR as int, header);
    assert(create_spec(mem, count, name) == Ok::<Seq<u8>, Fault>(done));
    lemma_store_cell_same(moved, LATEST_ADDR as int, header);
    lemma_store_cell_same(named, HERE_ADDR as int, after);
    lemma_store_cell_other(moved, LATEST_ADDR as int, header, HERE_ADDR as int);
    // Outside the two system variables the finished memory is the one that
    // holds the new header.
    assert forall|a: int|
        0 <= a < MEMORY_SIZE && !(4 * HERE_ADDR <= a < 4 * LATEST_ADDR + 4) implies done[a]
        == named[a] by {
        lemma_store_cell_bytes(moved, LATEST_ADDR as int, header, a);
        lemma_store_cell_bytes(named, HERE_ADDR as int, after, a);
    }
    // The token still stands where it stood.
    assert forall|a: int| name <= a < name + count implies flagged[a] == mem[a] by {
        lemma_store_cell_bytes(mem, header / 4, latest(mem), a);
    }
    assert(done[header + 4] == flags);
    assert(flags & 0x3F == flags) by (bit_vector)
        requires
            flags <= 63,
    ;
    assert(done.subrange(header + 5, header + 5 + count) =~= done.subrange(
        name as int,
        name + count,
    ));
}

/// A word that was just created is found under its name, and its code
/// field is the cell at the new `HERE`, which the next `,` fills. This holds
/// for every name of up to 63 bytes, whatever the dictionary held before.
pub proof fn lemma_created_word_is_found(mem: Seq<u8>, count: i32, name: i32)
    requires
        mem.len() == MEMORY_SIZE,
        can_create(mem, count, name),
        creates_cleanly(mem, count, name),
        count <= 63,
        here(mem) != 0,
    ensures
        create_spec(mem, count, name) is Ok,
        find_spec(create_spec(mem, count, name)->Ok_0, count, name as int) == Ok::<i32, Fault>(
            here(mem),
        ),
        code_field(create_spec(mem, count, name)->Ok_0, here(mem)) == Ok::<i32, Fault>(
            here(create_spec(mem, count, name)->Ok_0),
        ),
{
    lemma_created_header(mem, count, name);
    lemma_mask_bounds(count as u8);
}

/// What `,` leaves in memory: the appended cell, `HERE` one cell further,
/// and everything outside these two as it was.
proof fn lemma_comma(mem: Seq<u8>, value: i32)
    requires
        mem.len() == MEMORY_SIZE,
        0 <= here(mem),
        here(mem) + 4 <= MEMORY_SIZE,
        here(mem) / 4 != HERE_ADDR,
    ensures
        comma_spec(mem, value) is Ok,
        ({
            let appended = comma_spec(mem, value)->Ok_0;
            let field = 4 * (here(mem) / 4);
            &&& appended.len() == MEMORY_SIZE
            &&& cell_at(appended, here(mem) / 4) == value
            &&& here(appended) == here(mem) + 4
            &&& forall|a: int|
                0 <= a < MEMORY_SIZE && !(field <= a < field + 4) && !(4 * HERE_ADDR <= a < 4
                    * HERE_ADDR + 4) ==> appended[a] == mem[a]
            &&& here(mem) / 4 != LATEST_ADDR ==> latest(appended) == latest(mem)
        }),
{
    reveal(comma_spec);
    let free = here(mem);
    let filled = store_cell(mem, free / 4, value);
    let appended = store_cell(filled, HERE_ADDR as int, (free + 4) as i32);
    lemma_store_cell_same(mem, free / 4, value);
    lemma_store_cell_same(filled, HERE_ADDR as int, (free + 4) as i32);
    lemma_store_cell_other(filled, HERE_ADDR as int, (free + 4) as i32, free / 4);
    lemma_store_cell_other(filled, HERE_ADDR as int, (free + 4) as i32, LATEST_ADDR as int);
    if free / 4 != LATEST_ADDR {
        lemma_store_cell_other(mem, free / 4, value, LATEST_ADDR as int);
    }
    assert forall|a: int|
        0 <= a < MEMORY_SIZE && !(4 * (free / 4) <= a < 4 * (free / 4) + 4) && !(4 * HERE_ADDR
            <= a < 4 * HERE_ADDR + 4) implies appended[a] == mem[a] by {
        lemma_store_cell_bytes(filled, HERE_ADDR as int, (free + 4) as i32, a);
        lemma_store_cell_bytes(mem, free / 4, value, a);
    }
}

/// A header that carries a token as its name still does so in a memory that
/// agrees on the header and on the token.
proof fn lemma_same_name(before: Seq<u8>, after: Seq<u8>, header: int, count: i32, name: int)
    requires
        before.len() == MEMORY_SIZE,
        after.len() == MEMORY_SIZE,
        is_header(header),
        0 <= count,
        names_in_memory(header, count, name),
        carries_name(before, header, count, name),
        forall|a: int| header + 4 <= a < header + 5 + count ==> after[a] == before[a],
        forall|a: int| name <= a < name + count ==> after[a] == before[a],
    ensures
        carries_name(after, header, count, name),
{
    assert(after.subrange(header + 5, header + 5 + count) =~= before.subrange(
        header + 5,
        header + 5 + count,
    ));
    assert(after.subrange(name, name + count) =~= before.subrange(name, name + count));
}

/// What was compiled into a new word is what its dispatch reads: after
/// `create` and one `,` the word is still found under its name, and the cell
/// at its code field holds the value that `,` appended. This holds for every
/// name of up to 31 bytes, so that the code field lies behind the name, if
/// the code field shares no byte with the token or the system variables.
pub proof fn lemma_compiled_word_is_found(mem: Seq<u8>, count: i32, name: i32, value: i32)
    requires
        mem.len() == MEMORY_SIZE,
        can_create(mem, count, name),
        creates_cleanly(mem, count, name),
        count <= 31,
        here(mem) != 0,
        ({
            let field = align_down(here(mem) + 8 + count);
            &&& field + 4 <= MEMORY_SIZE
            &&& apart(field, field + 4, name as int, name + count)
            &&& apart(field, field + 4, 4 * HERE_ADDR, 4 * LATEST_ADDR + 4)
        }),
    ensures
        ({
            let created = create_spec(mem, count, name)->Ok_0;
            let compiled = comma_spec(created, value);
            &&& compiled is Ok
            &&& find_spec(compiled->Ok_0, count, name as int) == Ok::<i32, Fault>(here(mem))
            &&& code_field(compiled->Ok_0, here(mem)) == Ok::<i32, Fault>(here(created))
            &&& cell_at(compiled->Ok_0, here(created) / 4) == value
            &&& here(compiled->Ok_0) == here(created) + 4
        }),
{
    lemma_created_header(mem, count, name);
    let header = here(mem);
    let flags = count as u8;
    assert(flags & 0x1F == flags) by (bit_vector)
        requires
            flags <= 31,
    ;
    let created = create_spec(mem, count, name)->Ok_0;
    let field = here(created);
    assert(field == align_down(header + 8 + count));
    lemma_comma(created, value);
    let compiled = comma_spec(created, value)->Ok_0;
    lemma_same_name(created, compiled, header as int, count, name as int);
    lemma_mask_bounds(flags);
}

/// A name stays in use after its word was hidden: once the hidden flag of
/// any header has been toggled and a word of that name has been created,
/// the search finds the new word.
pub proof fn lemma_redefined_word_is_found(s: State, hidden: i32, count: i32, name: i32)
    requires
        s.wf(),
        s.toggle(hidden, F_HIDDEN as i32) is Ok,
        can_create(s.toggle(hidden, F_HIDDEN as i32)->Ok_0.mem, count, name),
        creates_cleanly(s.toggle(hidden, F_HIDDEN as i32)->Ok_0.mem, count, name),
        count <= 63,
        here(s.toggle(hidden, F_HIDDEN as i32)->Ok_0.mem) != 0,
    ensures
        ({
            let toggled = s.toggle(hidden, F_HIDDEN as i32)->Ok_0.mem;
            let defined = create_spec(toggled, count, name);
            &&& defined is Ok
            &&& find_spec(defined->Ok_0, count, name as int) == Ok::<i32, Fault>(here(toggled))
            &&& here(toggled) != 0
        }),
{
    let toggled = s.toggle(hidden, F_HIDDEN as i32)->Ok_0.mem;
    lemma_created_word_is_found(toggled, count, name);
}

} // verus!
