//! The reader and the lexer. Input arrives in the input buffer, a chunk at a
//! time; `key` hands out its bytes and `word` cuts them into tokens, which it
//! leaves in the word buffer. Both stop when the buffer runs dry and go on
//! where they stopped once it has been refilled.

use vstd::prelude::*;
use crate::fault::Fault;
use crate::machine::{Forth, Phase, State};
use crate::memory::{overlay, BUFFER_SIZE, BUFFER_START, MEMORY_SIZE, WORD_BUFFER};

verus! {

/// The last byte that counts as white space: the ASCII space.
pub const SPACE: u8 = 32;

/// The byte that ends a comment: the ASCII line feed.
pub const NEWLINE: u8 = 10;

/// The byte that starts a comment where a token could start: a backslash.
pub const BACKSLASH: u8 = 92;

/// What `key` does: it takes the next byte of the input buffer, if there is
/// one.
pub open spec fn key_spec(s: State) -> (State, Option<u8>) {
    if s.currkey < s.buftop {
        (State { currkey: s.currkey + 1, ..s }, Some(s.mem[s.currkey]))
    } else {
        (s, None)
    }
}

/// How many bytes of `input` a refill takes: none while unread bytes are
/// left, else as many as the buffer holds.
pub open spec fn refill_count(s: State, input: Seq<u8>) -> int {
    if s.currkey < s.buftop {
        0
    } else if input.len() <= BUFFER_SIZE {
        input.len() as int
    } else {
        BUFFER_SIZE as int
    }
}

/// What a refill does: once the buffer has been read to its end, the bytes
/// taken from `input` replace its content and reading starts over.
pub open spec fn refill_spec(s: State, input: Seq<u8>) -> State {
    if s.currkey < s.buftop {
        s
    } else {
        let count = refill_count(s, input);
        State {
            mem: overlay(s.mem, BUFFER_START as int, input.take(count)),
            currkey: BUFFER_START as int,
            buftop: BUFFER_START + count,
            ..s
        }
    }
}

/// What `word` does with the bytes that the input buffer holds. White space
/// (every byte up to the space) and comments (from a backslash where a token
/// could start, up to the end of the line) are skipped; then bytes are copied
/// to the word buffer until white space follows, which is consumed too.
///
/// The result is the token's length, or `None` where the buffer ran dry
/// first: the lexer then stands in the phase it had reached. A token that
/// would be copied past the end of memory is a fault.
pub open spec fn lex(s: State) -> (State, Result<Option<i32>, Fault>)
    decreases s.buftop - s.currkey,
{
    if s.currkey >= s.buftop {
        (s, Ok(None))
    } else {
        let ch = s.mem[s.currkey];
        let t = State { currkey: s.currkey + 1, ..s };
        match s.phase {
            Phase::Comment => if ch == NEWLINE {
                lex(State { phase: Phase::Skipping, ..t })
            } else {
                lex(t)
            },
            Phase::Skipping => if ch == BACKSLASH {
                lex(State { phase: Phase::Comment, ..t })
            } else if ch > SPACE {
                lex(
                    State {
                        phase: Phase::Token,
                        mem: s.mem.update(WORD_BUFFER as int, ch),
                        word_end: WORD_BUFFER + 1,
                        ..t
                    },
                )
            } else {
                lex(t)
            },
            Phase::Token => if ch <= SPACE {
                (
                    State { phase: Phase::Skipping, word_end: WORD_BUFFER as int, ..t },
                    Ok(Some((s.word_end - WORD_BUFFER) as i32)),
                )
            } else if s.word_end >= MEMORY_SIZE {
                (s, Err(Fault::OutOfBounds))
            } else {
                lex(State { mem: s.mem.update(s.word_end, ch), word_end: s.word_end + 1, ..t })
            },
        }
    }
}

/// Whether the bytes from `start` up to `end` are all white space.
pub open spec fn all_blank(mem: Seq<u8>, start: int, end: int) -> bool {
    forall|a: int| start <= a < end ==> #[trigger] mem[a] <= SPACE
}

/// Whether none of the bytes from `start` up to `end` is white space.
pub open spec fn all_solid(mem: Seq<u8>, start: int, end: int) -> bool {
    forall|a: int| start <= a < end ==> #[trigger] mem[a] > SPACE
}

/// White space before a token makes no difference.
pub proof fn lemma_lex_skips_blanks(s: State, gap: int)
    requires
        s.wf(),
        s.phase == Phase::Skipping,
        0 <= gap,
        s.currkey + gap <= s.buftop,
        all_blank(s.mem, s.currkey, s.currkey + gap),
    ensures
        lex(s) == lex(State { currkey: s.currkey + gap, ..s }),
    decreases gap,
{
    if gap > 0 {
        assert(s.mem[s.currkey] <= SPACE);
        lemma_lex_skips_blanks(State { currkey: s.currkey + 1, ..s }, gap - 1);
    }
}

/// A comment makes no difference: from a backslash where a token could
/// start, everything up to the end of the line is skipped.
pub proof fn lemma_lex_skips_comment(s: State, length: int)
    requires
        s.wf(),
        s.phase == Phase::Skipping,
        1 <= length,
        s.currkey + length < s.buftop,
        s.mem[s.currkey] == BACKSLASH,
        forall|a: int| s.currkey < a < s.currkey + length ==> #[trigger] s.mem[a] != NEWLINE,
        s.mem[s.currkey + length] == NEWLINE,
    ensures
        lex(s) == lex(State { currkey: s.currkey + length + 1, ..s }),
{
    lemma_lex_runs_through_comment(
        State { currkey: s.currkey + 1, phase: Phase::Comment, ..s },
        length - 1,
    );
}

/// Inside a comment everything up to the end of the line is skipped.
proof fn lemma_lex_runs_through_comment(s: State, length: int)
    requires
        s.wf(),
        s.phase == Phase::Comment,
        0 <= length,
        s.currkey + length < s.buftop,
        forall|a: int| s.currkey <= a < s.currkey + length ==> #[trigger] s.mem[a] != NEWLINE,
        s.mem[s.currkey + length] == NEWLINE,
    ensures
        lex(s) == lex(State { currkey: s.currkey + length + 1, phase: Phase::Skipping, ..s }),
    decreases length,
{
    if length > 0 {
        assert(s.mem[s.currkey] != NEWLINE);
        lemma_lex_runs_through_comment(State { currkey: s.currkey + 1, ..s }, length - 1);
    }
}

/// Inside a token the bytes up to the next white space are copied behind
/// what the word buffer holds of it, and the white space ends the token.
proof fn lemma_lex_copies_token(s: State, length: int)
    requires
        s.wf(),
        s.phase == Phase::Token,
        0 <= length,
        s.currkey + length < s.buftop,
        all_solid(s.mem, s.currkey, s.currkey + length),
        s.mem[s.currkey + length] <= SPACE,
        s.word_end + length <= MEMORY_SIZE,
    ensures
        lex(s) == (
            State {
                mem: overlay(
                    s.mem,
                    s.word_end,
                    s.mem.subrange(s.currkey, s.currkey + length),
                ),
                currkey: s.currkey + length + 1,
                phase: Phase::Skipping,
                word_end: WORD_BUFFER as int,
                ..s
            },
            Ok::<Option<i32>, Fault>(Some((s.word_end + length - WORD_BUFFER) as i32)),
        ),
    decreases length,
{
    if length > 0 {
        let ch = s.mem[s.currkey];
        assert(ch > SPACE);
        let next = State {
            mem: s.mem.update(s.word_end, ch),
            word_end: s.word_end + 1,
            currkey: s.currkey + 1,
            ..s
        };
        assert forall|a: int| next.currkey <= a < next.currkey + (length - 1) implies next.mem[a]
            > SPACE by {
            assert(s.mem[a] > SPACE);
        }
        lemma_lex_copies_token(next, length - 1);
        assert(overlay(
            next.mem,
            next.word_end,
            next.mem.subrange(next.currkey, next.currkey + (length - 1)),
        ) =~= overlay(s.mem, s.word_end, s.mem.subrange(s.currkey, s.currkey + length)));
    } else {
        assert(overlay(s.mem, s.word_end, s.mem.subrange(s.currkey, s.currkey + length)) =~= s.mem);
    }
}

/// `word` returns the next token: where the input buffer holds `gap` bytes
/// of white space, then `length` bytes that are none, the first of them no
/// backslash, and then white space again, the token is copied to the word
/// buffer, its length is returned, and reading goes on behind the byte that
/// ended it.
pub proof fn lemma_word_reads_the_next_token(s: State, gap: int, length: int)
    requires
        s.wf(),
        s.phase == Phase::Skipping,
        0 <= gap,
        1 <= length,
        s.currkey + gap + length < s.buftop,
        all_blank(s.mem, s.currkey, s.currkey + gap),
        all_solid(s.mem, s.currkey + gap, s.currkey + gap + length),
        s.mem[s.currkey + gap] != BACKSLASH,
        s.mem[s.currkey + gap + length] <= SPACE,
    ensures
        lex(s) == (
            State {
                mem: overlay(
                    s.mem,
                    WORD_BUFFER as int,
                    s.mem.subrange(s.currkey + gap, s.currkey + gap + length),
                ),
                currkey: s.currkey + gap + length + 1,
                word_end: WORD_BUFFER as int,
                ..s
            },
            Ok::<Option<i32>, Fault>(Some(length as i32)),
        ),
{
    lemma_lex_skips_blanks(s, gap);
    let start = State { currkey: s.currkey + gap, ..s };
    let first = start.mem[start.currkey];
    assert(first > SPACE);
    let inside = State {
        phase: Phase::Token,
        mem: start.mem.update(WORD_BUFFER as int, first),
        word_end: WORD_BUFFER + 1,
        currkey: start.currkey + 1,
        ..start
    };
    assert forall|a: int| inside.currkey <= a < inside.currkey + (length - 1) implies inside.mem[a]
        > SPACE by {
        assert(s.mem[a] > SPACE);
    }
    lemma_lex_copies_token(inside, length - 1);
    assert(overlay(
        inside.mem,
        inside.word_end,
        inside.mem.subrange(inside.currkey, inside.currkey + (length - 1)),
    ) =~= overlay(
        s.mem,
        WORD_BUFFER as int,
        s.mem.subrange(s.currkey + gap, s.currkey + gap + length),
    ));
}

impl Forth {
    /// The next byte of input, or `None` where the input buffer has been
    /// read to its end and wants a refill.
    pub fn key(&mut self) -> (byte: Option<u8>)
        requires
            old(self)@.wf(),
        ensures
            (final(self)@, byte) == key_spec(old(self)@),
            final(self)@.wf(),
    {
        proof {
            self.lemma_view();
        }
        if self.currkey < self.buftop {
            let ch = self.memory[self.currkey];
            self.currkey = self.currkey + 1;
            proof {
                self.lemma_view();
            }
            Some(ch)
        } else {
            None
        }
    }

    /// Hands the machine fresh input and returns how many bytes of it were
    /// taken. While unread bytes are left in the input buffer nothing is
    /// taken; else the buffer takes as many bytes as it holds.
    pub fn refill(&mut self, input: &[u8]) -> (count: usize)
        requires
            old(self)@.wf(),
        ensures
            final(self)@ == refill_spec(old(self)@, input@),
            count == refill_count(old(self)@, input@),
            final(self)@.wf(),
    {
        proof {
            self.lemma_view();
        }
        if self.currkey < self.buftop {
            return 0;
        }
        let count: usize = if input.len() <= BUFFER_SIZE {
            input.len()
        } else {
            BUFFER_SIZE
        };
        let ghost before = self.memory@;
        let mut k: usize = 0;
        while k < count
            invariant
                k <= count <= BUFFER_SIZE,
                count <= input@.len(),
                self.memory@.len() == MEMORY_SIZE,
                self.memory@ == overlay(before, BUFFER_START as int, input@.take(k as int)),
                *self == (Forth { memory: self.memory, ..*old(self) }),
            decreases count - k,
        {
            self.memory[BUFFER_START + k] = input[k];
            k += 1;
        }
        self.currkey = BUFFER_START;
        self.buftop = BUFFER_START + count;
        proof {
            self.lemma_view();
        }
        count
    }

    /// Reads the next token into the word buffer and returns its length, or
    /// `None` where the input buffer ran dry first; a later call then goes on
    /// with the same token.
    pub fn word(&mut self) -> (length: Result<Option<i32>, Fault>)
        requires
            old(self)@.wf(),
        ensures
            (final(self)@, length) == lex(old(self)@),
            final(self)@.wf(),
            length matches Ok(Some(n)) ==> 0 <= n <= MEMORY_SIZE - WORD_BUFFER,
    {
        proof {
            self.lemma_view();
        }
        while self.currkey < self.buftop
            invariant
                self@.wf(),
                lex(self@) == lex(old(self)@),
            decreases self.buftop - self.currkey,
        {
            proof {
                self.lemma_view();
            }
            let ch = self.memory[self.currkey];
            match self.phase {
                Phase::Comment => {
                    if ch == NEWLINE {
                        self.phase = Phase::Skipping;
                    }
                },
                Phase::Skipping => {
                    if ch == BACKSLASH {
                        self.phase = Phase::Comment;
                    } else if ch > SPACE {
                        self.memory[WORD_BUFFER] = ch;
                        self.word_end = WORD_BUFFER + 1;
                        self.phase = Phase::Token;
                    }
                },
                Phase::Token => {
                    if ch <= SPACE {
                        let length = (self.word_end - WORD_BUFFER) as i32;
                        self.phase = Phase::Skipping;
                        self.word_end = WORD_BUFFER;
                        self.currkey = self.currkey + 1;
                        proof {
                            self.lemma_view();
                        }
                        return Ok(Some(length));
                    } else if self.word_end >= MEMORY_SIZE {
                        return Err(Fault::OutOfBounds);
                    } else {
                        self.memory[self.word_end] = ch;
                        self.word_end = self.word_end + 1;
                    }
                },
            }
            self.currkey = self.currkey + 1;
            proof {
                self.lemma_view();
            }
        }
        proof {
            self.lemma_view();
        }
        Ok(None)
    }
}

} // verus!
