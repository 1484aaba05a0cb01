//! Lexical-error values. Each error is self-contained: it carries its own
//! copy of the full source text plus a byte offset, so the 1-based line
//! number can be computed on demand, independently of the scanner's
//! lifetime.

use vstd::prelude::*;

verus! {

/// How many newline bytes a sequence of source bytes holds.
pub open spec fn newline_count(s: Seq<u8>) -> int
    decreases s.len(),
{
    if s.len() == 0 {
        0
    } else {
        newline_count(s.drop_last()) + if s.last() == 10u8 {
            1int
        } else {
            0int
        }
    }
}

/// The 1-based line number of the byte at `offset`: one more than the
/// number of newline bytes strictly before that offset.
pub open spec fn line_number(src: Seq<u8>, offset: int) -> int {
    1 + newline_count(src.take(offset))
}

/// A sequence cannot hold more newlines than bytes.
pub proof fn lemma_newline_count_le_len(s: Seq<u8>)
    ensures
        0 <= newline_count(s) <= s.len(),
    decreases s.len(),
{
    if s.len() > 0 {
        lemma_newline_count_le_len(s.drop_last());
    }
}

/// A byte that no token class recognizes. `offset` is the byte index of the
/// offending byte `token` inside `src`.
#[derive(Clone, Debug)]
pub struct SingleTokenError {
    pub src: Vec<u8>,
    pub token: u8,
    pub offset: usize,
}

/// A string literal whose opening quote is never matched before
/// end-of-input. `offset` is the byte index of the opening quote in `src`.
#[derive(Clone, Debug)]
pub struct StringTerminationError {
    pub src: Vec<u8>,
    pub offset: usize,
}

/// The two lexical faults the scanner can report; no other failure mode
/// exists in this component.
#[derive(Clone, Debug)]
pub enum LexError {
    SingleToken(SingleTokenError),
    StringTermination(StringTerminationError),
}

impl SingleTokenError {
    /// The offset points at the offending byte inside the carried source.
    pub open spec fn wf(&self) -> bool {
        &&& self.offset < self.src@.len()
        &&& self.src@[self.offset as int] == self.token
    }

    /// The 1-based line the offending byte sits on, counted by newline
    /// bytes strictly before its offset.
    pub fn line(&self) -> (n: usize)
        requires
            self.offset < self.src@.len(),
        ensures
            n == line_number(self.src@, self.offset as int),
    {
        line_of_offset(&self.src, self.offset)
    }
}

impl StringTerminationError {
    /// The offset points at the opening quote inside the carried source.
    pub open spec fn wf(&self) -> bool {
        &&& self.offset < self.src@.len()
        &&& self.src@[self.offset as int] == 34u8
    }

    /// The 1-based line the unterminated string starts on.
    pub fn line(&self) -> (n: usize)
        requires
            self.offset < self.src@.len(),
        ensures
            n == line_number(self.src@, self.offset as int),
    {
        line_of_offset(&self.src, self.offset)
    }
}

impl LexError {
    /// Whichever variant an error is, its offset is a valid byte index and
    /// points at the byte that raised it.
    pub open spec fn wf(&self) -> bool {
        match self {
            LexError::SingleToken(e) => e.wf(),
            LexError::StringTermination(e) => e.wf(),
        }
    }

    /// The full source text the error carries.
    pub open spec fn src_view(&self) -> Seq<u8> {
        match self {
            LexError::SingleToken(e) => e.src@,
            LexError::StringTermination(e) => e.src@,
        }
    }

    /// The byte offset of the fault inside the carried source.
    pub open spec fn span_offset(&self) -> int {
        match self {
            LexError::SingleToken(e) => e.offset as int,
            LexError::StringTermination(e) => e.offset as int,
        }
    }

    /// The 1-based line of the fault, for either variant.
    pub fn line(&self) -> (n: usize)
        requires
            self.wf(),
        ensures
            n == line_number(self.src_view(), self.span_offset()),
    {
        match self {
            LexError::SingleToken(e) => e.line(),
            LexError::StringTermination(e) => e.line(),
        }
    }
}

/// Count the newline bytes strictly before `offset` and return the
/// resulting 1-based line number.
fn line_of_offset(src: &Vec<u8>, offset: usize) -> (n: usize)
    requires
        offset < src@.len(),
    ensures
        n == line_number(src@, offset as int),
{
    let src_len = src.len();
    let mut count: usize = 0;
    let mut i: usize = 0;
    while i < offset
        invariant
            src_len == src@.len(),
            i <= offset < src_len,
            count == newline_count(src@.take(i as int)),
            count <= i,
        decreases offset - i,
    {
        proof {
            assert(src@.take(i + 1).drop_last() =~= src@.take(i as int));
            assert(src@.take(i + 1).last() == src@[i as int]);
        }
        if src[i] == 10u8 {
            count = count + 1;
        }
        i = i + 1;
    }
    count + 1
}

} // verus!
