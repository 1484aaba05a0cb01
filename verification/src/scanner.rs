//! The scanner: a character-by-character state machine over the source
//! bytes. The specification side is a set of spec functions that say, for
//! any source and cursor position, exactly which item the next pull
//! produces and where the cursor lands; the executable `Lexer` is proved
//! to follow them step by step.

use vstd::prelude::*;

use crate::error::LexError;
use crate::error::SingleTokenError;
use crate::error::StringTerminationError;
use crate::token::Token;
use crate::token::TokenKind;

verus! {

/// An ASCII decimal digit.
pub open spec fn is_digit(b: u8) -> bool {
    48 <= b <= 57
}

/// A byte that can begin an identifier: an ASCII letter or an underscore.
pub open spec fn is_alpha(b: u8) -> bool {
    ||| 97 <= b <= 122
    ||| 65 <= b <= 90
    ||| b == 95
}

/// A byte that can continue an identifier.
pub open spec fn is_alnum(b: u8) -> bool {
    is_alpha(b) || is_digit(b)
}

/// A byte with no lexical meaning: space, tab, carriage return, newline.
pub open spec fn is_blank(b: u8) -> bool {
    b == 32 || b == 9 || b == 13 || b == 10
}

/// Where the cursor lands after skipping everything without lexical
/// meaning: blanks, and line comments (`//` up to the next newline or
/// end-of-input). `in_comment` says whether the position `pos` itself is
/// already inside a line comment.
pub open spec fn skip_end(src: Seq<u8>, pos: int, in_comment: bool) -> int
    decreases src.len() - pos,
{
    if pos >= src.len() {
        src.len() as int
    } else if in_comment {
        skip_end(src, pos + 1, src[pos] != 10)
    } else if is_blank(src[pos]) {
        skip_end(src, pos + 1, false)
    } else if src[pos] == 47 && pos + 1 < src.len() && src[pos + 1] == 47 {
        skip_end(src, pos + 2, true)
    } else {
        pos
    }
}

/// The index of the first closing quote at or after `pos`, if any.
pub open spec fn string_close(src: Seq<u8>, pos: int) -> Option<int>
    decreases src.len() - pos,
{
    if pos >= src.len() {
        None
    } else if src[pos] == 34 {
        Some(pos)
    } else {
        string_close(src, pos + 1)
    }
}

/// The end of the run of decimal digits starting at `pos`.
pub open spec fn digits_end(src: Seq<u8>, pos: int) -> int
    decreases src.len() - pos,
{
    if pos >= src.len() || !is_digit(src[pos]) {
        pos
    } else {
        digits_end(src, pos + 1)
    }
}

/// The end of a number literal starting at `pos`: the integer digit run,
/// extended across a `.` only when at least one digit follows it (a
/// trailing dot is left for the next scan step).
pub open spec fn number_end(src: Seq<u8>, pos: int) -> int {
    let d = digits_end(src, pos);
    if d < src.len() && src[d] == 46 && d + 1 < src.len() && is_digit(src[d + 1]) {
        digits_end(src, d + 2)
    } else {
        d
    }
}

/// The end of the identifier/keyword run starting at `pos`.
pub open spec fn ident_end(src: Seq<u8>, pos: int) -> int
    decreases src.len() - pos,
{
    if pos >= src.len() || !is_alnum(src[pos]) {
        pos
    } else {
        ident_end(src, pos + 1)
    }
}

/// The classification of one full identifier run against the fixed
/// reserved-word table: the matching keyword kind if the run is a reserved
/// word, the generic identifier kind otherwise.
pub open spec fn kind_of_word(w: Seq<u8>) -> TokenKind {
    if w == seq![97u8, 110u8, 100u8] {
        TokenKind::And
    } else if w == seq![99u8, 108u8, 97u8, 115u8, 115u8] {
        TokenKind::Class
    } else if w == seq![101u8, 108u8, 115u8, 101u8] {
        TokenKind::Else
    } else if w == seq![102u8, 97u8, 108u8, 115u8, 101u8] {
        TokenKind::False
    } else if w == seq![102u8, 111u8, 114u8] {
        TokenKind::For
    } else if w == seq![102u8, 117u8, 110u8] {
        TokenKind::Fun
    } else if w == seq![105u8, 102u8] {
        TokenKind::If
    } else if w == seq![110u8, 105u8, 108u8] {
        TokenKind::Nil
    } else if w == seq![111u8, 114u8] {
        TokenKind::Or
    } else if w == seq![112u8, 114u8, 105u8, 110u8, 116u8] {
        TokenKind::Print
    } else if w == seq![114u8, 101u8, 116u8, 117u8, 114u8, 110u8] {
        TokenKind::Return
    } else if w == seq![115u8, 117u8, 112u8, 101u8, 114u8] {
        TokenKind::Super
    } else if w == seq![116u8, 104u8, 105u8, 115u8] {
        TokenKind::This
    } else if w == seq![116u8, 114u8, 117u8, 101u8] {
        TokenKind::True
    } else if w == seq![118u8, 97u8, 114u8] {
        TokenKind::Var
    } else if w == seq![119u8, 104u8, 105u8, 108u8, 101u8] {
        TokenKind::While
    } else {
        TokenKind::Identifier
    }
}

/// Whether a lexeme is one of the reserved words.
pub open spec fn is_keyword(w: Seq<u8>) -> bool {
    ||| w == seq![97u8, 110u8, 100u8]
    ||| w == seq![99u8, 108u8, 97u8, 115u8, 115u8]
    ||| w == seq![101u8, 108u8, 115u8, 101u8]
    ||| w == seq![102u8, 97u8, 108u8, 115u8, 101u8]
    ||| w == seq![102u8, 111u8, 114u8]
    ||| w == seq![102u8, 117u8, 110u8]
    ||| w == seq![105u8, 102u8]
    ||| w == seq![110u8, 105u8, 108u8]
    ||| w == seq![111u8, 114u8]
    ||| w == seq![112u8, 114u8, 105u8, 110u8, 116u8]
    ||| w == seq![114u8, 101u8, 116u8, 117u8, 114u8, 110u8]
    ||| w == seq![115u8, 117u8, 112u8, 101u8, 114u8]
    ||| w == seq![116u8, 104u8, 105u8, 115u8]
    ||| w == seq![116u8, 114u8, 117u8, 101u8]
    ||| w == seq![118u8, 97u8, 114u8]
    ||| w == seq![119u8, 104u8, 105u8, 108u8, 101u8]
}

/// What one pull of the scanner produces, stated over positions in the
/// source: the end of the sequence, a token spanning `start .. end`, an
/// unrecognized byte at `at`, or an unterminated string whose opening
/// quote sits at `start`.
pub enum ScanStep {
    End,
    Token { kind: TokenKind, start: int, end: int },
    BadChar { at: int },
    BadString { start: int },
}

/// The item recognized at position `s`, which must be on a byte that is
/// neither skippable nor a comment opener (i.e. `s` is a fixed point of
/// `skip_end`).
pub open spec fn spec_token_at(src: Seq<u8>, s: int) -> ScanStep
    recommends
        0 <= s < src.len(),
{
    let b = src[s];
    if b == 40 {
        ScanStep::Token { kind: TokenKind::LeftParen, start: s, end: s + 1 }
    } else if b == 41 {
        ScanStep::Token { kind: TokenKind::RightParen, start: s, end: s + 1 }
    } else if b == 123 {
        ScanStep::Token { kind: TokenKind::LeftBrace, start: s, end: s + 1 }
    } else if b == 125 {
        ScanStep::Token { kind: TokenKind::RightBrace, start: s, end: s + 1 }
    } else if b == 44 {
        ScanStep::Token { kind: TokenKind::Comma, start: s, end: s + 1 }
    } else if b == 46 {
        ScanStep::Token { kind: TokenKind::Dot, start: s, end: s + 1 }
    } else if b == 45 {
        ScanStep::Token { kind: TokenKind::Minus, start: s, end: s + 1 }
    } else if b == 43 {
        ScanStep::Token { kind: TokenKind::Plus, start: s, end: s + 1 }
    } else if b == 59 {
        ScanStep::Token { kind: TokenKind::Semicolon, start: s, end: s + 1 }
    } else if b == 42 {
        ScanStep::Token { kind: TokenKind::Star, start: s, end: s + 1 }
    } else if b == 47 {
        ScanStep::Token { kind: TokenKind::Slash, start: s, end: s + 1 }
    } else if b == 33 {
        if s + 1 < src.len() && src[s + 1] == 61 {
            ScanStep::Token { kind: TokenKind::BangEqual, start: s, end: s + 2 }
        } else {
            ScanStep::Token { kind: TokenKind::Bang, start: s, end: s + 1 }
        }
    } else if b == 61 {
        if s + 1 < src.len() && src[s + 1] == 61 {
            ScanStep::Token { kind: TokenKind::EqualEqual, start: s, end: s + 2 }
        } else {
            ScanStep::Token { kind: TokenKind::Equal, start: s, end: s + 1 }
        }
    } else if b == 60 {
        if s + 1 < src.len() && src[s + 1] == 61 {
            ScanStep::Token { kind: TokenKind::LessEqual, start: s, end: s + 2 }
        } else {
            ScanStep::Token { kind: TokenKind::Less, start: s, end: s + 1 }
        }
    } else if b == 62 {
        if s + 1 < src.len() && src[s + 1] == 61 {
            ScanStep::Token { kind: TokenKind::GreaterEqual, start: s, end: s + 2 }
        } else {
            ScanStep::Token { kind: TokenKind::Greater, start: s, end: s + 1 }
        }
    } else if b == 34 {
        match string_close(src, s + 1) {
            Some(close) => ScanStep::Token {
                kind: TokenKind::StringLiteral,
                start: s,
                end: close + 1,
            },
            None => ScanStep::BadString { start: s },
        }
    } else if is_digit(b) {
        ScanStep::Token { kind: TokenKind::Number, start: s, end: number_end(src, s) }
    } else if is_alpha(b) {
        ScanStep::Token {
            kind: kind_of_word(src.subrange(s, ident_end(src, s))),
            start: s,
            end: ident_end(src, s),
        }
    } else {
        ScanStep::BadChar { at: s }
    }
}

/// What one pull from cursor position `pos` produces: skip everything
/// without lexical meaning, then either end cleanly at end-of-input or
/// recognize the item that starts there.
pub open spec fn spec_step(src: Seq<u8>, pos: int) -> ScanStep {
    let s = skip_end(src, pos, false);
    if s >= src.len() {
        ScanStep::End
    } else {
        spec_token_at(src, s)
    }
}

/// Where the cursor lands after the pull: past the consumed token, just
/// past an unrecognized byte, or at end-of-input after a clean end or an
/// unterminated string.
pub open spec fn step_end(src: Seq<u8>, pos: int) -> int {
    match spec_step(src, pos) {
        ScanStep::End => src.len() as int,
        ScanStep::Token { end, .. } => end,
        ScanStep::BadChar { at } => at + 1,
        ScanStep::BadString { .. } => src.len() as int,
    }
}

/// The whole finite sequence of items that scanning from position `pos`
/// produces, in order. (The guard against a step that would not advance can
/// never fire — `lemma_step_spans` proves strict progress — but makes
/// termination of the definition itself evident.)
pub open spec fn scan_items(src: Seq<u8>, pos: int) -> Seq<ScanStep>
    decreases src.len() - pos,
{
    if !(0 <= pos <= src.len()) {
        Seq::empty()
    } else {
        let step = spec_step(src, pos);
        let next = step_end(src, pos);
        if step is End {
            Seq::empty()
        } else if pos < next <= src.len() {
            seq![step] + scan_items(src, next)
        } else {
            Seq::empty()
        }
    }
}

/// Everything a full scan of `src` produces, token and error items in scan
/// order.
pub open spec fn scan_sequence(src: Seq<u8>) -> Seq<ScanStep> {
    scan_items(src, 0)
}

/// One executable scan item carries exactly what one specification step
/// says: the same classification, span, lexeme, and error fields.
pub open spec fn item_matches(item: Result<Token, LexError>, step: ScanStep, src: Seq<u8>) -> bool {
    match step {
        ScanStep::End => false,
        ScanStep::Token { kind, start, end } => {
            &&& item matches Ok(t)
            &&& t.kind == kind
            &&& t.offset == start
            &&& t.len == end - start
            &&& t.lexeme@ == src.subrange(start, end)
        },
        ScanStep::BadChar { at } => {
            &&& item matches Err(LexError::SingleToken(e))
            &&& e.src@ == src
            &&& e.token == src[at]
            &&& e.offset == at
            &&& e.wf()
        },
        ScanStep::BadString { start } => {
            &&& item matches Err(LexError::StringTermination(e))
            &&& e.src@ == src
            &&& e.offset == start
            &&& e.wf()
        },
    }
}

/// The scanner: the source text and a cursor, advanced one item per pull.
pub struct Lexer {
    src: Vec<u8>,
    pos: usize,
}

impl Lexer {
    /// The scanned source bytes.
    pub closed spec fn src_view(&self) -> Seq<u8> {
        self.src@
    }

    /// The current cursor: the byte offset of the first unconsumed byte.
    pub closed spec fn cursor(&self) -> int {
        self.pos as int
    }

    /// The cursor never leaves the source.
    pub open spec fn wf(&self) -> bool {
        0 <= self.cursor() <= self.src_view().len()
    }

    /// A fresh scanner over `src`, cursor at the first byte.
    pub fn new(src: Vec<u8>) -> (lexer: Lexer)
        ensures
            lexer.src_view() == src@,
            lexer.cursor() == 0,
            lexer.wf(),
    {
        Lexer { src, pos: 0 }
    }

    /// Consume the span `start .. end` as one token: copy the lexeme out of
    /// the source and advance the cursor to `end`.
    fn emit(&mut self, kind: TokenKind, start: usize, end: usize) -> (t: Token)
        requires
            start <= end <= old(self).src.len(),
        ensures
            final(self).src@ == old(self).src@,
            final(self).pos == end,
            t.kind == kind,
            t.offset == start,
            t.len == end - start,
            t.lexeme@ == old(self).src@.subrange(start as int, end as int),
    {
        let lexeme = copy_range(&self.src, start, end);
        self.pos = end;
        Token { kind, offset: start, len: end - start, lexeme }
    }

    /// One pull of the scanner. Skips blanks and line comments, then either
    /// ends the sequence (cursor at end-of-input), emits the token that
    /// starts at the cursor, or emits one of the two lexical errors —
    /// exactly as `spec_step` says, with the cursor landing on `step_end`.
    /// After an unrecognized byte the cursor sits just past that one byte,
    /// so the next pull resumes immediately after it.
    pub fn next_token(&mut self) -> (r: Option<Result<Token, LexError>>)
        requires
            old(self).wf(),
        ensures
            final(self).wf(),
            final(self).src_view() == old(self).src_view(),
            final(self).cursor() == step_end(old(self).src_view(), old(self).cursor()),
            match spec_step(old(self).src_view(), old(self).cursor()) {
                ScanStep::End => r is None,
                ScanStep::Token { kind, start, end } => {
                    &&& r matches Some(Ok(t))
                    &&& t.kind == kind
                    &&& t.offset == start
                    &&& t.len == end - start
                    &&& t.lexeme@ == old(self).src_view().subrange(start, end)
                },
                ScanStep::BadChar { at } => {
                    &&& r matches Some(Err(LexError::SingleToken(e)))
                    &&& e.src@ == old(self).src_view()
                    &&& e.token == old(self).src_view()[at]
                    &&& e.offset == at
                    &&& e.wf()
                },
                ScanStep::BadString { start } => {
                    &&& r matches Some(Err(LexError::StringTermination(e)))
                    &&& e.src@ == old(self).src_view()
                    &&& e.offset == start
                    &&& e.wf()
                },
            },
    {
        let ghost src = self.src@;
        let ghost p0 = self.pos as int;
        let src_len = self.src.len();

        // Skip blanks and line comments.
        let mut in_comment = false;
        loop
            invariant
                self.src@ == src,
                src_len == src.len(),
                self.pos <= src_len,
                skip_end(src, self.pos as int, in_comment) == skip_end(src, p0, false),
            ensures
                self.src@ == src,
                self.pos <= src_len,
                self.pos as int == skip_end(src, p0, false),
                self.pos < src_len ==> !is_blank(src[self.pos as int]),
                self.pos < src_len ==> !(src[self.pos as int] == 47 && self.pos + 1 < src_len
                    && src[self.pos as int + 1] == 47),
            decreases src.len() - self.pos,
        {
            if self.pos >= src_len {
                break;
            }
            let b = self.src[self.pos];
            if in_comment {
                in_comment = b != 10;
                self.pos = self.pos + 1;
            } else if b == 32 || b == 9 || b == 13 || b == 10 {
                self.pos = self.pos + 1;
            } else if b == 47 && self.pos + 1 < src_len && self.src[self.pos + 1] == 47 {
                in_comment = true;
                self.pos = self.pos + 2;
            } else {
                break;
            }
        }

        let start = self.pos;
        if start >= src_len {
            return None;
        }
        let b = self.src[start];

        if b == 40 {
            return Some(Ok(self.emit(TokenKind::LeftParen, start, start + 1)));
        }
        if b == 41 {
            return Some(Ok(self.emit(TokenKind::RightParen, start, start + 1)));
        }
        if b == 123 {
            return Some(Ok(self.emit(TokenKind::LeftBrace, start, start + 1)));
        }
        if b == 125 {
            return Some(Ok(self.emit(TokenKind::RightBrace, start, start + 1)));
        }
        if b == 44 {
            return Some(Ok(self.emit(TokenKind::Comma, start, start + 1)));
        }
        if b == 46 {
            return Some(Ok(self.emit(TokenKind::Dot, start, start + 1)));
        }
        if b == 45 {
            return Some(Ok(self.emit(TokenKind::Minus, start, start + 1)));
        }
        if b == 43 {
            return Some(Ok(self.emit(TokenKind::Plus, start, start + 1)));
        }
        if b == 59 {
            return Some(Ok(self.emit(TokenKind::Semicolon, start, start + 1)));
        }
        if b == 42 {
            return Some(Ok(self.emit(TokenKind::Star, start, start + 1)));
        }
        if b == 47 {
            // The skip phase left this slash, so it does not open a comment.
            return Some(Ok(self.emit(TokenKind::Slash, start, start + 1)));
        }
        if b == 33 {
            if start + 1 < src_len && self.src[start + 1] == 61 {
                return Some(Ok(self.emit(TokenKind::BangEqual, start, start + 2)));
            }
            return Some(Ok(self.emit(TokenKind::Bang, start, start + 1)));
        }
        if b == 61 {
            if start + 1 < src_len && self.src[start + 1] == 61 {
                return Some(Ok(self.emit(TokenKind::EqualEqual, start, start + 2)));
            }
            return Some(Ok(self.emit(TokenKind::Equal, start, start + 1)));
        }
        if b == 60 {
            if start + 1 < src_len && self.src[start + 1] == 61 {
                return Some(Ok(self.emit(TokenKind::LessEqual, start, start + 2)));
            }
            return Some(Ok(self.emit(TokenKind::Less, start, start + 1)));
        }
        if b == 62 {
            if start + 1 < src_len && self.src[start + 1] == 61 {
                return Some(Ok(self.emit(TokenKind::GreaterEqual, start, start + 2)));
            }
            return Some(Ok(self.emit(TokenKind::Greater, start, start + 1)));
        }
        if b == 34 {
            // String literal: take bytes verbatim until the closing quote.
            let mut j = start + 1;
            loop
                invariant
                    self.src@ == src,
                    src_len == src.len(),
                    start + 1 <= j <= src_len,
                    string_close(src, start + 1) == string_close(src, j as int),
                ensures
                    self.src@ == src,
                    start + 1 <= j <= src_len,
                    j < src_len ==> string_close(src, start + 1) == Some(j as int),
                    j >= src_len ==> string_close(src, start + 1) is None,
                decreases src.len() - j,
            {
                if j >= src_len {
                    break;
                }
                if self.src[j] == 34 {
                    break;
                }
                j = j + 1;
            }
            if j < src_len {
                return Some(Ok(self.emit(TokenKind::StringLiteral, start, j + 1)));
            }
            self.pos = src_len;
            let e = StringTerminationError {
                src: copy_range(&self.src, 0, src_len),
                offset: start,
            };
            proof {
                assert(e.src@ =~= src);
            }
            return Some(Err(LexError::StringTermination(e)));
        }
        if b >= 48 && b <= 57 {
            // Number literal: a digit run, then a fraction only when a
            // digit follows the dot.
            let mut j = start;
            loop
                invariant
                    self.src@ == src,
                    src_len == src.len(),
                    start <= j <= src_len,
                    digits_end(src, start as int) == digits_end(src, j as int),
                ensures
                    self.src@ == src,
                    start <= j <= src_len,
                    j as int == digits_end(src, start as int),
                decreases src.len() - j,
            {
                if j >= src_len {
                    break;
                }
                let d = self.src[j];
                if !(d >= 48 && d <= 57) {
                    break;
                }
                j = j + 1;
            }
            let mut end = j;
            if j < src_len && self.src[j] == 46 && j + 1 < src_len {
                let after_dot = self.src[j + 1];
                if after_dot >= 48 && after_dot <= 57 {
                    let mut k = j + 2;
                    loop
                        invariant
                            self.src@ == src,
                            src_len == src.len(),
                            j + 2 <= k <= src_len,
                            digits_end(src, j + 2) == digits_end(src, k as int),
                        ensures
                            self.src@ == src,
                            j + 2 <= k <= src_len,
                            k as int == digits_end(src, j + 2),
                        decreases src.len() - k,
                    {
                        if k >= src_len {
                            break;
                        }
                        let d = self.src[k];
                        if !(d >= 48 && d <= 57) {
                            break;
                        }
                        k = k + 1;
                    }
                    end = k;
                }
            }
            return Some(Ok(self.emit(TokenKind::Number, start, end)));
        }
        if (b >= 97 && b <= 122) || (b >= 65 && b <= 90) || b == 95 {
            // Identifier or reserved word: take the full run, then look it
            // up in the keyword table.
            let mut j = start;
            loop
                invariant
                    self.src@ == src,
                    src_len == src.len(),
                    start <= j <= src_len,
                    ident_end(src, start as int) == ident_end(src, j as int),
                ensures
                    self.src@ == src,
                    start <= j <= src_len,
                    j as int == ident_end(src, start as int),
                decreases src.len() - j,
            {
                if j >= src_len {
                    break;
                }
                let d = self.src[j];
                if !((d >= 97 && d <= 122) || (d >= 65 && d <= 90) || d == 95 || (d >= 48 && d
                    <= 57)) {
                    break;
                }
                j = j + 1;
            }
            let lexeme = copy_range(&self.src, start, j);
            let kind = keyword_kind(&lexeme);
            self.pos = j;
            return Some(Ok(Token { kind, offset: start, len: j - start, lexeme }));
        }

        // No token class recognizes this byte: report it and step past it,
        // so the scan can continue.
        self.pos = start + 1;
        let e = SingleTokenError {
            src: copy_range(&self.src, 0, src_len),
            token: b,
            offset: start,
        };
        proof {
            assert(e.src@ =~= src);
        }
        Some(Err(LexError::SingleToken(e)))
    }
}

/// Scan a whole source text in one call: pull items until exhaustion and
/// return them all, tokens and errors interleaved in scan order — exactly
/// the items of `scan_sequence`, one for one.
pub fn scan_tokens(src: Vec<u8>) -> (items: Vec<Result<Token, LexError>>)
    ensures
        items@.len() == scan_sequence(src@).len(),
        forall|i: int|
            0 <= i < items@.len() ==> item_matches(items@[i], scan_sequence(src@)[i], src@),
{
    let ghost sv = src@;
    let mut lexer = Lexer::new(src);
    let mut items: Vec<Result<Token, LexError>> = Vec::new();
    loop
        invariant
            lexer.wf(),
            lexer.src_view() == sv,
            scan_items(sv, lexer.cursor()) =~= scan_sequence(sv).skip(items@.len() as int),
            items@.len() <= scan_sequence(sv).len(),
            forall|i: int|
                0 <= i < items@.len() ==> item_matches(items@[i], scan_sequence(sv)[i], sv),
        ensures
            lexer.src_view() == sv,
            scan_items(sv, lexer.cursor()).len() == 0,
            items@.len() <= scan_sequence(sv).len(),
            scan_sequence(sv).skip(items@.len() as int).len() == 0,
            forall|i: int|
                0 <= i < items@.len() ==> item_matches(items@[i], scan_sequence(sv)[i], sv),
        decreases sv.len() - lexer.cursor(),
    {
        let ghost pre = lexer.cursor();
        proof {
            crate::laws::lemma_step_spans(sv, pre);
        }
        match lexer.next_token() {
            None => {
                break;
            },
            Some(item) => {
                proof {
                    let step = spec_step(sv, pre);
                    let next = step_end(sv, pre);
                    assert(scan_items(sv, pre) == seq![step] + scan_items(sv, next));
                    assert(scan_sequence(sv).skip(items@.len() as int)[0] == step);
                    assert(item_matches(item, step, sv));
                    let prefix_len = items@.len() as int;
                    assert(scan_items(sv, next) =~= scan_items(sv, pre).skip(1));
                    assert(scan_items(sv, pre).skip(1) =~= scan_sequence(sv).skip(
                        prefix_len,
                    ).skip(1));
                    assert(scan_sequence(sv).skip(prefix_len).skip(1) =~= scan_sequence(
                        sv,
                    ).skip(prefix_len + 1));
                }
                items.push(item);
            },
        }
    }
    proof {
        assert(scan_sequence(sv).skip(items@.len() as int) =~= Seq::<ScanStep>::empty());
    }
    items
}

/// Copy the byte range `start .. end` out of `src`.
fn copy_range(src: &Vec<u8>, start: usize, end: usize) -> (r: Vec<u8>)
    requires
        start <= end <= src.len(),
    ensures
        r@ == src@.subrange(start as int, end as int),
{
    let mut r: Vec<u8> = Vec::new();
    let mut i = start;
    while i < end
        invariant
            start <= i <= end <= src.len(),
            r@ == src@.subrange(start as int, i as int),
        decreases end - i,
    {
        r.push(src[i]);
        assert(r@ =~= src@.subrange(start as int, i + 1));
        i = i + 1;
    }
    assert(r@ =~= src@.subrange(start as int, end as int));
    r
}

/// Look one identifier run up in the fixed reserved-word table.
fn keyword_kind(w: &Vec<u8>) -> (kind: TokenKind)
    ensures
        kind == kind_of_word(w@),
{
    let n = w.len();
    if n == 3 && w[0] == 97 && w[1] == 110 && w[2] == 100 {
        proof {
            assert(w@ =~= seq![97u8, 110u8, 100u8]);
        }
        return TokenKind::And;
    }
    if n == 5 && w[0] == 99 && w[1] == 108 && w[2] == 97 && w[3] == 115 && w[4] == 115 {
        proof {
            assert(w@ =~= seq![99u8, 108u8, 97u8, 115u8, 115u8]);
        }
        return TokenKind::Class;
    }
    if n == 4 && w[0] == 101 && w[1] == 108 && w[2] == 115 && w[3] == 101 {
        proof {
            assert(w@ =~= seq![101u8, 108u8, 115u8, 101u8]);
        }
        return TokenKind::Else;
    }
    if n == 5 && w[0] == 102 && w[1] == 97 && w[2] == 108 && w[3] == 115 && w[4] == 101 {
        proof {
            assert(w@ =~= seq![102u8, 97u8, 108u8, 115u8, 101u8]);
        }
        return TokenKind::False;
    }
    if n == 3 && w[0] == 102 && w[1] == 111 && w[2] == 114 {
        proof {
            assert(w@ =~= seq![102u8, 111u8, 114u8]);
        }
        return TokenKind::For;
    }
    if n == 3 && w[0] == 102 && w[1] == 117 && w[2] == 110 {
        proof {
            assert(w@ =~= seq![102u8, 117u8, 110u8]);
        }
        return TokenKind::Fun;
    }
    if n == 2 && w[0] == 105 && w[1] == 102 {
        proof {
            assert(w@ =~= seq![105u8, 102u8]);
        }
        return TokenKind::If;
    }
    if n == 3 && w[0] == 110 && w[1] == 105 && w[2] == 108 {
        proof {
            assert(w@ =~= seq![110u8, 105u8, 108u8]);
        }
        return TokenKind::Nil;
    }
    if n == 2 && w[0] == 111 && w[1] == 114 {
        proof {
            assert(w@ =~= seq![111u8, 114u8]);
        }
        return TokenKind::Or;
    }
    if n == 5 && w[0] == 112 && w[1] == 114 && w[2] == 105 && w[3] == 110 && w[4] == 116 {
        proof {
            assert(w@ =~= seq![112u8, 114u8, 105u8, 110u8, 116u8]);
        }
        return TokenKind::Print;
    }
    if n == 6 && w[0] == 114 && w[1] == 101 && w[2] == 116 && w[3] == 117 && w[4] == 114 && w[5]
        == 110 {
        proof {
            assert(w@ =~= seq![114u8, 101u8, 116u8, 117u8, 114u8, 110u8]);
        }
        return TokenKind::Return;
    }
    if n == 5 && w[0] == 115 && w[1] == 117 && w[2] == 112 && w[3] == 101 && w[4] == 114 {
        proof {
            assert(w@ =~= seq![115u8, 117u8, 112u8, 101u8, 114u8]);
        }
        return TokenKind::Super;
    }
    if n == 4 && w[0] == 116 && w[1] == 104 && w[2] == 105 && w[3] == 115 {
        proof {
            assert(w@ =~= seq![116u8, 104u8, 105u8, 115u8]);
        }
        return TokenKind::This;
    }
    if n == 4 && w[0] == 116 && w[1] == 114 && w[2] == 117 && w[3] == 101 {
        proof {
            assert(w@ =~= seq![116u8, 114u8, 117u8, 101u8]);
        }
        return TokenKind::True;
    }
    if n == 3 && w[0] == 118 && w[1] == 97 && w[2] == 114 {
        proof {
            assert(w@ =~= seq![118u8, 97u8, 114u8]);
        }
        return TokenKind::Var;
    }
    if n == 5 && w[0] == 119 && w[1] == 104 && w[2] == 105 && w[3] == 108 && w[4] == 101 {
        proof {
            assert(w@ =~= seq![119u8, 104u8, 105u8, 108u8, 101u8]);
        }
        return TokenKind::While;
    }
    TokenKind::Identifier
}

} // verus!
