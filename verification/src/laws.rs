//! Laws of the scanner, proved once over the specification functions that
//! every pull of the executable scanner is held to: where each step's span
//! sits, that no source byte is dropped or double-counted, that scanning is
//! deterministic, and that reserved words are never classified as plain
//! identifiers.

use vstd::prelude::*;

use crate::scanner::ScanStep;
use crate::scanner::digits_end;
use crate::scanner::ident_end;
use crate::scanner::is_alnum;
use crate::scanner::is_alpha;
use crate::scanner::is_blank;
use crate::scanner::is_digit;
use crate::scanner::is_keyword;
use crate::scanner::kind_of_word;
use crate::scanner::scan_sequence;
use crate::scanner::skip_end;
use crate::scanner::spec_step;
use crate::scanner::step_end;
use crate::scanner::string_close;
use crate::token::TokenKind;

verus! {

/// Skipping never moves the cursor backwards and never leaves the source.
pub proof fn lemma_skip_end_bounds(src: Seq<u8>, pos: int, in_comment: bool)
    requires
        0 <= pos <= src.len(),
    ensures
        pos <= skip_end(src, pos, in_comment) <= src.len(),
    decreases src.len() - pos,
{
    if pos >= src.len() {
    } else if in_comment {
        lemma_skip_end_bounds(src, pos + 1, src[pos] != 10);
    } else if is_blank(src[pos]) {
        lemma_skip_end_bounds(src, pos + 1, false);
    } else if src[pos] == 47 && pos + 1 < src.len() && src[pos + 1] == 47 {
        lemma_skip_end_bounds(src, pos + 2, true);
    }
}

/// A digit run ends inside the source and never before where it starts.
pub proof fn lemma_digits_end_bounds(src: Seq<u8>, pos: int)
    requires
        0 <= pos <= src.len(),
    ensures
        pos <= digits_end(src, pos) <= src.len(),
    decreases src.len() - pos,
{
    if pos < src.len() && is_digit(src[pos]) {
        lemma_digits_end_bounds(src, pos + 1);
    }
}

/// An identifier run ends inside the source and never before where it
/// starts.
pub proof fn lemma_ident_end_bounds(src: Seq<u8>, pos: int)
    requires
        0 <= pos <= src.len(),
    ensures
        pos <= ident_end(src, pos) <= src.len(),
    decreases src.len() - pos,
{
    if pos < src.len() && is_alnum(src[pos]) {
        lemma_ident_end_bounds(src, pos + 1);
    }
}

/// When a closing quote is found, it lies inside the source, at or after
/// the search start, and really is a quote.
pub proof fn lemma_string_close_bounds(src: Seq<u8>, pos: int)
    requires
        0 <= pos <= src.len(),
    ensures
        string_close(src, pos) matches Some(close) ==> pos <= close < src.len() && src[close]
            == 34,
    decreases src.len() - pos,
{
    if pos < src.len() && src[pos] != 34 {
        lemma_string_close_bounds(src, pos + 1);
    }
}

/// Where one scan step lands. Every step starts its item exactly where the
/// skipped region ends (no gap, no overlap), stays inside the source, and
/// makes strict progress unless the sequence has ended; a clean end and an
/// unterminated string leave the cursor at end-of-input.
pub proof fn lemma_step_spans(src: Seq<u8>, pos: int)
    requires
        0 <= pos <= src.len(),
    ensures
        pos <= step_end(src, pos) <= src.len(),
        spec_step(src, pos) is End ==> skip_end(src, pos, false) == src.len(),
        !(spec_step(src, pos) is End) ==> pos < step_end(src, pos),
        (match spec_step(src, pos) {
            ScanStep::End => step_end(src, pos) == src.len(),
            ScanStep::Token { start, end, .. } => {
                &&& start == skip_end(src, pos, false)
                &&& pos <= start < end <= src.len()
                &&& end == step_end(src, pos)
            },
            ScanStep::BadChar { at } => {
                &&& at == skip_end(src, pos, false)
                &&& pos <= at < src.len()
                &&& step_end(src, pos) == at + 1
            },
            ScanStep::BadString { start } => {
                &&& start == skip_end(src, pos, false)
                &&& pos <= start < src.len()
                &&& step_end(src, pos) == src.len()
            },
        }),
{
    lemma_skip_end_bounds(src, pos, false);
    let s = skip_end(src, pos, false);
    if s < src.len() {
        let b = src[s];
        if b == 34 {
            lemma_string_close_bounds(src, s + 1);
        } else if is_digit(b) {
            lemma_digits_end_bounds(src, s + 1);
            let d = digits_end(src, s);
            if d < src.len() && src[d] == 46 && d + 1 < src.len() && is_digit(src[d + 1]) {
                lemma_digits_end_bounds(src, d + 2);
            }
        } else if is_alpha(b) {
            lemma_ident_end_bounds(src, s + 1);
        }
    }
}

/// The bytes that emitted tokens and emitted error spans cover, summed
/// over the whole scan from position `pos` on: a token counts its lexeme,
/// an unrecognized byte counts one byte, and an unterminated string counts
/// everything from its opening quote to end-of-input.
pub open spec fn token_error_bytes(src: Seq<u8>, pos: int) -> int
    decreases src.len() - pos,
{
    if !(0 <= pos <= src.len()) {
        0
    } else {
        match spec_step(src, pos) {
            ScanStep::End => 0,
            ScanStep::Token { start, end, .. } => if pos < end <= src.len() {
                (end - start) + token_error_bytes(src, end)
            } else {
                0
            },
            ScanStep::BadChar { at } => if pos <= at < src.len() {
                1 + token_error_bytes(src, at + 1)
            } else {
                0
            },
            ScanStep::BadString { start } => src.len() - start,
        }
    }
}

/// The bytes skipped as whitespace or comments, summed over the whole scan
/// from position `pos` on: each step skips exactly the bytes between the
/// old cursor and the start of its item, and a clean end skips everything
/// that remains.
pub open spec fn skipped_bytes(src: Seq<u8>, pos: int) -> int
    decreases src.len() - pos,
{
    if !(0 <= pos <= src.len()) {
        0
    } else {
        match spec_step(src, pos) {
            ScanStep::End => src.len() - pos,
            ScanStep::Token { start, end, .. } => if pos < end <= src.len() {
                (start - pos) + skipped_bytes(src, end)
            } else {
                0
            },
            ScanStep::BadChar { at } => if pos <= at < src.len() {
                (at - pos) + skipped_bytes(src, at + 1)
            } else {
                0
            },
            ScanStep::BadString { start } => start - pos,
        }
    }
}

/// Law: no byte is silently dropped or double-counted. Over any source
/// text, the bytes covered by emitted tokens and emitted error spans plus
/// the bytes skipped as whitespace and comments add up to exactly the
/// length of the source.
pub proof fn lemma_no_byte_lost(src: Seq<u8>)
    ensures
        token_error_bytes(src, 0) + skipped_bytes(src, 0) == src.len(),
{
    lemma_byte_accounting(src, 0);
}

/// The same accounting from any valid cursor position: the remainder of
/// the scan covers exactly the remaining bytes.
pub proof fn lemma_byte_accounting(src: Seq<u8>, pos: int)
    requires
        0 <= pos <= src.len(),
    ensures
        token_error_bytes(src, pos) + skipped_bytes(src, pos) == src.len() - pos,
    decreases src.len() - pos,
{
    lemma_step_spans(src, pos);
    match spec_step(src, pos) {
        ScanStep::End => {
        },
        ScanStep::Token { end, .. } => {
            lemma_byte_accounting(src, end);
        },
        ScanStep::BadChar { at } => {
            lemma_byte_accounting(src, at + 1);
        },
        ScanStep::BadString { .. } => {
        },
    }
}

/// Law: scanning is deterministic. The full sequence of scan items is a
/// function of the source text alone, so two independent scanners over
/// equal sources produce identical token and error sequences.
pub proof fn lemma_scan_deterministic(first: Seq<u8>, second: Seq<u8>)
    requires
        first == second,
    ensures
        scan_sequence(first) == scan_sequence(second),
{
}

/// Law: a reserved word is never classified as a plain identifier, and
/// every identifier run that is not a reserved word — a near miss with
/// extra trailing characters included — is.
pub proof fn lemma_keyword_never_identifier(w: Seq<u8>)
    ensures
        is_keyword(w) <==> kind_of_word(w) != TokenKind::Identifier,
{
}

/// The same law at the scanner level: whenever a pull emits a token that
/// begins with an identifier byte, the token spans the whole identifier
/// run and its kind is the keyword table's verdict on exactly that lexeme.
pub proof fn lemma_scanned_word_kind(src: Seq<u8>, pos: int)
    requires
        0 <= pos <= src.len(),
    ensures
        (match spec_step(src, pos) {
            ScanStep::Token { kind, start, end } => is_alpha(src[start]) ==> {
                &&& end == ident_end(src, start)
                &&& kind == kind_of_word(src.subrange(start, end))
                &&& (kind == TokenKind::Identifier <==> !is_keyword(
                    src.subrange(start, end),
                ))
            },
            _ => true,
        }),
{
    lemma_step_spans(src, pos);
    let s = skip_end(src, pos, false);
    if s < src.len() && is_alpha(src[s]) {
        lemma_keyword_never_identifier(src.subrange(s, ident_end(src, s)));
    }
}

} // verus!
