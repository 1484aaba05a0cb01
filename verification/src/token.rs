//! The token data model: the closed catalog of token kinds and the
//! immutable classified unit the scanner emits.

use vstd::prelude::*;

verus! {

/// The closed set of token categories: single-character punctuation and
/// operators, two-character operators, literals, identifiers, and the
/// reserved keywords.
#[derive(Clone, Copy, Debug, PartialEq, Eq, Structural)]
pub enum TokenKind {
    LeftParen,
    RightParen,
    LeftBrace,
    RightBrace,
    Comma,
    Dot,
    Minus,
    Plus,
    Semicolon,
    Star,
    Slash,
    Bang,
    BangEqual,
    Equal,
    EqualEqual,
    Less,
    LessEqual,
    Greater,
    GreaterEqual,
    StringLiteral,
    Number,
    Identifier,
    And,
    Class,
    Else,
    False,
    For,
    Fun,
    If,
    Nil,
    Or,
    Print,
    Return,
    Super,
    This,
    True,
    Var,
    While,
}

/// One classified unit of lexical text. `lexeme` is the exact run of source
/// bytes the token spans, and `offset`/`len` locate that run in the source:
/// the token covers the byte range `offset .. offset + len`.
#[derive(Clone, Debug)]
pub struct Token {
    pub kind: TokenKind,
    pub offset: usize,
    pub len: usize,
    pub lexeme: Vec<u8>,
}

impl Token {
    /// The lexeme agrees with the span the token claims in `src`.
    pub open spec fn spans(&self, src: Seq<u8>) -> bool {
        &&& self.offset + self.len <= src.len()
        &&& self.len == self.lexeme@.len()
        &&& self.lexeme@ == src.subrange(self.offset as int, self.offset + self.len)
    }

    /// The decoded value of a string literal: the bytes between the two
    /// quotes, kept verbatim (no escape processing).
    pub fn string_content(&self) -> (content: Vec<u8>)
        requires
            self.kind == TokenKind::StringLiteral,
            self.lexeme@.len() >= 2,
        ensures
            content@ == self.lexeme@.subrange(1, self.lexeme@.len() - 1),
    {
        let end = self.lexeme.len() - 1;
        let mut content: Vec<u8> = Vec::new();
        let mut i: usize = 1;
        while i < end
            invariant
                1 <= i <= end,
                end == self.lexeme@.len() - 1,
                content@ == self.lexeme@.subrange(1, i as int),
            decreases end - i,
        {
            content.push(self.lexeme[i]);
            assert(content@ =~= self.lexeme@.subrange(1, i + 1));
            i = i + 1;
        }
        assert(content@ =~= self.lexeme@.subrange(1, self.lexeme@.len() - 1));
        content
    }
}

} // verus!
