use lox::error::LexError;
use lox::scanner::scan_tokens;
use lox::token::Token;
use lox::token::TokenKind;
use lox::Lexer;

fn pull_all(source: &[u8]) -> (Vec<Token>, Vec<LexError>) {
    let mut lexer = Lexer::new(source.to_vec());
    let mut tokens = Vec::new();
    let mut errors = Vec::new();
    while let Some(item) = lexer.next_token() {
        match item {
            Ok(t) => tokens.push(t),
            Err(e) => errors.push(e),
        }
    }
    (tokens, errors)
}

#[test]
fn left_paren_alone() {
    let (tokens, errors) = pull_all(b"(");
    assert_eq!(errors.len(), 0);
    assert_eq!(tokens.len(), 1);
    assert_eq!(tokens[0].kind, TokenKind::LeftParen);
    assert_eq!(tokens[0].lexeme, b"(".to_vec());
    assert_eq!(tokens[0].offset, 0);
    assert_eq!(tokens[0].len, 1);
}

#[test]
fn right_paren_alone() {
    let (tokens, errors) = pull_all(b")");
    assert_eq!(errors.len(), 0);
    assert_eq!(tokens.len(), 1);
    assert_eq!(tokens[0].kind, TokenKind::RightParen);
    assert_eq!(tokens[0].lexeme, b")".to_vec());
}

#[test]
fn three_parens_no_errors() {
    let (tokens, errors) = pull_all(b"(()");
    assert_eq!(errors.len(), 0);
    assert_eq!(tokens.len(), 3);
    assert_eq!(tokens[0].kind, TokenKind::LeftParen);
    assert_eq!(tokens[1].kind, TokenKind::LeftParen);
    assert_eq!(tokens[2].kind, TokenKind::RightParen);
    assert_eq!(tokens[0].offset, 0);
    assert_eq!(tokens[1].offset, 1);
    assert_eq!(tokens[2].offset, 2);
}

#[test]
fn unexpected_character_reports_line_one_and_recovers() {
    let mut lexer = Lexer::new(b"@".to_vec());
    let first = lexer.next_token().expect("one item expected");
    match first {
        Err(LexError::SingleToken(e)) => {
            assert_eq!(e.token, b'@');
            assert_eq!(e.offset, 0);
            assert_eq!(e.line(), 1);
        }
        other => panic!("expected an unexpected-character error, got {:?}", other),
    }
    // The scan reaches end-of-input cleanly afterwards.
    assert!(lexer.next_token().is_none());
}

#[test]
fn unexpected_character_never_stops_the_scan() {
    let (tokens, errors) = pull_all(b"@(#)");
    assert_eq!(tokens.len(), 2);
    assert_eq!(tokens[0].kind, TokenKind::LeftParen);
    assert_eq!(tokens[1].kind, TokenKind::RightParen);
    assert_eq!(errors.len(), 2);
    match (&errors[0], &errors[1]) {
        (LexError::SingleToken(a), LexError::SingleToken(b)) => {
            assert_eq!(a.token, b'@');
            assert_eq!(a.offset, 0);
            assert_eq!(b.token, b'#');
            assert_eq!(b.offset, 2);
        }
        other => panic!("expected two unexpected-character errors, got {:?}", other),
    }
}

#[test]
fn unterminated_string_reports_line_and_emits_no_token() {
    let (tokens, errors) = pull_all(b"\"abc");
    assert_eq!(tokens.len(), 0);
    assert_eq!(errors.len(), 1);
    match &errors[0] {
        LexError::StringTermination(e) => {
            assert_eq!(e.offset, 0);
            assert_eq!(e.line(), 1);
        }
        other => panic!("expected an unterminated-string error, got {:?}", other),
    }
}

#[test]
fn unterminated_string_on_later_line() {
    let (tokens, errors) = pull_all(b"(\n)\n\"oops");
    assert_eq!(tokens.len(), 2);
    assert_eq!(errors.len(), 1);
    match &errors[0] {
        LexError::StringTermination(e) => {
            assert_eq!(e.offset, 4);
            assert_eq!(e.line(), 3);
        }
        other => panic!("expected an unterminated-string error, got {:?}", other),
    }
}

#[test]
fn bang_equal_is_one_token() {
    let (tokens, errors) = pull_all(b"!=");
    assert_eq!(errors.len(), 0);
    assert_eq!(tokens.len(), 1);
    assert_eq!(tokens[0].kind, TokenKind::BangEqual);
    assert_eq!(tokens[0].lexeme, b"!=".to_vec());
    assert_eq!(tokens[0].len, 2);
}

#[test]
fn bang_at_end_of_input_is_one_token() {
    let (tokens, errors) = pull_all(b"!");
    assert_eq!(errors.len(), 0);
    assert_eq!(tokens.len(), 1);
    assert_eq!(tokens[0].kind, TokenKind::Bang);
    assert_eq!(tokens[0].len, 1);
}

#[test]
fn two_character_operators_take_priority() {
    let (tokens, errors) = pull_all(b"== <= >= != = < > !");
    assert_eq!(errors.len(), 0);
    let kinds: Vec<TokenKind> = tokens.iter().map(|t| t.kind).collect();
    assert_eq!(
        kinds,
        vec![
            TokenKind::EqualEqual,
            TokenKind::LessEqual,
            TokenKind::GreaterEqual,
            TokenKind::BangEqual,
            TokenKind::Equal,
            TokenKind::Less,
            TokenKind::Greater,
            TokenKind::Bang,
        ]
    );
}

#[test]
fn fault_on_line_three_reports_line_three() {
    // Newlines strictly before the offending offset decide the line,
    // whatever the lines hold.
    let (tokens, errors) = pull_all(b"( ) (\n\"within a string\" var x\n1.5 @\n");
    assert!(tokens.len() > 0);
    assert_eq!(errors.len(), 1);
    match &errors[0] {
        LexError::SingleToken(e) => {
            assert_eq!(e.token, b'@');
            assert_eq!(e.line(), 3);
        }
        other => panic!("expected an unexpected-character error, got {:?}", other),
    }
}

#[test]
fn scanning_twice_is_deterministic() {
    let source = b"var x = 1.5; // set\n\"two\nlines\" @ while (x != 2) { print x; }";
    let (tokens_a, errors_a) = pull_all(source);
    let (tokens_b, errors_b) = pull_all(source);
    assert_eq!(tokens_a.len(), tokens_b.len());
    assert_eq!(errors_a.len(), errors_b.len());
    for (a, b) in tokens_a.iter().zip(tokens_b.iter()) {
        assert_eq!(a.kind, b.kind);
        assert_eq!(a.offset, b.offset);
        assert_eq!(a.len, b.len);
        assert_eq!(a.lexeme, b.lexeme);
    }
    for (a, b) in errors_a.iter().zip(errors_b.iter()) {
        match (a, b) {
            (LexError::SingleToken(x), LexError::SingleToken(y)) => {
                assert_eq!(x.token, y.token);
                assert_eq!(x.offset, y.offset);
            }
            (LexError::StringTermination(x), LexError::StringTermination(y)) => {
                assert_eq!(x.offset, y.offset);
            }
            other => panic!("variant mismatch between two scans: {:?}", other),
        }
    }
}

#[test]
fn scan_tokens_agrees_with_pulling_one_by_one() {
    let source = b"fun f(a, b) { return a + b; } // done\n\"s\" 3.25 @";
    let items = scan_tokens(source.to_vec());
    let (tokens, errors) = pull_all(source);
    let pulled: usize = tokens.len() + errors.len();
    assert_eq!(items.len(), pulled);
    let mut ti = 0;
    let mut ei = 0;
    for item in &items {
        match item {
            Ok(t) => {
                assert_eq!(t.kind, tokens[ti].kind);
                assert_eq!(t.offset, tokens[ti].offset);
                assert_eq!(t.lexeme, tokens[ti].lexeme);
                ti += 1;
            }
            Err(_) => {
                ei += 1;
            }
        }
    }
    assert_eq!(ti, tokens.len());
    assert_eq!(ei, errors.len());
}

#[test]
fn every_keyword_gets_its_own_kind() {
    let source = b"and class else false for fun if nil or print return super this true var while";
    let (tokens, errors) = pull_all(source);
    assert_eq!(errors.len(), 0);
    let kinds: Vec<TokenKind> = tokens.iter().map(|t| t.kind).collect();
    assert_eq!(
        kinds,
        vec![
            TokenKind::And,
            TokenKind::Class,
            TokenKind::Else,
            TokenKind::False,
            TokenKind::For,
            TokenKind::Fun,
            TokenKind::If,
            TokenKind::Nil,
            TokenKind::Or,
            TokenKind::Print,
            TokenKind::Return,
            TokenKind::Super,
            TokenKind::This,
            TokenKind::True,
            TokenKind::Var,
            TokenKind::While,
        ]
    );
    assert!(kinds.iter().all(|k| *k != TokenKind::Identifier));
}

#[test]
fn keyword_near_miss_is_a_plain_identifier() {
    let (tokens, errors) = pull_all(b"orchid classy whiles _var and2");
    assert_eq!(errors.len(), 0);
    assert_eq!(tokens.len(), 5);
    for t in &tokens {
        assert_eq!(t.kind, TokenKind::Identifier);
    }
    assert_eq!(tokens[0].lexeme, b"orchid".to_vec());
}

#[test]
fn string_literal_spans_quotes_and_content_drops_them() {
    let (tokens, errors) = pull_all(b"\"hi\"");
    assert_eq!(errors.len(), 0);
    assert_eq!(tokens.len(), 1);
    assert_eq!(tokens[0].kind, TokenKind::StringLiteral);
    assert_eq!(tokens[0].lexeme, b"\"hi\"".to_vec());
    assert_eq!(tokens[0].string_content(), b"hi".to_vec());
}

#[test]
fn string_keeps_embedded_newlines_verbatim() {
    let (tokens, errors) = pull_all(b"\"a\nb\" @");
    assert_eq!(errors.len(), 1);
    assert_eq!(tokens.len(), 1);
    assert_eq!(tokens[0].string_content(), b"a\nb".to_vec());
    match &errors[0] {
        // The newline inside the string still advances the line counter.
        LexError::SingleToken(e) => assert_eq!(e.line(), 2),
        other => panic!("expected an unexpected-character error, got {:?}", other),
    }
}

#[test]
fn empty_string_literal() {
    let (tokens, errors) = pull_all(b"\"\"");
    assert_eq!(errors.len(), 0);
    assert_eq!(tokens.len(), 1);
    assert_eq!(tokens[0].kind, TokenKind::StringLiteral);
    assert_eq!(tokens[0].string_content(), b"".to_vec());
}

#[test]
fn number_with_fraction_is_one_token() {
    let (tokens, errors) = pull_all(b"12.34");
    assert_eq!(errors.len(), 0);
    assert_eq!(tokens.len(), 1);
    assert_eq!(tokens[0].kind, TokenKind::Number);
    assert_eq!(tokens[0].lexeme, b"12.34".to_vec());
}

#[test]
fn trailing_dot_is_not_part_of_the_number() {
    let (tokens, errors) = pull_all(b"12.");
    assert_eq!(errors.len(), 0);
    assert_eq!(tokens.len(), 2);
    assert_eq!(tokens[0].kind, TokenKind::Number);
    assert_eq!(tokens[0].lexeme, b"12".to_vec());
    assert_eq!(tokens[1].kind, TokenKind::Dot);
}

#[test]
fn second_dot_starts_a_new_token() {
    let (tokens, errors) = pull_all(b"1.2.3");
    assert_eq!(errors.len(), 0);
    let kinds: Vec<TokenKind> = tokens.iter().map(|t| t.kind).collect();
    assert_eq!(kinds, vec![TokenKind::Number, TokenKind::Dot, TokenKind::Number]);
    assert_eq!(tokens[0].lexeme, b"1.2".to_vec());
    assert_eq!(tokens[2].lexeme, b"3".to_vec());
}

#[test]
fn comments_run_to_end_of_line() {
    let (tokens, errors) = pull_all(b"// nothing here ((((\n* // again\n");
    assert_eq!(errors.len(), 0);
    assert_eq!(tokens.len(), 1);
    assert_eq!(tokens[0].kind, TokenKind::Star);
    assert_eq!(tokens[0].offset, 21);
}

#[test]
fn slash_alone_is_a_token() {
    let (tokens, errors) = pull_all(b"/ 2");
    assert_eq!(errors.len(), 0);
    assert_eq!(tokens.len(), 2);
    assert_eq!(tokens[0].kind, TokenKind::Slash);
    assert_eq!(tokens[1].kind, TokenKind::Number);
}

#[test]
fn empty_source_yields_nothing() {
    let (tokens, errors) = pull_all(b"");
    assert_eq!(tokens.len(), 0);
    assert_eq!(errors.len(), 0);
}

#[test]
fn whitespace_only_source_yields_nothing() {
    let (tokens, errors) = pull_all(b" \t\r\n \n");
    assert_eq!(tokens.len(), 0);
    assert_eq!(errors.len(), 0);
}

/// A gap between item spans may hold only whitespace and line comments.
fn assert_gap_is_skippable(source: &[u8], from: usize, to: usize) {
    let mut i = from;
    while i < to {
        let b = source[i];
        if b == b' ' || b == b'\t' || b == b'\r' || b == b'\n' {
            i += 1;
        } else if b == b'/' && i + 1 < to && source[i + 1] == b'/' {
            while i < to && source[i] != b'\n' {
                i += 1;
            }
        } else {
            panic!("gap byte {} at offset {} is not skippable", b, i);
        }
    }
}

#[test]
fn every_byte_is_consumed_exactly_once() {
    // Token spans, single-byte error spans, and skipped whitespace and
    // comments tile the source: consecutive items never overlap, and the
    // gaps between them hold only skippable bytes, so span bytes plus
    // skipped bytes add up to the whole source.
    let source: &[u8] = b"var x = 1.5; // set\n\"two\nlines\" @ while (x != 2) { print x; }";
    let items = scan_tokens(source.to_vec());
    let mut covered = 0usize; // bytes covered by token and error spans
    let mut last_end = 0usize;
    for item in &items {
        let (start, end) = match item {
            Ok(t) => (t.offset, t.offset + t.len),
            Err(LexError::SingleToken(e)) => (e.offset, e.offset + 1),
            Err(LexError::StringTermination(e)) => (e.offset, source.len()),
        };
        assert!(last_end <= start, "spans must not overlap or go backwards");
        assert!(end <= source.len());
        assert_gap_is_skippable(source, last_end, start);
        covered += end - start;
        last_end = end;
    }
    assert_gap_is_skippable(source, last_end, source.len());
    let skipped: usize = (source.len() - last_end) + (last_end - covered);
    assert_eq!(covered + skipped, source.len());
}

#[test]
fn line_method_agrees_for_both_variants() {
    let (_, errors) = pull_all(b"\n\n@ \"x");
    assert_eq!(errors.len(), 2);
    assert_eq!(errors[0].line(), 3);
    assert_eq!(errors[1].line(), 3);
    match &errors[1] {
        LexError::StringTermination(e) => assert_eq!(e.offset, 4),
        other => panic!("expected an unterminated-string error, got {:?}", other),
    }
}

#[test]
fn identifier_with_digits_and_underscores() {
    let (tokens, errors) = pull_all(b"a1_b2 _x");
    assert_eq!(errors.len(), 0);
    assert_eq!(tokens.len(), 2);
    assert_eq!(tokens[0].kind, TokenKind::Identifier);
    assert_eq!(tokens[0].lexeme, b"a1_b2".to_vec());
    assert_eq!(tokens[1].lexeme, b"_x".to_vec());
}

#[test]
fn mixed_statement_scans_in_order() {
    let (tokens, errors) = pull_all(b"print(1 + 2.5);");
    assert_eq!(errors.len(), 0);
    let kinds: Vec<TokenKind> = tokens.iter().map(|t| t.kind).collect();
    assert_eq!(
        kinds,
        vec![
            TokenKind::Print,
            TokenKind::LeftParen,
            TokenKind::Number,
            TokenKind::Plus,
            TokenKind::Number,
            TokenKind::RightParen,
            TokenKind::Semicolon,
        ]
    );
}

#[test]
fn braces_comma_dot_minus_star() {
    let (tokens, errors) = pull_all(b"{},.-*");
    assert_eq!(errors.len(), 0);
    let kinds: Vec<TokenKind> = tokens.iter().map(|t| t.kind).collect();
    assert_eq!(
        kinds,
        vec![
            TokenKind::LeftBrace,
            TokenKind::RightBrace,
            TokenKind::Comma,
            TokenKind::Dot,
            TokenKind::Minus,
            TokenKind::Star,
        ]
    );
}
