use callscript::lexer::{LexErrorKind, Lexer};
use callscript::text::decode_escapes;
use callscript::tokens::{Token, TokenKind};

fn lex(src: &str) -> Result<Vec<Token>, callscript::lexer::LexError> {
    let mut lexer = Lexer::new(src.to_string(), "main.cs".to_string());
    lexer.lex().map(|_| lexer.output_tokens)
}

#[test]
fn tokenize_print_call() {
    let tokens = lex("print(\"hi\");").unwrap();
    let kinds: Vec<TokenKind> = tokens.iter().map(|t| t.kind).collect();
    assert_eq!(
        kinds,
        vec![
            TokenKind::Identifier,
            TokenKind::OParen,
            TokenKind::String,
            TokenKind::CParen,
            TokenKind::Semicolon
        ]
    );
    let values: Vec<&str> = tokens.iter().map(|t| t.value.as_str()).collect();
    assert_eq!(values, vec!["print", "(", "hi", ")", ";"]);
    let starts: Vec<usize> = tokens.iter().map(|t| t.location.start_col).collect();
    assert_eq!(starts, vec![1, 6, 7, 11, 12]);
    let ends: Vec<usize> = tokens.iter().map(|t| t.location.end_col).collect();
    assert_eq!(ends, vec![5, 6, 10, 11, 12]);
    for pair in tokens.windows(2) {
        assert!(pair[0].location.start_col <= pair[1].location.start_col);
    }
    for t in &tokens {
        assert_eq!(t.location.start_line, 1);
        assert_eq!(t.location.end_line, 1);
        assert_eq!(t.location.file_path, "main.cs");
        assert_eq!(t.location.line, "print(\"hi\");");
    }
}

#[test]
fn comment_line_gives_no_tokens() {
    let tokens = lex("// print(\"x\");\nprint(\"a\");").unwrap();
    assert_eq!(tokens.len(), 5);
    assert!(tokens.iter().all(|t| t.location.start_line == 2));
    assert_eq!(tokens[2].value, "a");
}

#[test]
fn indented_comment_line_gives_no_tokens() {
    let tokens = lex("   \t// print(\"x\");\n").unwrap();
    assert!(tokens.is_empty());
    let tokens = lex("print(\"a\");\n  // print(\"b\");\nprint(\"c\");").unwrap();
    assert_eq!(tokens.len(), 10);
    assert_eq!(tokens[7].value, "c");
    assert_eq!(tokens[7].location.start_line, 3);
}

#[test]
fn empty_source_gives_no_tokens() {
    assert!(lex("").unwrap().is_empty());
    assert!(lex(" \n\t\n").unwrap().is_empty());
}

#[test]
fn identifier_runs_over_alphanumerics() {
    let tokens = lex("abc12 x").unwrap();
    assert_eq!(tokens.len(), 2);
    assert_eq!(tokens[0].value, "abc12");
    assert_eq!(tokens[0].location.start_col, 1);
    assert_eq!(tokens[0].location.end_col, 5);
    assert_eq!(tokens[1].value, "x");
    assert_eq!(tokens[1].location.start_col, 7);
    let tokens = lex("ab").unwrap();
    assert_eq!(tokens.len(), 1);
    assert_eq!(tokens[0].value, "ab");
}

#[test]
fn lines_and_columns_follow_newlines() {
    let tokens = lex("print(\"a\");\n  print(\"b\");").unwrap();
    assert_eq!(tokens.len(), 10);
    let second = &tokens[5];
    assert_eq!(second.value, "print");
    assert_eq!(second.location.start_line, 2);
    assert_eq!(second.location.start_col, 3);
    assert_eq!(second.location.line, "  print(\"b\");");
}

#[test]
fn string_keeps_raw_escape_text() {
    let tokens = lex("print(\"a\\nb\");").unwrap();
    assert_eq!(tokens[2].kind, TokenKind::String);
    assert_eq!(tokens[2].value, "a\\nb");
}

#[test]
fn string_may_span_lines() {
    let tokens = lex("print(\"a\nb\");").unwrap();
    assert_eq!(tokens[2].value, "a\nb");
    assert_eq!(tokens[2].location.start_line, 1);
    assert_eq!(tokens[2].location.end_line, 2);
    assert_eq!(tokens[2].location.end_col, 2);
    assert_eq!(tokens[3].kind, TokenKind::CParen);
    assert_eq!(tokens[3].location.start_line, 2);
    assert_eq!(tokens[3].location.start_col, 3);
}

#[test]
fn numeric_literal_is_rejected_by_lexer() {
    let err = lex("print(42);").unwrap_err();
    assert_eq!(err.kind, LexErrorKind::UnexpectedCharacter('4'));
    assert_eq!(err.location.start_line, 1);
    assert_eq!(err.location.start_col, 7);
}

#[test]
fn unexpected_character_is_reported() {
    let err = lex("print(\"a\") + ;").unwrap_err();
    assert_eq!(err.kind, LexErrorKind::UnexpectedCharacter('+'));
    assert_eq!(err.location.start_col, 12);
}

#[test]
fn unterminated_string_reports_opening_quote() {
    let err = lex("print(\"abc").unwrap_err();
    assert_eq!(err.kind, LexErrorKind::UnterminatedString);
    assert_eq!(err.location.start_line, 1);
    assert_eq!(err.location.start_col, 7);
    let err = lex("\nprint(\"abc\n\n").unwrap_err();
    assert_eq!(err.kind, LexErrorKind::UnterminatedString);
    assert_eq!(err.location.start_line, 2);
    assert_eq!(err.location.start_col, 7);
    assert_eq!(err.location.line, "print(\"abc");
}

#[test]
fn escape_decoding() {
    assert_eq!(decode_escapes(&"a\\nb".to_string()), "a\nb");
    assert_eq!(decode_escapes(&"\\n\\n".to_string()), "\n\n");
    assert_eq!(decode_escapes(&"plain text\\t".to_string()), "plain text\\t");
    assert_eq!(decode_escapes(&"\\\\n".to_string()), "\\\n");
    assert_eq!(decode_escapes(&"ends\\".to_string()), "ends\\");
    assert_eq!(decode_escapes(&String::new()), "");
}
