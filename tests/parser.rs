use callscript::ast::{Node, NodeKind};
use callscript::lexer::Lexer;
use callscript::parser::{ParseError, ParseErrorKind, Parser};
use callscript::tokens::TokenKind;

fn parse(src: &str) -> Result<Vec<Node>, ParseError> {
    let mut lexer = Lexer::new(src.to_string(), "main.cs".to_string());
    lexer.lex().unwrap();
    let mut parser = Parser::new(lexer.output_tokens);
    parser.parse().map(|_| parser.output_nodes)
}

fn texts(args: &[Node]) -> Vec<String> {
    args.iter()
        .map(|a| match &a.kind {
            NodeKind::String(s) => s.clone(),
            NodeKind::FunctionCall(_, _) => panic!("not a literal"),
        })
        .collect()
}

#[test]
fn parse_empty_token_sequence() {
    let mut parser = Parser::new(Vec::new());
    assert!(parser.parse().is_ok());
    assert!(parser.output_nodes.is_empty());
}

#[test]
fn parse_call_with_arguments() {
    let nodes = parse("print(\"a\", \"b\");\nsyscall(\"echo\");").unwrap();
    assert_eq!(nodes.len(), 2);
    match &nodes[0].kind {
        NodeKind::FunctionCall(name, args) => {
            assert_eq!(name, "print");
            assert_eq!(texts(args), vec!["a", "b"]);
            assert_eq!(args[1].location.start_col, 12);
        }
        NodeKind::String(_) => panic!("not a call"),
    }
    assert_eq!(nodes[0].location.start_col, 1);
    assert_eq!(nodes[1].location.start_line, 2);
    match &nodes[1].kind {
        NodeKind::FunctionCall(name, args) => {
            assert_eq!(name, "syscall");
            assert_eq!(texts(args), vec!["echo"]);
        }
        NodeKind::String(_) => panic!("not a call"),
    }
}

#[test]
fn parse_decodes_newline_escape() {
    let nodes = parse("print(\"x\\ny\");").unwrap();
    match &nodes[0].kind {
        NodeKind::FunctionCall(_, args) => assert_eq!(texts(args), vec!["x\ny"]),
        NodeKind::String(_) => panic!("not a call"),
    }
}

#[test]
fn parse_accepts_loose_commas() {
    let nodes = parse("print(,\"a\",,\"b\",);").unwrap();
    match &nodes[0].kind {
        NodeKind::FunctionCall(_, args) => assert_eq!(texts(args), vec!["a", "b"]),
        NodeKind::String(_) => panic!("not a call"),
    }
    let nodes = parse("foo();").unwrap();
    match &nodes[0].kind {
        NodeKind::FunctionCall(name, args) => {
            assert_eq!(name, "foo");
            assert!(args.is_empty());
        }
        NodeKind::String(_) => panic!("not a call"),
    }
}

#[test]
fn parse_rejects_leading_non_identifier() {
    let err = parse("\"a\";").unwrap_err();
    assert_eq!(err.kind, ParseErrorKind::UnexpectedToken(TokenKind::String));
    assert_eq!(err.token.value, "a");
}

#[test]
fn parse_requires_open_paren() {
    let err = parse("print;").unwrap_err();
    assert_eq!(err.kind, ParseErrorKind::ExpectedToken(TokenKind::OParen));
    assert_eq!(err.token.value, "print");
    assert_eq!(err.token.location.start_col, 5);
    assert_eq!(err.token.location.end_col, 5);
    assert_eq!(err.next.as_ref().unwrap().kind, TokenKind::Semicolon);
    let err = parse("print").unwrap_err();
    assert_eq!(err.kind, ParseErrorKind::ExpectedToken(TokenKind::OParen));
    assert_eq!(err.token.location.start_col, 1);
    assert!(err.next.is_none());
}

#[test]
fn parse_requires_argument_tokens() {
    let err = parse("print(;").unwrap_err();
    assert_eq!(err.kind, ParseErrorKind::ExpectedArgument);
    assert_eq!(err.token.value, "(");
    assert_eq!(err.next.as_ref().unwrap().kind, TokenKind::Semicolon);
    let err = parse("print(\"a\"").unwrap_err();
    assert_eq!(err.kind, ParseErrorKind::ExpectedArgument);
    assert_eq!(err.token.value, "a");
    assert!(err.next.is_none());
}

#[test]
fn parse_requires_semicolon() {
    let err = parse("print(\"a\")").unwrap_err();
    assert_eq!(err.kind, ParseErrorKind::ExpectedToken(TokenKind::Semicolon));
    assert_eq!(err.token.kind, TokenKind::CParen);
    assert_eq!(err.token.location.start_col, 10);
    assert!(err.next.is_none());
    let err = parse("print(\"a\") x").unwrap_err();
    assert_eq!(err.kind, ParseErrorKind::ExpectedToken(TokenKind::Semicolon));
    assert_eq!(err.token.location.start_col, 10);
    assert_eq!(err.token.location.end_col, 10);
    assert_eq!(err.next.as_ref().unwrap().value, "x");
}

#[test]
fn parse_marks_column_after_multi_column_token() {
    let err = parse("print print").unwrap_err();
    assert_eq!(err.kind, ParseErrorKind::ExpectedToken(TokenKind::OParen));
    assert_eq!(err.token.location.start_col, 5);
    assert_eq!(err.token.location.end_col, 5);
}
