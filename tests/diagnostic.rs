use callscript::diagnostic::{
    lex_diagnostic, parse_diagnostic, runtime_diagnostic, statement_diagnostic,
};
use callscript::interpreter::Interpreter;
use callscript::lexer::Lexer;
use callscript::parser::Parser;

fn lexer_for(src: &str) -> Lexer {
    Lexer::new(src.to_string(), "main.cs".to_string())
}

#[test]
fn lexer_diagnostic_points_at_column() {
    let mut lexer = lexer_for("print(42);");
    let err = lexer.lex().unwrap_err();
    assert_eq!(
        lex_diagnostic(&err),
        "[Error]\nUnexpected character '4'\n\n[Location] main.cs:1:7\n   |\n 1 | print(42);\n   |       ^\n"
    );
}

#[test]
fn unterminated_string_diagnostic_names_opening() {
    let mut lexer = lexer_for("\n\n\n\n\n\n\n\n\n\nprint(\"abc");
    let err = lexer.lex().unwrap_err();
    assert_eq!(
        lex_diagnostic(&err),
        "[Error]\nMissing end of string '\"' since line 11 at column 7\n\n[Location] main.cs:11:7\n    |\n 11 | print(\"abc\n    |       ^\n"
    );
}

#[test]
fn parser_diagnostic_at_end_of_file() {
    let mut lexer = lexer_for("print(\"a\")");
    lexer.lex().unwrap();
    let mut parser = Parser::new(lexer.output_tokens);
    let err = parser.parse().unwrap_err();
    assert_eq!(
        parse_diagnostic(&err),
        "[Error]\nExpected token after ')' to be of kind 'Semicolon', but is end of file.\n\n[Location] main.cs:1:10\n   |\n 1 | print(\"a\")\n   |          ^\n"
    );
}

#[test]
fn parser_diagnostic_after_wrong_token() {
    let mut lexer = lexer_for("print print");
    lexer.lex().unwrap();
    let mut parser = Parser::new(lexer.output_tokens);
    let err = parser.parse().unwrap_err();
    assert_eq!(
        parse_diagnostic(&err),
        "[Error]\nExpected token after 'print' to be of kind 'OParen', but found 'print' which is of kind 'Identifier'\n\n[Location] main.cs:1:5\n   |\n 1 | print print\n   |     ^\n"
    );
}

#[test]
fn parser_diagnostic_for_argument_list() {
    let mut lexer = lexer_for("print(;");
    lexer.lex().unwrap();
    let mut parser = Parser::new(lexer.output_tokens);
    let err = parser.parse().unwrap_err();
    assert_eq!(
        parse_diagnostic(&err),
        "[Error]\nExpected token after '(' to be either of kinds '[CParen, String, Comma]', but found ';' which is of kind 'Semicolon'.\n\n[Location] main.cs:1:6\n   |\n 1 | print(;\n   |      ^\n"
    );
}

#[test]
fn parser_diagnostic_for_leading_token() {
    let mut lexer = lexer_for("\"ab\";");
    lexer.lex().unwrap();
    let mut parser = Parser::new(lexer.output_tokens);
    let err = parser.parse().unwrap_err();
    assert_eq!(
        parse_diagnostic(&err),
        "[Error]\nUnexpected token kind 'String'\n\n[Location] main.cs:1:1\n   |\n 1 | \"ab\";\n   | ^^^^\n"
    );
}

#[test]
fn runtime_diagnostic_underlines_line() {
    let mut lexer = lexer_for("foo();");
    lexer.lex().unwrap();
    let mut parser = Parser::new(lexer.output_tokens);
    parser.parse().unwrap();
    let (_, err) = Interpreter::new(parser.output_nodes).interpret();
    let err = err.unwrap();
    assert_eq!(
        runtime_diagnostic(&err),
        "[Error]\nInvalid function 'foo'\n\n[Location] main.cs:1:1\n   |\n 1 | foo();\n   | ^^^^^^\n"
    );
    let text = statement_diagnostic(&"Could not execute command.".to_string(), &err.location);
    assert!(text.starts_with("[Error]\nCould not execute command.\n\n[Location] main.cs:1:1\n"));
}

#[test]
fn insufficient_arguments_diagnostic() {
    let mut lexer = lexer_for("syscall();");
    lexer.lex().unwrap();
    let mut parser = Parser::new(lexer.output_tokens);
    parser.parse().unwrap();
    let (_, err) = Interpreter::new(parser.output_nodes).interpret();
    let text = runtime_diagnostic(&err.unwrap());
    assert!(text.starts_with(
        "[Error]\nInsufficient amount of arguments for function 'syscall', at least 1 required.\n[Help]\n([command_name], [arguments]...)\nAll the arguments are strings.\n\n"
    ));
}
