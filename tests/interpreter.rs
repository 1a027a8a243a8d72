use callscript::ast::{Node, NodeKind};
use callscript::interpreter::{
    builtin_of, forwarded_output, Action, Builtin, Interpreter, RuntimeError, RuntimeErrorKind,
};
use callscript::lexer::Lexer;
use callscript::parser::Parser;
use callscript::tokens::Location;

fn run(src: &str) -> (Vec<Action>, Option<RuntimeError>) {
    let mut lexer = Lexer::new(src.to_string(), "main.cs".to_string());
    lexer.lex().unwrap();
    let mut parser = Parser::new(lexer.output_tokens);
    parser.parse().unwrap();
    Interpreter::new(parser.output_nodes).interpret()
}

fn loc() -> Location {
    Location {
        start_col: 1,
        end_col: 1,
        start_line: 1,
        end_line: 1,
        file_path: "main.cs".to_string(),
        line: "x".to_string(),
    }
}

fn literal(s: &str) -> Node {
    Node { kind: NodeKind::String(s.to_string()), location: loc() }
}

fn call(name: &str, args: Vec<Node>) -> Node {
    Node { kind: NodeKind::FunctionCall(name.to_string(), args), location: loc() }
}

fn written(actions: &[Action]) -> String {
    let mut out = String::new();
    for a in actions {
        if let Action::Write(s) = a {
            out.push_str(s);
        }
    }
    out
}

#[test]
fn print_writes_arguments_in_order() {
    let (actions, err) = run("print(\"a\", \"b\");");
    assert!(err.is_none());
    assert_eq!(actions, vec![Action::Write("a".to_string()), Action::Write("b".to_string())]);
    assert_eq!(written(&actions), "ab");
}

#[test]
fn print_writes_decoded_newline() {
    let (actions, err) = run("print(\"one\\n\");print(\"two\");");
    assert!(err.is_none());
    assert_eq!(written(&actions), "one\ntwo");
}

#[test]
fn syscall_echo_hello() {
    let (actions, err) = run("syscall(\"echo\", \"hello\");");
    assert!(err.is_none());
    assert_eq!(actions.len(), 1);
    match &actions[0] {
        Action::Run { program, arguments, location } => {
            assert_eq!(program, "echo");
            assert_eq!(arguments, &vec!["hello".to_string()]);
            assert_eq!(location.start_col, 1);
        }
        Action::Write(_) => panic!("expected a run"),
    }
    assert_eq!(forwarded_output(b"hello\n".to_vec(), Vec::new()), vec![b"hello\n".to_vec()]);
}

#[test]
fn forwarded_output_keeps_nonempty_stderr() {
    assert_eq!(
        forwarded_output(b"out".to_vec(), b"err".to_vec()),
        vec![b"out".to_vec(), b"err".to_vec()]
    );
    assert_eq!(forwarded_output(Vec::new(), Vec::new()), vec![Vec::<u8>::new()]);
}

#[test]
fn invalid_function_stops_the_run() {
    let (actions, err) = run("print(\"a\");\nfoo();\nprint(\"b\");");
    assert_eq!(actions, vec![Action::Write("a".to_string())]);
    let err = err.unwrap();
    assert_eq!(err.kind, RuntimeErrorKind::InvalidFunction);
    assert_eq!(err.function, "foo");
    assert_eq!(err.location.start_line, 2);
}

#[test]
fn syscall_without_arguments_runs_nothing() {
    let (actions, err) = run("syscall();");
    assert!(actions.is_empty());
    let err = err.unwrap();
    assert_eq!(err.kind, RuntimeErrorKind::InsufficientArguments);
    assert_eq!(err.function, "syscall");
}

#[test]
fn print_rejects_call_argument_after_earlier_writes() {
    let program = vec![call("print", vec![literal("a"), call("f", vec![]), literal("b")])];
    let (actions, err) = Interpreter::new(program).interpret();
    assert_eq!(actions, vec![Action::Write("a".to_string())]);
    assert_eq!(err.unwrap().kind, RuntimeErrorKind::InvalidArgument(Builtin::Print));
}

#[test]
fn syscall_rejects_call_argument_before_running() {
    let program = vec![call("syscall", vec![literal("echo"), call("f", vec![])])];
    let (actions, err) = Interpreter::new(program).interpret();
    assert!(actions.is_empty());
    assert_eq!(err.unwrap().kind, RuntimeErrorKind::InvalidArgument(Builtin::Syscall));
}

#[test]
fn top_level_literal_is_unimplemented() {
    let program = vec![call("print", vec![literal("a")]), literal("b")];
    let (actions, err) = Interpreter::new(program).interpret();
    assert_eq!(actions, vec![Action::Write("a".to_string())]);
    let err = err.unwrap();
    assert_eq!(err.kind, RuntimeErrorKind::UnimplementedNode);
    assert_eq!(err.function, "");
}

#[test]
fn empty_program_does_nothing() {
    let (actions, err) = Interpreter::new(Vec::new()).interpret();
    assert!(actions.is_empty());
    assert!(err.is_none());
}

#[test]
fn builtin_lookup() {
    assert_eq!(builtin_of(&"print".to_string()), Some(Builtin::Print));
    assert_eq!(builtin_of(&"syscall".to_string()), Some(Builtin::Syscall));
    assert_eq!(builtin_of(&"Print".to_string()), None);
    assert_eq!(builtin_of(&String::new()), None);
}
