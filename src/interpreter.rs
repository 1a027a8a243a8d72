//! The interpreter: call statements to the effects a host performs, in
//! order, up to the first fatal error.

use crate::ast::{Node, NodeKind};
use crate::tokens::Location;
use vstd::prelude::*;

verus! {

/// The built-in functions.
#[derive(Clone, Copy, Debug, PartialEq, Eq, Structural)]
pub enum Builtin {
    /// Writes each argument to standard output.
    Print,
    /// Runs the program named by the first argument with the others as its
    /// arguments, and forwards what it prints.
    Syscall,
}

/// The built-in called `name`, if there is one.
pub open spec fn spec_builtin(name: Seq<char>) -> Option<Builtin> {
    if name == "print"@ {
        Some(Builtin::Print)
    } else if name == "syscall"@ {
        Some(Builtin::Syscall)
    } else {
        None
    }
}

/// Looks up the built-in called `name`.
pub fn builtin_of(name: &String) -> (r: Option<Builtin>)
    ensures
        r == spec_builtin(name@),
{
    let print = String::from_str("print");
    let syscall = String::from_str("syscall");
    if *name == print {
        Some(Builtin::Print)
    } else if *name == syscall {
        Some(Builtin::Syscall)
    } else {
        None
    }
}

/// An effect for the host to perform.
#[derive(Debug, PartialEq)]
pub enum Action {
    /// Write this text to standard output and flush it.
    Write(String),
    /// Run `program` with `arguments`, without a shell, wait for it, and
    /// forward its output; `location` is the statement's, for a diagnostic
    /// if the program cannot be run.
    Run { program: String, arguments: Vec<String>, location: Location },
}

/// An effect as the interpreter sees it.
pub enum SpecAction {
    Write(Seq<char>),
    Run(Seq<char>, Seq<Seq<char>>, Location),
}

impl View for Action {
    type V = SpecAction;

    open spec fn view(&self) -> SpecAction {
        match self {
            Action::Write(s) => SpecAction::Write(s@),
            Action::Run { program, arguments, location } => SpecAction::Run(
                program@,
                arguments@.map_values(|a: String| a@),
                *location,
            ),
        }
    }
}

/// What can stop the interpreter.
#[derive(Clone, Copy, Debug, PartialEq, Eq, Structural)]
pub enum RuntimeErrorKind {
    /// A built-in got an argument that is not a string literal.
    InvalidArgument(Builtin),
    /// `syscall` got no argument.
    InsufficientArguments,
    /// The called name is no built-in.
    InvalidFunction,
    /// A statement is not a call.
    UnimplementedNode,
}

/// A fatal runtime error: its kind, the name the failing statement calls
/// (empty where it is no call) and the statement's location.
#[derive(Debug, PartialEq)]
pub struct RuntimeError {
    pub kind: RuntimeErrorKind,
    pub function: String,
    pub location: Location,
}

/// The text of a string-literal node.
pub open spec fn text_of(n: Node) -> Seq<char> {
    n.kind->String_0@
}

/// The effects of `print` on its arguments from the `j`-th on: one write per
/// argument, up to the first that is not a string literal.
pub open spec fn print_from(args: Seq<Node>, j: int) -> (Seq<SpecAction>, Option<RuntimeErrorKind>)
    decreases args.len() - j,
{
    if j < 0 || j >= args.len() {
        (Seq::empty(), None)
    } else if args[j].kind is String {
        let (rest, e) = print_from(args, j + 1);
        (seq![SpecAction::Write(text_of(args[j]))] + rest, e)
    } else {
        (Seq::empty(), Some(RuntimeErrorKind::InvalidArgument(Builtin::Print)))
    }
}

/// The effects of `syscall` on `args`: one run of the program named by the
/// first argument with the others as its arguments, where there is at
/// least one argument and every argument is a string literal.
pub open spec fn syscall_effects(args: Seq<Node>, location: Location) -> (Seq<SpecAction>, Option<RuntimeErrorKind>) {
    if args.len() == 0 {
        (Seq::empty(), Some(RuntimeErrorKind::InsufficientArguments))
    } else if exists|k: int| 0 <= k < args.len() && !(#[trigger] args[k].kind is String) {
        (Seq::empty(), Some(RuntimeErrorKind::InvalidArgument(Builtin::Syscall)))
    } else {
        (
            seq![
                SpecAction::Run(
                    text_of(args[0]),
                    Seq::new((args.len() - 1) as nat, |k: int| text_of(args[k + 1])),
                    location,
                ),
            ],
            None,
        )
    }
}

/// The effects of one statement, and the error that stops it, if any.
pub open spec fn statement_effects(n: Node) -> (Seq<SpecAction>, Option<RuntimeErrorKind>) {
    match n.kind {
        NodeKind::String(_) => (Seq::empty(), Some(RuntimeErrorKind::UnimplementedNode)),
        NodeKind::FunctionCall(name, args) => match spec_builtin(name@) {
            None => (Seq::empty(), Some(RuntimeErrorKind::InvalidFunction)),
            Some(Builtin::Print) => print_from(args@, 0),
            Some(Builtin::Syscall) => syscall_effects(args@, n.location),
        },
    }
}

/// The effects of the statements from the `i`-th on, and the first error
/// with the index of its statement. A failing statement keeps the effects
/// it had before it failed; no later statement has any.
pub open spec fn run_from(nodes: Seq<Node>, i: int) -> (Seq<SpecAction>, Option<(RuntimeErrorKind, int)>)
    decreases nodes.len() - i,
{
    if i < 0 || i >= nodes.len() {
        (Seq::empty(), None)
    } else {
        let (x, e) = statement_effects(nodes[i]);
        if e is Some {
            (x, Some((e->0, i)))
        } else {
            let (rest, e2) = run_from(nodes, i + 1);
            (x + rest, e2)
        }
    }
}

/// The name a statement calls, empty where it is no call.
pub open spec fn called_name(n: Node) -> Seq<char> {
    match n.kind {
        NodeKind::FunctionCall(name, _) => name@,
        NodeKind::String(_) => Seq::empty(),
    }
}

/// The views of a sequence of actions.
pub open spec fn views(s: Seq<Action>) -> Seq<SpecAction> {
    s.map_values(|a: Action| a@)
}

/// Executes call statements.
pub struct Interpreter {
    /// The statements to execute, in order.
    pub input_nodes: Vec<Node>,
}

impl Interpreter {
    /// An interpreter over `input_nodes`.
    pub fn new(input_nodes: Vec<Node>) -> (r: Self)
        ensures
            r.input_nodes == input_nodes,
    {
        Interpreter { input_nodes }
    }

    /// The effects of the statements, in order, and the fatal error that
    /// stops the run, if any: the host performs the effects one by one and
    /// then reports the error.
    pub fn interpret(&self) -> (r: (Vec<Action>, Option<RuntimeError>))
        ensures
            views(r.0@) == run_from(self.input_nodes@, 0).0,
            match run_from(self.input_nodes@, 0).1 {
                None => r.1 is None,
                Some((kind, i)) => {
                    &&& r.1 is Some
                    &&& r.1->0.kind == kind
                    &&& r.1->0.function@ == called_name(self.input_nodes@[i])
                    &&& r.1->0.location == self.input_nodes@[i].location
                },
            },
    {
        let ghost nodes = self.input_nodes@;
        let n = self.input_nodes.len();
        let mut actions: Vec<Action> = Vec::new();
        let mut i: usize = 0;
        while i < n
            invariant
                nodes == self.input_nodes@,
                n == nodes.len(),
                i <= n,
                views(actions@) + run_from(nodes, i as int).0 == run_from(nodes, 0).0,
                run_from(nodes, i as int).1 == run_from(nodes, 0).1,
            decreases n - i,
        {
            let node = &self.input_nodes[i];
            let ghost before = views(actions@);
            let ghost after = run_from(nodes, i + 1);
            match &node.kind {
                NodeKind::String(_) => {
                    let e = RuntimeError {
                        kind: RuntimeErrorKind::UnimplementedNode,
                        function: String::new(),
                        location: node.location.duplicate(),
                    };
                    proof {
                        assert(before + Seq::<SpecAction>::empty() =~= before);
                    }
                    return (actions, Some(e));
                },
                NodeKind::FunctionCall(name, args) => {
                    let failure = match builtin_of(name) {
                        None => Some(RuntimeErrorKind::InvalidFunction),
                        Some(Builtin::Print) => self.push_prints(&mut actions, args),
                        Some(Builtin::Syscall) => push_run(&mut actions, args, &node.location),
                    };
                    if let Some(kind) = failure {
                        let e = RuntimeError {
                            kind,
                            function: name.clone(),
                            location: node.location.duplicate(),
                        };
                        proof {
                            assert(before + Seq::<SpecAction>::empty() =~= before);
                        }
                        return (actions, Some(e));
                    }
                    proof {
                        assert(views(actions@) + after.0 =~= before + (statement_effects(nodes[i as int]).0 + after.0));
                    }
                },
            }
            i = i + 1;
        }
        proof {
            assert(views(actions@) + Seq::<SpecAction>::empty() =~= views(actions@));
        }
        (actions, None)
    }

    /// Appends one write per argument, up to the first that is not a string
    /// literal, which is reported.
    fn push_prints(&self, actions: &mut Vec<Action>, args: &Vec<Node>) -> (r: Option<RuntimeErrorKind>)
        ensures
            views(final(actions)@) == views(old(actions)@) + print_from(args@, 0).0,
            r == print_from(args@, 0).1,
    {
        let ghost start = views(actions@);
        let m = args.len();
        let mut j: usize = 0;
        while j < m
            invariant
                m == args@.len(),
                j <= m,
                start == views(old(actions)@),
                views(actions@) + print_from(args@, j as int).0 == start + print_from(args@, 0).0,
                print_from(args@, j as int).1 == print_from(args@, 0).1,
            decreases m - j,
        {
            match &args[j].kind {
                NodeKind::String(s) => {
                    let ghost prev = actions@;
                    actions.push(Action::Write(s.clone()));
                    proof {
                        assert(views(actions@) =~= views(prev).push(SpecAction::Write(s@)));
                        assert(views(actions@) + print_from(args@, j + 1).0 =~= views(prev) + print_from(args@, j as int).0);
                    }
                },
                NodeKind::FunctionCall(_, _) => {
                    proof {
                        assert(print_from(args@, j as int).0 == Seq::<SpecAction>::empty());
                        assert(views(actions@) + Seq::<SpecAction>::empty() =~= views(actions@));
                    }
                    return Some(RuntimeErrorKind::InvalidArgument(Builtin::Print));
                },
            }
            j = j + 1;
        }
        proof {
            assert(views(actions@) + Seq::<SpecAction>::empty() =~= views(actions@));
        }
        None
    }
}

/// The text that a sequence of effects writes through its `Write`s, in order.
pub open spec fn written(acts: Seq<SpecAction>) -> Seq<char>
    decreases acts.len(),
{
    if acts.len() == 0 {
        Seq::empty()
    } else {
        let last = match acts.last() {
            SpecAction::Write(t) => t,
            SpecAction::Run(_, _, _) => Seq::empty(),
        };
        written(acts.drop_last()) + last
    }
}

/// A program made of the one statement `print(a, b)` with two string
/// literals writes the text of `a` and then that of `b`, with nothing
/// between them, and runs to its end.
pub proof fn lemma_print_writes_arguments_in_order(program: Seq<Node>)
    requires
        program.len() == 1,
        program[0].kind is FunctionCall,
        program[0].kind->FunctionCall_0@ == "print"@,
        program[0].kind->FunctionCall_1@.len() == 2,
        program[0].kind->FunctionCall_1@[0].kind is String,
        program[0].kind->FunctionCall_1@[1].kind is String,
    ensures
        ({
            let args = program[0].kind->FunctionCall_1@;
            &&& run_from(program, 0) == (
                seq![SpecAction::Write(text_of(args[0])), SpecAction::Write(text_of(args[1]))],
                None::<(RuntimeErrorKind, int)>,
            )
            &&& written(run_from(program, 0).0) == text_of(args[0]) + text_of(args[1])
        }),
{
    let args = program[0].kind->FunctionCall_1@;
    let w0 = SpecAction::Write(text_of(args[0]));
    let w1 = SpecAction::Write(text_of(args[1]));
    assert(print_from(args, 2).0 =~= Seq::<SpecAction>::empty());
    assert(print_from(args, 1).0 =~= seq![w1]);
    assert(print_from(args, 0).0 =~= seq![w0, w1]);
    assert(spec_builtin(program[0].kind->FunctionCall_0@) == Some(Builtin::Print));
    assert(statement_effects(program[0]) == print_from(args, 0));
    assert(run_from(program, 1) == (Seq::<SpecAction>::empty(), None::<(RuntimeErrorKind, int)>));
    assert(run_from(program, 0).0 =~= seq![w0, w1] + Seq::<SpecAction>::empty());
    let acts = seq![w0, w1];
    assert(acts.drop_last() =~= seq![w0]);
    assert(seq![w0].drop_last() =~= Seq::<SpecAction>::empty());
    assert(written(Seq::<SpecAction>::empty()) == Seq::<char>::empty());
    assert(written(seq![w0]) =~= Seq::<char>::empty() + text_of(args[0]));
}

proof fn lemma_failure_stops_run_from(prefix: Seq<Node>, bad: Node, suffix: Seq<Node>, i: int)
    requires
        0 <= i <= prefix.len(),
        forall|k: int| 0 <= k < prefix.len() ==> (#[trigger] statement_effects(prefix[k])).1 is None,
        statement_effects(bad).1 is Some,
    ensures
        run_from(prefix.push(bad) + suffix, i) == (
            run_from(prefix, i).0 + statement_effects(bad).0,
            Some((statement_effects(bad).1->0, prefix.len() as int)),
        ),
    decreases prefix.len() - i,
{
    let all = prefix.push(bad) + suffix;
    if i == prefix.len() {
        assert(all[i] == bad);
        assert(Seq::<SpecAction>::empty() + statement_effects(bad).0 =~= statement_effects(bad).0);
    } else {
        lemma_failure_stops_run_from(prefix, bad, suffix, i + 1);
        assert(all[i] == prefix[i]);
        let x = statement_effects(prefix[i]).0;
        assert(x + (run_from(prefix, i + 1).0 + statement_effects(bad).0) =~= (x + run_from(prefix, i + 1).0)
            + statement_effects(bad).0);
    }
}

/// A statement that calls a name that is no built-in stops the run with
/// `InvalidFunction`: the statements before it have all their effects, and
/// no statement after it has any.
pub proof fn lemma_invalid_function_stops_run(prefix: Seq<Node>, bad: Node, suffix: Seq<Node>)
    requires
        forall|k: int| 0 <= k < prefix.len() ==> (#[trigger] statement_effects(prefix[k])).1 is None,
        bad.kind is FunctionCall,
        spec_builtin(bad.kind->FunctionCall_0@) is None,
    ensures
        run_from(prefix.push(bad) + suffix, 0) == (
            run_from(prefix, 0).0,
            Some((RuntimeErrorKind::InvalidFunction, prefix.len() as int)),
        ),
{
    lemma_failure_stops_run_from(prefix, bad, suffix, 0);
    assert(run_from(prefix, 0).0 + Seq::<SpecAction>::empty() =~= run_from(prefix, 0).0);
}

/// What the host writes after running a program: its standard output, then
/// its standard error where that is not empty.
pub fn forwarded_output(stdout: Vec<u8>, stderr: Vec<u8>) -> (r: Vec<Vec<u8>>)
    ensures
        r@.len() == if stderr@.len() == 0 {
            1int
        } else {
            2int
        },
        r@[0] == stdout,
        stderr@.len() > 0 ==> r@[1] == stderr,
{
    let mut r: Vec<Vec<u8>> = Vec::new();
    let keep_stderr = stderr.len() > 0;
    r.push(stdout);
    if keep_stderr {
        r.push(stderr);
    }
    r
}

/// Appends the run of a `syscall` with `args`, or reports why there is none.
fn push_run(actions: &mut Vec<Action>, args: &Vec<Node>, location: &Location) -> (r: Option<RuntimeErrorKind>)
    ensures
        views(final(actions)@) == views(old(actions)@) + syscall_effects(args@, *location).0,
        r == syscall_effects(args@, *location).1,
{
    let m = args.len();
    if m == 0 {
        proof {
            assert(views(actions@) + Seq::<SpecAction>::empty() =~= views(actions@));
        }
        return Some(RuntimeErrorKind::InsufficientArguments);
    }
    let mut program = String::new();
    let mut arguments: Vec<String> = Vec::new();
    let mut j: usize = 0;
    while j < m
        invariant
            m == args@.len(),
            m > 0,
            j <= m,
            forall|k: int| 0 <= k < j ==> (#[trigger] args@[k].kind) is String,
            j > 0 ==> program@ == text_of(args@[0]),
            arguments@.len() == if j == 0 {
                0
            } else {
                j - 1
            },
            forall|k: int| 0 <= k < arguments@.len() ==> (#[trigger] arguments@[k])@ == text_of(args@[k + 1]),
        decreases m - j,
    {
        match &args[j].kind {
            NodeKind::String(s) => {
                if j == 0 {
                    program = s.clone();
                } else {
                    arguments.push(s.clone());
                }
            },
            NodeKind::FunctionCall(_, _) => {
                proof {
                    assert(views(actions@) + Seq::<SpecAction>::empty() =~= views(actions@));
                }
                return Some(RuntimeErrorKind::InvalidArgument(Builtin::Syscall));
            },
        }
        j = j + 1;
    }
    let ghost prev = actions@;
    let action = Action::Run { program, arguments, location: location.duplicate() };
    proof {
        assert(arguments@.map_values(|a: String| a@) =~= Seq::new(
            (args@.len() - 1) as nat,
            |k: int| text_of(args@[k + 1]),
        ));
    }
    actions.push(action);
    proof {
        assert(views(actions@) =~= views(prev).push(action@));
        assert(views(actions@) =~= views(prev) + syscall_effects(args@, *location).0);
    }
    None
}

} // verus!
