use crate::error::AppError;
use crate::inputs::{joined, views};
use vstd::prelude::*;

verus! {

/// The positional arguments of one invocation.
#[derive(Debug)]
pub struct Args {
    /// A literal input path, or `-` to read the input paths from standard input.
    pub input: String,
    /// The path whose freshness is checked.
    pub output: String,
    /// The command run when the output is stale.
    pub command: String,
    /// The arguments handed to the command, unchanged.
    pub args: Vec<String>,
}

/// The message given when fewer than three positional arguments are present.
pub open spec fn missing_arguments_message() -> Seq<char> {
    "not enough arguments provided"@
}

/// Reads the positional arguments (the program name excluded): input, output,
/// command, then the command's own arguments.
pub fn parse_args(argv: Vec<String>) -> (r: Result<Args, AppError>)
    ensures
        argv.len() < 3 <==> r is Err,
        r matches Err(e) ==> e.0@ == missing_arguments_message(),
        r matches Ok(a) ==> {
            &&& a.input == argv@[0]
            &&& a.output == argv@[1]
            &&& a.command == argv@[2]
            &&& a.args@ == argv@.subrange(3, argv.len() as int)
        },
{
    if argv.len() < 3 {
        return Err(AppError(String::from_str("not enough arguments provided")));
    }
    let mut rest: Vec<String> = Vec::new();
    let mut i: usize = 3;
    while i < argv.len()
        invariant
            3 <= i <= argv.len(),
            rest@ == argv@.subrange(3, i as int),
        decreases argv.len() - i,
    {
        rest.push(argv[i].clone());
        i = i + 1;
    }
    Ok(Args {
        input: argv[0].clone(),
        output: argv[1].clone(),
        command: argv[2].clone(),
        args: rest,
    })
}

/// The diagnostic line written on every invocation that reaches a decision:
/// `<reason>, running: <command> <args>` (or `not running`), the arguments
/// joined by single spaces.
pub open spec fn log_text(reason: Seq<char>, run: bool, command: Seq<char>, args: Seq<String>) -> Seq<
    char,
> {
    reason + (if run {
        ", running: "@
    } else {
        ", not running: "@
    }) + command + " "@ + joined(views(args))
}

/// Builds the diagnostic line for a decision with justification `reason`.
pub fn log_line(reason: &str, run: bool, args: &Args) -> (line: String)
    ensures
        line@ == log_text(reason@, run, args.command@, args.args@),
{
    let mut line = reason.to_owned();
    if run {
        line.append(", running: ");
    } else {
        line.append(", not running: ");
    }
    line.append(args.command.as_str());
    line.append(" ");
    let ghost head = line@;
    let ghost ws = views(args.args@);
    let mut i: usize = 0;
    while i < args.args.len()
        invariant
            i <= args.args.len(),
            ws == views(args.args@),
            line@ == head + joined(ws.take(i as int)),
        decreases args.args.len() - i,
    {
        let ghost before = ws.take(i as int);
        let ghost after = ws.take(i + 1);
        assert(after.drop_last() == before);
        assert(after.last() == args.args@[i as int]@);
        if i > 0 {
            line.append(" ");
        }
        line.append(args.args[i].as_str());
        proof {
            if i == 0 {
                assert(joined(before) == Seq::<char>::empty());
                assert(joined(after) == after[0]);
                assert(line@ == head + args.args@[0]@);
            } else {
                assert(joined(after) == joined(before) + seq![' '] + after.last());
                assert(" "@ == seq![' ']) by {
                    reveal_strlit(" ");
                }
                assert(line@ == head + joined(before) + seq![' '] + after.last());
            }
        }
        i = i + 1;
    }
    assert(ws.take(ws.len() as int) == ws);
    line
}

} // verus!
