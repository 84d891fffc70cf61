//! Commands for the host to run, and what counts as their failure.

use vstd::prelude::*;

verus! {

/// The texts of a list of strings.
pub open spec fn words(v: Seq<String>) -> Seq<Seq<char>> {
    Seq::new(v.len(), |i: int| v[i]@)
}

/// The texts of a list of string slices.
pub open spec fn texts(v: Seq<&str>) -> Seq<Seq<char>> {
    Seq::new(v.len(), |i: int| v[i]@)
}

/// One command: the program's name followed by its arguments, and the
/// directory to run it in. Without a directory it runs where the caller
/// stands.
#[derive(Debug)]
pub struct Invocation {
    pub argv: Vec<String>,
    pub dir: Option<String>,
}

/// What an `Invocation` stands for.
pub struct InvocationView {
    pub argv: Seq<Seq<char>>,
    pub dir: Option<Seq<char>>,
}

impl View for Invocation {
    type V = InvocationView;

    open spec fn view(&self) -> InvocationView {
        InvocationView {
            argv: words(self.argv@),
            dir: match self.dir {
                Some(d) => Some(d@),
                None => None,
            },
        }
    }
}

/// What a list of invocations stands for.
pub open spec fn views(v: Seq<Invocation>) -> Seq<InvocationView> {
    Seq::new(v.len(), |i: int| v[i]@)
}

/// The command `argv`, to be run where the caller stands.
pub open spec fn here(argv: Seq<Seq<char>>) -> InvocationView {
    InvocationView { argv, dir: None }
}

/// The command `argv`, to be run in the directory `dir`.
pub open spec fn inside(dir: Seq<char>, argv: Seq<Seq<char>>) -> InvocationView {
    InvocationView { argv, dir: Some(dir) }
}

/// Why a run of the installer stops.
#[derive(Debug, PartialEq, Eq, Structural)]
pub enum SetupError {
    /// The command names no program.
    InvalidCommand,
    /// The program ran and reported a failure with this code.
    CommandFailed(i32),
    /// The program was ended from outside before it could report.
    CommandKilled,
}

/// The command made of `parts`, to be run in `dir`.
pub fn invocation(parts: Vec<&str>, dir: Option<&str>) -> (c: Invocation)
    ensures
        c@.argv == texts(parts@),
        c@.dir == match dir {
            Some(d) => Some(d@),
            None => None,
        },
{
    let mut argv: Vec<String> = Vec::new();
    let mut i: usize = 0;
    while i < parts.len()
        invariant
            i <= parts@.len(),
            argv@.len() == i,
            forall|j: int| 0 <= j < i ==> argv@[j]@ == parts@[j]@,
        decreases parts@.len() - i,
    {
        argv.push(parts[i].to_owned());
        i += 1;
    }
    assert(words(argv@) =~= texts(parts@));
    let dir: Option<String> = match dir {
        Some(d) => Some(d.to_owned()),
        None => None,
    };
    Invocation { argv, dir }
}

/// Whether `argv` names a program: it has a first word, and that word is not
/// empty.
pub open spec fn names_program(argv: Seq<Seq<char>>) -> bool {
    argv.len() > 0 && argv[0].len() > 0
}

/// Parts a command into the program and its arguments. A command that names
/// no program is refused, so that nothing is started for it.
pub fn parse_command(argv: &Vec<String>) -> (r: Result<(String, Vec<String>), SetupError>)
    ensures
        names_program(words(argv@)) <==> r is Ok,
        r is Err ==> r == Err::<(String, Vec<String>), SetupError>(SetupError::InvalidCommand),
        r is Ok ==> r->Ok_0.0@ == argv@[0]@ && words(r->Ok_0.1@) == words(argv@).subrange(
            1,
            argv@.len() as int,
        ),
{
    if argv.len() == 0 || argv[0].as_str().is_empty() {
        return Err(SetupError::InvalidCommand);
    }
    let program: String = argv[0].clone();
    let mut args: Vec<String> = Vec::new();
    let mut i: usize = 1;
    while i < argv.len()
        invariant
            1 <= i <= argv@.len(),
            args@.len() == i - 1,
            forall|j: int| 0 <= j < i - 1 ==> args@[j]@ == argv@[j + 1]@,
        decreases argv@.len() - i,
    {
        args.push(argv[i].clone());
        i += 1;
    }
    assert(words(args@) =~= words(argv@).subrange(1, argv@.len() as int));
    Ok((program, args))
}

/// What the end of a command means for the run: only the exit code 0 lets it
/// go on. `None` stands for a program that ended without an exit code.
pub fn exit_outcome(code: Option<i32>) -> (r: Result<(), SetupError>)
    ensures
        r is Ok <==> code == Some(0i32),
        match code {
            Some(c) => c != 0 ==> r == Err::<(), SetupError>(SetupError::CommandFailed(c)),
            None => r == Err::<(), SetupError>(SetupError::CommandKilled),
        },
{
    match code {
        Some(c) => if c == 0 {
            Ok(())
        } else {
            Err(SetupError::CommandFailed(c))
        },
        None => Err(SetupError::CommandKilled),
    }
}

impl SetupError {
    /// The error in words.
    pub fn message(&self) -> (s: String)
        ensures
            s@ == match *self {
                SetupError::InvalidCommand => "Invalid command"@,
                SetupError::CommandFailed(_) => "Command failed"@,
                SetupError::CommandKilled => "Command ended without an exit code"@,
            },
    {
        match self {
            SetupError::InvalidCommand => "Invalid command".to_owned(),
            SetupError::CommandFailed(_) => "Command failed".to_owned(),
            SetupError::CommandKilled => "Command ended without an exit code".to_owned(),
        }
    }
}

} // verus!
