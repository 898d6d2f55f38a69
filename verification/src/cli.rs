//! The command line: which subcommand runs, and the exit status.

use vstd::prelude::*;

verus! {

/// A subcommand with its arguments.
#[derive(Debug, PartialEq, Eq)]
pub enum Command {
    /// Upload these files.
    Upload(Vec<String>),
    /// Download the uploads with these ids.
    Download(Vec<String>),
    /// List the uploads.
    List,
    /// No subcommand was given.
    NoSubcommand,
}

/// Why the command line was refused.
#[derive(Debug, PartialEq, Eq)]
pub enum CliError {
    /// `upload` or `download` without a file argument.
    NoFileArgument,
    /// A subcommand that the program does not have.
    UnknownSubcommand(String),
}

impl CliError {
    /// The message for the error.
    pub fn message(&self) -> (m: &'static str)
        ensures
            self is NoFileArgument ==> m@ == "No file argument found"@,
            self is UnknownSubcommand ==> m@ == "Unknown subcommand"@,
    {
        match self {
            CliError::NoFileArgument => "No file argument found",
            CliError::UnknownSubcommand(_) => "Unknown subcommand",
        }
    }
}

/// Picks the command from the name of the subcommand (empty when there is
/// none) and the values of its `file` argument (`None` when it has none).
pub fn select_command(name: &str, files: Option<Vec<String>>) -> (r: Result<Command, CliError>)
    ensures
        name@ == "upload"@ ==> match files {
            Some(f) => (r matches Ok(Command::Upload(g)) && g@ == f@),
            None => r == Err::<Command, CliError>(CliError::NoFileArgument),
        },
        name@ == "download"@ ==> match files {
            Some(f) => (r matches Ok(Command::Download(g)) && g@ == f@),
            None => r == Err::<Command, CliError>(CliError::NoFileArgument),
        },
        name@ == "list"@ ==> r == Ok::<Command, CliError>(Command::List),
        name@ == ""@ ==> r == Ok::<Command, CliError>(Command::NoSubcommand),
        name@ != "upload"@ && name@ != "download"@ && name@ != "list"@ && name@ != ""@ ==> (r matches Err(
            CliError::UnknownSubcommand(n),
        ) && n@ == name@),
{
    proof {
        reveal_strlit("upload");
        reveal_strlit("download");
        reveal_strlit("list");
        reveal_strlit("");
        assert("upload"@.len() == 6);
        assert("download"@.len() == 8);
        assert("list"@.len() == 4);
        assert(""@ =~= Seq::<char>::empty());
    }
    let n = String::from_str(name);
    if n == String::from_str("upload") {
        match files {
            Some(f) => Ok(Command::Upload(f)),
            None => Err(CliError::NoFileArgument),
        }
    } else if n == String::from_str("download") {
        match files {
            Some(f) => Ok(Command::Download(f)),
            None => Err(CliError::NoFileArgument),
        }
    } else if n == String::from_str("list") {
        Ok(Command::List)
    } else if n == String::new() {
        Ok(Command::NoSubcommand)
    } else {
        Err(CliError::UnknownSubcommand(n))
    }
}

/// Exit status of the program: 0 when the run ended with `Ok(true)`, 1 when
/// it failed or ended with `Ok(false)`.
pub fn exit_code<E>(result: &Result<bool, E>) -> (code: i32)
    ensures
        code == (if result matches Ok(true) {
            0i32
        } else {
            1i32
        }),
{
    match result {
        Ok(true) => 0,
        Ok(false) => 1,
        Err(_) => 1,
    }
}

} // verus!
