//! What the program was asked for on its command line.

use vstd::prelude::*;
use vstd::string::*;

use crate::text::same_text;

verus! {

use crate::text::texts;

/// What the program is to begin with.
#[derive(Debug)]
pub enum Command {
    /// Nothing: an empty screen.
    Start,
    /// A saved result, by the path of its file.
    Open(String),
}

/// Why the arguments make no command.
#[derive(Debug, Clone, Copy, PartialEq, Eq, Structural)]
pub enum CommandError {
    /// `open` has to be followed by one path.
    OpenNeedsOnePath,
    /// The first argument is no command.
    Unknown,
}

impl CommandError {
    /// What is wrong, in words.
    pub open spec fn text(self) -> Seq<char> {
        match self {
            CommandError::OpenNeedsOnePath => "open requires exactly one file path"@,
            CommandError::Unknown => "unknown command. use --help"@,
        }
    }

    /// What is wrong, in words.
    pub fn message(&self) -> (message: &'static str)
        ensures
            message@ == self.text(),
    {
        match self {
            CommandError::OpenNeedsOnePath => "open requires exactly one file path",
            CommandError::Unknown => "unknown command. use --help",
        }
    }
}

/// The mathematical content of a [`Command`] or of what is wrong with it.
pub enum CommandModel {
    Start,
    Open(Seq<char>),
    Refused(CommandError),
}

/// What the arguments behind the program's name ask for.
pub open spec fn asked_for(args: Seq<Seq<char>>) -> CommandModel {
    if args.len() == 0 {
        CommandModel::Start
    } else if args[0] != "open"@ {
        CommandModel::Refused(CommandError::Unknown)
    } else if args.len() == 2 {
        CommandModel::Open(args[1])
    } else {
        CommandModel::Refused(CommandError::OpenNeedsOnePath)
    }
}

/// Nothing is asked for without arguments; `open` and a path ask for the file at that path, whatever
/// the path; `open` alone or with more is refused, and so is everything else.
pub proof fn law_commands(path: Seq<char>, more: Seq<Seq<char>>, word: Seq<char>)
    ensures
        asked_for(Seq::empty()) == CommandModel::Start,
        asked_for(seq!["open"@, path]) == CommandModel::Open(path),
        asked_for(seq!["open"@]) == CommandModel::Refused(CommandError::OpenNeedsOnePath),
        more.len() > 0 ==> asked_for(seq!["open"@, path] + more) == CommandModel::Refused(
            CommandError::OpenNeedsOnePath,
        ),
        word != "open"@ ==> asked_for(seq![word] + more) == CommandModel::Refused(
            CommandError::Unknown,
        ),
        CommandError::OpenNeedsOnePath.text() == "open requires exactly one file path"@,
        CommandError::Unknown.text() == "unknown command. use --help"@,
{
}

/// Help is asked for by `-h` or `--help` and by nothing else.
pub proof fn law_help(word: Seq<char>)
    ensures
        is_help("-h"@),
        is_help("--help"@),
        word != "-h"@ && word != "--help"@ ==> !is_help(word),
{
}

/// Whether an argument asks for help.
pub open spec fn is_help(arg: Seq<char>) -> bool {
    arg == "-h"@ || arg == "--help"@
}

/// Whether help is asked for anywhere among the arguments.
pub fn wants_help(args: &Vec<String>) -> (wanted: bool)
    ensures
        wanted <==> exists|i: int| 0 <= i < args@.len() && is_help(#[trigger] texts(args@)[i]),
{
    let mut i: usize = 0;
    while i < args.len()
        invariant
            i <= args.len(),
            forall|j: int| 0 <= j < i ==> !is_help(#[trigger] texts(args@)[j]),
        decreases args.len() - i,
    {
        assert(texts(args@)[i as int] == args@[i as int]@);
        if same_text(args[i].as_str(), "-h") || same_text(args[i].as_str(), "--help") {
            return true;
        }
        i += 1;
    }
    false
}

/// Reads the arguments behind the program's name: none of them, or `open` and one path.
pub fn parse_command(args: Vec<String>) -> (command: Result<Command, CommandError>)
    ensures
        match command {
            Ok(Command::Start) => args@.len() == 0,
            Ok(Command::Open(path)) => args@.len() == 2 && args@[0]@ == "open"@ && path@
                == args@[1]@,
            Err(CommandError::OpenNeedsOnePath) => args@.len() > 0 && args@[0]@ == "open"@
                && args@.len() != 2,
            Err(CommandError::Unknown) => args@.len() > 0 && args@[0]@ != "open"@,
        },
        asked_for(texts(args@)) == match command {
            Ok(Command::Start) => CommandModel::Start,
            Ok(Command::Open(path)) => CommandModel::Open(path@),
            Err(error) => CommandModel::Refused(error),
        },
{
    assert(texts(args@).len() == args@.len());
    assert(args@.len() > 0 ==> texts(args@)[0] == args@[0]@);
    assert(args@.len() > 1 ==> texts(args@)[1] == args@[1]@);
    if args.len() == 0 {
        return Ok(Command::Start);
    }
    if same_text(args[0].as_str(), "open") {
        if args.len() != 2 {
            return Err(CommandError::OpenNeedsOnePath);
        }
        return Ok(Command::Open(args[1].clone()));
    }
    Err(CommandError::Unknown)
}

} // verus!
