//! The command line: which command the arguments ask for.

use vstd::prelude::*;
use vstd::string::StringExecFns;
use crate::error::{Fault, HtomlError};
use crate::text::str_eq;

verus! {

/// What the program is asked to do.
#[derive(Debug, PartialEq, Eq)]
pub enum Command {
    /// Convert the file at `path`.
    Compile { path: String },
    /// Show the usage.
    Help,
}

/// The mathematical view of a [`Command`].
pub enum CommandView {
    Compile { path: Seq<char> },
    Help,
}

impl View for Command {
    type V = CommandView;

    open spec fn view(&self) -> CommandView {
        match self {
            Command::Compile { path } => CommandView::Compile { path: path@ },
            Command::Help => CommandView::Help,
        }
    }
}

/// The kind of a command, as its name on the command line tells it.
#[derive(Debug, Clone, Copy, PartialEq, Eq, Structural)]
pub enum CommandType {
    TCompile,
    THelp,
}

/// The kind that `name` stands for: `compile`, `cp` and `c` ask for a
/// conversion, `help` and `h` for the usage; no other name is known.
pub open spec fn command_type(name: Seq<char>) -> Option<CommandType> {
    if name == "compile"@ || name == "cp"@ || name == "c"@ {
        Some(CommandType::TCompile)
    } else if name == "h"@ || name == "help"@ {
        Some(CommandType::THelp)
    } else {
        None
    }
}

/// The texts of a list of arguments, in order.
pub open spec fn arg_texts(args: Seq<String>) -> Seq<Seq<char>> {
    Seq::new(args.len(), |i: int| args[i]@)
}

/// The command that a list of arguments asks for. The first argument is the
/// program's own name, the second names the command, and a conversion takes
/// the third as its file.
pub open spec fn command_for(args: Seq<Seq<char>>) -> Result<CommandView, Fault> {
    if args.len() < 2 {
        Err(Fault::NoCommand)
    } else {
        match command_type(args[1]) {
            None => Err(Fault::UnknownCommand(args[1])),
            Some(CommandType::THelp) => Ok(CommandView::Help),
            Some(CommandType::TCompile) => if args.len() < 3 {
                Err(Fault::NoFileGiven)
            } else {
                Ok(CommandView::Compile { path: args[2] })
            },
        }
    }
}

impl CommandType {
    /// The kind that the name `s` stands for, or the name itself where it
    /// stands for none.
    pub fn from_str(s: &str) -> (r: Result<CommandType, String>)
        ensures
            match r {
                Ok(kind) => command_type(s@) == Some(kind),
                Err(name) => command_type(s@) is None && name@ == s@,
            },
    {
        if str_eq(s, "compile") || str_eq(s, "cp") || str_eq(s, "c") {
            Ok(CommandType::TCompile)
        } else if str_eq(s, "h") || str_eq(s, "help") {
            Ok(CommandType::THelp)
        } else {
            Err(String::from_str(s))
        }
    }
}

impl Command {
    /// The command that the arguments `args` of the program ask for.
    pub fn new(args: &[String]) -> (r: Result<Command, HtomlError>)
        ensures
            match r {
                Ok(command) => command_for(arg_texts(args@)) == Ok::<CommandView, Fault>(command@),
                Err(e) => command_for(arg_texts(args@)) == Err::<CommandView, Fault>(e@),
            },
    {
        if args.len() < 2 {
            return Err(HtomlError::NoCommand);
        }
        match CommandType::from_str(args[1].as_str()) {
            Err(name) => Err(HtomlError::UnknownCommand(name)),
            Ok(CommandType::THelp) => Ok(Command::Help),
            Ok(CommandType::TCompile) => {
                if args.len() < 3 {
                    return Err(HtomlError::NoFileGiven);
                }
                Ok(Command::Compile { path: args[2].clone() })
            },
        }
    }
}

} // verus!
