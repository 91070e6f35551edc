//! Interpretation of a program's command line: which action to take and
//! which configuration file to use.

use vstd::prelude::*;

pub mod laws;
pub mod parser;
pub mod text;

pub use parser::parse_arguments;

verus! {

/// What the command line asks for.
#[derive(Debug, PartialEq)]
pub struct ArgumentsParseResult {
    /// The configuration file to use in place of the default one, if given.
    pub overwritten_config_path: Option<String>,
    pub action: ArgumentsAction,
}

/// The one thing the program is to do next.
#[derive(Debug, Clone, Copy, PartialEq, Eq)]
pub enum ArgumentsAction {
    ProceedAsUsual,
    HelpScreen(HelpScreenOptions),
    ConfigAction(ConfigAction),
}

/// Which help screen to show.
#[derive(Debug, Clone, Copy, PartialEq, Eq)]
pub enum HelpScreenOptions {
    Default,
    Config,
}

/// What to do with the configuration file.
#[derive(Debug, Clone, Copy, PartialEq, Eq)]
pub enum ConfigAction {
    Verify,
    Generate,
}

/// Why a command line was rejected.
#[derive(Debug, PartialEq)]
pub enum ArgumentsParseError {
    /// A token that the grammar does not know, named in the message.
    MalformedArguments(String),
}

/// The content of an `ArgumentsParseResult`, with the path as characters.
pub struct ParsedArguments {
    pub path: Option<Seq<char>>,
    pub action: ArgumentsAction,
}

impl View for ArgumentsParseResult {
    type V = ParsedArguments;

    open spec fn view(&self) -> ParsedArguments {
        ParsedArguments {
            path: match self.overwritten_config_path {
                Some(p) => Some(p@),
                None => None,
            },
            action: self.action,
        }
    }
}

impl View for ArgumentsParseError {
    type V = Seq<char>;

    /// The message that the error carries.
    open spec fn view(&self) -> Seq<char> {
        match self {
            ArgumentsParseError::MalformedArguments(message) => message@,
        }
    }
}

} // verus!
