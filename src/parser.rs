//! The scan over the tokens of a command line.

use vstd::prelude::*;

use crate::text::{split_spaces, split_spaces_spec, strip_quotes, strip_quotes_spec};
use crate::{
    ArgumentsAction, ArgumentsParseError, ArgumentsParseResult, ConfigAction, HelpScreenOptions,
    ParsedArguments,
};

verus! {

/// The one flag of the grammar; it takes the token after it as its payload.
pub open spec fn config_flag() -> Seq<char> {
    "--config"@
}

/// The message of the error for an unknown token `t`.
pub open spec fn unknown_argument_message(t: Seq<char>) -> Seq<char> {
    "Unknown argument: "@ + t
}

/// Nothing asked for yet: no path, and the usual start.
pub open spec fn initial_arguments() -> ParsedArguments {
    ParsedArguments { path: None, action: ArgumentsAction::ProceedAsUsual }
}

/// The effect of `--config <payload>` on `st`. Quotes are removed first; a
/// payload that is then a keyword sets the action, any other one is the path.
pub open spec fn apply_payload_spec(st: ParsedArguments, payload: Seq<char>) -> ParsedArguments {
    let p = strip_quotes_spec(payload);
    if p == "+verify"@ {
        ParsedArguments { action: ArgumentsAction::ConfigAction(ConfigAction::Verify), ..st }
    } else if p == "+generate"@ {
        ParsedArguments { action: ArgumentsAction::ConfigAction(ConfigAction::Generate), ..st }
    } else if p == "help"@ || p == "+help"@ {
        ParsedArguments { action: ArgumentsAction::HelpScreen(HelpScreenOptions::Config), ..st }
    } else {
        ParsedArguments { path: Some(p), ..st }
    }
}

/// The left-to-right scan of `tokens` from the state `st`. A `--config`
/// consumes the token after it, an empty token is skipped, and any other
/// token, or a `--config` with nothing after it, ends the scan with an error
/// that names it.
pub open spec fn scan_spec(tokens: Seq<Seq<char>>, st: ParsedArguments) -> Result<
    ParsedArguments,
    Seq<char>,
>
    decreases tokens.len(),
{
    if tokens.len() == 0 {
        Ok(st)
    } else if tokens[0] == config_flag() {
        if tokens.len() == 1 {
            Err(unknown_argument_message(tokens[0]))
        } else {
            scan_spec(tokens.skip(2), apply_payload_spec(st, tokens[1]))
        }
    } else if tokens[0].len() > 0 {
        Err(unknown_argument_message(tokens[0]))
    } else {
        scan_spec(tokens.skip(1), st)
    }
}

/// What the command line `s` asks for, or the message of its error.
pub open spec fn parse_spec(s: Seq<char>) -> Result<ParsedArguments, Seq<char>> {
    scan_spec(split_spaces_spec(s), initial_arguments())
}

/// The value of an outcome of `parse_arguments`.
pub open spec fn outcome_view(r: Result<ArgumentsParseResult, ArgumentsParseError>) -> Result<
    ParsedArguments,
    Seq<char>,
> {
    match r {
        Ok(a) => Ok(a@),
        Err(e) => Err(e@),
    }
}

/// Applies the payload of one `--config` to `output`.
fn apply_payload(output: &mut ArgumentsParseResult, payload: &str)
    ensures
        final(output)@ == apply_payload_spec(old(output)@, payload@),
{
    let p = strip_quotes(payload);
    if p == String::from_str("+verify") {
        output.action = ArgumentsAction::ConfigAction(ConfigAction::Verify);
    } else if p == String::from_str("+generate") {
        output.action = ArgumentsAction::ConfigAction(ConfigAction::Generate);
    } else if p == String::from_str("help") || p == String::from_str("+help") {
        output.action = ArgumentsAction::HelpScreen(HelpScreenOptions::Config);
    } else {
        output.overwritten_config_path = Some(p);
    }
}

/// Parses a command line whose tokens are separated by spaces.
pub fn parse_arguments(arguments: &str) -> (r: Result<ArgumentsParseResult, ArgumentsParseError>)
    ensures
        outcome_view(r) == parse_spec(arguments@),
{
    let mut output = ArgumentsParseResult {
        overwritten_config_path: None,
        action: ArgumentsAction::ProceedAsUsual,
    };
    let args = split_spaces(arguments);
    let ghost tokens = args.deep_view();
    let n = args.len();
    let mut k: usize = 0;
    assert(tokens.skip(0) =~= tokens);
    while k < n
        invariant
            n == args.len() == tokens.len(),
            tokens == args.deep_view(),
            tokens == split_spaces_spec(arguments@),
            k <= n,
            scan_spec(tokens, initial_arguments()) == scan_spec(tokens.skip(k as int), output@),
        decreases n - k,
    {
        let token = args[k].as_str();
        assert(token@ == tokens[k as int]);
        if args[k] == String::from_str("--config") {
            if k + 1 == n {
                let message = String::from_str("Unknown argument: ").concat(token);
                return Err(ArgumentsParseError::MalformedArguments(message));
            }
            apply_payload(&mut output, args[k + 1].as_str());
            assert(tokens.skip(k as int).skip(2) =~= tokens.skip(k + 2));
            k = k + 2;
        } else if token.unicode_len() > 0 {
            let message = String::from_str("Unknown argument: ").concat(token);
            return Err(ArgumentsParseError::MalformedArguments(message));
        } else {
            assert(tokens.skip(k as int).skip(1) =~= tokens.skip(k + 1));
            k = k + 1;
        }
    }
    Ok(output)
}

} // verus!
