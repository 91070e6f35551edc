use argument_parsing::{
    parse_arguments, ArgumentsAction, ArgumentsParseError, ArgumentsParseResult, ConfigAction,
    HelpScreenOptions,
};

#[test]
fn parse_file_path() {
    let example = "--config speecher_config.toml";
    let expected: Result<ArgumentsParseResult, ArgumentsParseError> = Ok(
        ArgumentsParseResult {
            overwritten_config_path: Some("speecher_config.toml".to_string()),
            action: ArgumentsAction::ProceedAsUsual
        }
    );

    assert_eq!(
        parse_arguments(example), expected
    );
}

#[test]
fn parse_wierd_file_path() {
    // Quotes are removed before the payload is classified, so a quoted
    // keyword is still that keyword.
    let example = "--config \"+help\"";
    let expected: Result<ArgumentsParseResult, ArgumentsParseError> = Ok(
        ArgumentsParseResult {
            overwritten_config_path: None,
            action: ArgumentsAction::HelpScreen(HelpScreenOptions::Config)
        }
    );

    assert_eq!(
        parse_arguments(example), expected
    );
}

#[test]
fn parse_generate() {
    let example = "--config +generate";
    let expected: Result<ArgumentsParseResult, ArgumentsParseError> = Ok(
        ArgumentsParseResult {
            overwritten_config_path: None,
            action: ArgumentsAction::ConfigAction(ConfigAction::Generate)
        }
    );

    assert_eq!(
        parse_arguments(example), expected
    );
}

#[test]
fn parse_generate_at() {
    let example = "--config at_path.toml --config +generate";
    let expected: Result<ArgumentsParseResult, ArgumentsParseError> = Ok(
        ArgumentsParseResult {
            overwritten_config_path: Some("at_path.toml".to_string()),
            action: ArgumentsAction::ConfigAction(ConfigAction::Generate)
        }
    );

    assert_eq!(
        parse_arguments(example), expected
    );
}

#[test]
fn parse_verify() {
    let example = "--config +verify";
    let expected: Result<ArgumentsParseResult, ArgumentsParseError> = Ok(
        ArgumentsParseResult {
            overwritten_config_path: None,
            action: ArgumentsAction::ConfigAction(ConfigAction::Verify)
        }
    );

    assert_eq!(
        parse_arguments(example), expected
    );
}

#[test]
fn parse_verify_at() {
    let example = "--config +verify --config at_path.toml";
    let expected: Result<ArgumentsParseResult, ArgumentsParseError> = Ok(
        ArgumentsParseResult {
            overwritten_config_path: Some("at_path.toml".to_string()),
            action: ArgumentsAction::ConfigAction(ConfigAction::Verify)
        }
    );

    assert_eq!(
        parse_arguments(example), expected
    );
}

#[test]
fn parse_help1() {
    let example = "--config +help";
    let expected: Result<ArgumentsParseResult, ArgumentsParseError> = Ok(
        ArgumentsParseResult {
            overwritten_config_path: None,
            action: ArgumentsAction::HelpScreen(HelpScreenOptions::Config)
        }
    );

    assert_eq!(
        parse_arguments(example), expected
    );
}

#[test]
fn parse_help2() {
    let example = "--config help";
    let expected: Result<ArgumentsParseResult, ArgumentsParseError> = Ok(
        ArgumentsParseResult {
            overwritten_config_path: None,
            action: ArgumentsAction::HelpScreen(HelpScreenOptions::Config)
        }
    );

    assert_eq!(
        parse_arguments(example), expected
    );
}
