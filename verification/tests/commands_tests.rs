use mobdtimer::commands::{parse_command, parse_u64, process_command_lines, Command, CommandError};

#[test]
fn returns_on_exit_command() {
    let commands = vec!["q".to_string()];

    let output = process_command_lines(&commands);

    assert_eq!(output, "");
}

#[test]
fn prints_error_on_errored_command() {
    let commands = vec!["somebadcommand".to_string(), "q".to_string()];

    let output = process_command_lines(&commands);

    assert_eq!(output, "invalid command\n");
}

#[test]
fn reports_a_line_of_too_many_tokens_and_goes_on() {
    let commands = vec!["s 3 4".to_string(), "q".to_string()];

    let output = process_command_lines(&commands);

    assert_eq!(output, "invalid command\n");
}

#[test]
fn reports_a_non_numeric_timer_argument_without_crashing() {
    let commands = vec!["s abc".to_string(), "q".to_string()];

    let output = process_command_lines(&commands);

    assert_eq!(output, "invalid argument\n");
}

#[test]
fn lines_after_the_exit_command_are_not_read() {
    let commands = vec!["q".to_string(), "somebadcommand".to_string()];

    let output = process_command_lines(&commands);

    assert_eq!(output, "");
}

#[test]
fn parses_the_known_commands() {
    assert_eq!(parse_command(""), Ok(Command::Empty));
    assert_eq!(parse_command("q"), Ok(Command::Quit));
    assert_eq!(parse_command("k"), Ok(Command::Kill));
    assert_eq!(parse_command("s 5"), Ok(Command::Start { minutes: 5 }));
}

#[test]
fn rejects_unknown_commands() {
    assert_eq!(parse_command("bogus"), Err(CommandError::Invalid));
    assert_eq!(parse_command("x 5"), Err(CommandError::Invalid));
    assert_eq!(parse_command("s5"), Err(CommandError::Invalid));
}

#[test]
fn rejects_three_or_more_tokens() {
    assert_eq!(parse_command("a b c"), Err(CommandError::TooManyArguments));
    assert_eq!(parse_command("s  3"), Err(CommandError::TooManyArguments));
}

#[test]
fn rejects_a_timer_argument_that_is_no_number() {
    assert_eq!(parse_command("s abc"), Err(CommandError::InvalidArgument));
    assert_eq!(parse_command("s "), Err(CommandError::InvalidArgument));
    assert_eq!(
        parse_command("s 99999999999999999999999999"),
        Err(CommandError::InvalidArgument)
    );
}

#[test]
fn error_messages_match_what_the_loop_prints() {
    assert_eq!(CommandError::Invalid.message(), "invalid command");
    assert_eq!(CommandError::TooManyArguments.message(), "invalid command");
    assert_eq!(CommandError::InvalidArgument.message(), "invalid argument");
}

#[test]
fn parses_plain_decimal_numbers() {
    assert_eq!(parse_u64("0"), Some(0));
    assert_eq!(parse_u64("25"), Some(25));
    assert_eq!(parse_u64("007"), Some(7));
    assert_eq!(parse_u64("+7"), Some(7));
    assert_eq!(parse_u64("18446744073709551615"), Some(u64::MAX));
}

#[test]
fn rejects_what_is_no_decimal_number() {
    assert_eq!(parse_u64(""), None);
    assert_eq!(parse_u64("+"), None);
    assert_eq!(parse_u64("-3"), None);
    assert_eq!(parse_u64("3a"), None);
    assert_eq!(parse_u64("18446744073709551616"), None);
}
