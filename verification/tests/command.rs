use diskanalyzer::command::{parse_command, wants_help, Command, CommandError};

fn args(list: &[&str]) -> Vec<String> {
    list.iter().map(|s| s.to_string()).collect()
}

#[test]
fn without_arguments_the_program_starts_empty() {
    assert!(matches!(parse_command(args(&[])), Ok(Command::Start)));
}

#[test]
fn open_takes_one_path() {
    match parse_command(args(&["open", "./r.json"])) {
        Ok(Command::Open(path)) => assert_eq!(path, "./r.json"),
        other => panic!("{other:?}"),
    }
    for list in [args(&["open"]), args(&["open", "a", "b"])] {
        match parse_command(list) {
            Err(error) => {
                assert_eq!(error, CommandError::OpenNeedsOnePath);
                assert_eq!(error.message(), "open requires exactly one file path");
            }
            other => panic!("{other:?}"),
        }
    }
}

#[test]
fn other_words_are_no_commands() {
    for list in [args(&["close"]), args(&["Open", "a"]), args(&[""])] {
        match parse_command(list) {
            Err(error) => {
                assert_eq!(error, CommandError::Unknown);
                assert_eq!(error.message(), "unknown command. use --help");
            }
            other => panic!("{other:?}"),
        }
    }
}

#[test]
fn help_can_be_asked_for_anywhere() {
    assert!(wants_help(&args(&["-h"])));
    assert!(wants_help(&args(&["open", "x", "--help"])));
    assert!(!wants_help(&args(&["help", "-help", "--h"])));
    assert!(!wants_help(&args(&[])));
}
