use styled_text::usage_error::{handle_error, FailureKind, ParseFailure, Verdict};

fn failure(kind: FailureKind, arg: Option<&str>, value: Option<&str>, values: Option<&[&str]>) -> ParseFailure {
    ParseFailure {
        kind,
        invalid_arg: arg.map(|a| a.to_string()),
        invalid_value: value.map(|v| v.to_string()),
        valid_values: values.map(|list| list.iter().map(|v| v.to_string()).collect()),
        rendered: "error: something else".to_string(),
    }
}

fn exit_message(verdict: Verdict) -> String {
    match verdict {
        Verdict::Exit { message } => message.to_string(),
        other => panic!("not an exit: {:?}", other),
    }
}

#[test]
fn unknown_argument_is_quoted() {
    let dashed = failure(FailureKind::UnknownArgument, Some("--frob"), None, None);
    assert_eq!(exit_message(handle_error(&dashed)), "The argument \"--frob\" is not recognized.");
    let word = failure(FailureKind::UnknownArgument, Some("fr\"ob"), None, None);
    assert_eq!(exit_message(handle_error(&word)), "The operation \"fr\\\"ob\" is not recognized.");
    let none = failure(FailureKind::UnknownArgument, None, None, None);
    assert_eq!(exit_message(handle_error(&none)), "Unkown operation behavior");
}

#[test]
fn repeated_argument() {
    let dashed = failure(FailureKind::ArgumentConflict, Some("--force"), None, None);
    assert_eq!(exit_message(handle_error(&dashed)), "The argument '--force' is used more than once.");
    let word = failure(FailureKind::ArgumentConflict, Some("force"), None, None);
    assert_eq!(exit_message(handle_error(&word)), "Unkown operation behavior");
    let none = failure(FailureKind::ArgumentConflict, None, None, None);
    assert_eq!(exit_message(handle_error(&none)), "Unkown operation behavior");
}

#[test]
fn missing_value() {
    let named = failure(FailureKind::InvalidValue, Some("--level <LEVEL>"), Some(""), None);
    assert_eq!(
        exit_message(handle_error(&named)),
        "The argument <brightmagenta>--level</brightmagenta> requires a value."
    );
    let bare = failure(FailureKind::InvalidValue, Some("--level"), Some(""), None);
    assert!(matches!(handle_error(&bare), Verdict::Quit));
}

#[test]
fn invalid_value_lists_what_would_do() {
    let listed = failure(
        FailureKind::InvalidValue,
        Some("--channel <CHANNEL>"),
        Some("nightly"),
        Some(&["stable", "unstable"]),
    );
    match handle_error(&listed) {
        Verdict::Explain { error, last: Some(last) } => {
            assert_eq!(
                error.to_string(),
                "The value is not valid for the argument <brightmagenta>--channel</brightmagenta>."
            );
            assert_eq!(last.to_string(), "Valid values are: stable, unstable");
        },
        other => panic!("unexpected: {:?}", other),
    }
    let unlisted = failure(FailureKind::InvalidValue, Some("--level <LEVEL>"), Some("x"), None);
    match handle_error(&unlisted) {
        Verdict::Explain { error, last: None } => {
            assert_eq!(
                error.to_string(),
                "The value is not valid for the argument <brightmagenta>--level</brightmagenta>."
            );
        },
        other => panic!("unexpected: {:?}", other),
    }
    let empty_list = failure(FailureKind::InvalidValue, Some("-l"), Some("x"), Some(&[]));
    assert!(matches!(handle_error(&empty_list), Verdict::Explain { last: Some(last), .. } if last.to_string() == "Valid values are: "));
}

#[test]
fn invalid_value_without_details() {
    let word = failure(FailureKind::InvalidValue, Some("level"), Some("x"), None);
    assert_eq!(exit_message(handle_error(&word)), "Unkown operation behavior");
    let no_value = failure(FailureKind::InvalidValue, Some("--level"), None, None);
    assert_eq!(exit_message(handle_error(&no_value)), "Unkown operation behavior");
    let no_arg = failure(FailureKind::InvalidValue, None, Some("x"), None);
    assert_eq!(exit_message(handle_error(&no_arg)), "Unkown operation behavior");
}

#[test]
fn other_failures_show_the_parser_message() {
    let other = failure(FailureKind::Other, Some("--x"), None, None);
    assert_eq!(exit_message(handle_error(&other)), "error: something else");
}
