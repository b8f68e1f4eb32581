use resilient::cli::{CliError, Command, CreateOptions, RestoreOptions};

fn args(words: &[&str]) -> Vec<String> {
    words.iter().map(|w| w.to_string()).collect()
}

fn create(words: &[&str]) -> Result<CreateOptions, CliError> {
    CreateOptions::parse_with_name(&args(words), "default".to_string())
}

fn restore(words: &[&str]) -> RestoreOptions {
    RestoreOptions::parse_options(&args(words))
}

#[test]
fn create_takes_name_message_and_verbosity() {
    assert_eq!(
        create(&["-v", "-n", "first", "-m", "a message"]),
        Ok(CreateOptions {
            verbose: true,
            name: "first".to_string(),
            message: "a message".to_string(),
        })
    );
    assert_eq!(
        create(&["-m", "msg"]),
        Ok(CreateOptions { verbose: false, name: "default".to_string(), message: "msg".to_string() })
    );
    assert_eq!(
        create(&["-m", "one", "-m", "two", "-n", "a", "-n", "b"]),
        Ok(CreateOptions { verbose: false, name: "b".to_string(), message: "two".to_string() })
    );
    assert_eq!(
        create(&["-m", "-v"]),
        Ok(CreateOptions { verbose: false, name: "default".to_string(), message: "-v".to_string() })
    );
}

#[test]
fn create_faults_are_errors() {
    assert_eq!(create(&[]), Err(CliError::EmptyMessage));
    assert_eq!(create(&["-v"]), Err(CliError::EmptyMessage));
    assert_eq!(create(&["-m", ""]), Err(CliError::EmptyMessage));
    assert_eq!(create(&["-n"]), Err(CliError::NoName));
    assert_eq!(create(&["-m", "x", "-n"]), Err(CliError::NoName));
    assert_eq!(create(&["-m"]), Err(CliError::NoMessage));
    assert_eq!(create(&["--verbose"]), Err(CliError::UnknownArgument("--verbose".to_string())));
    assert_eq!(create(&["-m", "x", "y"]), Err(CliError::UnknownArgument("y".to_string())));
}

#[test]
fn create_without_a_name_is_named_after_the_moment() {
    let options = CreateOptions::parse_options(&args(&["-m", "msg"])).unwrap();
    assert_eq!(options.message, "msg");
    let shape: String = options
        .name
        .chars()
        .map(|c| if c.is_ascii_digit() { '9' } else { c })
        .collect();
    assert_eq!(shape, "9999-99-99_99-99-99");
    let named = CreateOptions::parse_options(&args(&["-n", "mine", "-m", "msg"])).unwrap();
    assert_eq!(named.name, "mine");
}

#[test]
fn restore_takes_a_path_with_or_without_a_commit() {
    assert_eq!(restore(&[]), RestoreOptions { verbose: false, commit: None, path: "".to_string() });
    assert_eq!(
        restore(&["docs/a.txt"]),
        RestoreOptions { verbose: false, commit: None, path: "docs/a.txt".to_string() }
    );
    assert_eq!(
        restore(&["-v", "first:docs"]),
        RestoreOptions {
            verbose: true,
            commit: Some("first".to_string()),
            path: "docs".to_string(),
        }
    );
    assert_eq!(
        restore(&["latest:"]),
        RestoreOptions { verbose: false, commit: Some("latest".to_string()), path: "".to_string() }
    );
    assert_eq!(
        restore(&[":x"]),
        RestoreOptions { verbose: false, commit: Some("".to_string()), path: "x".to_string() }
    );
    assert_eq!(
        restore(&["a:b:c"]),
        RestoreOptions { verbose: false, commit: Some("a".to_string()), path: "b".to_string() }
    );
    assert_eq!(
        restore(&["a:b", "c"]),
        RestoreOptions { verbose: false, commit: Some("a".to_string()), path: "c".to_string() }
    );
    assert_eq!(
        restore(&[""]),
        RestoreOptions { verbose: false, commit: None, path: "".to_string() }
    );
}

#[test]
fn command_is_the_second_word() {
    let parse = |words: &[&str]| Command::parse_with_name(&args(words), "default".to_string());
    assert_eq!(parse(&["prog", "status"]), Ok(Command::Status));
    assert_eq!(parse(&["prog", "status", "ignored"]), Ok(Command::Status));
    assert_eq!(
        parse(&["prog", "create", "-m", "msg"]),
        Ok(Command::Create(CreateOptions {
            verbose: false,
            name: "default".to_string(),
            message: "msg".to_string(),
        }))
    );
    assert_eq!(
        parse(&["prog", "restore", "c:p"]),
        Ok(Command::Restore(RestoreOptions {
            verbose: false,
            commit: Some("c".to_string()),
            path: "p".to_string(),
        }))
    );
    assert_eq!(
        parse(&["prog", "restore"]),
        Ok(Command::Restore(RestoreOptions { verbose: false, commit: None, path: "".to_string() }))
    );
    assert_eq!(parse(&["prog"]), Err(CliError::NoCommand));
    assert_eq!(parse(&[]), Err(CliError::NoCommand));
    assert_eq!(parse(&["prog", "commit"]), Err(CliError::UnknownCommand("commit".to_string())));
    assert_eq!(parse(&["prog", "create"]), Err(CliError::EmptyMessage));
    assert_eq!(
        Command::parse_options(&args(&["prog", "status"])),
        Ok(Command::Status)
    );
}
