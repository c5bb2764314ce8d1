use ser_lib::error::ValidationError;
use ser_lib::input::{
    after_targets, base_name, optional_text, parse_field, parse_variable, split_command,
    split_program, validate_command,
};

#[test]
fn command_must_not_be_empty() {
    assert_eq!(validate_command(""), Err(ValidationError::EmptyCommand));
    assert_eq!(validate_command(" \t\n"), Err(ValidationError::EmptyCommand));
    assert_eq!(validate_command(" ls "), Ok(()));
    assert_eq!(ValidationError::EmptyCommand.message(), "Command cannot be empty");
}

#[test]
fn command_is_split_into_words() {
    assert_eq!(
        split_command("  /bin/echo  hello\tworld "),
        vec!["/bin/echo".to_string(), "hello".to_string(), "world".to_string()]
    );
    assert!(split_command("   ").is_empty());
}

#[test]
fn program_is_the_first_word() {
    let (program, arguments) =
        split_program(vec!["a".to_string(), "b".to_string(), "c".to_string()]).unwrap();
    assert_eq!(program, "a");
    assert_eq!(arguments, vec!["b".to_string(), "c".to_string()]);
    let (program, arguments) = split_program(vec!["a".to_string()]).unwrap();
    assert_eq!(program, "a");
    assert!(arguments.is_empty());
    assert_eq!(split_program(vec![]), None);
}

#[test]
fn base_name_follows_the_last_slash() {
    assert_eq!(base_name("/usr/bin/python3"), "python3");
    assert_eq!(base_name("python3"), "python3");
    assert_eq!(base_name("/usr/bin/"), "");
    assert_eq!(base_name(""), "");
    assert_eq!(base_name("a/b/c.d"), "c.d");
    for path in ["/usr/bin/python3", "x", "/a/", "", "//", "ä/ö"] {
        assert_eq!(base_name(path), path.rsplit('/').next().unwrap());
    }
}

#[test]
fn optional_text_is_trimmed_or_nothing() {
    assert_eq!(optional_text(""), None);
    assert_eq!(optional_text("  \t "), None);
    assert_eq!(optional_text("  /srv/www "), Some("/srv/www".to_string()));
    assert_eq!(optional_text("a b"), Some("a b".to_string()));
}

#[test]
fn variable_is_cut_at_the_first_equals_sign() {
    assert_eq!(parse_variable("KEY=VALUE"), Some(("KEY".to_string(), "VALUE".to_string())));
    assert_eq!(parse_variable(" KEY = a=b "), Some(("KEY".to_string(), "a=b".to_string())));
    assert_eq!(parse_variable("KEY="), Some(("KEY".to_string(), "".to_string())));
    assert_eq!(parse_variable("=x"), Some(("".to_string(), "x".to_string())));
    assert_eq!(parse_variable("KEY"), None);
    assert_eq!(parse_variable(""), None);
}

#[test]
fn networked_service_starts_after_the_network() {
    assert_eq!(
        after_targets(true),
        vec!["network.target".to_string(), "network-online.target".to_string()]
    );
    assert!(after_targets(false).is_empty());
}

#[test]
fn field_is_a_small_number_or_nothing() {
    assert_eq!(parse_field(""), Ok(None));
    assert_eq!(parse_field("  "), Ok(None));
    assert_eq!(parse_field("0"), Ok(Some(0)));
    assert_eq!(parse_field(" 14 "), Ok(Some(14)));
    assert_eq!(parse_field("007"), Ok(Some(7)));
    assert_eq!(parse_field("255"), Ok(Some(255)));
    for n in 0..=255u8 {
        assert_eq!(parse_field(&n.to_string()), Ok(Some(n)));
    }
}

#[test]
fn field_refuses_what_is_no_small_number() {
    for input in ["256", "1000", "99999999999999999999", "-1", "+1", "1.5", "x", "1 2", "١"] {
        assert_eq!(parse_field(input), Err(ValidationError::NotANumber), "{}", input);
    }
    assert_eq!(
        ValidationError::NotANumber.message(),
        "Please enter a number, or leave empty for any"
    );
}
