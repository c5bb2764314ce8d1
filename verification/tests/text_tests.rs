use ser_lib::error::{
    GenerateError, MissingScheduleError, ParseError, RenderError, SerializationError,
    ValidationError,
};
use ser_lib::text::{
    chars_of, equals, find_char, is_whitespace, push_number, push_two_digits, same_text,
    split_words, string_of, strip_prefix, strip_suffix, trim_prefixes, trim_suffixes, trimmed,
};

fn chars(s: &str) -> Vec<char> {
    s.chars().collect()
}

#[test]
fn whitespace_is_what_std_says() {
    for code in 0..=0x10ffffu32 {
        if let Some(c) = char::from_u32(code) {
            assert_eq!(is_whitespace(c), c.is_whitespace(), "U+{:04X}", code);
        }
    }
}

#[test]
fn chars_and_back() {
    assert_eq!(chars_of("a→b"), vec!['a', '→', 'b']);
    assert_eq!(string_of(&['a', '→', 'b']), "a→b");
    assert_eq!(chars_of(""), Vec::<char>::new());
    assert_eq!(string_of(&[]), "");
}

#[test]
fn trimmed_is_what_std_says() {
    for s in ["", " ", "a", "  a b \t\r\n", "\u{a0}x\u{2003}", "x  ", "  x"] {
        assert_eq!(string_of(trimmed(&chars(s))), s.trim());
    }
}

#[test]
fn split_words_is_what_std_says() {
    for s in ["", "   ", "a", " a  b\tc\n", "one two", "x\u{3000}y"] {
        let expected: Vec<String> = s.split_whitespace().map(|w| w.to_string()).collect();
        assert_eq!(split_words(&chars(s)), expected);
    }
}

#[test]
fn find_char_gives_the_first_place() {
    assert_eq!(find_char(&chars("a=b=c"), '='), 1);
    assert_eq!(find_char(&chars("abc"), '='), 3);
    assert_eq!(find_char(&chars(""), '='), 0);
}

#[test]
fn strip_prefix_and_suffix() {
    let s = chars("Key=value");
    assert_eq!(strip_prefix(&s, "Key=").map(string_of), Some("value".to_string()));
    assert_eq!(strip_prefix(&s, "key="), None);
    assert_eq!(strip_prefix(&s, "Key=value!"), None);
    assert_eq!(strip_prefix(&s, "").map(string_of), Some("Key=value".to_string()));
    assert_eq!(strip_suffix(&s, "value").map(string_of), Some("Key=".to_string()));
    assert_eq!(strip_suffix(&s, "Value"), None);
    assert_eq!(strip_suffix(&s, "xKey=value"), None);
}

#[test]
fn trim_prefixes_and_suffixes_repeat() {
    assert_eq!(string_of(trim_prefixes(&chars("ababc"), "ab")), "c");
    assert_eq!(string_of(trim_prefixes(&chars("abc"), "")), "abc");
    assert_eq!(string_of(trim_suffixes(&chars("cabab"), "ab")), "c");
    assert_eq!(string_of(trim_suffixes(&chars("abc"), "")), "abc");
    assert_eq!(string_of(trim_suffixes(&chars("abab"), "ab")), "");
}

#[test]
fn equality_of_texts() {
    assert!(equals(&chars("abc"), "abc"));
    assert!(!equals(&chars("abc"), "abd"));
    assert!(!equals(&chars("abc"), "ab"));
    assert!(!equals(&chars("ab"), "abc"));
    assert!(same_text("", ""));
    assert!(!same_text("a", ""));
}

#[test]
fn decimal_of_every_byte() {
    for n in 0..=255u8 {
        let mut out = String::from(">");
        push_number(&mut out, n as u32);
        assert_eq!(out, format!(">{}", n));
        let mut out = String::new();
        push_two_digits(&mut out, n);
        assert_eq!(out, format!("{:02}", n));
    }
}

#[test]
fn every_error_has_its_message() {
    assert_eq!(ValidationError::EmptyName.message(), "Service name cannot be empty");
    assert_eq!(ValidationError::WhitespaceInName.message(), "Service name cannot contain spaces");
    assert_eq!(ValidationError::MonthOutOfRange.message(), "Month must be between 1 and 12");
    assert_eq!(ValidationError::DayOutOfRange.message(), "Day must be between 1 and 31");
    assert_eq!(ValidationError::WeekdayOutOfRange.message(), "Weekday must be between 0 and 6");
    assert_eq!(ValidationError::HourOutOfRange.message(), "Hour must be between 0 and 23");
    assert_eq!(ValidationError::MinuteOutOfRange.message(), "Minute must be between 0 and 59");
    assert_eq!(RenderError::NothingToRun.message(), "Service has neither a program nor arguments");
    assert_eq!(MissingScheduleError.message(), "Service has no schedule");
    assert_eq!(ParseError::MissingExecStart.message(), "No ExecStart line in service file");
    assert_eq!(ParseError::EmptyExecStart.message(), "ExecStart line is empty in service file");
    assert_eq!(
        ParseError::MalformedEnvironment.message(),
        "Environment line is empty in service file"
    );
    assert_eq!(ParseError::NotADictionary.message(), "Invalid plist format");
    assert_eq!(
        ParseError::MissingProgram.message(),
        "Missing 'Program' or 'ProgramArguments' in plist"
    );
    assert_eq!(SerializationError::Refused.message(), "Failed to serialize plist");
    assert_eq!(SerializationError::NotText.message(), "Serialized plist is not valid UTF-8");
    assert_eq!(
        GenerateError::Render(RenderError::NothingToRun).message(),
        "Service has neither a program nor arguments"
    );
    assert_eq!(
        GenerateError::Serialization(SerializationError::Refused).message(),
        "Failed to serialize plist"
    );
}
