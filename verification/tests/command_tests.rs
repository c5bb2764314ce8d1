use ser_lib::command::{
    journalctl_arguments, last_lines, launchctl_arguments, lists_service, log_arguments,
    log_predicate, reload_arguments, systemctl_arguments, UnitAction,
};
use ser_lib::text::{chars_of, contains_text, find_last_char, push_number, split_lines, string_of};

fn strings(words: &[&str]) -> Vec<String> {
    words.iter().map(|w| w.to_string()).collect()
}

#[test]
fn systemctl_is_asked_by_a_word_and_the_unit() {
    assert_eq!(systemctl_arguments(UnitAction::Start, "web"), strings(&["start", "web"]));
    assert_eq!(systemctl_arguments(UnitAction::Stop, "web"), strings(&["stop", "web"]));
    assert_eq!(systemctl_arguments(UnitAction::Restart, "web"), strings(&["restart", "web"]));
    assert_eq!(systemctl_arguments(UnitAction::Enable, "web"), strings(&["enable", "web"]));
    assert_eq!(systemctl_arguments(UnitAction::Disable, "web"), strings(&["disable", "web"]));
    assert_eq!(
        systemctl_arguments(UnitAction::IsActive, "web"),
        strings(&["is-active", "--quiet", "web"])
    );
    assert_eq!(reload_arguments(), strings(&["daemon-reload"]));
}

#[test]
fn journalctl_shows_a_number_of_lines() {
    assert_eq!(
        journalctl_arguments("web", 50, false),
        strings(&["-u", "web", "-n", "50", "--no-pager"])
    );
    assert_eq!(
        journalctl_arguments("web", 0, true),
        strings(&["-u", "web", "-n", "0", "-f", "--no-pager"])
    );
    assert_eq!(journalctl_arguments("web", u32::MAX, false)[3], "4294967295");
}

#[test]
fn launchctl_loads_and_unloads_for_good() {
    assert_eq!(launchctl_arguments(true, "/a.plist"), strings(&["load", "-w", "/a.plist"]));
    assert_eq!(launchctl_arguments(false, "/a.plist"), strings(&["unload", "-w", "/a.plist"]));
}

#[test]
fn log_is_asked_for_the_last_hour() {
    let predicate = "process CONTAINS[c] 'web' OR subsystem CONTAINS[c] 'web' OR category CONTAINS[c] 'web' OR eventMessage CONTAINS[c] 'web'";
    assert_eq!(log_predicate("web"), predicate);
    assert_eq!(
        log_arguments("web", false),
        strings(&["show", "--last", "1h", "--predicate", predicate, "--style", "syslog"])
    );
    assert_eq!(
        log_arguments("web", true),
        strings(&["show", "--last", "1h", "--predicate", predicate, "--style", "syslog", "--stream"])
    );
}

#[test]
fn printed_lines_are_what_std_says() {
    for text in ["", "a", "a\n", "a\nb", "a\r\nb\r\n", "a\r", "\n\n", "a\n\r\nb\r", "\r\n", "x\r\r\ny"] {
        let chars = chars_of(text);
        let lines: Vec<String> = split_lines(&chars).into_iter().map(string_of).collect();
        let expected: Vec<String> = text.lines().map(|l| l.to_string()).collect();
        assert_eq!(lines, expected, "{:?}", text);
    }
}

#[test]
fn service_is_listed_where_a_line_holds_its_name() {
    let output = "PID\tStatus\tLabel\n123\t0\tcom.example.web\n-\t0\tcom.example.db\n";
    assert!(lists_service(output, "com.example.web"));
    assert!(lists_service(output, "example"));
    assert!(!lists_service(output, "com.example.mail"));
    assert!(!lists_service(output, "Label\n123"));
    assert!(!lists_service("", "web"));
    assert!(!lists_service("", ""));
    assert!(lists_service("x", ""));
}

#[test]
fn last_lines_are_the_end_of_the_output() {
    let output = "one\ntwo\r\nthree\nfour";
    assert_eq!(last_lines(output, 2), strings(&["three", "four"]));
    assert_eq!(last_lines(output, 4), strings(&["one", "two", "three", "four"]));
    assert_eq!(last_lines(output, 9), strings(&["one", "two", "three", "four"]));
    assert!(last_lines(output, 0).is_empty());
    assert!(last_lines("", 3).is_empty());
}

#[test]
fn text_is_found_inside_text() {
    for (text, pattern) in [("systemd", "temd"), ("abc", ""), ("", ""), ("abc", "abcd"), ("aab", "ab"), ("abc", "ac")] {
        assert_eq!(contains_text(&chars_of(text), pattern), text.contains(pattern));
    }
}

#[test]
fn last_place_of_a_character() {
    assert_eq!(find_last_char(&chars_of("a/b/c"), '/'), Some(3));
    assert_eq!(find_last_char(&chars_of("abc"), '/'), None);
    assert_eq!(find_last_char(&chars_of(""), '/'), None);
    assert_eq!(find_last_char(&chars_of("/"), '/'), Some(0));
}

#[test]
fn numbers_are_written_in_decimal() {
    for n in [0u32, 7, 10, 99, 100, 12345, u32::MAX] {
        let mut out = String::new();
        push_number(&mut out, n);
        assert_eq!(out, n.to_string());
    }
}
