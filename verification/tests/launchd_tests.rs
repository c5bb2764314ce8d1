use ser_lib::details::ServiceDetails;
use ser_lib::error::ParseError;
use ser_lib::launchd::{generate_file, launchd_document, parse_plist_into_service};
use ser_lib::property_list::{PlistDictionary, PlistValue};
use ser_lib::schedule::CalendarSchedule;

fn plain(program: &str, arguments: &[&str]) -> ServiceDetails {
    ServiceDetails {
        name: "com.example.job".to_string(),
        program: program.to_string(),
        arguments: arguments.iter().map(|s| s.to_string()).collect(),
        working_directory: None,
        run_at_load: false,
        keep_alive: false,
        env_file: None,
        env_vars: vec![],
        after: vec![],
        schedule: None,
    }
}

fn text(s: &str) -> PlistValue {
    PlistValue::String(s.to_string())
}

fn dictionary(entries: Vec<(&str, PlistValue)>) -> PlistDictionary {
    let mut d = PlistDictionary::new();
    for (key, value) in entries {
        d.insert(key.to_string(), value);
    }
    d
}

fn keys(d: &PlistDictionary) -> Vec<String> {
    (0..d.len()).map(|i| d.key_at(i).clone()).collect()
}

fn top(document: &PlistValue) -> &PlistDictionary {
    match document {
        PlistValue::Dictionary(d) => d,
        other => panic!("no dictionary: {:?}", other),
    }
}

#[test]
fn document_without_arguments_has_program() {
    let document = launchd_document(&plain("/bin/true", &[]));
    let d = top(&document);
    assert_eq!(keys(d), vec!["Label".to_string(), "Program".to_string()]);
    assert_eq!(d.get("Label"), Some(&text("com.example.job")));
    assert_eq!(d.get("Program"), Some(&text("/bin/true")));
    assert_eq!(d.get("ProgramArguments"), None);
}

#[test]
fn document_with_arguments_has_program_arguments() {
    let document = launchd_document(&plain("/bin/echo", &["hello", "world"]));
    let d = top(&document);
    assert_eq!(keys(d), vec!["Label".to_string(), "ProgramArguments".to_string()]);
    assert_eq!(d.get("Program"), None);
    assert_eq!(
        d.get("ProgramArguments"),
        Some(&PlistValue::Array(vec![text("/bin/echo"), text("hello"), text("world")]))
    );
}

#[test]
fn document_has_flags_only_where_set() {
    let mut d = plain("/bin/true", &[]);
    d.working_directory = Some("/tmp".to_string());
    d.run_at_load = true;
    d.keep_alive = true;
    let document = launchd_document(&d);
    let entries = top(&document);
    assert_eq!(
        keys(entries),
        vec![
            "Label".to_string(),
            "Program".to_string(),
            "WorkingDirectory".to_string(),
            "RunAtLoad".to_string(),
            "KeepAlive".to_string(),
        ]
    );
    assert_eq!(entries.get("WorkingDirectory"), Some(&text("/tmp")));
    assert_eq!(entries.get("RunAtLoad"), Some(&PlistValue::Boolean(true)));
    assert_eq!(entries.get("KeepAlive"), Some(&PlistValue::Boolean(true)));

    d.keep_alive = false;
    let document = launchd_document(&d);
    assert_eq!(top(&document).get("KeepAlive"), None);
    assert!(top(&document).get("RunAtLoad").is_some());
}

#[test]
fn document_of_a_scheduled_service_has_no_flags() {
    let mut d = plain("/bin/true", &[]);
    d.run_at_load = true;
    d.keep_alive = true;
    d.schedule = Some(CalendarSchedule::new(None, None, Some(1), Some(14), None).unwrap());
    let document = launchd_document(&d);
    let entries = top(&document);
    assert_eq!(
        keys(entries),
        vec!["Label".to_string(), "Program".to_string(), "StartCalendarInterval".to_string()]
    );
    let interval = dictionary(vec![
        ("Weekday", PlistValue::Integer(1)),
        ("Hour", PlistValue::Integer(14)),
    ]);
    assert_eq!(entries.get("StartCalendarInterval"), Some(&PlistValue::Dictionary(interval)));
}

#[test]
fn document_has_environment_variables() {
    let mut d = plain("/bin/true", &[]);
    d.env_vars = vec![
        ("A".to_string(), "1".to_string()),
        ("B".to_string(), "2".to_string()),
        ("A".to_string(), "3".to_string()),
    ];
    let document = launchd_document(&d);
    let environment = dictionary(vec![("A", text("3")), ("B", text("2"))]);
    assert_eq!(
        top(&document).get("EnvironmentVariables"),
        Some(&PlistValue::Dictionary(environment))
    );
    d.env_vars = vec![];
    let document = launchd_document(&d);
    assert_eq!(top(&document).get("EnvironmentVariables"), None);
}

#[test]
fn generate_writes_xml() {
    let mut d = plain("/bin/echo", &["a<b", "c"]);
    d.schedule = Some(CalendarSchedule::new(None, None, None, Some(14), Some(5)).unwrap());
    d.env_vars = vec![("K".to_string(), "v".to_string())];
    assert_eq!(
        generate_file(&d).unwrap(),
        "<?xml version=\"1.0\" encoding=\"UTF-8\"?>\n\
         <!DOCTYPE plist PUBLIC \"-//Apple//DTD PLIST 1.0//EN\" \"http://www.apple.com/DTDs/PropertyList-1.0.dtd\">\n\
         <plist version=\"1.0\">\n\
         <dict>\n\
         \t<key>Label</key>\n\
         \t<string>com.example.job</string>\n\
         \t<key>ProgramArguments</key>\n\
         \t<array>\n\
         \t\t<string>/bin/echo</string>\n\
         \t\t<string>a&lt;b</string>\n\
         \t\t<string>c</string>\n\
         \t</array>\n\
         \t<key>StartCalendarInterval</key>\n\
         \t<dict>\n\
         \t\t<key>Hour</key>\n\
         \t\t<integer>14</integer>\n\
         \t\t<key>Minute</key>\n\
         \t\t<integer>5</integer>\n\
         \t</dict>\n\
         \t<key>EnvironmentVariables</key>\n\
         \t<dict>\n\
         \t\t<key>K</key>\n\
         \t\t<string>v</string>\n\
         \t</dict>\n\
         </dict>\n\
         </plist>"
    );
}

#[test]
fn generate_writes_program_key_without_arguments() {
    let xml = generate_file(&plain("/bin/true", &[])).unwrap();
    assert!(xml.contains("<key>Program</key>\n\t<string>/bin/true</string>"));
    assert!(!xml.contains("ProgramArguments"));
}

#[test]
fn generate_writes_program_arguments_key_with_arguments() {
    let xml = generate_file(&plain("/bin/echo", &["hi"])).unwrap();
    assert!(xml.contains("<key>ProgramArguments</key>"));
    assert!(!xml.contains("<key>Program</key>"));
}

#[test]
fn generate_writes_flags() {
    let mut d = plain("/bin/true", &[]);
    d.run_at_load = true;
    let xml = generate_file(&d).unwrap();
    assert!(xml.contains("<key>RunAtLoad</key>\n\t<true/>"));
    assert!(!xml.contains("KeepAlive"));
}

#[test]
fn parse_reads_program() {
    let plist = PlistValue::Dictionary(dictionary(vec![
        ("Label", text("x")),
        ("Program", text("/bin/true")),
        ("WorkingDirectory", text("/tmp")),
        ("RunAtLoad", PlistValue::Boolean(true)),
    ]));
    let d = parse_plist_into_service(plist).unwrap();
    assert_eq!(d.name, "");
    assert_eq!(d.program, "/bin/true");
    assert!(d.arguments.is_empty());
    assert_eq!(d.working_directory, Some("/tmp".to_string()));
    assert!(d.run_at_load);
    assert!(!d.keep_alive);
    assert_eq!(d.env_file, None);
    assert!(d.env_vars.is_empty());
    assert!(d.after.is_empty());
    assert!(d.schedule.is_none());
}

#[test]
fn parse_splits_program_arguments() {
    let plist = PlistValue::Dictionary(dictionary(vec![
        (
            "ProgramArguments",
            PlistValue::Array(vec![
                text("/bin/echo"),
                PlistValue::Integer(7),
                text("hello"),
                text("world"),
            ]),
        ),
        ("KeepAlive", PlistValue::Boolean(true)),
    ]));
    let d = parse_plist_into_service(plist).unwrap();
    assert_eq!(d.program, "/bin/echo");
    assert_eq!(d.arguments, vec!["hello".to_string(), "world".to_string()]);
    assert!(d.keep_alive);
    assert!(!d.run_at_load);
    assert_eq!(d.working_directory, None);
}

#[test]
fn parse_prefers_program() {
    let plist = PlistValue::Dictionary(dictionary(vec![
        ("ProgramArguments", PlistValue::Array(vec![text("/bin/echo"), text("hello")])),
        ("Program", text("/bin/true")),
    ]));
    let d = parse_plist_into_service(plist).unwrap();
    assert_eq!(d.program, "/bin/true");
    assert!(d.arguments.is_empty());
}

#[test]
fn parse_takes_flags_of_another_kind_as_unset() {
    let plist = PlistValue::Dictionary(dictionary(vec![
        ("Program", text("/bin/true")),
        ("RunAtLoad", text("yes")),
        ("KeepAlive", PlistValue::Dictionary(PlistDictionary::new())),
        ("WorkingDirectory", PlistValue::Boolean(true)),
    ]));
    let d = parse_plist_into_service(plist).unwrap();
    assert!(!d.run_at_load);
    assert!(!d.keep_alive);
    assert_eq!(d.working_directory, None);
}

#[test]
fn parse_refuses_a_list_without_program() {
    let plist = PlistValue::Dictionary(dictionary(vec![("Label", text("x"))]));
    assert_eq!(parse_plist_into_service(plist).unwrap_err(), ParseError::MissingProgram);
    let plist = PlistValue::Dictionary(dictionary(vec![(
        "ProgramArguments",
        PlistValue::Array(vec![]),
    )]));
    assert_eq!(parse_plist_into_service(plist).unwrap_err(), ParseError::MissingProgram);
    let plist = PlistValue::Dictionary(dictionary(vec![("Program", PlistValue::Integer(1))]));
    assert_eq!(parse_plist_into_service(plist).unwrap_err(), ParseError::MissingProgram);
}

#[test]
fn parse_refuses_what_is_no_dictionary() {
    assert_eq!(
        parse_plist_into_service(PlistValue::Array(vec![])).unwrap_err(),
        ParseError::NotADictionary
    );
    assert_eq!(parse_plist_into_service(text("x")).unwrap_err(), ParseError::NotADictionary);
}

#[test]
fn parse_reads_back_what_was_written() {
    let mut d = plain("/bin/echo", &["hello", "world"]);
    d.working_directory = Some("/tmp".to_string());
    d.run_at_load = true;
    d.keep_alive = true;
    let back = parse_plist_into_service(launchd_document(&d)).unwrap();
    assert_eq!(back.program, d.program);
    assert_eq!(back.arguments, d.arguments);
    assert_eq!(back.working_directory, d.working_directory);
    assert_eq!(back.run_at_load, d.run_at_load);
    assert_eq!(back.keep_alive, d.keep_alive);
}
