use ser_lib::details::{validate_name, ServiceDetails};
use ser_lib::display::{display_name, resolve_service_name as resolve_display_name};
use ser_lib::error::{GenerateError, NotFoundError, RenderError, ValidationError};
use ser_lib::platform::{
    agent_file_path, enablement_links, generate, get_service, get_service_file_path, is_enabled,
    is_managed, is_unit_extension, launchd_directories, list_services, normalize_service_name,
    resolve_service_name, same_service, service_of_plist, system_unit_path,
    systemd_directories, timer_file_path, unit_file_path, Config, Format, ListLevel, Platform,
    ServiceRef,
};
use ser_lib::property_list::{PlistDictionary, PlistValue};

fn service(name: &str) -> ServiceRef {
    ServiceRef { name: name.to_string(), path: format!("/dir/{}", name), enabled: true }
}

fn services(names: &[&str]) -> Vec<ServiceRef> {
    names.iter().map(|n| service(n)).collect()
}

fn config() -> Config {
    Config {
        default_dirs: vec!["/d".to_string()],
        user_dirs: vec!["/u1".to_string(), "/u2".to_string()],
        system_dirs: vec!["/s1".to_string()],
    }
}

fn details(program: &str) -> ServiceDetails {
    ServiceDetails {
        name: "job".to_string(),
        program: program.to_string(),
        arguments: vec![],
        working_directory: None,
        run_at_load: false,
        keep_alive: false,
        env_file: None,
        env_vars: vec![],
        after: vec![],
        schedule: None,
    }
}

#[test]
fn normalize_cuts_instance_prefix_and_suffix() {
    assert_eq!(normalize_service_name("nginx"), "nginx");
    assert_eq!(normalize_service_name("nginx.service"), "nginx");
    assert_eq!(normalize_service_name("homebrew.mxcl.nginx"), "nginx");
    assert_eq!(normalize_service_name("homebrew.mxcl.postgresql@14"), "postgresql");
    assert_eq!(normalize_service_name("getty@tty1.service"), "getty");
    assert_eq!(normalize_service_name(""), "");
    assert_eq!(normalize_service_name("@x"), "");
}

#[test]
fn normalize_cuts_repeated_prefix_and_suffix() {
    assert_eq!(normalize_service_name("homebrew.mxcl.homebrew.mxcl.a.service.service"), "a");
    assert_eq!(normalize_service_name(".service"), "");
    assert_eq!(normalize_service_name("a.service.b"), "a.service.b");
    assert_eq!(normalize_service_name("xhomebrew.mxcl.a"), "xhomebrew.mxcl.a");
}

#[test]
fn normalize_counts_characters_not_bytes() {
    assert_eq!(normalize_service_name("homebrew.mxcl.größe.service@1"), "größe");
}

#[test]
fn same_service_compares_normalized_names() {
    assert!(same_service("nginx.service", "homebrew.mxcl.nginx@2"));
    assert!(!same_service("nginx", "nginx2"));
}

#[test]
fn get_service_finds_the_first_match() {
    let all = services(&["a.service", "homebrew.mxcl.web@1", "web.service"]);
    let found = get_service("web", all).unwrap();
    assert_eq!(found.name, "homebrew.mxcl.web@1");
    assert_eq!(found.path, "/dir/homebrew.mxcl.web@1");
}

#[test]
fn get_service_fails_without_match() {
    let all = services(&["a.service", "b.service"]);
    assert!(matches!(get_service("web", all), Err(NotFoundError)));
    assert!(matches!(get_service("web", vec![]), Err(NotFoundError)));
}

#[test]
fn resolve_gives_the_full_name() {
    let all = services(&["a.service", "web.service"]);
    assert_eq!(resolve_service_name("web", all).unwrap(), "web.service");
    assert_eq!(resolve_service_name("nope", services(&["a"])).unwrap_err(), NotFoundError);
}

#[test]
fn file_path_needs_the_exact_name() {
    let all = services(&["a.service", "web.service", "web"]);
    assert_eq!(get_service_file_path("web", &all).unwrap(), "/dir/web");
    assert_eq!(get_service_file_path("web.service", &all).unwrap(), "/dir/web.service");
    assert_eq!(get_service_file_path("b", &all).unwrap_err(), NotFoundError);
}

#[test]
fn not_found_names_the_service() {
    assert_eq!(NotFoundError.message("web"), "Service 'web' not found");
}

#[test]
fn directories_by_level() {
    let c = config();
    assert_eq!(c.directories(ListLevel::Default), vec!["/d".to_string()]);
    assert_eq!(c.directories(ListLevel::User), vec!["/u1".to_string(), "/u2".to_string()]);
    assert_eq!(
        c.directories(ListLevel::System),
        vec!["/u1".to_string(), "/u2".to_string(), "/s1".to_string()]
    );
}

#[test]
fn list_services_scans_each_directory_in_order() {
    let scan = |dir: &String| -> Result<Vec<ServiceRef>, String> {
        Ok(vec![service(&format!("{}-a", dir)), service(&format!("{}-b", dir))])
    };
    let found = list_services(ListLevel::System, &config(), scan).unwrap();
    let names: Vec<String> = found.into_iter().map(|s| s.name).collect();
    assert_eq!(names, vec!["/u1-a", "/u1-b", "/u2-a", "/u2-b", "/s1-a", "/s1-b"]);
    let found = list_services(ListLevel::Default, &config(), scan).unwrap();
    assert_eq!(found.len(), 2);
    assert_eq!(found[0].name, "/d-a");
}

#[test]
fn list_services_stops_at_the_first_failure() {
    let scan = |dir: &String| -> Result<Vec<ServiceRef>, String> {
        if dir == "/u2" {
            Err(format!("cannot read {}", dir))
        } else {
            Ok(vec![service("x")])
        }
    };
    assert_eq!(list_services(ListLevel::System, &config(), scan).unwrap_err(), "cannot read /u2");
    assert_eq!(list_services(ListLevel::Default, &config(), scan).unwrap().len(), 1);
}

#[test]
fn generate_picks_the_format() {
    let d = details("/bin/true");
    let unit = generate(&d, Format::Systemd, Platform::MacOs).unwrap();
    assert!(unit.starts_with("# Managed by ser\n[Unit]\n"));
    assert_eq!(generate(&d, Format::Systemd, Platform::Linux).unwrap(), unit);
    assert_eq!(generate(&d, Format::Native, Platform::Linux).unwrap(), unit);
    let plist = generate(&d, Format::Native, Platform::MacOs).unwrap();
    assert!(plist.starts_with("<?xml"));
    assert!(plist.contains("<key>Label</key>\n\t<string>job</string>"));
}

#[test]
fn generate_passes_the_error_on() {
    let d = details("");
    assert_eq!(
        generate(&d, Format::Native, Platform::Linux).unwrap_err(),
        GenerateError::Render(RenderError::NothingToRun)
    );
    assert!(generate(&d, Format::Native, Platform::MacOs).is_ok());
}

#[test]
fn file_paths_follow_the_conventions() {
    assert_eq!(unit_file_path("web"), "/etc/systemd/system/web.service");
    assert_eq!(timer_file_path("web"), "/etc/systemd/system/web.timer");
    assert_eq!(agent_file_path("/Users/me", "web"), "/Users/me/Library/LaunchAgents/web.plist");
}

#[test]
fn display_name_drops_the_homebrew_prefix_once() {
    assert_eq!(display_name("homebrew.mxcl.nginx"), "nginx");
    assert_eq!(display_name("nginx.service"), "nginx.service");
    assert_eq!(display_name("homebrew.mxcl.homebrew.mxcl.x"), "homebrew.mxcl.x");
    assert_eq!(display_name(""), "");
}

#[test]
fn display_name_resolves_by_exact_name_first() {
    let all = services(&["homebrew.mxcl.web", "web@1", "web"]);
    assert_eq!(resolve_display_name("web", &all).unwrap(), "web");
}

#[test]
fn display_name_resolves_behind_the_homebrew_prefix() {
    let all = services(&["web@1", "homebrew.mxcl.web"]);
    assert_eq!(resolve_display_name("web", &all).unwrap(), "homebrew.mxcl.web");
}

#[test]
fn display_name_resolves_before_the_at_sign() {
    let all = services(&["homebrew.mxcl.web@2", "web@1", "web@3"]);
    assert_eq!(resolve_display_name("web", &all).unwrap(), "web@1");
}

#[test]
fn display_name_resolves_between_prefix_and_at_sign() {
    let all = services(&["other", "homebrew.mxcl.web@2"]);
    assert_eq!(resolve_display_name("web", &all).unwrap(), "homebrew.mxcl.web@2");
}

#[test]
fn display_name_with_prefix_is_not_prefixed_again() {
    let all = services(&["homebrew.mxcl.homebrew.mxcl.web", "homebrew.mxcl.homebrew.mxcl.x@1"]);
    assert_eq!(resolve_display_name("homebrew.mxcl.web", &all).unwrap_err(), NotFoundError);
    assert_eq!(resolve_display_name("homebrew.mxcl.x", &all).unwrap_err(), NotFoundError);
}

#[test]
fn display_name_fails_without_match() {
    assert_eq!(resolve_display_name("web", &services(&["a", "b@1"])).unwrap_err(), NotFoundError);
    assert_eq!(resolve_display_name("web", &vec![]).unwrap_err(), NotFoundError);
}

#[test]
fn validate_name_accepts_a_word() {
    assert_eq!(validate_name("com.example.web"), Ok(()));
}

#[test]
fn validate_name_refuses_an_empty_name() {
    assert_eq!(validate_name(""), Err(ValidationError::EmptyName));
    assert_eq!(validate_name("  \t"), Err(ValidationError::EmptyName));
}

#[test]
fn validate_name_refuses_whitespace() {
    assert_eq!(validate_name("my service"), Err(ValidationError::WhitespaceInName));
    assert_eq!(validate_name("tab\there"), Err(ValidationError::WhitespaceInName));
    assert_eq!(validate_name(" lead"), Err(ValidationError::WhitespaceInName));
    assert_eq!(validate_name("wide\u{3000}space"), Err(ValidationError::WhitespaceInName));
}

fn all(words: &[&str]) -> Vec<String> {
    words.iter().map(|w| w.to_string()).collect()
}

#[test]
fn systemd_directories_with_home() {
    let c = systemd_directories(Some("/home/me"));
    assert_eq!(c.default_dirs, all(&["/etc/systemd/system"]));
    assert_eq!(
        c.user_dirs,
        all(&[
            "/home/me/.config/systemd/user",
            "/usr/lib/systemd/user",
            "/etc/systemd/user",
            "/usr/local/lib/systemd/user",
        ])
    );
    assert_eq!(
        c.system_dirs,
        all(&[
            "/lib/systemd/system",
            "/usr/lib/systemd/system",
            "/etc/systemd/system",
            "/usr/local/lib/systemd/system",
        ])
    );
}

#[test]
fn systemd_directories_without_home() {
    let c = systemd_directories(None);
    assert_eq!(
        c.user_dirs,
        all(&["/usr/lib/systemd/user", "/etc/systemd/user", "/usr/local/lib/systemd/user"])
    );
}

#[test]
fn launchd_directories_with_and_without_home() {
    let c = launchd_directories(Some("/Users/me"));
    assert_eq!(c.default_dirs, all(&["/Users/me/Library/LaunchAgents"]));
    assert_eq!(c.user_dirs, all(&["/Users/me/Library/LaunchAgents"]));
    assert_eq!(
        c.system_dirs,
        all(&[
            "/System/Library/LaunchAgents",
            "/Library/LaunchAgents",
            "/System/Library/LaunchDaemons",
            "/Library/LaunchDaemons",
        ])
    );
    let c = launchd_directories(None);
    assert!(c.default_dirs.is_empty());
    assert!(c.user_dirs.is_empty());
    assert_eq!(c.system_dirs.len(), 4);
}

#[test]
fn unit_files_go_by_their_extension() {
    for extension in [
        "service", "socket", "timer", "target", "mount", "automount", "swap", "path", "slice",
        "scope",
    ] {
        assert!(is_unit_extension(extension), "{}", extension);
    }
    for extension in ["", "plist", "Service", "services", "conf", "wants"] {
        assert!(!is_unit_extension(extension), "{}", extension);
    }
}

#[test]
fn enablement_links_lie_under_the_usual_targets() {
    assert_eq!(
        enablement_links("web.service"),
        all(&[
            "/etc/systemd/system/multi-user.target.wants/web.service",
            "/etc/systemd/system/graphical.target.wants/web.service",
            "/etc/systemd/system/default.target.wants/web.service",
        ])
    );
}

#[test]
fn managed_files_start_with_the_marker() {
    assert!(is_managed("# Managed by ser\n[Unit]\n"));
    assert!(is_managed("# Managed by ser"));
    assert!(!is_managed(" # Managed by ser\n"));
    assert!(!is_managed("[Unit]\n# Managed by ser\n"));
    assert!(!is_managed(""));
}

#[test]
fn service_of_plist_goes_by_its_label() {
    let mut d = PlistDictionary::new();
    d.insert("Label".to_string(), PlistValue::String("com.example.web".to_string()));
    d.insert("Disabled".to_string(), PlistValue::Boolean(true));
    let s = service_of_plist(&PlistValue::Dictionary(d), "/a/b.plist", "b");
    assert_eq!(s.name, "com.example.web");
    assert_eq!(s.path, "/a/b.plist");
    assert!(!s.enabled);
}

#[test]
fn service_of_plist_falls_back_to_the_file() {
    let mut d = PlistDictionary::new();
    d.insert("Label".to_string(), PlistValue::Integer(3));
    d.insert("Disabled".to_string(), PlistValue::Boolean(false));
    let s = service_of_plist(&PlistValue::Dictionary(d), "/a/b.plist", "b");
    assert_eq!(s.name, "b");
    assert!(s.enabled);
    let s = service_of_plist(&PlistValue::Array(vec![]), "/a/c.plist", "c");
    assert_eq!(s.name, "c");
    assert!(s.enabled);
    let s = service_of_plist(&PlistValue::Dictionary(PlistDictionary::new()), "/p", "unknown");
    assert_eq!(s.name, "unknown");
    assert!(s.enabled);
}

#[test]
fn unit_lies_among_the_units_of_the_system() {
    assert_eq!(system_unit_path("web.service"), "/etc/systemd/system/web.service");
    assert_eq!(system_unit_path(""), "/etc/systemd/system/");
}

#[test]
fn unit_is_enabled_where_a_target_wants_it() {
    assert!(is_enabled(&vec![true, false, false], false, false));
    assert!(is_enabled(&vec![false, false, true], false, false));
    assert!(is_enabled(&vec![false, true, false], true, false));
    assert!(is_enabled(&vec![true], false, true));
}

#[test]
fn unit_is_enabled_where_it_is_a_link() {
    assert!(is_enabled(&vec![false, false, false], true, true));
    assert!(is_enabled(&vec![], true, true));
}

#[test]
fn unit_is_not_enabled_otherwise() {
    assert!(!is_enabled(&vec![false, false, false], true, false));
    assert!(!is_enabled(&vec![false, false, false], false, true));
    assert!(!is_enabled(&vec![false, false, false], false, false));
    assert!(!is_enabled(&vec![], false, false));
}
