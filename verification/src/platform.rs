//! The services found on a machine: where their files lie, and how a name
//! that a user gives is matched to one of them.

use crate::details::ServiceDetails;
use crate::error::{GenerateError, NotFoundError, RenderError};
use crate::launchd::{flag_of, launchd_model, text_of};
use crate::property_list::{lookup, xml_text, PlistModel, PlistValue};
use crate::systemd::{renderable, unit_text, MANAGED_BY_COMMENT};
use crate::text::{
    chars_of, find, find_char, same_text, starts_with, strip_prefix, trim_prefixes,
    trim_suffixes, without_prefixes, without_suffixes,
};
use vstd::prelude::*;
use vstd::slice::slice_subrange;

verus! {

/// What the names of services installed by Homebrew start with.
pub const HOMEBREW_PREFIX: &'static str = "homebrew.mxcl.";

/// What the names of the unit files of services end with.
pub const SERVICE_SUFFIX: &'static str = ".service";

/// The service manager of a machine.
#[derive(Clone, Copy, Debug, PartialEq, Eq, Structural)]
pub enum Platform {
    /// systemd, on Linux.
    Linux,
    /// launchd, on macOS.
    MacOs,
}

/// The format in which a service file is asked for.
#[derive(Clone, Copy, Debug, PartialEq, Eq, Structural)]
pub enum Format {
    /// The format of the machine's own service manager.
    Native,
    /// A systemd unit file, whatever the machine.
    Systemd,
}

/// What is written for a service in the format asked for: a property list on
/// a machine with launchd where its own format is asked for, and a unit file
/// in every other case.
pub open spec fn generated(
    d: crate::details::ServiceModel,
    format: Format,
    platform: Platform,
) -> Result<Seq<char>, GenerateError> {
    if format == Format::Native && platform == Platform::MacOs {
        match xml_text(launchd_model(d)) {
            Ok(text) => Ok(text),
            Err(e) => Err(GenerateError::Serialization(e)),
        }
    } else if renderable(d) {
        Ok(unit_text(d))
    } else {
        Err(GenerateError::Render(RenderError::NothingToRun))
    }
}

/// Where the unit file of the service called `name` lies.
pub open spec fn unit_path(name: Seq<char>) -> Seq<char> {
    "/etc/systemd/system/"@ + name + SERVICE_SUFFIX@
}

/// Where the timer file of the service called `name` lies.
pub open spec fn timer_path(name: Seq<char>) -> Seq<char> {
    "/etc/systemd/system/"@ + name + ".timer"@
}

/// Where the property list of the service called `name` lies, for the user
/// whose home directory is `home`.
pub open spec fn agent_path(home: Seq<char>, name: Seq<char>) -> Seq<char> {
    home + "/Library/LaunchAgents/"@ + name + ".plist"@
}

/// A service as a scan of the service directories found it.
#[derive(Debug, Clone)]
pub struct ServiceRef {
    pub name: String,
    pub path: String,
    pub enabled: bool,
}

/// A service as a scan of the service directories found it.
pub type Service = ServiceRef;

/// The directories in which service files lie.
#[derive(Debug, Clone)]
pub struct Config {
    /// Where the services written by this tool lie.
    pub default_dirs: Vec<String>,
    /// Where the services of users lie.
    pub user_dirs: Vec<String>,
    /// Where the services of the system lie.
    pub system_dirs: Vec<String>,
}

/// How far a listing of services reaches.
#[derive(Copy, Clone)]
pub enum ListLevel {
    /// The services written by this tool.
    Default,
    /// The services of users.
    User,
    /// The services of users and of the system.
    System,
}

/// The directories that a listing at `level` reads, in order: those of this
/// tool, those of users, or those of users and then those of the system.
pub open spec fn listed_directories(config: Config, level: ListLevel) -> Seq<String> {
    match level {
        ListLevel::Default => config.default_dirs@,
        ListLevel::User => config.user_dirs@,
        ListLevel::System => config.user_dirs@ + config.system_dirs@,
    }
}

/// The services found in directories, all in one list, in the order of the
/// directories.
pub open spec fn concatenated(found: Seq<Vec<ServiceRef>>) -> Seq<ServiceRef>
    decreases found.len(),
{
    if found.len() == 0 {
        Seq::empty()
    } else {
        concatenated(found.drop_last()) + found.last()@
    }
}

/// Whether `found` is what the scans of the first directories gave, one list
/// of services for each directory.
pub open spec fn scanned<E, F: Fn(&String) -> Result<Vec<ServiceRef>, E>>(
    scan: F,
    dirs: Seq<String>,
    found: Seq<Vec<ServiceRef>>,
) -> bool {
    &&& found.len() <= dirs.len()
    &&& forall|i: int|
        0 <= i < found.len() ==> call_ensures(
            scan,
            (&dirs[i],),
            Ok::<Vec<ServiceRef>, E>(#[trigger] found[i]),
        )
}

/// A service name as it is compared: up to its first `@`, without
/// `homebrew.mxcl.` before it and without `.service` behind it.
pub open spec fn normalized(name: Seq<char>) -> Seq<char> {
    without_suffixes(
        without_prefixes(name.take(find(name, '@')), HOMEBREW_PREFIX@),
        SERVICE_SUFFIX@,
    )
}

/// The place of the first service that goes by the name `wanted`, or the
/// number of services where none does.
pub open spec fn first_named(services: Seq<ServiceRef>, wanted: Seq<char>) -> int
    decreases services.len(),
{
    if services.len() == 0 || normalized(services[0].name@) == normalized(wanted) {
        0
    } else {
        1 + first_named(services.skip(1), wanted)
    }
}

/// The place of the first service with exactly the name `wanted`, or the
/// number of services where there is none.
pub open spec fn first_exact(services: Seq<ServiceRef>, wanted: Seq<char>) -> int
    decreases services.len(),
{
    if services.len() == 0 || services[0].name@ == wanted {
        0
    } else {
        1 + first_exact(services.skip(1), wanted)
    }
}

impl Config {
    /// The directories that a listing at `level` reads, in order.
    pub fn directories(&self, level: ListLevel) -> (dirs: Vec<String>)
        ensures
            dirs@ == listed_directories(*self, level),
    {
        let mut dirs: Vec<String> = Vec::new();
        match level {
            ListLevel::Default => {
                append_all(&mut dirs, &self.default_dirs);
                assert(dirs@ =~= self.default_dirs@);
            },
            ListLevel::User => {
                append_all(&mut dirs, &self.user_dirs);
                assert(dirs@ =~= self.user_dirs@);
            },
            ListLevel::System => {
                append_all(&mut dirs, &self.user_dirs);
                append_all(&mut dirs, &self.system_dirs);
                assert(dirs@ =~= self.user_dirs@ + self.system_dirs@);
            },
        }
        dirs
    }
}

/// Appends copies of `more` to `out`.
fn append_all(out: &mut Vec<String>, more: &Vec<String>)
    ensures
        final(out)@ == old(out)@ + more@,
{
    let mut i: usize = 0;
    while i < more.len()
        invariant
            i <= more.len(),
            out@ == old(out)@ + more@.take(i as int),
        decreases more.len() - i,
    {
        out.push(more[i].clone());
        assert(more@.take(i + 1) =~= more@.take(i as int).push(more@[i as int]));
        i += 1;
    }
    assert(more@.take(i as int) =~= more@);
}

/// Lists the services in the directories that a listing at `level` reads.
///
/// `scan` is asked for the services of each directory in turn. What it finds
/// is put in one list, in the order of the directories. The first directory
/// that it fails on ends the listing with its error.
pub fn list_services<E, F: Fn(&String) -> Result<Vec<ServiceRef>, E>>(
    level: ListLevel,
    config: &Config,
    scan: F,
) -> (r: Result<Vec<ServiceRef>, E>)
    requires
        forall|dir: &String| call_requires(scan, (dir,)),
    ensures
        match r {
            Ok(services) => exists|found: Seq<Vec<ServiceRef>>|
                #![auto]
                found.len() == listed_directories(*config, level).len() && scanned(
                    scan,
                    listed_directories(*config, level),
                    found,
                ) && services@ == concatenated(found),
            Err(e) => exists|found: Seq<Vec<ServiceRef>>|
                #![auto]
                found.len() < listed_directories(*config, level).len() && scanned(
                    scan,
                    listed_directories(*config, level),
                    found,
                ) && call_ensures(
                    scan,
                    (&listed_directories(*config, level)[found.len() as int],),
                    Err::<Vec<ServiceRef>, E>(e),
                ),
        },
{
    let dirs = config.directories(level);
    let mut services: Vec<ServiceRef> = Vec::new();
    let ghost mut found: Seq<Vec<ServiceRef>> = Seq::empty();
    let mut i: usize = 0;
    while i < dirs.len()
        invariant
            i <= dirs.len(),
            dirs@ == listed_directories(*config, level),
            forall|dir: &String| call_requires(scan, (dir,)),
            found.len() == i,
            scanned(scan, dirs@, found),
            services@ == concatenated(found),
        decreases dirs.len() - i,
    {
        match scan(&dirs[i]) {
            Ok(mut more) => {
                let ghost list = more;
                let ghost before = found;
                services.append(&mut more);
                proof {
                    found = before.push(list);
                    assert(found.drop_last() =~= before);
                    assert forall|j: int| 0 <= j < found.len() implies call_ensures(
                        scan,
                        (&dirs@[j],),
                        Ok::<Vec<ServiceRef>, E>(#[trigger] found[j]),
                    ) by {
                        if j < before.len() {
                            assert(found[j] == before[j]);
                        }
                    }
                }
            },
            Err(e) => {
                return Err(e);
            },
        }
        i += 1;
    }
    Ok(services)
}

/// The directories of systemd in which the services of users lie: that of
/// the user whose home directory is `home`, if there is one, and those of
/// all users.
pub open spec fn systemd_user_dirs(home: Option<Seq<char>>) -> Seq<Seq<char>> {
    (match home {
        Some(home) => seq![home + "/.config/systemd/user"@],
        None => Seq::empty(),
    }) + seq!["/usr/lib/systemd/user"@, "/etc/systemd/user"@, "/usr/local/lib/systemd/user"@]
}

/// The directories of systemd in which the services of the system lie.
pub open spec fn systemd_system_dirs() -> Seq<Seq<char>> {
    seq![
        "/lib/systemd/system"@,
        "/usr/lib/systemd/system"@,
        "/etc/systemd/system"@,
        "/usr/local/lib/systemd/system"@,
    ]
}

/// The directories of launchd in which the services of a user lie.
pub open spec fn launchd_user_dirs(home: Option<Seq<char>>) -> Seq<Seq<char>> {
    match home {
        Some(home) => seq![home + "/Library/LaunchAgents"@],
        None => Seq::empty(),
    }
}

/// The directories of launchd in which the services of the system lie.
pub open spec fn launchd_system_dirs() -> Seq<Seq<char>> {
    seq![
        "/System/Library/LaunchAgents"@,
        "/Library/LaunchAgents"@,
        "/System/Library/LaunchDaemons"@,
        "/Library/LaunchDaemons"@,
    ]
}

/// Whether a file with the extension `extension` is a unit file of systemd.
pub open spec fn names_unit(extension: Seq<char>) -> bool {
    ||| extension == "service"@
    ||| extension == "socket"@
    ||| extension == "timer"@
    ||| extension == "target"@
    ||| extension == "mount"@
    ||| extension == "automount"@
    ||| extension == "swap"@
    ||| extension == "path"@
    ||| extension == "slice"@
    ||| extension == "scope"@
}

/// Where systemd links the unit called `name` when it is enabled for one of
/// the usual targets.
pub open spec fn wants_links(name: Seq<char>) -> Seq<Seq<char>> {
    seq![
        "/etc/systemd/system/multi-user.target.wants/"@ + name,
        "/etc/systemd/system/graphical.target.wants/"@ + name,
        "/etc/systemd/system/default.target.wants/"@ + name,
    ]
}

/// Where the unit called `name` lies among the units of the system, as a
/// file of its own or as a link to one.
pub open spec fn system_unit(name: Seq<char>) -> Seq<char> {
    "/etc/systemd/system/"@ + name
}

/// Whether one of the flags is set.
pub open spec fn any_set(flags: Seq<bool>) -> bool {
    exists|i: int| 0 <= i < flags.len() && #[trigger] flags[i]
}

/// The name that the property list of a service gives it: the text under
/// `Label`, or `fallback` where there is none.
pub open spec fn label_of(plist: PlistModel, fallback: Seq<char>) -> Seq<char> {
    match plist {
        PlistModel::Dictionary(entries) => match text_of(lookup(entries, "Label"@)) {
            Some(label) => label,
            None => fallback,
        },
        _ => fallback,
    }
}

/// Whether the property list of a service leaves it enabled: it does unless
/// it sets the flag `Disabled`.
pub open spec fn enabled_by(plist: PlistModel) -> bool {
    match plist {
        PlistModel::Dictionary(entries) => !flag_of(lookup(entries, "Disabled"@)),
        _ => true,
    }
}

/// Appends a copy of `dir` to `dirs`.
fn push_dir(dirs: &mut Vec<String>, dir: &str)
    ensures
        final(dirs).deep_view() == old(dirs).deep_view().push(dir@),
{
    let ghost before = dirs.deep_view();
    dirs.push(dir.to_owned());
    assert(dirs.deep_view() =~= before.push(dir@));
}

/// The directories in which the unit files of systemd lie, for the user whose
/// home directory is `home`. The services written by this tool lie in
/// `/etc/systemd/system`.
pub fn systemd_directories(home: Option<&str>) -> (config: Config)
    ensures
        config.default_dirs.deep_view() == seq!["/etc/systemd/system"@],
        config.user_dirs.deep_view() == systemd_user_dirs(home.deep_view()),
        config.system_dirs.deep_view() == systemd_system_dirs(),
{
    let mut default_dirs: Vec<String> = Vec::new();
    let mut user_dirs: Vec<String> = Vec::new();
    let mut system_dirs: Vec<String> = Vec::new();
    assert(default_dirs.deep_view() =~= Seq::<Seq<char>>::empty());
    assert(user_dirs.deep_view() =~= Seq::<Seq<char>>::empty());
    assert(system_dirs.deep_view() =~= Seq::<Seq<char>>::empty());
    push_dir(&mut default_dirs, "/etc/systemd/system");
    if let Some(home) = home {
        let mut own = String::new();
        own.append(home);
        own.append("/.config/systemd/user");
        assert(own@ =~= home@ + "/.config/systemd/user"@);
        push_dir(&mut user_dirs, own.as_str());
    }
    push_dir(&mut user_dirs, "/usr/lib/systemd/user");
    push_dir(&mut user_dirs, "/etc/systemd/user");
    push_dir(&mut user_dirs, "/usr/local/lib/systemd/user");
    push_dir(&mut system_dirs, "/lib/systemd/system");
    push_dir(&mut system_dirs, "/usr/lib/systemd/system");
    push_dir(&mut system_dirs, "/etc/systemd/system");
    push_dir(&mut system_dirs, "/usr/local/lib/systemd/system");
    assert(default_dirs.deep_view() =~= seq!["/etc/systemd/system"@]);
    assert(user_dirs.deep_view() =~= systemd_user_dirs(home.deep_view()));
    assert(system_dirs.deep_view() =~= systemd_system_dirs());
    Config { default_dirs, user_dirs, system_dirs }
}

/// The directories in which the property lists of launchd lie, for the user
/// whose home directory is `home`. The services written by this tool lie
/// among those of that user.
pub fn launchd_directories(home: Option<&str>) -> (config: Config)
    ensures
        config.default_dirs.deep_view() == launchd_user_dirs(home.deep_view()),
        config.user_dirs.deep_view() == launchd_user_dirs(home.deep_view()),
        config.system_dirs.deep_view() == launchd_system_dirs(),
{
    let mut default_dirs: Vec<String> = Vec::new();
    let mut user_dirs: Vec<String> = Vec::new();
    let mut system_dirs: Vec<String> = Vec::new();
    assert(default_dirs.deep_view() =~= Seq::<Seq<char>>::empty());
    assert(user_dirs.deep_view() =~= Seq::<Seq<char>>::empty());
    assert(system_dirs.deep_view() =~= Seq::<Seq<char>>::empty());
    if let Some(home) = home {
        let mut own = String::new();
        own.append(home);
        own.append("/Library/LaunchAgents");
        assert(own@ =~= home@ + "/Library/LaunchAgents"@);
        push_dir(&mut default_dirs, own.as_str());
        push_dir(&mut user_dirs, own.as_str());
    }
    push_dir(&mut system_dirs, "/System/Library/LaunchAgents");
    push_dir(&mut system_dirs, "/Library/LaunchAgents");
    push_dir(&mut system_dirs, "/System/Library/LaunchDaemons");
    push_dir(&mut system_dirs, "/Library/LaunchDaemons");
    assert(default_dirs.deep_view() =~= launchd_user_dirs(home.deep_view()));
    assert(user_dirs.deep_view() =~= launchd_user_dirs(home.deep_view()));
    assert(system_dirs.deep_view() =~= launchd_system_dirs());
    Config { default_dirs, user_dirs, system_dirs }
}

/// Whether a file with the extension `extension` is a unit file of systemd.
pub fn is_unit_extension(extension: &str) -> (unit: bool)
    ensures
        unit == names_unit(extension@),
{
    same_text(extension, "service") || same_text(extension, "socket") || same_text(
        extension,
        "timer",
    ) || same_text(extension, "target") || same_text(extension, "mount") || same_text(
        extension,
        "automount",
    ) || same_text(extension, "swap") || same_text(extension, "path") || same_text(
        extension,
        "slice",
    ) || same_text(extension, "scope")
}

/// Where systemd links the unit called `name` when it is enabled for one of
/// the usual targets.
pub fn enablement_links(name: &str) -> (links: Vec<String>)
    ensures
        links.deep_view() == wants_links(name@),
{
    let mut links: Vec<String> = Vec::new();
    assert(links.deep_view() =~= Seq::<Seq<char>>::empty());
    let mut link = String::new();
    link.append("/etc/systemd/system/multi-user.target.wants/");
    link.append(name);
    push_dir(&mut links, link.as_str());
    let mut link = String::new();
    link.append("/etc/systemd/system/graphical.target.wants/");
    link.append(name);
    push_dir(&mut links, link.as_str());
    let mut link = String::new();
    link.append("/etc/systemd/system/default.target.wants/");
    link.append(name);
    push_dir(&mut links, link.as_str());
    assert(links.deep_view() =~= wants_links(name@));
    links
}

/// Where the unit called `name` lies among the units of the system.
pub fn system_unit_path(name: &str) -> (path: String)
    ensures
        path@ == system_unit(name@),
{
    let mut path = String::new();
    path.append("/etc/systemd/system/");
    path.append(name);
    path
}

/// Whether a unit is enabled, going by what was found on disk: it is where
/// one of the usual targets has a link to it, which `wanted` tells for each
/// of them, or where the unit lies among the units of the system as a link.
pub fn is_enabled(wanted: &Vec<bool>, unit_exists: bool, unit_is_link: bool) -> (enabled: bool)
    ensures
        enabled == (any_set(wanted@) || (unit_exists && unit_is_link)),
{
    let mut i: usize = 0;
    while i < wanted.len()
        invariant
            i <= wanted.len(),
            forall|j: int| 0 <= j < i ==> !wanted@[j],
        decreases wanted.len() - i,
    {
        if wanted[i] {
            return true;
        }
        i += 1;
    }
    unit_exists && unit_is_link
}

/// Whether the file with the contents `content` was written by this tool: it
/// starts with the marker.
pub fn is_managed(content: &str) -> (managed: bool)
    ensures
        managed == starts_with(content@, MANAGED_BY_COMMENT@),
{
    let chars = chars_of(content);
    strip_prefix(chars.as_slice(), MANAGED_BY_COMMENT).is_some()
}

/// The service that the property list at `path` describes. It goes by its
/// label, or by `fallback` where it has none, and is enabled unless the list
/// says otherwise.
pub fn service_of_plist(plist: &PlistValue, path: &str, fallback: &str) -> (service: ServiceRef)
    ensures
        service.name@ == label_of(plist@, fallback@),
        service.path@ == path@,
        service.enabled == enabled_by(plist@),
{
    let mut name = fallback.to_owned();
    let mut enabled = true;
    if let PlistValue::Dictionary(dictionary) = plist {
        if let Some(PlistValue::String(label)) = dictionary.get("Label") {
            name = label.clone();
        }
        if let Some(PlistValue::Boolean(disabled)) = dictionary.get("Disabled") {
            enabled = !*disabled;
        }
    }
    ServiceRef { name, path: path.to_owned(), enabled }
}

/// Writes the file of a service in the format asked for.
pub fn generate(details: &ServiceDetails, format: Format, platform: Platform) -> (r: Result<
    String,
    GenerateError,
>)
    ensures
        match r {
            Ok(text) => generated(details@, format, platform) == Ok::<Seq<char>, GenerateError>(
                text@,
            ),
            Err(e) => generated(details@, format, platform) == Err::<Seq<char>, GenerateError>(e),
        },
{
    if format == Format::Native && platform == Platform::MacOs {
        match crate::launchd::generate_file(details) {
            Ok(text) => Ok(text),
            Err(e) => Err(GenerateError::Serialization(e)),
        }
    } else {
        match crate::systemd::generate_file(details) {
            Ok(text) => Ok(text),
            Err(e) => Err(GenerateError::Render(e)),
        }
    }
}

/// Where the unit file of the service called `name` lies.
pub fn unit_file_path(name: &str) -> (path: String)
    ensures
        path@ == unit_path(name@),
{
    let mut path = String::new();
    path.append("/etc/systemd/system/");
    path.append(name);
    path.append(SERVICE_SUFFIX);
    path
}

/// Where the timer file of the service called `name` lies.
pub fn timer_file_path(name: &str) -> (path: String)
    ensures
        path@ == timer_path(name@),
{
    let mut path = String::new();
    path.append("/etc/systemd/system/");
    path.append(name);
    path.append(".timer");
    path
}

/// Where the property list of the service called `name` lies, for the user
/// whose home directory is `home`.
pub fn agent_file_path(home: &str, name: &str) -> (path: String)
    ensures
        path@ == agent_path(home@, name@),
{
    let mut path = String::new();
    path.append(home);
    path.append("/Library/LaunchAgents/");
    path.append(name);
    path.append(".plist");
    path
}

/// The name of a service as it is compared with others: what follows the
/// first `@` does not count, nor `homebrew.mxcl.` at the start, nor `.service`
/// at the end.
pub fn normalize_service_name(name: &str) -> (short: &str)
    ensures
        short@ == normalized(name@),
{
    let chars = chars_of(name);
    let all = chars.as_slice();
    let cut = find_char(all, '@');
    let head = slice_subrange(all, 0, cut);
    let inner = trim_prefixes(head, HOMEBREW_PREFIX);
    let core = trim_suffixes(inner, SERVICE_SUFFIX);
    let start = cut - inner.len();
    let end = start + core.len();
    proof {
        assert(head@ =~= name@.take(cut as int));
        assert(core@ =~= name@.subrange(start as int, end as int));
    }
    name.substring_char(start, end)
}

/// Whether two names are names of the same service.
pub fn same_service(a: &str, b: &str) -> (same: bool)
    ensures
        same == (normalized(a@) == normalized(b@)),
{
    same_text(normalize_service_name(a), normalize_service_name(b))
}

/// The first of the services that goes by the name `name`.
pub fn get_service(name: &str, services: Vec<ServiceRef>) -> (r: Result<ServiceRef, NotFoundError>)
    ensures
        match r {
            Ok(service) => first_named(services@, name@) < services@.len() && service
                == services@[first_named(services@, name@)],
            Err(_) => first_named(services@, name@) == services@.len(),
        },
{
    let mut list = services;
    let ghost all = list@;
    let mut at: usize = 0;
    assert(all.skip(0) =~= all);
    while at < list.len()
        invariant
            list@ == all,
            services@ == all,
            at <= all.len(),
            first_named(all, name@) == at + first_named(all.skip(at as int), name@),
        decreases list.len() - at,
    {
        assert(all.skip(at as int)[0] == all[at as int]);
        if same_service(list[at].name.as_str(), name) {
            return Ok(list.remove(at));
        }
        assert(all.skip(at as int).skip(1) =~= all.skip(at + 1));
        at += 1;
    }
    Err(NotFoundError)
}

/// The full name of the first of the services that goes by the name `name`.
pub fn resolve_service_name(name: &str, services: Vec<ServiceRef>) -> (r: Result<
    String,
    NotFoundError,
>)
    ensures
        match r {
            Ok(full) => first_named(services@, name@) < services@.len() && full
                == services@[first_named(services@, name@)].name,
            Err(_) => first_named(services@, name@) == services@.len(),
        },
{
    match get_service(name, services) {
        Ok(service) => Ok(service.name),
        Err(e) => Err(e),
    }
}

/// The path of the file of the first service with exactly the name `name`.
pub fn get_service_file_path(name: &str, services: &Vec<ServiceRef>) -> (r: Result<
    String,
    NotFoundError,
>)
    ensures
        match r {
            Ok(path) => first_exact(services@, name@) < services@.len() && path
                == services@[first_exact(services@, name@)].path,
            Err(_) => first_exact(services@, name@) == services@.len(),
        },
{
    let ghost all = services@;
    let mut at: usize = 0;
    assert(all.skip(0) =~= all);
    while at < services.len()
        invariant
            services@ == all,
            at <= all.len(),
            first_exact(all, name@) == at + first_exact(all.skip(at as int), name@),
        decreases services.len() - at,
    {
        assert(all.skip(at as int)[0] == all[at as int]);
        if same_text(services[at].name.as_str(), name) {
            return Ok(services[at].path.clone());
        }
        assert(all.skip(at as int).skip(1) =~= all.skip(at + 1));
        at += 1;
    }
    Err(NotFoundError)
}

} // verus!
