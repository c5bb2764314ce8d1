//! systemd unit files: how a service description is written as one, and how
//! one is read back.

use crate::details::{ServiceDetails, ServiceModel};
use crate::error::{MissingScheduleError, ParseError, RenderError};
use crate::text::{
    chars_of, equals, find, find_char, join, lemma_unlines_push, lines, split_words, starts_with,
    string_of, strip_prefix, trim, trimmed, unlines, words,
};
use vstd::prelude::*;
use vstd::slice::slice_subrange;

verus! {

/// The first line of every file written here. It tells the files of this tool
/// from others.
pub const MANAGED_BY_COMMENT: &'static str = "# Managed by ser";

/// The line that sets one environment variable.
pub open spec fn environment_line(variable: (Seq<char>, Seq<char>)) -> Seq<char> {
    "Environment=\""@ + variable.0 + "="@ + variable.1 + "\""@
}

/// The lines that set the environment variables, in their order.
pub open spec fn environment_lines(variables: Seq<(Seq<char>, Seq<char>)>) -> Seq<Seq<char>> {
    Seq::new(variables.len(), |i: int| environment_line(variables[i]))
}

/// Whether the description has anything to put after `ExecStart=`.
pub open spec fn renderable(d: ServiceModel) -> bool {
    d.program.len() > 0 || d.arguments.len() > 0
}

/// The `[Unit]` section: the description, and what the service starts after.
pub open spec fn unit_section(d: ServiceModel) -> Seq<Seq<char>> {
    seq![MANAGED_BY_COMMENT@, "[Unit]"@, "Description="@ + d.name] + (if d.after.len() > 0 {
        seq!["After="@ + join(d.after, " "@)]
    } else {
        Seq::empty()
    })
}

/// The `[Service]` section up to the environment: the command, where it
/// runs, and whether it is started again. A scheduled service runs once each
/// time and is never started again.
pub open spec fn service_section(d: ServiceModel) -> Seq<Seq<char>> {
    seq![Seq::empty(), "[Service]"@] + (if d.schedule is Some {
        seq!["Type=oneshot"@]
    } else {
        Seq::empty()
    }) + seq!["ExecStart="@ + join(seq![d.program] + d.arguments, " "@)] + (match d.working_directory {
        Some(directory) => seq!["WorkingDirectory="@ + directory],
        None => Seq::empty(),
    }) + (if d.keep_alive && d.schedule is None {
        seq!["Restart=always"@]
    } else {
        Seq::empty()
    })
}

/// The environment of the service: the file of variables, then the variables.
pub open spec fn environment_section(d: ServiceModel) -> Seq<Seq<char>> {
    (match d.env_file {
        Some(file) => seq!["EnvironmentFile="@ + file],
        None => Seq::empty(),
    }) + environment_lines(d.env_vars)
}

/// The `[Install]` section, which makes the service start by itself. A
/// scheduled service has none: its timer is what starts by itself.
pub open spec fn install_section(d: ServiceModel) -> Seq<Seq<char>> {
    if d.run_at_load && d.schedule is None {
        seq![Seq::empty(), "[Install]"@, "WantedBy=default.target"@]
    } else {
        Seq::empty()
    }
}

/// The lines of the unit file of a service.
pub open spec fn unit_lines(d: ServiceModel) -> Seq<Seq<char>> {
    unit_section(d) + service_section(d) + environment_section(d) + install_section(d)
}

/// The unit file of a service.
pub open spec fn unit_text(d: ServiceModel) -> Seq<char> {
    unlines(unit_lines(d))
}

/// The lines of the timer file of a service that runs on the schedule `when`.
pub open spec fn timer_lines(name: Seq<char>, when: Seq<char>) -> Seq<Seq<char>> {
    seq![
        MANAGED_BY_COMMENT@,
        "[Unit]"@,
        "Description=Timer for "@ + name,
        Seq::empty(),
        "[Timer]"@,
        "OnCalendar="@ + when,
        "Persistent=true"@,
        Seq::empty(),
        "[Install]"@,
        "WantedBy=timers.target"@,
    ]
}

/// What `line` says after the key that it starts with.
pub open spec fn value_after(line: Seq<char>, key: Seq<char>) -> Seq<char> {
    line.skip(key.len() as int)
}

/// `value` without the pair of double quotes around it, if it has one.
pub open spec fn unquoted(value: Seq<char>) -> Seq<char> {
    if value.len() >= 2 && value[0] == '"' && value.last() == '"' {
        value.subrange(1, value.len() - 1)
    } else {
        value
    }
}

/// The description `acc` after one more line of a unit file was read.
///
/// Whitespace around the line does not count. A line is told by the key that
/// it starts with: `Description=` gives the name, `ExecStart=` the program
/// and its arguments, as the words of its value, `WorkingDirectory=` and
/// `EnvironmentFile=` a path, `Restart=` whether the service is started again
/// (anything but `no` says so), `Environment=` one more variable, which is
/// its value without the pair of double quotes around it, cut at the first
/// `=`, and `After=` the units to start after, as the words of its value. Either of two `WantedBy=` lines says that the service
/// starts by itself. Any other line says nothing.
pub open spec fn read_line(acc: ServiceModel, raw: Seq<char>) -> Result<ServiceModel, ParseError> {
    let line = trim(raw);
    if starts_with(line, "Description="@) {
        Ok(ServiceModel { name: value_after(line, "Description="@), ..acc })
    } else if starts_with(line, "ExecStart="@) {
        let command = words(value_after(line, "ExecStart="@));
        if command.len() == 0 {
            Err(ParseError::EmptyExecStart)
        } else {
            Ok(ServiceModel { program: command[0], arguments: command.skip(1), ..acc })
        }
    } else if starts_with(line, "WorkingDirectory="@) {
        Ok(
            ServiceModel {
                working_directory: Some(value_after(line, "WorkingDirectory="@)),
                ..acc
            },
        )
    } else if line == "WantedBy=multi-user.target"@ || line == "WantedBy=default.target"@ {
        Ok(ServiceModel { run_at_load: true, ..acc })
    } else if starts_with(line, "Restart="@) {
        Ok(ServiceModel { keep_alive: line != "Restart=no"@, ..acc })
    } else if starts_with(line, "EnvironmentFile="@) {
        Ok(ServiceModel { env_file: Some(value_after(line, "EnvironmentFile="@)), ..acc })
    } else if starts_with(line, "Environment="@) {
        let variable = unquoted(value_after(line, "Environment="@));
        let cut = find(variable, '=');
        if 0 <= cut < variable.len() {
            Ok(
                ServiceModel {
                    env_vars: acc.env_vars.push((variable.take(cut), variable.skip(cut + 1))),
                    ..acc
                },
            )
        } else {
            Err(ParseError::MalformedEnvironment)
        }
    } else if starts_with(line, "After="@) {
        Ok(ServiceModel { after: words(value_after(line, "After="@)), ..acc })
    } else {
        Ok(acc)
    }
}

/// The description `acc` after the lines `ls` were read in order, or the
/// error of the first line that cannot be read.
pub open spec fn read_lines(ls: Seq<Seq<char>>, acc: ServiceModel) -> Result<
    ServiceModel,
    ParseError,
>
    decreases ls.len(),
{
    if ls.len() == 0 {
        Ok(acc)
    } else {
        match read_line(acc, ls[0]) {
            Ok(next) => read_lines(ls.skip(1), next),
            Err(e) => Err(e),
        }
    }
}

/// The description that the unit file `text` gives: what its lines say, read
/// in order onto a blank description. A later line overrides an earlier one
/// with the same key, but for `Environment=`, where each line adds a
/// variable. A file that names no program is refused.
pub open spec fn parse_unit(text: Seq<char>) -> Result<ServiceModel, ParseError> {
    match read_lines(lines(text), ServiceModel::blank()) {
        Ok(d) => if d.program.len() == 0 {
            Err(ParseError::MissingExecStart)
        } else {
            Ok(d)
        },
        Err(e) => Err(e),
    }
}

/// Appends a line to the text `out`.
fn push_line(out: &mut String, Ghost(ls): Ghost<Seq<Seq<char>>>, line: &str)
    requires
        old(out)@ == unlines(ls),
    ensures
        final(out)@ == unlines(ls.push(line@)),
{
    out.append(line);
    out.push('\n');
    proof {
        lemma_unlines_push(ls, line@);
    }
}

/// Appends an empty line to the text `out`.
fn push_blank(out: &mut String, Ghost(ls): Ghost<Seq<Seq<char>>>)
    requires
        old(out)@ == unlines(ls),
    ensures
        final(out)@ == unlines(ls.push(Seq::empty())),
{
    out.push('\n');
    proof {
        lemma_unlines_push(ls, Seq::empty());
        assert(old(out)@ + Seq::<char>::empty() =~= old(out)@);
    }
}

/// Appends the line that gives `key` the value `value` to the text `out`.
fn push_entry(out: &mut String, Ghost(ls): Ghost<Seq<Seq<char>>>, key: &str, value: &str)
    requires
        old(out)@ == unlines(ls),
    ensures
        final(out)@ == unlines(ls.push(key@ + value@)),
{
    out.append(key);
    out.append(value);
    out.push('\n');
    proof {
        lemma_unlines_push(ls, key@ + value@);
        assert(old(out)@ + key@ + value@ =~= old(out)@ + (key@ + value@));
    }
}

/// Appends `words` to `out`, with a space before each but the very first.
fn append_words(out: &mut String, words: &Vec<String>, Ghost(before): Ghost<Seq<Seq<char>>>, first: bool)
    requires
        old(out)@ == join(before, " "@),
        first == (before.len() == 0),
    ensures
        final(out)@ == join(before + words.deep_view(), " "@),
{
    let mut i: usize = 0;
    let mut first = first;
    assert(before + words.deep_view().take(0) =~= before);
    while i < words.len()
        invariant
            i <= words.len(),
            out@ == join(before + words.deep_view().take(i as int), " "@),
            first == (before.len() + i == 0),
        decreases words.len() - i,
    {
        let ghost done = before + words.deep_view().take(i as int);
        if !first {
            out.append(" ");
        }
        out.append(words[i].as_str());
        first = false;
        i += 1;
        proof {
            let now = before + words.deep_view().take(i as int);
            assert(now.drop_last() =~= done);
            assert(now.last() == words[i - 1]@);
        }
    }
    assert(words.deep_view().take(words.len() as int) =~= words.deep_view());
}

/// Appends the `[Unit]` section of `service` to the text `out`.
fn push_unit_section(out: &mut String, Ghost(before): Ghost<Seq<Seq<char>>>, service: &ServiceDetails)
    requires
        old(out)@ == unlines(before),
    ensures
        final(out)@ == unlines(before + unit_section(service@)),
{
    let ghost d = service@;
    let ghost mut ls = before;
    push_line(out, Ghost(ls), MANAGED_BY_COMMENT);
    proof {
        ls = ls.push(MANAGED_BY_COMMENT@);
    }
    push_line(out, Ghost(ls), "[Unit]");
    proof {
        ls = ls.push("[Unit]"@);
    }
    push_entry(out, Ghost(ls), "Description=", service.name.as_str());
    proof {
        ls = ls.push("Description="@ + d.name);
    }
    if service.after.len() > 0 {
        let mut names = String::new();
        let ghost lead = Seq::<Seq<char>>::empty();
        append_words(&mut names, &service.after, Ghost(lead), true);
        assert(lead + d.after =~= d.after);
        push_entry(out, Ghost(ls), "After=", names.as_str());
        proof {
            ls = ls.push("After="@ + join(d.after, " "@));
        }
    }
    assert(ls =~= before + unit_section(d));
}

/// Appends the `[Service]` section of `service`, up to the environment, to
/// the text `out`.
fn push_service_section(
    out: &mut String,
    Ghost(before): Ghost<Seq<Seq<char>>>,
    service: &ServiceDetails,
)
    requires
        old(out)@ == unlines(before),
    ensures
        final(out)@ == unlines(before + service_section(service@)),
{
    let ghost d = service@;
    let ghost mut ls = before;
    push_blank(out, Ghost(ls));
    proof {
        ls = ls.push(Seq::empty());
    }
    push_line(out, Ghost(ls), "[Service]");
    proof {
        ls = ls.push("[Service]"@);
    }
    if service.schedule.is_some() {
        push_line(out, Ghost(ls), "Type=oneshot");
        proof {
            ls = ls.push("Type=oneshot"@);
        }
    }
    let mut command = String::new();
    command.append(service.program.as_str());
    let ghost lead = seq![d.program];
    assert(command@ =~= join(lead, " "@));
    append_words(&mut command, &service.arguments, Ghost(lead), false);
    push_entry(out, Ghost(ls), "ExecStart=", command.as_str());
    proof {
        ls = ls.push("ExecStart="@ + join(seq![d.program] + d.arguments, " "@));
    }
    if let Some(directory) = &service.working_directory {
        push_entry(out, Ghost(ls), "WorkingDirectory=", directory.as_str());
        proof {
            ls = ls.push("WorkingDirectory="@ + directory@);
        }
    }
    if service.keep_alive && service.schedule.is_none() {
        push_line(out, Ghost(ls), "Restart=always");
        proof {
            ls = ls.push("Restart=always"@);
        }
    }
    assert(ls =~= before + service_section(d));
}

/// Appends the environment of `service` to the text `out`.
fn push_environment_section(
    out: &mut String,
    Ghost(before): Ghost<Seq<Seq<char>>>,
    service: &ServiceDetails,
)
    requires
        old(out)@ == unlines(before),
    ensures
        final(out)@ == unlines(before + environment_section(service@)),
{
    let ghost d = service@;
    let ghost mut ls = before;
    if let Some(file) = &service.env_file {
        push_entry(out, Ghost(ls), "EnvironmentFile=", file.as_str());
        proof {
            ls = ls.push("EnvironmentFile="@ + file@);
        }
    }
    let ghost head = ls;
    let mut i: usize = 0;
    assert(ls =~= head + environment_lines(d.env_vars.take(0)));
    while i < service.env_vars.len()
        invariant
            i <= service.env_vars.len(),
            d == service@,
            out@ == unlines(ls),
            ls == head + environment_lines(d.env_vars.take(i as int)),
        decreases service.env_vars.len() - i,
    {
        let variable = &service.env_vars[i];
        let mut entry = String::new();
        entry.append("Environment=\"");
        entry.append(variable.0.as_str());
        entry.append("=");
        entry.append(variable.1.as_str());
        entry.append("\"");
        assert(entry@ =~= environment_line(d.env_vars[i as int]));
        push_line(out, Ghost(ls), entry.as_str());
        proof {
            ls = ls.push(entry@);
            assert(environment_lines(d.env_vars.take(i + 1)) =~= environment_lines(
                d.env_vars.take(i as int),
            ).push(entry@));
        }
        i += 1;
    }
    assert(d.env_vars.take(i as int) =~= d.env_vars);
    assert(ls =~= before + environment_section(d));
}

/// Appends the `[Install]` section of `service`, if it has one, to the text
/// `out`.
fn push_install_section(
    out: &mut String,
    Ghost(before): Ghost<Seq<Seq<char>>>,
    service: &ServiceDetails,
)
    requires
        old(out)@ == unlines(before),
    ensures
        final(out)@ == unlines(before + install_section(service@)),
{
    let ghost mut ls = before;
    if service.run_at_load && service.schedule.is_none() {
        push_blank(out, Ghost(ls));
        proof {
            ls = ls.push(Seq::empty());
        }
        push_line(out, Ghost(ls), "[Install]");
        proof {
            ls = ls.push("[Install]"@);
        }
        push_line(out, Ghost(ls), "WantedBy=default.target");
        proof {
            ls = ls.push("WantedBy=default.target"@);
        }
    }
    assert(ls =~= before + install_section(service@));
}

/// Writes the description of a service as a systemd unit file.
///
/// The file has the marker line, the `[Unit]` section, an empty line, the
/// `[Service]` section and, for a service that starts by itself and has no
/// schedule, an empty line and the `[Install]` section. A description with
/// neither a program nor an argument is refused.
pub fn generate_file(service: &ServiceDetails) -> (r: Result<String, RenderError>)
    ensures
        match r {
            Ok(text) => renderable(service@) && text@ == unit_text(service@),
            Err(e) => !renderable(service@) && e == RenderError::NothingToRun,
        },
{
    if service.program.as_str().is_empty() && service.arguments.len() == 0 {
        return Err(RenderError::NothingToRun);
    }
    let ghost d = service@;
    let mut out = String::new();
    let ghost mut ls: Seq<Seq<char>> = Seq::empty();
    push_unit_section(&mut out, Ghost(ls), service);
    proof {
        ls = ls + unit_section(d);
    }
    push_service_section(&mut out, Ghost(ls), service);
    proof {
        ls = ls + service_section(d);
    }
    push_environment_section(&mut out, Ghost(ls), service);
    proof {
        ls = ls + environment_section(d);
    }
    push_install_section(&mut out, Ghost(ls), service);
    proof {
        ls = ls + install_section(d);
    }
    assert(ls =~= unit_lines(d));
    Ok(out)
}

/// Writes the timer file that starts a scheduled service: the marker line,
/// `[Unit]` with the description, `[Timer]` with the schedule as `OnCalendar=`
/// and `Persistent=true`, so that a run missed while the machine was off is
/// made up for, and `[Install]` for `timers.target`. A service without a
/// schedule has no timer.
pub fn generate_timer_file(service: &ServiceDetails) -> (r: Result<String, MissingScheduleError>)
    ensures
        match r {
            Ok(text) => match service@.schedule {
                Some(schedule) => schedule.in_range() && text@ == unlines(
                    timer_lines(service@.name, schedule.calendar_text()),
                ),
                None => false,
            },
            Err(_) => service@.schedule is None,
        },
{
    let schedule = match &service.schedule {
        Some(schedule) => schedule,
        None => {
            return Err(MissingScheduleError);
        },
    };
    let when = schedule.to_systemd_calendar_string();
    let mut out = String::new();
    let ghost mut ls: Seq<Seq<char>> = Seq::empty();
    push_line(&mut out, Ghost(ls), MANAGED_BY_COMMENT);
    proof {
        ls = ls.push(MANAGED_BY_COMMENT@);
    }
    push_line(&mut out, Ghost(ls), "[Unit]");
    proof {
        ls = ls.push("[Unit]"@);
    }
    push_entry(&mut out, Ghost(ls), "Description=Timer for ", service.name.as_str());
    proof {
        ls = ls.push("Description=Timer for "@ + service@.name);
    }
    push_blank(&mut out, Ghost(ls));
    proof {
        ls = ls.push(Seq::empty());
    }
    push_line(&mut out, Ghost(ls), "[Timer]");
    proof {
        ls = ls.push("[Timer]"@);
    }
    push_entry(&mut out, Ghost(ls), "OnCalendar=", when.as_str());
    proof {
        ls = ls.push("OnCalendar="@ + when@);
    }
    push_line(&mut out, Ghost(ls), "Persistent=true");
    proof {
        ls = ls.push("Persistent=true"@);
    }
    push_blank(&mut out, Ghost(ls));
    proof {
        ls = ls.push(Seq::empty());
    }
    push_line(&mut out, Ghost(ls), "[Install]");
    proof {
        ls = ls.push("[Install]"@);
    }
    push_line(&mut out, Ghost(ls), "WantedBy=timers.target");
    proof {
        ls = ls.push("WantedBy=timers.target"@);
    }
    assert(ls =~= timer_lines(service@.name, when@));
    Ok(out)
}

/// `value` without the pair of double quotes around it, if it has one.
fn without_quotes<'a>(value: &'a [char]) -> (inner: &'a [char])
    ensures
        inner@ == unquoted(value@),
{
    let n = value.len();
    if n >= 2 && value[0] == '"' && value[n - 1] == '"' {
        slice_subrange(value, 1, n - 1)
    } else {
        value
    }
}

/// Reads one more line of a unit file into `details`.
fn apply_line(details: &mut ServiceDetails, raw: &[char]) -> (r: Result<(), ParseError>)
    ensures
        match r {
            Ok(()) => read_line(old(details)@, raw@) == Ok::<ServiceModel, ParseError>(
                final(details)@,
            ),
            Err(e) => read_line(old(details)@, raw@) == Err::<ServiceModel, ParseError>(e),
        },
{
    let line = trimmed(raw);
    if let Some(rest) = strip_prefix(line, "Description=") {
        details.name = string_of(rest);
        assert(details@ =~= ServiceModel { name: rest@, ..old(details)@ });
        Ok(())
    } else if let Some(rest) = strip_prefix(line, "ExecStart=") {
        let mut command = split_words(rest);
        if command.len() == 0 {
            Err(ParseError::EmptyExecStart)
        } else {
            let ghost all = command.deep_view();
            let program = command.remove(0);
            assert(command.deep_view() =~= all.skip(1));
            assert(program@ == all[0]);
            details.program = program;
            details.arguments = command;
            assert(details@ =~= ServiceModel {
                program: all[0],
                arguments: all.skip(1),
                ..old(details)@
            });
            Ok(())
        }
    } else if let Some(rest) = strip_prefix(line, "WorkingDirectory=") {
        details.working_directory = Some(string_of(rest));
        assert(details@ =~= ServiceModel { working_directory: Some(rest@), ..old(details)@ });
        Ok(())
    } else if equals(line, "WantedBy=multi-user.target") || equals(
        line,
        "WantedBy=default.target",
    ) {
        details.run_at_load = true;
        assert(details@ =~= ServiceModel { run_at_load: true, ..old(details)@ });
        Ok(())
    } else if let Some(_) = strip_prefix(line, "Restart=") {
        details.keep_alive = !equals(line, "Restart=no");
        assert(details@ =~= ServiceModel {
            keep_alive: line@ != "Restart=no"@,
            ..old(details)@
        });
        Ok(())
    } else if let Some(rest) = strip_prefix(line, "EnvironmentFile=") {
        details.env_file = Some(string_of(rest));
        assert(details@ =~= ServiceModel { env_file: Some(rest@), ..old(details)@ });
        Ok(())
    } else if let Some(quoted) = strip_prefix(line, "Environment=") {
        let rest = without_quotes(quoted);
        let cut = find_char(rest, '=');
        if cut < rest.len() {
            let key = string_of(slice_subrange(rest, 0, cut));
            let value = string_of(slice_subrange(rest, cut + 1, rest.len()));
            let ghost before = details.env_vars.deep_view();
            details.env_vars.push((key, value));
            assert(details.env_vars.deep_view() =~= before.push(
                (rest@.take(cut as int), rest@.skip(cut + 1)),
            ));
            assert(details@ =~= ServiceModel {
                env_vars: before.push((rest@.take(cut as int), rest@.skip(cut + 1))),
                ..old(details)@
            });
            Ok(())
        } else {
            Err(ParseError::MalformedEnvironment)
        }
    } else if let Some(rest) = strip_prefix(line, "After=") {
        details.after = split_words(rest);
        assert(details@ =~= ServiceModel { after: words(rest@), ..old(details)@ });
        Ok(())
    } else {
        Ok(())
    }
}

/// Reads a systemd unit file back into the description of a service.
///
/// The file is read line by line, and the lines may come in any order. A file
/// without an `ExecStart=` line, or with one that names no program, is
/// refused, and so is one with an `Environment=` line that has no `=` after
/// its key. A pair of double quotes around the value of an `Environment=`
/// line does not belong to the variable. The description that comes back never has a schedule: that would
/// be in the timer file.
pub fn parse_systemd(contents: &str) -> (r: Result<ServiceDetails, ParseError>)
    ensures
        match r {
            Ok(d) => parse_unit(contents@) == Ok::<ServiceModel, ParseError>(d@),
            Err(e) => parse_unit(contents@) == Err::<ServiceModel, ParseError>(e),
        },
{
    let chars = chars_of(contents);
    let text = chars.as_slice();
    let mut details = ServiceDetails::blank();
    let mut pos: usize = 0;
    assert(text@.skip(0) =~= text@);
    while pos < text.len()
        invariant
            pos <= text.len(),
            text@ == contents@,
            read_lines(lines(text@), ServiceModel::blank()) == read_lines(
                lines(text@.skip(pos as int)),
                details@,
            ),
        decreases text.len() - pos,
    {
        let rest = slice_subrange(text, pos, text.len());
        let n = find_char(rest, '\n');
        let line = slice_subrange(rest, 0, n);
        let ghost before = details@;
        let ghost tail = if n < rest.len() {
            lines(rest@.skip(n + 1))
        } else {
            Seq::empty()
        };
        proof {
            assert(rest@ =~= text@.skip(pos as int));
            assert(line@ =~= rest@.take(n as int));
            if n == rest.len() {
                assert(rest@.take(n as int) =~= rest@);
            }
            assert(lines(rest@) =~= seq![line@] + tail);
            assert((seq![line@] + tail).skip(1) =~= tail);
        }
        match apply_line(&mut details, line) {
            Ok(()) => {},
            Err(e) => {
                return Err(e);
            },
        }
        if n < rest.len() {
            assert(rest@.skip(n + 1) =~= text@.skip(pos + n + 1));
            pos = pos + n + 1;
        } else {
            assert(text@.skip(text.len() as int) =~= Seq::<char>::empty());
            pos = text.len();
        }
    }
    assert(text@.skip(pos as int) =~= Seq::<char>::empty());
    if details.program.as_str().is_empty() {
        Err(ParseError::MissingExecStart)
    } else {
        Ok(details)
    }
}

} // verus!
