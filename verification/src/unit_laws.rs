//! What holds of unit files as they are written here: that a description
//! comes back from its own unit file, and which directives a unit file has.

use crate::details::ServiceModel;
use crate::error::ParseError;
use crate::systemd::{
    environment_line, environment_lines, environment_section, install_section, parse_unit,
    read_line, read_lines, service_section, unit_lines, unit_section, unit_text, unquoted,
    value_after, MANAGED_BY_COMMENT,
};
use crate::text::{is_plain, is_space, is_word, join, lines, starts_with, trim};
use crate::text_laws::{
    lemma_find_first, lemma_join_last, lemma_join_plain, lemma_line_stays,
    lemma_lines_of_unlines, lemma_trim_fixed, lemma_trim_keeps_start, lemma_words_of_join,
};
use vstd::prelude::*;

verus! {

/// Whether `s` can stand at the end of a line and be found again: it holds no
/// line feed and does not end in whitespace.
pub open spec fn is_line_value(s: Seq<char>) -> bool {
    is_plain(s) && (s.len() == 0 || !is_space(s.last()))
}

/// Whether `s` holds no `=`.
pub open spec fn is_key(s: Seq<char>) -> bool {
    forall|i: int| 0 <= i < s.len() ==> s[i] != '='
}

/// Whether every text of the description can be found again in a unit file:
/// the program, the arguments and the units to start after are words; the
/// name and the two paths fit at the end of a line; no environment variable
/// holds a line feed, and no key of one an `=`.
pub open spec fn unit_safe(d: ServiceModel) -> bool {
    &&& is_line_value(d.name)
    &&& is_word(d.program)
    &&& forall|i: int| 0 <= i < d.arguments.len() ==> is_word(#[trigger] d.arguments[i])
    &&& match d.working_directory {
        Some(directory) => is_line_value(directory),
        None => true,
    }
    &&& match d.env_file {
        Some(file) => is_line_value(file),
        None => true,
    }
    &&& forall|i: int|
        0 <= i < d.env_vars.len() ==> {
            &&& is_plain((#[trigger] d.env_vars[i]).0)
            &&& is_key(d.env_vars[i].0)
            &&& is_plain(d.env_vars[i].1)
        }
    &&& forall|i: int| 0 <= i < d.after.len() ==> is_word(#[trigger] d.after[i])
}

/// Whether no text of the description holds a line feed, so that each is
/// written on one line of a unit file.
pub open spec fn single_lined(d: ServiceModel) -> bool {
    &&& is_plain(d.name)
    &&& is_plain(d.program)
    &&& forall|i: int| 0 <= i < d.arguments.len() ==> is_plain(#[trigger] d.arguments[i])
    &&& match d.working_directory {
        Some(directory) => is_plain(directory),
        None => true,
    }
    &&& match d.env_file {
        Some(file) => is_plain(file),
        None => true,
    }
    &&& forall|i: int|
        0 <= i < d.env_vars.len() ==> is_plain((#[trigger] d.env_vars[i]).0) && is_plain(
            d.env_vars[i].1,
        )
    &&& forall|i: int| 0 <= i < d.after.len() ==> is_plain(#[trigger] d.after[i])
}

/// What is read back from the unit file of `d`: the same description, but
/// without a schedule, and one that starts by itself, and is started again,
/// only if `d` said so and had no schedule.
pub open spec fn read_back(d: ServiceModel) -> ServiceModel {
    ServiceModel {
        run_at_load: d.run_at_load && d.schedule is None,
        keep_alive: d.keep_alive && d.schedule is None,
        schedule: None,
        ..d
    }
}

/// Whether each of the lines holds no line feed.
pub open spec fn all_plain(ls: Seq<Seq<char>>) -> bool {
    forall|i: int| 0 <= i < ls.len() ==> is_plain(#[trigger] ls[i])
}

/// Whether one of the lines, trimmed, starts with `key`.
pub open spec fn has_directive(ls: Seq<Seq<char>>, key: Seq<char>) -> bool {
    exists|i: int| 0 <= i < ls.len() && starts_with(trim(#[trigger] ls[i]), key)
}

/// A line that differs from `key` at one place does not start with it.
proof fn lemma_other_key(line: Seq<char>, key: Seq<char>, j: int)
    requires
        0 <= j < key.len(),
        j < line.len() ==> line[j] != key[j],
    ensures
        !starts_with(line, key),
        line != key,
{
    if starts_with(line, key) {
        assert(line.take(key.len() as int)[j] == line[j]);
    }
}

/// A key followed by a value is a line that starts with the key, and the
/// value is what follows.
proof fn lemma_entry(key: Seq<char>, value: Seq<char>)
    requires
        key.len() > 0,
        is_plain(key),
        !is_space(key[0]),
        !is_space(key.last()),
        is_line_value(value),
    ensures
        is_plain(key + value),
        trim(key + value) == key + value,
        starts_with(key + value, key),
        value_after(key + value, key) == value,
{
    let line = key + value;
    assert(line[0] == key[0]);
    if value.len() > 0 {
        assert(line.last() == value.last());
    } else {
        assert(line.last() == key.last());
    }
    lemma_trim_fixed(line);
    assert(line.take(key.len() as int) =~= key);
    assert(line.skip(key.len() as int) =~= value);
}

/// A word holds no line feed and can stand at the end of a line.
proof fn lemma_word_is_line_value(w: Seq<char>)
    requires
        is_word(w),
    ensures
        is_line_value(w),
{
    assert forall|i: int| 0 <= i < w.len() implies w[i] != '\n' by {
        assert(!is_space(w[i]));
    }
}

/// Words joined by single spaces can stand at the end of a line.
proof fn lemma_joined_is_line_value(ws: Seq<Seq<char>>)
    requires
        ws.len() > 0,
        forall|i: int| 0 <= i < ws.len() ==> is_word(#[trigger] ws[i]),
    ensures
        is_line_value(join(ws, seq![' '])),
{
    assert forall|i: int| 0 <= i < ws.len() implies is_plain(#[trigger] ws[i]) by {
        lemma_word_is_line_value(ws[i]);
    }
    lemma_join_plain(ws, seq![' ']);
    assert(is_word(ws.last()));
    lemma_join_last(ws, seq![' ']);
}

/// The line that gives the name is read as the name.
proof fn lemma_reads_description(acc: ServiceModel, name: Seq<char>)
    requires
        is_line_value(name),
    ensures
        is_plain("Description="@ + name),
        trim("Description="@ + name) == "Description="@ + name,
        ("Description="@ + name)[0] == 'D',
        read_line(acc, "Description="@ + name) == Ok::<ServiceModel, ParseError>(
            ServiceModel { name, ..acc },
        ),
{
    reveal_strlit("Description=");
    lemma_entry("Description="@, name);
}

/// The line that gives the command is read as the program and its arguments.
proof fn lemma_reads_exec_start(acc: ServiceModel, program: Seq<char>, arguments: Seq<Seq<char>>)
    requires
        is_word(program),
        forall|i: int| 0 <= i < arguments.len() ==> is_word(#[trigger] arguments[i]),
    ensures
        ({
            let line = "ExecStart="@ + join(seq![program] + arguments, " "@);
            &&& is_plain(line)
            &&& trim(line) == line
            &&& line[0] == 'E'
            &&& read_line(acc, line) == Ok::<ServiceModel, ParseError>(
                ServiceModel { program, arguments, ..acc },
            )
        }),
{
    reveal_strlit("ExecStart=");
    reveal_strlit("Description=");
    reveal_strlit(" ");
    assert(" "@ =~= seq![' ']);
    let command = seq![program] + arguments;
    assert forall|i: int| 0 <= i < command.len() implies is_word(#[trigger] command[i]) by {
        if i > 0 {
            assert(command[i] == arguments[i - 1]);
        }
    }
    lemma_words_of_join(command);
    lemma_joined_is_line_value(command);
    let value = join(command, " "@);
    let line = "ExecStart="@ + value;
    lemma_entry("ExecStart="@, value);
    lemma_other_key(line, "Description="@, 0);
    assert(command.skip(1) =~= arguments);
}

/// The line that gives the working directory is read as that directory.
proof fn lemma_reads_working_directory(acc: ServiceModel, directory: Seq<char>)
    requires
        is_line_value(directory),
    ensures
        ({
            let line = "WorkingDirectory="@ + directory;
            &&& is_plain(line)
            &&& trim(line) == line
            &&& line[0] == 'W'
            &&& line[1] == 'o'
            &&& read_line(acc, line) == Ok::<ServiceModel, ParseError>(
                ServiceModel { working_directory: Some(directory), ..acc },
            )
        }),
{
    reveal_strlit("WorkingDirectory=");
    reveal_strlit("ExecStart=");
    reveal_strlit("Description=");
    let line = "WorkingDirectory="@ + directory;
    lemma_entry("WorkingDirectory="@, directory);
    lemma_other_key(line, "Description="@, 0);
    lemma_other_key(line, "ExecStart="@, 0);
}

/// The line that asks for restarts is read as such.
proof fn lemma_reads_restart(acc: ServiceModel)
    ensures
        is_plain("Restart=always"@),
        trim("Restart=always"@) == "Restart=always"@,
        starts_with("Restart=always"@, "Restart="@),
        "Restart=always"@[0] == 'R',
        read_line(acc, "Restart=always"@) == Ok::<ServiceModel, ParseError>(
            ServiceModel { keep_alive: true, ..acc },
        ),
{
    reveal_strlit("Restart=always");
    reveal_strlit("Restart=");
    reveal_strlit("Restart=no");
    reveal_strlit("WorkingDirectory=");
    reveal_strlit("WantedBy=multi-user.target");
    reveal_strlit("WantedBy=default.target");
    reveal_strlit("ExecStart=");
    reveal_strlit("Description=");
    let line = "Restart=always"@;
    lemma_trim_fixed(line);
    lemma_other_key(line, "Description="@, 0);
    lemma_other_key(line, "ExecStart="@, 0);
    lemma_other_key(line, "WorkingDirectory="@, 0);
    lemma_other_key(line, "WantedBy=multi-user.target"@, 0);
    lemma_other_key(line, "WantedBy=default.target"@, 0);
    assert(line.take(8) =~= "Restart="@);
}

/// The line that installs the service for the default target is read as a
/// service that starts by itself.
proof fn lemma_reads_wanted_by(acc: ServiceModel)
    ensures
        is_plain("WantedBy=default.target"@),
        trim("WantedBy=default.target"@) == "WantedBy=default.target"@,
        starts_with("WantedBy=default.target"@, "WantedBy="@),
        "WantedBy=default.target"@[0] == 'W',
        read_line(acc, "WantedBy=default.target"@) == Ok::<ServiceModel, ParseError>(
            ServiceModel { run_at_load: true, ..acc },
        ),
{
    reveal_strlit("WantedBy=default.target");
    reveal_strlit("WantedBy=");
    reveal_strlit("WorkingDirectory=");
    reveal_strlit("ExecStart=");
    reveal_strlit("Description=");
    let line = "WantedBy=default.target"@;
    lemma_trim_fixed(line);
    lemma_other_key(line, "Description="@, 0);
    lemma_other_key(line, "ExecStart="@, 0);
    lemma_other_key(line, "WorkingDirectory="@, 1);
    assert(line.take(9) =~= "WantedBy="@);
}

/// A line that starts with `E`, `n` is none of the lines read before the two
/// that set the environment.
proof fn lemma_environment_comes_late(line: Seq<char>)
    requires
        line.len() >= 2,
        line[0] == 'E',
        line[1] == 'n',
    ensures
        !starts_with(line, "Description="@),
        !starts_with(line, "ExecStart="@),
        !starts_with(line, "WorkingDirectory="@),
        line != "WantedBy=multi-user.target"@,
        line != "WantedBy=default.target"@,
        !starts_with(line, "Restart="@),
{
    reveal_strlit("Restart=");
    reveal_strlit("WorkingDirectory=");
    reveal_strlit("WantedBy=multi-user.target");
    reveal_strlit("WantedBy=default.target");
    reveal_strlit("ExecStart=");
    reveal_strlit("Description=");
    lemma_other_key(line, "Description="@, 0);
    lemma_other_key(line, "ExecStart="@, 1);
    lemma_other_key(line, "WorkingDirectory="@, 0);
    lemma_other_key(line, "WantedBy=multi-user.target"@, 0);
    lemma_other_key(line, "WantedBy=default.target"@, 0);
    lemma_other_key(line, "Restart="@, 0);
}

/// The line that gives the file of environment variables is read as that
/// file.
proof fn lemma_reads_environment_file(acc: ServiceModel, file: Seq<char>)
    requires
        is_line_value(file),
    ensures
        ({
            let line = "EnvironmentFile="@ + file;
            &&& is_plain(line)
            &&& trim(line) == line
            &&& line[0] == 'E'
            &&& read_line(acc, line) == Ok::<ServiceModel, ParseError>(
                ServiceModel { env_file: Some(file), ..acc },
            )
        }),
{
    reveal_strlit("EnvironmentFile=");
    let line = "EnvironmentFile="@ + file;
    lemma_entry("EnvironmentFile="@, file);
    lemma_environment_comes_late(line);
}

/// The line that sets an environment variable is read as that variable: the
/// quotes of the line do not stay on it.
proof fn lemma_reads_environment(acc: ServiceModel, variable: (Seq<char>, Seq<char>))
    requires
        is_plain(variable.0),
        is_key(variable.0),
        is_plain(variable.1),
    ensures
        ({
            let line = environment_line(variable);
            &&& is_plain(line)
            &&& trim(line) == line
            &&& line[0] == 'E'
            &&& read_line(acc, line) == Ok::<ServiceModel, ParseError>(
                ServiceModel { env_vars: acc.env_vars.push(variable), ..acc },
            )
        }),
{
    reveal_strlit("Environment=\"");
    reveal_strlit("Environment=");
    reveal_strlit("EnvironmentFile=");
    reveal_strlit("=");
    reveal_strlit("\"");
    let line = environment_line(variable);
    let key = variable.0;
    let value = variable.1;
    let pair = key.push('=') + value;
    let written = seq!['"'] + pair.push('"');
    assert("Environment=\""@ =~= "Environment="@.push('"'));
    assert("="@ =~= seq!['=']);
    assert("\""@ =~= seq!['"']);
    assert(line =~= "Environment="@ + written);
    assert(is_line_value(written)) by {
        assert(written.last() == '"');
    }
    lemma_entry("Environment="@, written);
    lemma_environment_comes_late(line);
    lemma_other_key(line, "EnvironmentFile="@, 11);
    assert(written[0] == '"');
    assert(written.subrange(1, written.len() - 1) =~= pair);
    assert(unquoted(written) == pair);
    lemma_find_first(key, '=', value);
    assert(pair.take(key.len() as int) =~= key);
    assert(pair.skip(key.len() as int + 1) =~= value);
}

/// The line that names the units to start after is read as those units.
proof fn lemma_reads_after(acc: ServiceModel, after: Seq<Seq<char>>)
    requires
        after.len() > 0,
        forall|i: int| 0 <= i < after.len() ==> is_word(#[trigger] after[i]),
    ensures
        ({
            let line = "After="@ + join(after, " "@);
            &&& is_plain(line)
            &&& trim(line) == line
            &&& line[0] == 'A'
            &&& read_line(acc, line) == Ok::<ServiceModel, ParseError>(
                ServiceModel { after, ..acc },
            )
        }),
{
    reveal_strlit("After=");
    reveal_strlit(" ");
    reveal_strlit("Restart=");
    reveal_strlit("WorkingDirectory=");
    reveal_strlit("WantedBy=multi-user.target");
    reveal_strlit("WantedBy=default.target");
    reveal_strlit("ExecStart=");
    reveal_strlit("Description=");
    reveal_strlit("Environment=");
    reveal_strlit("EnvironmentFile=");
    assert(" "@ =~= seq![' ']);
    lemma_words_of_join(after);
    lemma_joined_is_line_value(after);
    let value = join(after, " "@);
    let line = "After="@ + value;
    lemma_entry("After="@, value);
    lemma_other_key(line, "Description="@, 0);
    lemma_other_key(line, "ExecStart="@, 0);
    lemma_other_key(line, "WorkingDirectory="@, 0);
    lemma_other_key(line, "WantedBy=multi-user.target"@, 0);
    lemma_other_key(line, "WantedBy=default.target"@, 0);
    lemma_other_key(line, "Restart="@, 0);
    lemma_other_key(line, "EnvironmentFile="@, 0);
    lemma_other_key(line, "Environment="@, 0);
}

/// Whether `c` starts none of the keys that a unit file is read by.
pub open spec fn starts_no_key(c: char) -> bool {
    c != 'D' && c != 'E' && c != 'W' && c != 'R' && c != 'A'
}

/// A line that is empty, or starts with a character that starts no key, says
/// nothing.
proof fn lemma_reads_other(acc: ServiceModel, line: Seq<char>)
    requires
        line.len() == 0 || (starts_no_key(line[0]) && !is_space(line[0]) && !is_space(
            line.last(),
        )),
    ensures
        trim(line) == line,
        read_line(acc, line) == Ok::<ServiceModel, ParseError>(acc),
        forall|key: Seq<char>|
            key.len() > 0 && !starts_no_key(key[0]) ==> !starts_with(line, key),
{
    reveal_strlit("After=");
    reveal_strlit("Restart=");
    reveal_strlit("WorkingDirectory=");
    reveal_strlit("WantedBy=multi-user.target");
    reveal_strlit("WantedBy=default.target");
    reveal_strlit("ExecStart=");
    reveal_strlit("Description=");
    reveal_strlit("Environment=");
    reveal_strlit("EnvironmentFile=");
    lemma_trim_fixed(line);
    lemma_other_key(line, "Description="@, 0);
    lemma_other_key(line, "ExecStart="@, 0);
    lemma_other_key(line, "WorkingDirectory="@, 0);
    lemma_other_key(line, "WantedBy=multi-user.target"@, 0);
    lemma_other_key(line, "WantedBy=default.target"@, 0);
    lemma_other_key(line, "Restart="@, 0);
    lemma_other_key(line, "EnvironmentFile="@, 0);
    lemma_other_key(line, "Environment="@, 0);
    lemma_other_key(line, "After="@, 0);
    assert forall|key: Seq<char>| key.len() > 0 && !starts_no_key(key[0]) implies !starts_with(
        line,
        key,
    ) by {
        lemma_other_key(line, key, 0);
    }
}

/// A description whose texts can be found again has each text on one line.
pub proof fn lemma_safe_is_single_lined(d: ServiceModel)
    requires
        unit_safe(d),
    ensures
        single_lined(d),
{
    lemma_word_is_line_value(d.program);
    assert forall|i: int| 0 <= i < d.arguments.len() implies is_plain(
        #[trigger] d.arguments[i],
    ) by {
        lemma_word_is_line_value(d.arguments[i]);
    }
    assert forall|i: int| 0 <= i < d.after.len() implies is_plain(#[trigger] d.after[i]) by {
        lemma_word_is_line_value(d.after[i]);
    }
}

/// Lines after lines have a directive where either has it.
proof fn lemma_directive_concat(a: Seq<Seq<char>>, b: Seq<Seq<char>>, key: Seq<char>)
    ensures
        has_directive(a + b, key) <==> has_directive(a, key) || has_directive(b, key),
        all_plain(a) && all_plain(b) ==> all_plain(a + b),
{
    if has_directive(a, key) {
        let i = choose|i: int| 0 <= i < a.len() && starts_with(trim(#[trigger] a[i]), key);
        assert((a + b)[i] == a[i]);
    }
    if has_directive(b, key) {
        let i = choose|i: int| 0 <= i < b.len() && starts_with(trim(#[trigger] b[i]), key);
        assert((a + b)[a.len() + i] == b[i]);
    }
    if has_directive(a + b, key) {
        let i = choose|i: int|
            0 <= i < (a + b).len() && starts_with(trim(#[trigger] (a + b)[i]), key);
        if i < a.len() {
            assert((a + b)[i] == a[i]);
        } else {
            assert((a + b)[i] == b[i - a.len()]);
        }
    }
    if all_plain(a) && all_plain(b) {
        assert forall|i: int| 0 <= i < (a + b).len() implies is_plain(#[trigger] (a + b)[i]) by {
            if i < a.len() {
                assert((a + b)[i] == a[i]);
            } else {
                assert((a + b)[i] == b[i - a.len()]);
            }
        }
    }
}

/// Whether `line` is neither a `Restart=` nor a `WantedBy=` directive.
pub open spec fn is_quiet(line: Seq<char>) -> bool {
    !starts_with(trim(line), "Restart="@) && !starts_with(trim(line), "WantedBy="@)
}

/// A line that is empty, or starts with two characters other than those of
/// `Restart=` and of `WantedBy=`, is neither directive.
proof fn lemma_quiet(line: Seq<char>)
    requires
        line.len() == 0 || (line.len() >= 2 && !is_space(line[0]) && line[0] != 'R' && !(line[0]
            == 'W' && line[1] == 'a')),
    ensures
        is_quiet(line),
{
    reveal_strlit("Restart=");
    reveal_strlit("WantedBy=");
    if starts_with(trim(line), "Restart="@) {
        lemma_trim_keeps_start(line, "Restart="@);
        lemma_other_key(line, "Restart="@, 0);
    }
    if starts_with(trim(line), "WantedBy="@) {
        lemma_trim_keeps_start(line, "WantedBy="@);
        if line.len() > 0 && line[0] == 'W' {
            lemma_other_key(line, "WantedBy="@, 1);
        } else {
            lemma_other_key(line, "WantedBy="@, 0);
        }
    }
}

/// Lines that are neither directive hold neither.
proof fn lemma_quiet_lines(ls: Seq<Seq<char>>)
    requires
        forall|i: int| 0 <= i < ls.len() ==> is_quiet(#[trigger] ls[i]),
    ensures
        !has_directive(ls, "Restart="@),
        !has_directive(ls, "WantedBy="@),
{
}

/// The `[Unit]` section is made of lines, none of them a `Restart=` or a
/// `WantedBy=` directive.
proof fn lemma_unit_section_lines(d: ServiceModel)
    requires
        single_lined(d),
    ensures
        all_plain(unit_section(d)),
        !has_directive(unit_section(d), "Restart="@),
        !has_directive(unit_section(d), "WantedBy="@),
{
    reveal_strlit("# Managed by ser");
    reveal_strlit("[Unit]");
    reveal_strlit("Description=");
    reveal_strlit("After=");
    reveal_strlit(" ");
    let ls = unit_section(d);
    let description = "Description="@ + d.name;
    assert(description[0] == 'D' && description[1] == 'e');
    lemma_quiet(MANAGED_BY_COMMENT@);
    lemma_quiet("[Unit]"@);
    lemma_quiet(description);
    assert(is_plain(MANAGED_BY_COMMENT@));
    assert(is_plain("[Unit]"@));
    assert(is_plain(description));
    if d.after.len() > 0 {
        let after = "After="@ + join(d.after, " "@);
        lemma_join_plain(d.after, " "@);
        assert(after[0] == 'A' && after[1] == 'f');
        lemma_quiet(after);
        assert(is_plain(after));
    }
    assert forall|i: int| 0 <= i < ls.len() implies is_quiet(#[trigger] ls[i]) && is_plain(
        ls[i],
    ) by {}
    lemma_quiet_lines(ls);
}

/// The `[Service]` section is made of lines. One of them is a `Restart=`
/// directive exactly if the service is to be started again and has no
/// schedule, and none is a `WantedBy=` directive.
proof fn lemma_service_section_lines(d: ServiceModel)
    requires
        single_lined(d),
    ensures
        all_plain(service_section(d)),
        has_directive(service_section(d), "Restart="@) <==> d.keep_alive && d.schedule is None,
        !has_directive(service_section(d), "WantedBy="@),
{
    reveal_strlit("[Service]");
    reveal_strlit("Type=oneshot");
    reveal_strlit("ExecStart=");
    reveal_strlit("WorkingDirectory=");
    reveal_strlit("WantedBy=");
    reveal_strlit(" ");
    let ls = service_section(d);
    let command = seq![d.program] + d.arguments;
    let exec_start = "ExecStart="@ + join(command, " "@);
    assert forall|i: int| 0 <= i < command.len() implies is_plain(#[trigger] command[i]) by {
        if i > 0 {
            assert(command[i] == d.arguments[i - 1]);
        }
    }
    lemma_join_plain(command, " "@);
    assert(exec_start[0] == 'E' && exec_start[1] == 'x');
    lemma_quiet(Seq::empty());
    lemma_quiet("[Service]"@);
    lemma_quiet("Type=oneshot"@);
    lemma_quiet(exec_start);
    assert(is_plain("[Service]"@));
    assert(is_plain("Type=oneshot"@));
    assert(is_plain(exec_start));
    match d.working_directory {
        Some(directory) => {
            let line = "WorkingDirectory="@ + directory;
            assert(line[0] == 'W' && line[1] == 'o');
            lemma_quiet(line);
            assert(is_plain(line));
        },
        None => {},
    }
    let acc = ServiceModel::blank();
    lemma_reads_restart(acc);
    lemma_other_key("Restart=always"@, "WantedBy="@, 0);
    let restart = "Restart=always"@;
    assert forall|i: int| 0 <= i < ls.len() implies is_plain(#[trigger] ls[i]) && (is_quiet(ls[i])
        || (d.keep_alive && d.schedule is None && ls[i] == restart)) by {}
    if d.keep_alive && d.schedule is None {
        assert(ls.last() == restart);
        assert(starts_with(trim(ls[ls.len() - 1]), "Restart="@));
    }
}

/// The environment is made of lines, none of them a `Restart=` or a
/// `WantedBy=` directive.
proof fn lemma_environment_section_lines(d: ServiceModel)
    requires
        single_lined(d),
    ensures
        all_plain(environment_section(d)),
        !has_directive(environment_section(d), "Restart="@),
        !has_directive(environment_section(d), "WantedBy="@),
{
    reveal_strlit("EnvironmentFile=");
    reveal_strlit("Environment=\"");
    reveal_strlit("=");
    reveal_strlit("\"");
    let ls = environment_section(d);
    let head: Seq<Seq<char>> = match d.env_file {
        Some(file) => seq!["EnvironmentFile="@ + file],
        None => Seq::empty(),
    };
    match d.env_file {
        Some(file) => {
            let line = "EnvironmentFile="@ + file;
            assert(line[0] == 'E' && line[1] == 'n');
            lemma_quiet(line);
            assert(is_plain(line));
        },
        None => {},
    }
    assert forall|i: int| 0 <= i < ls.len() implies is_quiet(#[trigger] ls[i]) && is_plain(
        ls[i],
    ) by {
        if i >= head.len() {
            let variable = d.env_vars[i - head.len()];
            let line = environment_line(variable);
            assert(ls[i] == line);
            assert(line[0] == 'E' && line[1] == 'n');
            lemma_quiet(line);
            assert(is_plain(variable.0) && is_plain(variable.1));
            assert(is_plain(line));
        }
    }
    lemma_quiet_lines(ls);
}

/// The `[Install]` section is made of lines. One of them is a `WantedBy=`
/// directive exactly if the service is to start by itself and has no
/// schedule, and none is a `Restart=` directive.
proof fn lemma_install_section_lines(d: ServiceModel)
    ensures
        all_plain(install_section(d)),
        !has_directive(install_section(d), "Restart="@),
        has_directive(install_section(d), "WantedBy="@) <==> d.run_at_load && d.schedule is None,
{
    reveal_strlit("[Install]");
    reveal_strlit("Restart=");
    let ls = install_section(d);
    let wanted = "WantedBy=default.target"@;
    lemma_quiet(Seq::empty());
    lemma_quiet("[Install]"@);
    assert(is_plain("[Install]"@));
    lemma_reads_wanted_by(ServiceModel::blank());
    lemma_other_key(wanted, "Restart="@, 0);
    assert forall|i: int| 0 <= i < ls.len() implies is_plain(#[trigger] ls[i])
        && !starts_with(trim(ls[i]), "Restart="@) by {}
    if d.run_at_load && d.schedule is None {
        assert(ls[2] == wanted);
        assert(starts_with(trim(ls[2]), "WantedBy="@));
    }
}

/// Reading a line and then more lines is reading them all.
proof fn lemma_read_first(line: Seq<char>, rest: Seq<Seq<char>>, acc: ServiceModel)
    ensures
        read_lines(seq![line] + rest, acc) == match read_line(acc, line) {
            Ok(next) => read_lines(rest, next),
            Err(e) => Err(e),
        },
{
    let all = seq![line] + rest;
    assert(all[0] == line);
    assert(all.skip(1) =~= rest);
}

/// Reading no line changes nothing.
proof fn lemma_read_nothing(acc: ServiceModel)
    ensures
        read_lines(Seq::empty(), acc) == Ok::<ServiceModel, ParseError>(acc),
{
}

/// Reading lines and then more lines is reading them all.
proof fn lemma_read_concat(a: Seq<Seq<char>>, b: Seq<Seq<char>>, acc: ServiceModel)
    ensures
        read_lines(a + b, acc) == match read_lines(a, acc) {
            Ok(next) => read_lines(b, next),
            Err(e) => Err(e),
        },
    decreases a.len(),
{
    if a.len() == 0 {
        assert(a + b =~= b);
    } else {
        assert((a + b)[0] == a[0]);
        assert((a + b).skip(1) =~= a.skip(1) + b);
        match read_line(acc, a[0]) {
            Ok(next) => {
                lemma_read_concat(a.skip(1), b, next);
            },
            Err(_) => {},
        }
    }
}

/// What the `[Unit]` section of `d` leaves of `acc`: the name of `d`, and
/// the units that it starts after, if it names any.
pub open spec fn after_unit_section(d: ServiceModel, acc: ServiceModel) -> ServiceModel {
    ServiceModel {
        name: d.name,
        after: if d.after.len() > 0 {
            d.after
        } else {
            acc.after
        },
        ..acc
    }
}

/// The `[Unit]` section is read as the name and the units to start after.
proof fn lemma_reads_unit_section(d: ServiceModel, acc: ServiceModel)
    requires
        unit_safe(d),
    ensures
        read_lines(unit_section(d), acc) == Ok::<ServiceModel, ParseError>(
            after_unit_section(d, acc),
        ),
{
    reveal_strlit("# Managed by ser");
    reveal_strlit("[Unit]");
    let description = "Description="@ + d.name;
    let tail: Seq<Seq<char>> = if d.after.len() > 0 {
        seq!["After="@ + join(d.after, " "@)]
    } else {
        Seq::empty()
    };
    let named = ServiceModel { name: d.name, ..acc };
    let s2 = seq![description] + tail;
    let s1 = seq!["[Unit]"@] + s2;
    assert(unit_section(d) =~= seq![MANAGED_BY_COMMENT@] + s1);
    lemma_reads_other(acc, MANAGED_BY_COMMENT@);
    lemma_read_first(MANAGED_BY_COMMENT@, s1, acc);
    lemma_reads_other(acc, "[Unit]"@);
    lemma_read_first("[Unit]"@, s2, acc);
    lemma_reads_description(acc, d.name);
    lemma_read_first(description, tail, acc);
    lemma_read_nothing(named);
    if d.after.len() > 0 {
        let after = "After="@ + join(d.after, " "@);
        lemma_reads_after(named, d.after);
        assert(tail =~= seq![after] + Seq::<Seq<char>>::empty());
        lemma_read_first(after, Seq::empty(), named);
        lemma_read_nothing(ServiceModel { after: d.after, ..named });
    }
}

/// What the `[Service]` section of `d` leaves of `acc`: the command of `d`,
/// its working directory, if it has one, and that it is started again, if it
/// is and has no schedule.
pub open spec fn after_service_section(d: ServiceModel, acc: ServiceModel) -> ServiceModel {
    ServiceModel {
        program: d.program,
        arguments: d.arguments,
        working_directory: match d.working_directory {
            Some(directory) => Some(directory),
            None => acc.working_directory,
        },
        keep_alive: if d.keep_alive && d.schedule is None {
            true
        } else {
            acc.keep_alive
        },
        ..acc
    }
}

/// The `[Service]` section is read as the command, the working directory and
/// whether the service is started again.
proof fn lemma_reads_service_section(d: ServiceModel, acc: ServiceModel)
    requires
        unit_safe(d),
    ensures
        read_lines(service_section(d), acc) == Ok::<ServiceModel, ParseError>(
            after_service_section(d, acc),
        ),
{
    reveal_strlit("[Service]");
    reveal_strlit("Type=oneshot");
    let exec_start = "ExecStart="@ + join(seq![d.program] + d.arguments, " "@);
    let restart: Seq<Seq<char>> = if d.keep_alive && d.schedule is None {
        seq!["Restart=always"@]
    } else {
        Seq::empty()
    };
    let directory_part: Seq<Seq<char>> = match d.working_directory {
        Some(directory) => seq!["WorkingDirectory="@ + directory],
        None => Seq::empty(),
    };
    let s4 = directory_part + restart;
    let s3 = seq![exec_start] + s4;
    let s2: Seq<Seq<char>> = if d.schedule is Some {
        seq!["Type=oneshot"@] + s3
    } else {
        s3
    };
    let s1 = seq!["[Service]"@] + s2;
    assert(service_section(d) =~= seq![Seq::<char>::empty()] + s1);
    lemma_reads_other(acc, Seq::empty());
    lemma_read_first(Seq::empty(), s1, acc);
    lemma_reads_other(acc, "[Service]"@);
    lemma_read_first("[Service]"@, s2, acc);
    if d.schedule is Some {
        lemma_reads_other(acc, "Type=oneshot"@);
        lemma_read_first("Type=oneshot"@, s3, acc);
    }
    assert(read_lines(service_section(d), acc) == read_lines(s3, acc));
    lemma_reads_exec_start(acc, d.program, d.arguments);
    lemma_read_first(exec_start, s4, acc);
    let run = ServiceModel { program: d.program, arguments: d.arguments, ..acc };
    assert(read_lines(s3, acc) == read_lines(s4, run));
    lemma_read_concat(directory_part, restart, run);
    let placed = match d.working_directory {
        Some(directory) => ServiceModel { working_directory: Some(directory), ..run },
        None => run,
    };
    match d.working_directory {
        Some(directory) => {
            let line = "WorkingDirectory="@ + directory;
            lemma_reads_working_directory(run, directory);
            assert(directory_part =~= seq![line] + Seq::<Seq<char>>::empty());
            lemma_read_first(line, Seq::empty(), run);
            lemma_read_nothing(placed);
        },
        None => {
            lemma_read_nothing(run);
        },
    }
    assert(read_lines(directory_part, run) == Ok::<ServiceModel, ParseError>(placed));
    if d.keep_alive && d.schedule is None {
        lemma_reads_restart(placed);
        assert(restart =~= seq!["Restart=always"@] + Seq::<Seq<char>>::empty());
        lemma_read_first("Restart=always"@, Seq::empty(), placed);
        lemma_read_nothing(ServiceModel { keep_alive: true, ..placed });
    } else {
        lemma_read_nothing(placed);
    }
    assert(read_lines(restart, placed) == Ok::<ServiceModel, ParseError>(
        after_service_section(d, acc),
    )) by {
        assert(after_service_section(d, acc) =~= (if d.keep_alive && d.schedule is None {
            ServiceModel { keep_alive: true, ..placed }
        } else {
            placed
        }));
    }
}

/// The lines that set environment variables are read as those variables,
/// after the ones read before.
proof fn lemma_reads_environment_lines(variables: Seq<(Seq<char>, Seq<char>)>, acc: ServiceModel)
    requires
        forall|i: int|
            0 <= i < variables.len() ==> {
                &&& is_plain((#[trigger] variables[i]).0)
                &&& is_key(variables[i].0)
                &&& is_plain(variables[i].1)
            },
    ensures
        read_lines(environment_lines(variables), acc) == Ok::<ServiceModel, ParseError>(
            ServiceModel { env_vars: acc.env_vars + variables, ..acc },
        ),
    decreases variables.len(),
{
    let ls = environment_lines(variables);
    if variables.len() == 0 {
        assert(acc.env_vars + variables =~= acc.env_vars);
        assert(ls =~= Seq::<Seq<char>>::empty());
        lemma_read_nothing(acc);
        assert(acc =~= ServiceModel { env_vars: acc.env_vars + variables, ..acc });
    } else {
        let first = variables[0];
        let rest = variables.skip(1);
        let line = environment_line(first);
        let next = ServiceModel { env_vars: acc.env_vars.push(first), ..acc };
        assert(ls =~= seq![line] + environment_lines(rest));
        lemma_reads_environment(acc, first);
        lemma_read_first(line, environment_lines(rest), acc);
        assert forall|i: int| 0 <= i < rest.len() implies {
            &&& is_plain((#[trigger] rest[i]).0)
            &&& is_key(rest[i].0)
            &&& is_plain(rest[i].1)
        } by {
            assert(rest[i] == variables[i + 1]);
        }
        lemma_reads_environment_lines(rest, next);
        assert(next.env_vars + rest =~= acc.env_vars + variables);
    }
}

/// What the environment of `d` leaves of `acc`: the file of variables of `d`,
/// if it has one, and its variables after those of `acc`.
pub open spec fn after_environment_section(d: ServiceModel, acc: ServiceModel) -> ServiceModel {
    ServiceModel {
        env_file: match d.env_file {
            Some(file) => Some(file),
            None => acc.env_file,
        },
        env_vars: acc.env_vars + d.env_vars,
        ..acc
    }
}

/// The environment is read as the file of variables and the variables.
proof fn lemma_reads_environment_section(d: ServiceModel, acc: ServiceModel)
    requires
        unit_safe(d),
    ensures
        read_lines(environment_section(d), acc) == Ok::<ServiceModel, ParseError>(
            after_environment_section(d, acc),
        ),
{
    let head: Seq<Seq<char>> = match d.env_file {
        Some(file) => seq!["EnvironmentFile="@ + file],
        None => Seq::empty(),
    };
    let filed = match d.env_file {
        Some(file) => ServiceModel { env_file: Some(file), ..acc },
        None => acc,
    };
    lemma_read_concat(head, environment_lines(d.env_vars), acc);
    match d.env_file {
        Some(file) => {
            let line = "EnvironmentFile="@ + file;
            lemma_reads_environment_file(acc, file);
            assert(head =~= seq![line] + Seq::<Seq<char>>::empty());
            lemma_read_first(line, Seq::empty(), acc);
            lemma_read_nothing(filed);
        },
        None => {
            lemma_read_nothing(acc);
        },
    }
    lemma_reads_environment_lines(d.env_vars, filed);
    assert(after_environment_section(d, acc) =~= ServiceModel {
        env_vars: filed.env_vars + d.env_vars,
        ..filed
    });
}

/// What the `[Install]` section of `d` leaves of `acc`: that the service
/// starts by itself, if it does and has no schedule.
pub open spec fn after_install_section(d: ServiceModel, acc: ServiceModel) -> ServiceModel {
    ServiceModel {
        run_at_load: if d.run_at_load && d.schedule is None {
            true
        } else {
            acc.run_at_load
        },
        ..acc
    }
}

/// The `[Install]` section is read as a service that starts by itself.
proof fn lemma_reads_install_section(d: ServiceModel, acc: ServiceModel)
    ensures
        read_lines(install_section(d), acc) == Ok::<ServiceModel, ParseError>(
            after_install_section(d, acc),
        ),
{
    reveal_strlit("[Install]");
    if d.run_at_load && d.schedule is None {
        let wanted = "WantedBy=default.target"@;
        let s2 = seq![wanted] + Seq::<Seq<char>>::empty();
        let s1 = seq!["[Install]"@] + s2;
        assert(install_section(d) =~= seq![Seq::<char>::empty()] + s1);
        lemma_reads_other(acc, Seq::empty());
        lemma_read_first(Seq::empty(), s1, acc);
        lemma_reads_other(acc, "[Install]"@);
        lemma_read_first("[Install]"@, s2, acc);
        lemma_reads_wanted_by(acc);
        lemma_read_first(wanted, Seq::empty(), acc);
        lemma_read_nothing(ServiceModel { run_at_load: true, ..acc });
    } else {
        lemma_read_nothing(acc);
        assert(after_install_section(d, acc) =~= acc);
    }
}

/// The lines of a unit file as it is written here are the lines that were
/// written, where each text of the description is on one line.
pub proof fn lemma_unit_file_lines(d: ServiceModel)
    requires
        single_lined(d),
    ensures
        lines(unit_text(d)) == unit_lines(d),
{
    lemma_unit_section_lines(d);
    lemma_service_section_lines(d);
    lemma_environment_section_lines(d);
    lemma_install_section_lines(d);
    let key = "Restart="@;
    lemma_directive_concat(unit_section(d), service_section(d), key);
    lemma_directive_concat(unit_section(d) + service_section(d), environment_section(d), key);
    lemma_directive_concat(
        unit_section(d) + service_section(d) + environment_section(d),
        install_section(d),
        key,
    );
    lemma_lines_of_unlines(unit_lines(d));
}

/// A unit file written for a service has a line that starts with `Restart=`
/// if the service is to be started again and has no schedule, and only then.
/// The unit file of a scheduled service never has one, whatever the
/// description says of restarts.
pub proof fn lemma_restart_directive(d: ServiceModel)
    requires
        single_lined(d),
    ensures
        has_directive(lines(unit_text(d)), "Restart="@) <==> d.keep_alive && d.schedule is None,
{
    lemma_unit_file_lines(d);
    lemma_unit_section_lines(d);
    lemma_service_section_lines(d);
    lemma_environment_section_lines(d);
    lemma_install_section_lines(d);
    let key = "Restart="@;
    lemma_directive_concat(unit_section(d), service_section(d), key);
    lemma_directive_concat(unit_section(d) + service_section(d), environment_section(d), key);
    lemma_directive_concat(
        unit_section(d) + service_section(d) + environment_section(d),
        install_section(d),
        key,
    );
}

/// The unit file of a service that is to be started again and has no
/// schedule has the line `Restart=always`, whatever else the description
/// holds.
pub proof fn lemma_restart_always(d: ServiceModel)
    requires
        d.keep_alive,
        d.schedule is None,
    ensures
        has_directive(lines(unit_text(d)), "Restart="@),
{
    lemma_reads_restart(d);
    let ls = unit_lines(d);
    let at = unit_section(d).len() + service_section(d).len() - 1;
    assert(service_section(d).last() == "Restart=always"@);
    assert(ls[at] == "Restart=always"@);
    lemma_line_stays(ls, at);
    let found = choose|i: int|
        0 <= i < lines(unit_text(d)).len() && #[trigger] lines(unit_text(d))[i] == ls[at];
    assert(starts_with(trim(lines(unit_text(d))[found]), "Restart="@));
}

/// The unit file of a service that is to start by itself and has no
/// schedule has the line `WantedBy=default.target`, whatever else the
/// description holds.
pub proof fn lemma_install_always(d: ServiceModel)
    requires
        d.run_at_load,
        d.schedule is None,
    ensures
        has_directive(lines(unit_text(d)), "WantedBy="@),
{
    lemma_reads_wanted_by(d);
    let ls = unit_lines(d);
    let at = ls.len() - 1;
    assert(install_section(d).last() == "WantedBy=default.target"@);
    assert(ls[at] == "WantedBy=default.target"@);
    lemma_line_stays(ls, at);
    let found = choose|i: int|
        0 <= i < lines(unit_text(d)).len() && #[trigger] lines(unit_text(d))[i] == ls[at];
    assert(starts_with(trim(lines(unit_text(d))[found]), "WantedBy="@));
}

/// A unit file written for a service has a line that starts with `WantedBy=`
/// if the service is to start by itself and has no schedule, and only then.
/// The unit file of a scheduled service never has one: its timer is what is
/// installed.
pub proof fn lemma_install_directive(d: ServiceModel)
    requires
        single_lined(d),
    ensures
        has_directive(lines(unit_text(d)), "WantedBy="@) <==> d.run_at_load && d.schedule is None,
{
    lemma_unit_file_lines(d);
    lemma_unit_section_lines(d);
    lemma_service_section_lines(d);
    lemma_environment_section_lines(d);
    lemma_install_section_lines(d);
    let key = "WantedBy="@;
    lemma_directive_concat(unit_section(d), service_section(d), key);
    lemma_directive_concat(unit_section(d) + service_section(d), environment_section(d), key);
    lemma_directive_concat(
        unit_section(d) + service_section(d) + environment_section(d),
        install_section(d),
        key,
    );
}

/// What is read back from a unit file written here is what was written: the
/// name, the command, the two paths, the environment variables and the units
/// to start after come back as they were; the schedule does not come back;
/// and the service starts by itself, and is started again, only if it was
/// said to and had no schedule.
pub proof fn lemma_parse_of_unit_text(d: ServiceModel)
    requires
        unit_safe(d),
    ensures
        parse_unit(unit_text(d)) == Ok::<ServiceModel, ParseError>(read_back(d)),
{
    lemma_safe_is_single_lined(d);
    lemma_unit_file_lines(d);
    let blank = ServiceModel::blank();
    let a = after_unit_section(d, blank);
    let b = after_service_section(d, a);
    let c = after_environment_section(d, b);
    let e = after_install_section(d, c);
    lemma_reads_unit_section(d, blank);
    lemma_reads_service_section(d, a);
    lemma_reads_environment_section(d, b);
    lemma_reads_install_section(d, c);
    lemma_read_concat(unit_section(d), service_section(d), blank);
    lemma_read_concat(unit_section(d) + service_section(d), environment_section(d), blank);
    lemma_read_concat(
        unit_section(d) + service_section(d) + environment_section(d),
        install_section(d),
        blank,
    );
    assert(read_lines(unit_lines(d), blank) == Ok::<ServiceModel, ParseError>(e));
    assert(e =~= read_back(d));
}

/// A description without a schedule comes back whole from its own unit
/// file: the name, the program, the arguments, the working directory, the
/// file of environment variables, the environment variables, the units to
/// start after, and whether the service starts by itself and is started
/// again, are what they were.
pub proof fn lemma_round_trip(d: ServiceModel)
    requires
        unit_safe(d),
        d.schedule is None,
    ensures
        parse_unit(unit_text(d)) == Ok::<ServiceModel, ParseError>(d),
{
    lemma_parse_of_unit_text(d);
    assert(read_back(d) =~= d);
}

} // verus!
