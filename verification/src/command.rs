//! The commands by which the service managers are asked to act, and what
//! their output says.

use crate::text::{
    chars_of, contains, contains_text, decimal, printed_lines, push_number, split_lines,
    string_of,
};
use vstd::prelude::*;

verus! {

/// What `systemctl` can be asked to do with a unit.
#[derive(Clone, Copy, Debug, PartialEq, Eq, Structural)]
pub enum UnitAction {
    Start,
    Stop,
    Restart,
    Enable,
    Disable,
    /// Ask whether the unit runs, without output.
    IsActive,
}

/// The word by which `systemctl` is asked for `action`.
pub open spec fn action_word(action: UnitAction) -> Seq<char> {
    match action {
        UnitAction::Start => "start"@,
        UnitAction::Stop => "stop"@,
        UnitAction::Restart => "restart"@,
        UnitAction::Enable => "enable"@,
        UnitAction::Disable => "disable"@,
        UnitAction::IsActive => "is-active"@,
    }
}

/// The arguments of `systemctl` that ask for `action` on `unit`.
pub open spec fn systemctl_words(action: UnitAction, unit: Seq<char>) -> Seq<Seq<char>> {
    if action == UnitAction::IsActive {
        seq![action_word(action), "--quiet"@, unit]
    } else {
        seq![action_word(action), unit]
    }
}

/// The arguments of `journalctl` that show the last `lines` lines of the log
/// of `unit`, and what is logged from then on where `follow` is set.
pub open spec fn journalctl_words(unit: Seq<char>, lines: nat, follow: bool) -> Seq<Seq<char>> {
    seq!["-u"@, unit, "-n"@, decimal(lines)] + (if follow {
        seq!["-f"@]
    } else {
        Seq::empty()
    }) + seq!["--no-pager"@]
}

/// The arguments of `launchctl` that load, or unload, the property list at
/// `path` for good.
pub open spec fn launchctl_words(load: bool, path: Seq<char>) -> Seq<Seq<char>> {
    seq![
        if load {
            "load"@
        } else {
            "unload"@
        },
        "-w"@,
        path,
    ]
}

/// The predicate that picks what was logged about `name`.
pub open spec fn predicate_text(name: Seq<char>) -> Seq<char> {
    "process CONTAINS[c] '"@ + name + "' OR subsystem CONTAINS[c] '"@ + name
        + "' OR category CONTAINS[c] '"@ + name + "' OR eventMessage CONTAINS[c] '"@ + name + "'"@
}

/// The arguments of `log` that show what was logged about `name` in the last
/// hour, and what is logged from then on where `follow` is set.
pub open spec fn log_words(name: Seq<char>, follow: bool) -> Seq<Seq<char>> {
    seq!["show"@, "--last"@, "1h"@, "--predicate"@, predicate_text(name), "--style"@, "syslog"@]
        + (if follow {
        seq!["--stream"@]
    } else {
        Seq::empty()
    })
}

/// Whether one of the lines of `output` holds `name`.
pub open spec fn mentions(output: Seq<char>, name: Seq<char>) -> bool {
    exists|i: int|
        0 <= i < printed_lines(output).len() && contains(#[trigger] printed_lines(output)[i], name)
}

/// The last `count` of the lines, or all of them where they are fewer.
pub open spec fn tail(lines: Seq<Seq<char>>, count: nat) -> Seq<Seq<char>> {
    if lines.len() > count {
        lines.skip(lines.len() - count)
    } else {
        lines
    }
}

/// The word by which `systemctl` is asked for `action`.
fn action_name(action: UnitAction) -> (word: &'static str)
    ensures
        word@ == action_word(action),
{
    match action {
        UnitAction::Start => "start",
        UnitAction::Stop => "stop",
        UnitAction::Restart => "restart",
        UnitAction::Enable => "enable",
        UnitAction::Disable => "disable",
        UnitAction::IsActive => "is-active",
    }
}

/// Appends a copy of `word` to `words`.
fn push_word(words: &mut Vec<String>, word: &str)
    ensures
        final(words).deep_view() == old(words).deep_view().push(word@),
{
    let ghost before = words.deep_view();
    words.push(word.to_owned());
    assert(words.deep_view() =~= before.push(word@));
}

/// The arguments of `systemctl` that ask for `action` on `unit`.
pub fn systemctl_arguments(action: UnitAction, unit: &str) -> (words: Vec<String>)
    ensures
        words.deep_view() == systemctl_words(action, unit@),
{
    let mut words: Vec<String> = Vec::new();
    assert(words.deep_view() =~= Seq::<Seq<char>>::empty());
    push_word(&mut words, action_name(action));
    if action == UnitAction::IsActive {
        push_word(&mut words, "--quiet");
    }
    push_word(&mut words, unit);
    assert(words.deep_view() =~= systemctl_words(action, unit@));
    words
}

/// The arguments of `systemctl` that make it read the unit files again.
pub fn reload_arguments() -> (words: Vec<String>)
    ensures
        words.deep_view() == seq!["daemon-reload"@],
{
    let mut words: Vec<String> = Vec::new();
    assert(words.deep_view() =~= Seq::<Seq<char>>::empty());
    push_word(&mut words, "daemon-reload");
    words
}

/// The arguments of `journalctl` that show the log of `unit`.
pub fn journalctl_arguments(unit: &str, lines: u32, follow: bool) -> (words: Vec<String>)
    ensures
        words.deep_view() == journalctl_words(unit@, lines as nat, follow),
{
    let mut words: Vec<String> = Vec::new();
    assert(words.deep_view() =~= Seq::<Seq<char>>::empty());
    push_word(&mut words, "-u");
    push_word(&mut words, unit);
    push_word(&mut words, "-n");
    let mut count = String::new();
    push_number(&mut count, lines);
    assert(count@ =~= decimal(lines as nat));
    push_word(&mut words, count.as_str());
    if follow {
        push_word(&mut words, "-f");
    }
    push_word(&mut words, "--no-pager");
    assert(words.deep_view() =~= journalctl_words(unit@, lines as nat, follow));
    words
}

/// The arguments of `launchctl` that load, or unload, a property list.
pub fn launchctl_arguments(load: bool, path: &str) -> (words: Vec<String>)
    ensures
        words.deep_view() == launchctl_words(load, path@),
{
    let mut words: Vec<String> = Vec::new();
    assert(words.deep_view() =~= Seq::<Seq<char>>::empty());
    push_word(&mut words, if load {
        "load"
    } else {
        "unload"
    });
    push_word(&mut words, "-w");
    push_word(&mut words, path);
    assert(words.deep_view() =~= launchctl_words(load, path@));
    words
}

/// The predicate that picks what was logged about `name`.
pub fn log_predicate(name: &str) -> (predicate: String)
    ensures
        predicate@ == predicate_text(name@),
{
    let mut predicate = String::new();
    predicate.append("process CONTAINS[c] '");
    predicate.append(name);
    predicate.append("' OR subsystem CONTAINS[c] '");
    predicate.append(name);
    predicate.append("' OR category CONTAINS[c] '");
    predicate.append(name);
    predicate.append("' OR eventMessage CONTAINS[c] '");
    predicate.append(name);
    predicate.append("'");
    assert(predicate@ =~= predicate_text(name@));
    predicate
}

/// The arguments of `log` that show what was logged about `name`.
pub fn log_arguments(name: &str, follow: bool) -> (words: Vec<String>)
    ensures
        words.deep_view() == log_words(name@, follow),
{
    let mut words: Vec<String> = Vec::new();
    assert(words.deep_view() =~= Seq::<Seq<char>>::empty());
    push_word(&mut words, "show");
    push_word(&mut words, "--last");
    push_word(&mut words, "1h");
    push_word(&mut words, "--predicate");
    let predicate = log_predicate(name);
    push_word(&mut words, predicate.as_str());
    push_word(&mut words, "--style");
    push_word(&mut words, "syslog");
    if follow {
        push_word(&mut words, "--stream");
    }
    assert(words.deep_view() =~= log_words(name@, follow));
    words
}

/// Whether the list of services that `launchctl` printed names `name`.
pub fn lists_service(output: &str, name: &str) -> (listed: bool)
    ensures
        listed == mentions(output@, name@),
{
    let chars = chars_of(output);
    let lines = split_lines(chars.as_slice());
    let mut i: usize = 0;
    while i < lines.len()
        invariant
            i <= lines.len(),
            chars@ == output@,
            lines@.len() == printed_lines(output@).len(),
            forall|j: int|
                0 <= j < lines@.len() ==> (#[trigger] lines@[j])@ == printed_lines(output@)[j],
            forall|j: int| 0 <= j < i ==> !contains(#[trigger] printed_lines(output@)[j], name@),
        decreases lines.len() - i,
    {
        if contains_text(lines[i], name) {
            assert(contains(printed_lines(output@)[i as int], name@));
            return true;
        }
        i += 1;
    }
    false
}

/// The last `count` lines of `output`, or all of them where they are fewer.
pub fn last_lines(output: &str, count: u32) -> (shown: Vec<String>)
    ensures
        shown.deep_view() == tail(printed_lines(output@), count as nat),
{
    let chars = chars_of(output);
    let lines = split_lines(chars.as_slice());
    let start: usize = if lines.len() > count as usize {
        lines.len() - count as usize
    } else {
        0
    };
    let ghost all = printed_lines(output@);
    let mut shown: Vec<String> = Vec::new();
    let mut i: usize = start;
    assert(shown.deep_view() =~= all.subrange(start as int, i as int));
    while i < lines.len()
        invariant
            start <= i <= lines.len(),
            chars@ == output@,
            all == printed_lines(output@),
            lines@.len() == all.len(),
            forall|j: int| 0 <= j < lines@.len() ==> (#[trigger] lines@[j])@ == all[j],
            shown.deep_view() == all.subrange(start as int, i as int),
        decreases lines.len() - i,
    {
        let ghost before = shown.deep_view();
        shown.push(string_of(lines[i]));
        assert(shown.deep_view() =~= before.push(all[i as int]));
        assert(all.subrange(start as int, i + 1) =~= all.subrange(start as int, i as int).push(
            all[i as int],
        ));
        i += 1;
    }
    assert(all.subrange(start as int, all.len() as int) =~= tail(all, count as nat));
    shown
}

} // verus!
