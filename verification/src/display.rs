//! The short names under which services are shown, and how such a name is
//! traced back to the service that it stands for.

use crate::error::NotFoundError;
use crate::platform::{ServiceRef, HOMEBREW_PREFIX};
use crate::text::{chars_of, equals, find, find_char, starts_with, string_of, strip_prefix};
use vstd::prelude::*;
use vstd::slice::slice_subrange;

verus! {

/// The name under which a service is shown: its name, without the prefix of
/// Homebrew where it starts with it.
pub open spec fn shown_as(name: Seq<char>) -> Seq<char> {
    if starts_with(name, HOMEBREW_PREFIX@) {
        name.skip(HOMEBREW_PREFIX@.len() as int)
    } else {
        name
    }
}

/// Whether the service called `name` answers to `shown` in the way numbered
/// `way`: by its very name (0); by its name without the prefix of Homebrew
/// (1); by what precedes the `@` in its name (2); or by what stands between
/// the prefix of Homebrew and the `@` (3). A name that itself starts with the
/// prefix of Homebrew is never looked for behind that prefix.
pub open spec fn answers_to(name: Seq<char>, shown: Seq<char>, way: int) -> bool {
    let prefix = HOMEBREW_PREFIX@;
    let at = find(name, '@');
    if way == 0 {
        name == shown
    } else if way == 1 {
        !starts_with(shown, prefix) && starts_with(name, prefix) && name.skip(prefix.len() as int)
            == shown
    } else if way == 2 {
        at < name.len() && name.take(at) == shown
    } else {
        !starts_with(shown, prefix) && starts_with(name, prefix) && prefix.len() <= at
            < name.len() && name.subrange(prefix.len() as int, at) == shown
    }
}

/// The place of the first service that answers to `shown` in the given way,
/// or the number of services where none does.
pub open spec fn first_answering(services: Seq<ServiceRef>, shown: Seq<char>, way: int) -> int
    decreases services.len(),
{
    if services.len() == 0 || answers_to(services[0].name@, shown, way) {
        0
    } else {
        1 + first_answering(services.skip(1), shown, way)
    }
}

/// The place of the service that `shown` stands for: the first that answers
/// to it in the first of the four ways in which any service does.
pub open spec fn resolved(services: Seq<ServiceRef>, shown: Seq<char>) -> Option<int> {
    if first_answering(services, shown, 0) < services.len() {
        Some(first_answering(services, shown, 0))
    } else if first_answering(services, shown, 1) < services.len() {
        Some(first_answering(services, shown, 1))
    } else if first_answering(services, shown, 2) < services.len() {
        Some(first_answering(services, shown, 2))
    } else if first_answering(services, shown, 3) < services.len() {
        Some(first_answering(services, shown, 3))
    } else {
        None
    }
}

/// The name under which a service is shown.
pub fn display_name(name: &str) -> (shown: String)
    ensures
        shown@ == shown_as(name@),
{
    let chars = chars_of(name);
    match strip_prefix(chars.as_slice(), HOMEBREW_PREFIX) {
        Some(rest) => string_of(rest),
        None => string_of(chars.as_slice()),
    }
}

/// Whether the service called `name` answers to `shown` in the given way.
fn answers(name: &[char], shown: &str, shown_chars: &[char], way: u8) -> (yes: bool)
    requires
        shown_chars@ == shown@,
    ensures
        yes == answers_to(name@, shown@, way as int),
{
    let at = find_char(name, '@');
    if way == 0 {
        equals(name, shown)
    } else if way == 1 {
        if strip_prefix(shown_chars, HOMEBREW_PREFIX).is_some() {
            return false;
        }
        match strip_prefix(name, HOMEBREW_PREFIX) {
            Some(rest) => equals(rest, shown),
            None => false,
        }
    } else if way == 2 {
        at < name.len() && equals(slice_subrange(name, 0, at), shown)
    } else {
        if strip_prefix(shown_chars, HOMEBREW_PREFIX).is_some() {
            return false;
        }
        match strip_prefix(name, HOMEBREW_PREFIX) {
            Some(rest) => {
                let skipped = name.len() - rest.len();
                skipped <= at && at < name.len() && equals(slice_subrange(name, skipped, at), shown)
            },
            None => false,
        }
    }
}

/// The place of the first service that answers to `shown` in the given way,
/// or the number of services where none does.
fn find_answering(services: &Vec<ServiceRef>, shown: &str, way: u8) -> (at: usize)
    ensures
        at == first_answering(services@, shown@, way as int),
        at <= services@.len(),
{
    let shown_chars = chars_of(shown);
    let ghost all = services@;
    let mut at: usize = 0;
    assert(all.skip(0) =~= all);
    while at < services.len()
        invariant
            services@ == all,
            shown_chars@ == shown@,
            at <= all.len(),
            first_answering(all, shown@, way as int) == at + first_answering(
                all.skip(at as int),
                shown@,
                way as int,
            ),
        decreases services.len() - at,
    {
        assert(all.skip(at as int)[0] == all[at as int]);
        let name = chars_of(services[at].name.as_str());
        if answers(name.as_slice(), shown, shown_chars.as_slice(), way) {
            return at;
        }
        assert(all.skip(at as int).skip(1) =~= all.skip(at + 1));
        at += 1;
    }
    at
}

/// The full name of the service that the name `display_name` stands for.
///
/// A service with that very name comes first; then one with that name behind
/// the prefix of Homebrew; then one with that name before an `@`; then one
/// with that name between the prefix of Homebrew and an `@`. In each of these
/// ways the first service found counts.
pub fn resolve_service_name(display_name: &str, services: &Vec<ServiceRef>) -> (r: Result<
    String,
    NotFoundError,
>)
    ensures
        match r {
            Ok(full) => match resolved(services@, display_name@) {
                Some(at) => 0 <= at < services@.len() && full == services@[at].name,
                None => false,
            },
            Err(_) => resolved(services@, display_name@) is None,
        },
{
    let mut way: u8 = 0;
    while way < 4
        invariant
            way <= 4,
            forall|earlier: int|
                0 <= earlier < way ==> first_answering(services@, display_name@, earlier)
                    == services@.len(),
        decreases 4 - way,
    {
        let at = find_answering(services, display_name, way);
        if at < services.len() {
            return Ok(services[at].name.clone());
        }
        way += 1;
    }
    Err(NotFoundError)
}

} // verus!
