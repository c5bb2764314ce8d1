//! What a user typed when asked about a service, turned into the values of
//! its description.

use crate::error::ValidationError;
use crate::text::{
    chars_of, find, find_char, find_last, find_last_char, split_words, string_of, trim, trimmed,
    words,
};
use vstd::prelude::*;
use vstd::slice::slice_subrange;

verus! {

/// What follows the last `/` of a path: the name of the file.
pub open spec fn base_of(path: Seq<char>) -> Seq<char> {
    path.skip(find_last(path, '/') + 1)
}

/// An answer that may be left empty: the answer without the whitespace around
/// it, or nothing where nothing else was typed.
pub open spec fn optional(input: Seq<char>) -> Option<Seq<char>> {
    if trim(input).len() == 0 {
        None
    } else {
        Some(trim(input))
    }
}

/// An environment variable typed as `KEY=VALUE`: the key and the value, each
/// without the whitespace around it, cut at the first `=`.
pub open spec fn variable_of(input: Seq<char>) -> Option<(Seq<char>, Seq<char>)> {
    let cut = find(input, '=');
    if 0 <= cut < input.len() {
        Some((trim(input.take(cut)), trim(input.skip(cut + 1))))
    } else {
        None
    }
}

/// The units that a service that needs the network starts after.
pub open spec fn network_targets() -> Seq<Seq<char>> {
    seq!["network.target"@, "network-online.target"@]
}

/// Whether `c` is a decimal digit.
pub open spec fn is_digit(c: char) -> bool {
    '0' <= c <= '9'
}

/// Whether `s` is made of decimal digits, and of one at least.
pub open spec fn is_number(s: Seq<char>) -> bool {
    s.len() > 0 && forall|i: int| 0 <= i < s.len() ==> is_digit(#[trigger] s[i])
}

/// The number that the decimal digits `s` write.
pub open spec fn value_of(s: Seq<char>) -> nat
    decreases s.len(),
{
    if s.len() == 0 {
        0
    } else {
        value_of(s.drop_last()) * 10 + (s.last() as nat - 0x30) as nat
    }
}

/// A field of a schedule as it was typed: nothing for every value, or a
/// number from 0 to 255, with whitespace around it or not.
pub open spec fn field_of(input: Seq<char>) -> Result<Option<u8>, ValidationError> {
    let typed = trim(input);
    if typed.len() == 0 {
        Ok(None)
    } else if is_number(typed) && value_of(typed) <= 255 {
        Ok(Some(value_of(typed) as u8))
    } else {
        Err(ValidationError::NotANumber)
    }
}

/// A number does not get smaller by more digits behind it.
proof fn lemma_value_grows(s: Seq<char>, n: int)
    requires
        0 <= n <= s.len(),
        forall|i: int| 0 <= i < s.len() ==> is_digit(#[trigger] s[i]),
    ensures
        value_of(s.take(n)) <= value_of(s),
    decreases s.len() - n,
{
    if n < s.len() {
        assert(s.take(n + 1).drop_last() =~= s.take(n));
        assert(is_digit(s[n]));
        lemma_value_grows(s, n + 1);
    } else {
        assert(s.take(n) =~= s);
    }
}

/// A field of a schedule as it was typed.
pub fn parse_field(input: &str) -> (r: Result<Option<u8>, ValidationError>)
    ensures
        r == field_of(input@),
{
    let chars = chars_of(input);
    let typed = trimmed(chars.as_slice());
    if typed.len() == 0 {
        return Ok(None);
    }
    let mut value: u32 = 0;
    let mut i: usize = 0;
    assert(typed@.take(0) =~= Seq::<char>::empty());
    while i < typed.len()
        invariant
            i <= typed.len(),
            typed@ == trim(input@),
            typed@.len() > 0,
            value <= 255,
            value == value_of(typed@.take(i as int)),
            forall|j: int| 0 <= j < i ==> is_digit(#[trigger] typed@[j]),
        decreases typed.len() - i,
    {
        let c = typed[i];
        if !('0' <= c && c <= '9') {
            assert(!is_digit(typed@[i as int]));
            return Err(ValidationError::NotANumber);
        }
        assert(typed@.take(i + 1).drop_last() =~= typed@.take(i as int));
        value = value * 10 + (c as u32 - 0x30);
        if value > 255 {
            proof {
                if is_number(typed@) {
                    lemma_value_grows(typed@, i + 1);
                }
            }
            return Err(ValidationError::NotANumber);
        }
        i += 1;
    }
    assert(typed@.take(i as int) =~= typed@);
    Ok(Some(value as u8))
}

/// Accepts `input` as a command, or says that it is empty.
pub fn validate_command(input: &str) -> (r: Result<(), ValidationError>)
    ensures
        match r {
            Ok(()) => trim(input@).len() > 0,
            Err(e) => trim(input@).len() == 0 && e == ValidationError::EmptyCommand,
        },
{
    let chars = chars_of(input);
    if trimmed(chars.as_slice()).len() == 0 {
        Err(ValidationError::EmptyCommand)
    } else {
        Ok(())
    }
}

/// The words of a command line: the program, then its arguments.
pub fn split_command(input: &str) -> (command: Vec<String>)
    ensures
        command.deep_view() == words(input@),
{
    let chars = chars_of(input);
    split_words(chars.as_slice())
}

/// The program and the arguments of a command, where it is not empty.
pub fn split_program(command: Vec<String>) -> (r: Option<(String, Vec<String>)>)
    ensures
        match r {
            Some((program, arguments)) => command@.len() > 0 && program == command@[0]
                && arguments@ == command@.skip(1),
            None => command@.len() == 0,
        },
{
    let mut arguments = command;
    if arguments.len() == 0 {
        None
    } else {
        let program = arguments.remove(0);
        assert(arguments@ =~= command@.skip(1));
        Some((program, arguments))
    }
}

/// The name of the file at `path`, which is the name that a service gets
/// where the user gives none.
pub fn base_name(path: &str) -> (name: String)
    ensures
        name@ == base_of(path@),
{
    let chars = chars_of(path);
    let all = chars.as_slice();
    let from = match find_last_char(all, '/') {
        Some(at) => at + 1,
        None => 0,
    };
    assert(all@.subrange(from as int, all.len() as int) =~= all@.skip(from as int));
    string_of(slice_subrange(all, from, all.len()))
}

/// An answer that may be left empty.
pub fn optional_text(input: &str) -> (answer: Option<String>)
    ensures
        answer.deep_view() == optional(input@),
{
    let chars = chars_of(input);
    let inner = trimmed(chars.as_slice());
    if inner.len() == 0 {
        None
    } else {
        Some(string_of(inner))
    }
}

/// An environment variable typed as `KEY=VALUE`.
pub fn parse_variable(input: &str) -> (variable: Option<(String, String)>)
    ensures
        variable.deep_view() == variable_of(input@),
{
    let chars = chars_of(input);
    let all = chars.as_slice();
    let cut = find_char(all, '=');
    if cut < all.len() {
        let key = trimmed(slice_subrange(all, 0, cut));
        let value = trimmed(slice_subrange(all, cut + 1, all.len()));
        assert(all@.subrange(0, cut as int) =~= all@.take(cut as int));
        assert(all@.subrange(cut + 1, all.len() as int) =~= all@.skip(cut + 1));
        Some((string_of(key), string_of(value)))
    } else {
        None
    }
}

/// The units that a service starts after: those of the network for a
/// service that needs it, and none for another.
pub fn after_targets(networked: bool) -> (after: Vec<String>)
    ensures
        after.deep_view() == if networked {
            network_targets()
        } else {
            Seq::empty()
        },
{
    let mut after: Vec<String> = Vec::new();
    if networked {
        after.push("network.target".to_owned());
        after.push("network-online.target".to_owned());
        assert(after.deep_view() =~= network_targets());
    } else {
        assert(after.deep_view() =~= Seq::<Seq<char>>::empty());
    }
    after
}

} // verus!
