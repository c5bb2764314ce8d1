//! What holds of lines, words and trimmed texts: the facts by which a file
//! that was written is read again.

use crate::text::{
    find, is_plain, is_space, is_word, join, lines, starts_with, trim, trim_end, unlines,
    word_len, words,
};
use vstd::prelude::*;

verus! {

/// The first `c` of a text is where the text before it, which holds none, ends.
pub proof fn lemma_find_first(before: Seq<char>, c: char, after: Seq<char>)
    requires
        forall|i: int| 0 <= i < before.len() ==> before[i] != c,
    ensures
        find(before.push(c) + after, c) == before.len(),
    decreases before.len(),
{
    let s = before.push(c) + after;
    if before.len() > 0 {
        assert(s[0] == before[0]);
        assert(s.skip(1) =~= before.skip(1).push(c) + after);
        lemma_find_first(before.skip(1), c, after);
    }
}

/// A text that starts with a line of its own has that line first, and then
/// the lines of the rest.
pub proof fn lemma_lines_prepend(line: Seq<char>, rest: Seq<char>)
    requires
        is_plain(line),
    ensures
        lines(line.push('\n') + rest) == seq![line] + lines(rest),
{
    let s = line.push('\n') + rest;
    lemma_find_first(line, '\n', rest);
    assert(s.take(line.len() as int) =~= line);
    assert(s.skip(line.len() as int + 1) =~= rest);
}

/// A text of lines starts with its first line.
pub proof fn lemma_unlines_prepend(line: Seq<char>, ls: Seq<Seq<char>>)
    ensures
        unlines(seq![line] + ls) == line.push('\n') + unlines(ls),
    decreases ls.len(),
{
    let all = seq![line] + ls;
    if ls.len() == 0 {
        assert(all.drop_last() =~= Seq::<Seq<char>>::empty());
        assert(all.last() == line);
        assert(unlines(Seq::<Seq<char>>::empty()) =~= Seq::<char>::empty());
        assert(unlines(all) =~= line.push('\n') + unlines(ls));
    } else {
        assert(all.drop_last() =~= seq![line] + ls.drop_last());
        lemma_unlines_prepend(line, ls.drop_last());
        assert(unlines(all) =~= line.push('\n') + unlines(ls));
    }
}

/// Lines that hold no line feed are found again in the text made of them.
pub proof fn lemma_lines_of_unlines(ls: Seq<Seq<char>>)
    requires
        forall|i: int| 0 <= i < ls.len() ==> is_plain(#[trigger] ls[i]),
    ensures
        lines(unlines(ls)) == ls,
    decreases ls.len(),
{
    if ls.len() > 0 {
        let rest = ls.skip(1);
        assert(ls =~= seq![ls[0]] + rest);
        lemma_unlines_prepend(ls[0], rest);
        lemma_lines_prepend(ls[0], unlines(rest));
        assert forall|i: int| 0 <= i < rest.len() implies is_plain(#[trigger] rest[i]) by {
            assert(rest[i] == ls[i + 1]);
        }
        lemma_lines_of_unlines(rest);
    }
}

/// Whether `s` ends where a line ends: it is empty, or its last character is
/// a line feed.
pub open spec fn is_closed(s: Seq<char>) -> bool {
    s.len() == 0 || s.last() == '\n'
}

/// The first line feed of a text that holds one is found in it, and what
/// follows it is again a text that ends where a line ends.
proof fn lemma_find_in_closed(s: Seq<char>)
    requires
        s.len() > 0,
        s.last() == '\n',
    ensures
        0 <= find(s, '\n') < s.len(),
    decreases s.len(),
{
    if s[0] != '\n' {
        assert(s.skip(1).last() == s.last());
        lemma_find_in_closed(s.skip(1));
    }
}

/// The place of the first `c` of a text lies in the text, or at its end.
pub proof fn lemma_find_bounds(s: Seq<char>, c: char)
    ensures
        0 <= find(s, c) <= s.len(),
    decreases s.len(),
{
    if s.len() > 0 && s[0] != c {
        lemma_find_bounds(s.skip(1), c);
    }
}

/// The first `c` of a text is the first `c` of what the text starts with,
/// where that holds one.
proof fn lemma_find_in_front(a: Seq<char>, b: Seq<char>, c: char)
    requires
        0 <= find(a, c) < a.len(),
    ensures
        find(a + b, c) == find(a, c),
    decreases a.len(),
{
    let s = a + b;
    assert(s[0] == a[0]);
    if a[0] != c {
        assert(s.skip(1) =~= a.skip(1) + b);
        lemma_find_bounds(a.skip(1), c);
        lemma_find_in_front(a.skip(1), b, c);
    }
}

/// The lines of a text that follows whole lines are those lines and then
/// its own.
pub proof fn lemma_lines_concat(a: Seq<char>, b: Seq<char>)
    requires
        is_closed(a),
    ensures
        lines(a + b) == lines(a) + lines(b),
    decreases a.len(),
{
    if a.len() == 0 {
        assert(a + b =~= b);
        assert(lines(a) + lines(b) =~= lines(b));
    } else {
        let s = a + b;
        lemma_find_in_closed(a);
        lemma_find_in_front(a, b, '\n');
        let n = find(a, '\n');
        let rest = a.skip(n + 1);
        assert(s.take(n) =~= a.take(n));
        assert(s.skip(n + 1) =~= rest + b);
        if rest.len() > 0 {
            assert(rest.last() == a.last());
        }
        lemma_lines_concat(rest, b);
        assert(lines(s) =~= lines(a) + lines(b));
    }
}

/// A text of lines ends where a line ends.
pub proof fn lemma_unlines_closed(ls: Seq<Seq<char>>)
    ensures
        is_closed(unlines(ls)),
{
}

/// The text of lines after lines is the text of the first and then that of
/// the others.
pub proof fn lemma_unlines_concat(a: Seq<Seq<char>>, b: Seq<Seq<char>>)
    ensures
        unlines(a + b) == unlines(a) + unlines(b),
    decreases b.len(),
{
    if b.len() == 0 {
        assert(a + b =~= a);
        assert(unlines(a) + unlines(b) =~= unlines(a));
    } else {
        assert((a + b).drop_last() =~= a + b.drop_last());
        assert((a + b).last() == b.last());
        lemma_unlines_concat(a, b.drop_last());
        assert(unlines(a + b) =~= unlines(a) + unlines(b));
    }
}

/// A line that holds no line feed is found again in the text made of it
/// and other lines, whatever those hold.
pub proof fn lemma_line_stays(ls: Seq<Seq<char>>, at: int)
    requires
        0 <= at < ls.len(),
        is_plain(ls[at]),
    ensures
        exists|i: int| 0 <= i < lines(unlines(ls)).len() && #[trigger] lines(unlines(ls))[i] == ls[at],
{
    let before = ls.take(at);
    let after = ls.skip(at + 1);
    let line = ls[at];
    assert(ls =~= before + (seq![line] + after));
    lemma_unlines_concat(before, seq![line] + after);
    lemma_unlines_prepend(line, after);
    lemma_unlines_closed(before);
    lemma_lines_concat(unlines(before), line.push('\n') + unlines(after));
    lemma_lines_prepend(line, unlines(after));
    let found = lines(unlines(before)).len() as int;
    assert(lines(unlines(ls))[found] == line);
}

/// A text that neither starts nor ends with whitespace is its own trimmed
/// form.
pub proof fn lemma_trim_fixed(s: Seq<char>)
    requires
        s.len() == 0 || (!is_space(s[0]) && !is_space(s.last())),
    ensures
        trim(s) == s,
{
}

/// What is left of a text when the whitespace at its end is cut is the text
/// up to some place.
pub proof fn lemma_trim_end_prefix(s: Seq<char>)
    ensures
        trim_end(s).len() <= s.len(),
        trim_end(s) == s.take(trim_end(s).len() as int),
    decreases s.len(),
{
    if s.len() > 0 && is_space(s.last()) {
        lemma_trim_end_prefix(s.drop_last());
        assert(trim_end(s) =~= s.take(trim_end(s).len() as int));
    } else {
        assert(s =~= s.take(s.len() as int));
    }
}

/// A line that starts with a character that is no whitespace starts, when
/// trimmed, with nothing that the line itself does not start with.
pub proof fn lemma_trim_keeps_start(s: Seq<char>, prefix: Seq<char>)
    requires
        s.len() == 0 || !is_space(s[0]),
        starts_with(trim(s), prefix),
    ensures
        starts_with(s, prefix),
{
    lemma_trim_end_prefix(s);
    assert(s.take(prefix.len() as int) =~= trim(s).take(prefix.len() as int));
}

/// A run without whitespace, followed by whitespace or by nothing, is the
/// first word of a text.
pub proof fn lemma_word_len_of_word(word: Seq<char>, rest: Seq<char>)
    requires
        forall|i: int| 0 <= i < word.len() ==> !is_space(word[i]),
        rest.len() == 0 || is_space(rest[0]),
    ensures
        word_len(word + rest) == word.len(),
    decreases word.len(),
{
    let s = word + rest;
    if word.len() > 0 {
        assert(s[0] == word[0]);
        assert(s.skip(1) =~= word.skip(1) + rest);
        lemma_word_len_of_word(word.skip(1), rest);
    } else {
        assert(s =~= rest);
    }
}

/// The parts joined start with the first part, then the separator.
pub proof fn lemma_join_prepend(first: Seq<char>, rest: Seq<Seq<char>>, sep: Seq<char>)
    requires
        rest.len() > 0,
    ensures
        join(seq![first] + rest, sep) == first + sep + join(rest, sep),
    decreases rest.len(),
{
    let all = seq![first] + rest;
    assert(all.drop_last() =~= seq![first] + rest.drop_last());
    assert(all.last() == rest.last());
    if rest.len() == 1 {
        assert(all.drop_last() =~= seq![first]);
        assert(join(seq![first], sep) == first);
        assert(join(rest, sep) == rest.last());
        assert(join(all, sep) =~= first + sep + join(rest, sep));
    } else {
        lemma_join_prepend(first, rest.drop_last(), sep);
        assert(join(all, sep) =~= first + sep + join(rest, sep));
    }
}

/// Words joined by single spaces are the words of the text so made.
pub proof fn lemma_words_of_join(ws: Seq<Seq<char>>)
    requires
        forall|i: int| 0 <= i < ws.len() ==> is_word(#[trigger] ws[i]),
    ensures
        words(join(ws, seq![' '])) == ws,
    decreases ws.len(),
{
    let sep = seq![' '];
    if ws.len() == 0 {
    } else {
        let w = ws[0];
        assert(is_word(w));
        if ws.len() == 1 {
            lemma_word_len_of_word(w, Seq::empty());
            assert(w + Seq::<char>::empty() =~= w);
            assert(w.take(w.len() as int) =~= w);
            assert(w.skip(w.len() as int) =~= Seq::<char>::empty());
            assert(words(Seq::<char>::empty()) =~= Seq::<Seq<char>>::empty());
            assert(words(w) =~= seq![w]);
            assert(ws =~= seq![w]);
        } else {
            let rest = ws.skip(1);
            assert(ws =~= seq![w] + rest);
            lemma_join_prepend(w, rest, sep);
            let tail = sep + join(rest, sep);
            let s = w + tail;
            assert(join(ws, sep) =~= s);
            assert(tail[0] == ' ');
            lemma_word_len_of_word(w, tail);
            assert(s[0] == w[0]);
            assert(s.take(w.len() as int) =~= w);
            assert(s.skip(w.len() as int) =~= tail);
            assert(tail.skip(1) =~= join(rest, sep));
            assert forall|i: int| 0 <= i < rest.len() implies is_word(#[trigger] rest[i]) by {
                assert(rest[i] == ws[i + 1]);
            }
            lemma_words_of_join(rest);
            assert(words(tail) == rest);
            assert(words(s) =~= seq![w] + rest);
        }
    }
}

/// Texts without a line feed, joined by a separator without one, hold none.
pub proof fn lemma_join_plain(parts: Seq<Seq<char>>, sep: Seq<char>)
    requires
        is_plain(sep),
        forall|i: int| 0 <= i < parts.len() ==> is_plain(#[trigger] parts[i]),
    ensures
        is_plain(join(parts, sep)),
    decreases parts.len(),
{
    if parts.len() >= 2 {
        let front = parts.drop_last();
        assert forall|i: int| 0 <= i < front.len() implies is_plain(#[trigger] front[i]) by {
            assert(front[i] == parts[i]);
        }
        lemma_join_plain(front, sep);
        assert(is_plain(parts.last()));
    } else if parts.len() == 1 {
        assert(is_plain(parts[0]));
    }
}

/// Words joined by single spaces end as the last word does.
pub proof fn lemma_join_last(parts: Seq<Seq<char>>, sep: Seq<char>)
    requires
        parts.len() > 0,
        parts.last().len() > 0,
    ensures
        join(parts, sep).len() > 0,
        join(parts, sep).last() == parts.last().last(),
{
}

} // verus!
