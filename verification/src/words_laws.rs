//! What holds of the parts, the lines and the ends of every text.

use crate::text::{
    debug_option, debug_text, find_from, find_from_is_first, occurs_at, separated, text_le,
};
use crate::words::{
    is_space, line_length, lines, parts, trim_end, trim_start, trimmed, without_return,
};
use vstd::prelude::*;
use vstd::string::*;

verus! {

/// A text is parted at its separators from the front: the first part is what
/// stands before the first separator, and the rest is parted in the same way.
/// Without a separator the text is its only part.
pub proof fn the_first_part_ends_at_the_first_separator(
    text: Seq<char>,
    separator: Seq<char>,
    at: int,
)
    requires
        separator.len() > 0,
        occurs_at(text, separator, at),
        forall|i: int| 0 <= i < at ==> !occurs_at(text, separator, i),
    ensures
        parts(text, separator) == seq![text.take(at)] + parts(
            text.skip(at + separator.len()),
            separator,
        ),
{
    find_from_is_first(text, separator, 0);
    match find_from(text, separator, 0) {
        Some(found) => {
            if found < at {
                assert(!occurs_at(text, separator, found));
            }
            if at < found {
                assert(!occurs_at(text, separator, at));
            }
        },
        None => {
            assert(!occurs_at(text, separator, at));
        },
    }
}

/// A text without the separator is its only part.
pub proof fn a_text_without_separators_is_its_only_part(text: Seq<char>, separator: Seq<char>)
    requires
        forall|i: int| 0 <= i ==> !occurs_at(text, separator, i),
    ensures
        parts(text, separator) == seq![text],
{
    find_from_is_first(text, separator, 0);
    match find_from(text, separator, 0) {
        Some(at) => {
            assert(!occurs_at(text, separator, at));
        },
        None => {},
    }
}

proof fn joining_from_the_front(first: Seq<char>, rest: Seq<Seq<char>>, separator: Seq<char>)
    requires
        rest.len() > 0,
    ensures
        separated(seq![first] + rest, separator) == first + separator + separated(
            rest,
            separator,
        ),
    decreases rest.len(),
{
    let all = seq![first] + rest;
    assert(all.drop_last() =~= seq![first] + rest.drop_last());
    assert(all.last() == rest.last());
    if rest.len() == 1 {
        assert(all.drop_last() =~= seq![first]);
        assert(separated(seq![first], separator) == first);
    } else {
        joining_from_the_front(first, rest.drop_last(), separator);
        let before = separated(rest.drop_last(), separator);
        assert(first + separator + before + separator + rest.last() =~= first + separator + (before
            + separator + rest.last()));
    }
}

/// The parts of a text, put together again with the separator between them, are
/// the text: nothing is lost and nothing is added.
pub proof fn parts_make_up_the_text(text: Seq<char>, separator: Seq<char>)
    requires
        separator.len() > 0,
    ensures
        separated(parts(text, separator), separator) == text,
        parts(text, separator).len() > 0,
    decreases text.len(),
{
    find_from_is_first(text, separator, 0);
    match find_from(text, separator, 0) {
        Some(at) => {
            let rest = text.skip(at + separator.len());
            parts_make_up_the_text(rest, separator);
            joining_from_the_front(text.take(at), parts(rest, separator), separator);
            assert(text =~= text.take(at) + separator + rest) by {
                assert forall|i: int| at <= i < at + separator.len() implies text[i] == separator[i
                    - at] by {
                    assert(text.subrange(at, at + separator.len())[i - at] == text[i]);
                }
            }
        },
        None => {
            assert(separated(seq![text], separator) == text);
        },
    }
}

/// A character between two texts, where the first has none of it, parts them.
pub proof fn a_character_parts_two_texts(a: Seq<char>, c: char, b: Seq<char>)
    requires
        forall|i: int| 0 <= i < a.len() ==> #[trigger] a[i] != c,
    ensures
        parts(a + seq![c] + b, seq![c]) == seq![a] + parts(b, seq![c]),
{
    let text = a + seq![c] + b;
    let at = a.len() as int;
    assert(text.subrange(at, at + 1) =~= seq![c]);
    assert forall|i: int| 0 <= i < at implies !occurs_at(text, seq![c], i) by {
        if occurs_at(text, seq![c], i) {
            assert(text.subrange(i, i + 1)[0] == c);
            assert(text[i] == a[i]);
        }
    }
    the_first_part_ends_at_the_first_separator(text, seq![c], at);
    assert(text.take(at) =~= a);
    assert(text.skip(at + 1) =~= b);
}

/// A text without the character is its only part.
pub proof fn a_text_without_the_character_is_whole(text: Seq<char>, c: char)
    requires
        forall|i: int| 0 <= i < text.len() ==> #[trigger] text[i] != c,
    ensures
        parts(text, seq![c]) == seq![text],
{
    assert forall|i: int| 0 <= i implies !occurs_at(text, seq![c], i) by {
        if occurs_at(text, seq![c], i) {
            assert(text.subrange(i, i + 1)[0] == c);
        }
    }
    a_text_without_separators_is_its_only_part(text, seq![c]);
}

/// What is trimmed off is white space and only that: the text that is left is a
/// part of the whole text with nothing but white space on both sides, and has
/// none at its own ends.
pub proof fn trimming_takes_only_white_space(text: Seq<char>)
    ensures
        exists|from: int, to: int|
            0 <= from <= to <= text.len() && trimmed(text) == #[trigger] text.subrange(from, to)
                && (forall|i: int| 0 <= i < from ==> is_space(#[trigger] text[i])) && (forall|
                i: int,
            |
                to <= i < text.len() ==> is_space(#[trigger] text[i])),
        trimmed(text).len() > 0 ==> !is_space(trimmed(text)[0]) && !is_space(
            trimmed(text).last(),
        ),
{
    let rest = trim_start(text);
    start_is_white_space(text);
    end_is_white_space(rest);
    let from = text.len() - rest.len();
    let to = from + trimmed(text).len();
    assert(text.subrange(from, to) =~= trimmed(text));
    assert forall|i: int| to <= i < text.len() implies is_space(#[trigger] text[i]) by {
        assert(rest[i - from] == text[i]);
    }
    if trimmed(text).len() > 0 {
        assert(trimmed(text)[0] == rest[0]);
    }
}

proof fn start_is_white_space(text: Seq<char>)
    ensures
        trim_start(text).len() <= text.len(),
        trim_start(text) == text.skip(text.len() - trim_start(text).len()),
        forall|i: int|
            0 <= i < text.len() - trim_start(text).len() ==> is_space(#[trigger] text[i]),
        trim_start(text).len() > 0 ==> !is_space(trim_start(text)[0]),
    decreases text.len(),
{
    if text.len() > 0 && is_space(text[0]) {
        let rest = text.skip(1);
        start_is_white_space(rest);
        let n = trim_start(text).len();
        assert(rest.skip(rest.len() - n) =~= text.skip(text.len() - n));
        assert forall|i: int| 0 <= i < text.len() - n implies is_space(#[trigger] text[i]) by {
            if i > 0 {
                assert(rest[i - 1] == text[i]);
            }
        }
    } else {
        assert(text.skip(0) =~= text);
    }
}

proof fn end_is_white_space(text: Seq<char>)
    ensures
        trim_end(text).len() <= text.len(),
        trim_end(text) == text.take(trim_end(text).len() as int),
        forall|i: int| trim_end(text).len() <= i < text.len() ==> is_space(#[trigger] text[i]),
        trim_end(text).len() > 0 ==> !is_space(trim_end(text).last()),
    decreases text.len(),
{
    if text.len() > 0 && is_space(text.last()) {
        let rest = text.drop_last();
        end_is_white_space(rest);
        let n = trim_end(text).len() as int;
        assert(rest.take(n) =~= text.take(n));
        assert forall|i: int| n <= i < text.len() implies is_space(#[trigger] text[i]) by {
            if i < rest.len() {
                assert(rest[i] == text[i]);
            }
        }
    } else {
        assert(text.take(text.len() as int) =~= text);
    }
}

/// A text with no white space at its ends stays whole.
pub proof fn trimming_keeps_the_rest(text: Seq<char>)
    requires
        text.len() > 0 ==> !is_space(text[0]) && !is_space(text.last()),
    ensures
        trimmed(text) == text,
{
}

/// A line has no line feed in it, and what a line feed ends comes first: a text
/// of two parts with a line feed between them has the first part as its first
/// line, without a carriage return at its end, and then the lines of the second.
pub proof fn a_line_feed_ends_a_line(a: Seq<char>, b: Seq<char>)
    requires
        forall|i: int| 0 <= i < a.len() ==> #[trigger] a[i] != '\n',
    ensures
        lines(a + seq!['\n'] + b) == seq![without_return(a)] + lines(b),
        a.len() > 0 && a.last() != '\r' ==> lines(a + seq!['\n'] + b) == seq![a] + lines(b),
        a.len() > 0 ==> lines(a) == seq![a],
{
    let text = a + seq!['\n'] + b;
    length_of_first_line(a, b);
    length_of_only_line(a);
    let n = line_length(text) as int;
    assert(text.take(n) =~= a);
    assert(text.skip(n + 1) =~= b);
}

proof fn length_of_first_line(a: Seq<char>, b: Seq<char>)
    requires
        forall|i: int| 0 <= i < a.len() ==> #[trigger] a[i] != '\n',
    ensures
        line_length(a + seq!['\n'] + b) == a.len(),
    decreases a.len(),
{
    let text = a + seq!['\n'] + b;
    if a.len() > 0 {
        assert(text[0] == a[0]);
        assert(text.skip(1) =~= a.skip(1) + seq!['\n'] + b);
        assert forall|i: int| 0 <= i < a.skip(1).len() implies #[trigger] a.skip(1)[i] != '\n' by {
            assert(a[i + 1] != '\n');
        }
        length_of_first_line(a.skip(1), b);
    } else {
        assert(text[0] == '\n');
    }
}

proof fn length_of_only_line(a: Seq<char>)
    requires
        forall|i: int| 0 <= i < a.len() ==> #[trigger] a[i] != '\n',
    ensures
        line_length(a) == a.len(),
    decreases a.len(),
{
    if a.len() > 0 {
        assert forall|i: int| 0 <= i < a.skip(1).len() implies #[trigger] a.skip(1)[i] != '\n' by {
            assert(a[i + 1] != '\n');
        }
        length_of_only_line(a.skip(1));
    }
}


/// Texts are ordered by the first character in which they differ, and one that
/// another begins with comes before it.
pub proof fn texts_are_ordered_by_their_first_difference(a: Seq<char>, b: Seq<char>, n: int)
    requires
        0 <= n <= a.len(),
        n <= b.len(),
        forall|i: int| 0 <= i < n ==> #[trigger] a[i] == b[i],
    ensures
        n == a.len() ==> text_le(a, b),
        n == b.len() && n < a.len() ==> !text_le(a, b),
        n < a.len() && n < b.len() && a[n] < b[n] ==> text_le(a, b),
        n < a.len() && n < b.len() && a[n] > b[n] ==> !text_le(a, b),
    decreases n,
{
    if n > 0 {
        assert(a[0] == b[0]);
        let (c, d) = (a.skip(1), b.skip(1));
        assert forall|i: int| 0 <= i < n - 1 implies #[trigger] c[i] == d[i] by {
            assert(a[i + 1] == b[i + 1]);
        }
        texts_are_ordered_by_their_first_difference(c, d, n - 1);
    }
}

/// An optional text is written by its name, and with what it holds where it
/// holds something.
pub proof fn an_optional_text_is_written_by_its_name(text: Seq<char>)
    ensures
        debug_option(Some(text)) == "Some("@ + debug_text(text) + ")"@,
        debug_option(None) == "None"@,
{
}

}
