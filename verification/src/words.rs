//! Lines, words and parts of a text.

use crate::text::{chars_of, find, find_from, slice_of, string_of, texts};
use vstd::prelude::*;
use vstd::string::*;

verus! {

/// A character with Unicode's `White_Space` property.
pub open spec fn is_space(c: char) -> bool {
    ||| '\u{9}' <= c && c <= '\u{d}'
    ||| c == '\u{20}'
    ||| c == '\u{85}'
    ||| c == '\u{a0}'
    ||| c == '\u{1680}'
    ||| '\u{2000}' <= c && c <= '\u{200a}'
    ||| c == '\u{2028}'
    ||| c == '\u{2029}'
    ||| c == '\u{202f}'
    ||| c == '\u{205f}'
    ||| c == '\u{3000}'
}

/// Whether the character has Unicode's `White_Space` property.
pub fn is_whitespace(c: char) -> (r: bool)
    ensures
        r == is_space(c),
{
    ('\u{9}' <= c && c <= '\u{d}') || c == '\u{20}' || c == '\u{85}' || c == '\u{a0}' || c
        == '\u{1680}' || ('\u{2000}' <= c && c <= '\u{200a}') || c == '\u{2028}' || c == '\u{2029}'
        || c == '\u{202f}' || c == '\u{205f}' || c == '\u{3000}'
}

// ---- Words -----------------------------------------------------------------

/// The text without the white space it starts with.
pub open spec fn trim_start(text: Seq<char>) -> Seq<char>
    decreases text.len(),
{
    if text.len() > 0 && is_space(text[0]) {
        trim_start(text.skip(1))
    } else {
        text
    }
}

/// The text without the white space it ends with.
pub open spec fn trim_end(text: Seq<char>) -> Seq<char>
    decreases text.len(),
{
    if text.len() > 0 && is_space(text.last()) {
        trim_end(text.drop_last())
    } else {
        text
    }
}

/// The text without the white space around it.
pub open spec fn trimmed(text: Seq<char>) -> Seq<char> {
    trim_end(trim_start(text))
}

/// How many characters stand before the first white space.
pub open spec fn word_length(text: Seq<char>) -> nat
    decreases text.len(),
{
    if text.len() == 0 || is_space(text[0]) {
        0
    } else {
        1 + word_length(text.skip(1))
    }
}

/// The words of a text: what stands between white space.
pub open spec fn words(text: Seq<char>) -> Seq<Seq<char>>
    decreases text.len(),
    via words_shrink
{
    let rest = trim_start(text);
    if rest.len() == 0 {
        Seq::empty()
    } else {
        seq![rest.take(word_length(rest) as int)] + words(rest.skip(word_length(rest) as int))
    }
}

#[via_fn]
proof fn words_shrink(text: Seq<char>) {
    trim_start_is_suffix(text);
    let rest = trim_start(text);
    if rest.len() > 0 {
        word_length_bounds(rest);
    }
}

/// The first word of a text; nothing where there is none.
pub open spec fn first_word(text: Seq<char>) -> Seq<char> {
    let rest = trim_start(text);
    rest.take(word_length(rest) as int)
}

proof fn trim_start_is_suffix(text: Seq<char>)
    ensures
        trim_start(text).len() <= text.len(),
        trim_start(text) == text.skip(text.len() - trim_start(text).len()),
        trim_start(text).len() > 0 ==> !is_space(trim_start(text)[0]),
    decreases text.len(),
{
    if text.len() > 0 && is_space(text[0]) {
        trim_start_is_suffix(text.skip(1));
        let n = trim_start(text).len();
        assert(text.skip(1).skip(text.skip(1).len() - n) =~= text.skip(text.len() - n));
    } else {
        assert(text.skip(0) =~= text);
    }
}

proof fn word_length_bounds(text: Seq<char>)
    ensures
        word_length(text) <= text.len(),
        text.len() > 0 && !is_space(text[0]) ==> word_length(text) > 0,
    decreases text.len(),
{
    if text.len() > 0 && !is_space(text[0]) {
        word_length_bounds(text.skip(1));
    }
}

/// A word ends where `n` characters that are not white space have passed and
/// white space or the end follows.
proof fn word_length_is(text: Seq<char>, n: nat)
    requires
        n <= text.len(),
        forall|i: int| 0 <= i < n ==> !is_space(#[trigger] text[i]),
        n < text.len() ==> is_space(text[n as int]),
    ensures
        word_length(text) == n,
    decreases n,
{
    if n > 0 {
        assert(!is_space(text[0]));
        assert forall|i: int| 0 <= i < n - 1 implies !is_space(#[trigger] text.skip(1)[i]) by {
            assert(!is_space(text[i + 1]));
        }
        word_length_is(text.skip(1), (n - 1) as nat);
    }
}

/// A text without white space that is not empty.
pub open spec fn is_word(text: Seq<char>) -> bool {
    text.len() > 0 && forall|i: int| 0 <= i < text.len() ==> !is_space(#[trigger] text[i])
}

proof fn word_has_no_space(text: Seq<char>)
    ensures
        forall|i: int| 0 <= i < word_length(text) ==> !is_space(#[trigger] text[i]),
        word_length(text) <= text.len(),
        word_length(text) < text.len() ==> is_space(text[word_length(text) as int]),
    decreases text.len(),
{
    if text.len() > 0 && !is_space(text[0]) {
        let rest = text.skip(1);
        word_has_no_space(rest);
        assert forall|i: int| 0 <= i < word_length(text) implies !is_space(#[trigger] text[i]) by {
            if i > 0 {
                assert(rest[i - 1] == text[i]);
            }
        }
    }
}

/// The words of a text are words.
pub proof fn words_are_words(text: Seq<char>)
    ensures
        forall|i: int| 0 <= i < words(text).len() ==> is_word(#[trigger] words(text)[i]),
    decreases text.len(),
{
    let rest = trim_start(text);
    trim_start_is_suffix(text);
    if rest.len() > 0 {
        let n = word_length(rest);
        word_has_no_space(rest);
        word_length_bounds(rest);
        words_are_words(rest.skip(n as int));
        let word = rest.take(n as int);
        assert(is_word(word)) by {
            assert forall|k: int| 0 <= k < word.len() implies !is_space(#[trigger] word[k]) by {
                assert(!is_space(rest[k]));
            }
        }
        assert forall|i: int| 0 <= i < words(text).len() implies is_word(
            #[trigger] words(text)[i],
        ) by {
            if i > 0 {
                assert(words(text)[i] == words(rest.skip(n as int))[i - 1]);
            }
        }
    }
}

proof fn trim_start_through(a: Seq<char>, b: Seq<char>)
    ensures
        trim_start(a).len() > 0 ==> trim_start(a + b) == trim_start(a) + b,
        trim_start(a).len() == 0 ==> trim_start(a + b) == trim_start(b),
    decreases a.len(),
{
    if a.len() == 0 {
        assert(a + b =~= b);
    } else if is_space(a[0]) {
        assert((a + b).skip(1) =~= a.skip(1) + b);
        trim_start_through(a.skip(1), b);
    } else {
        assert((a + b)[0] == a[0]);
    }
}

/// A space between two texts keeps their words apart.
pub proof fn words_across_a_space(a: Seq<char>, b: Seq<char>)
    ensures
        words(a + " "@ + b) == words(a) + words(b),
    decreases a.len(),
{
    reveal_strlit(" ");
    let gap = " "@ + b;
    assert(a + " "@ + b =~= a + gap);
    trim_start_through(a, gap);
    let rest = trim_start(a);
    trim_start_is_suffix(a);
    assert(gap[0] == ' ');
    if rest.len() == 0 {
        assert(is_space(gap[0]));
        assert(gap.skip(1) =~= b);
        assert(trim_start(gap) == trim_start(b));
        assert(words(a) =~= seq![]);
        assert(words(a) + words(b) =~= words(b));
    } else {
        let n = word_length(rest);
        word_has_no_space(rest);
        word_length_bounds(rest);
        let whole = rest + gap;
        assert forall|i: int| 0 <= i < n implies !is_space(#[trigger] whole[i]) by {
            assert(whole[i] == rest[i]);
        }
        assert(is_space(whole[n as int])) by {
            if n < rest.len() {
                assert(whole[n as int] == rest[n as int]);
            } else {
                assert(whole[n as int] == gap[0]);
            }
        }
        word_length_is(whole, n);
        let tail = rest.skip(n as int);
        assert(whole.take(n as int) =~= rest.take(n as int));
        assert(whole.skip(n as int) =~= tail + " "@ + b);
        words_across_a_space(tail, b);
        assert(words(a) =~= seq![rest.take(n as int)] + words(tail));
        assert(seq![rest.take(n as int)] + (words(tail) + words(b)) =~= (seq![
            rest.take(n as int),
        ] + words(tail)) + words(b));
    }
}

/// A word is its own only word.
pub proof fn a_word_is_its_only_word(text: Seq<char>)
    requires
        is_word(text),
    ensures
        words(text) == seq![text],
{
    assert(!is_space(text[0]));
    assert(trim_start(text) == text);
    word_length_is(text, text.len());
    assert(text.take(text.len() as int) =~= text);
    assert(text.skip(text.len() as int) =~= seq![]);
    assert(words(text.skip(text.len() as int)) =~= seq![]);
    assert(words(text) =~= seq![text]);
}

/// Where the first character from `from` on stands that is not white space.
fn skip_spaces(chars: &Vec<char>, from: usize) -> (r: usize)
    requires
        from <= chars.len(),
    ensures
        from <= r <= chars.len(),
        trim_start(chars@.skip(from as int)) == chars@.skip(r as int),
        r < chars.len() ==> !is_space(chars@[r as int]),
{
    let mut i: usize = from;
    while i < chars.len() && is_whitespace(chars[i])
        invariant
            from <= i <= chars.len(),
            trim_start(chars@.skip(from as int)) == trim_start(chars@.skip(i as int)),
        decreases chars.len() - i,
    {
        assert(chars@.skip(i as int).skip(1) =~= chars@.skip(i + 1));
        i += 1;
    }
    i
}

/// Where the word ends that starts at `from`.
fn end_of_word(chars: &Vec<char>, from: usize) -> (r: usize)
    requires
        from <= chars.len(),
    ensures
        from <= r <= chars.len(),
        word_length(chars@.skip(from as int)) == r - from,
        from < chars.len() && !is_space(chars@[from as int]) ==> r > from,
{
    let mut i: usize = from;
    while i < chars.len() && !is_whitespace(chars[i])
        invariant
            from <= i <= chars.len(),
            forall|k: int| from <= k < i ==> !is_space(#[trigger] chars@[k]),
        decreases chars.len() - i,
    {
        i += 1;
    }
    proof {
        let rest = chars@.skip(from as int);
        assert forall|k: int| 0 <= k < i - from implies !is_space(#[trigger] rest[k]) by {
            assert(!is_space(chars@[from + k]));
        }
        word_length_is(rest, (i - from) as nat);
    }
    i
}

/// The words of a text.
pub fn words_of(text: &str) -> (r: Vec<String>)
    ensures
        texts(r@) == words(text@),
{
    let chars = chars_of(text);
    let mut out: Vec<String> = Vec::new();
    let mut i: usize = 0;
    assert(chars@.skip(0) =~= chars@);
    assert(texts(out@) + words(text@) =~= words(text@));
    while i < chars.len()
        invariant
            i <= chars.len(),
            chars@ == text@,
            words(text@) == texts(out@) + words(chars@.skip(i as int)),
        decreases chars.len() - i,
    {
        let start: usize = skip_spaces(&chars, i);
        if start == chars.len() {
            assert(words(chars@.skip(i as int)) =~= seq![]);
            assert(texts(out@) + seq![] =~= texts(out@));
            return out;
        }
        let end: usize = end_of_word(&chars, start);
        let word = string_of(&chars, start, end);
        let ghost before = texts(out@);
        let ghost said = word@;
        assert(chars@.skip(start as int).take(end - start) =~= said);
        assert(chars@.skip(start as int).skip(end - start) =~= chars@.skip(end as int));
        out.push(word);
        assert(texts(out@) =~= before.push(said));
        assert(before + (seq![said] + words(chars@.skip(end as int))) =~= before.push(said)
            + words(chars@.skip(end as int)));
        i = end;
    }
    assert(chars@.skip(i as int) =~= seq![]);
    assert(words(chars@.skip(i as int)) =~= seq![]);
    assert(texts(out@) + seq![] =~= texts(out@));
    out
}

/// The first word of a text; nothing where there is none.
pub fn first_word_of(chars: &Vec<char>) -> (r: String)
    ensures
        r@ == first_word(chars@),
{
    assert(chars@.skip(0) =~= chars@);
    let start: usize = skip_spaces(chars, 0);
    let end: usize = end_of_word(chars, start);
    assert(chars@.skip(start as int).take(end - start) =~= chars@.subrange(
        start as int,
        end as int,
    ));
    string_of(chars, start, end)
}

/// The text without the white space around it.
pub fn trim(chars: &Vec<char>) -> (r: Vec<char>)
    ensures
        r@ == trimmed(chars@),
{
    assert(chars@.skip(0) =~= chars@);
    let start: usize = skip_spaces(chars, 0);
    let mut end: usize = chars.len();
    assert(chars@.subrange(start as int, end as int) =~= chars@.skip(start as int));
    while end > start && is_whitespace(chars[end - 1])
        invariant
            start <= end <= chars.len(),
            trimmed(chars@) == trim_end(chars@.subrange(start as int, end as int)),
        decreases end,
    {
        assert(chars@.subrange(start as int, end as int).drop_last() =~= chars@.subrange(
            start as int,
            end - 1,
        ));
        end -= 1;
    }
    slice_of(chars, start, end)
}

// ---- Lines -----------------------------------------------------------------

/// How many characters stand before the first line feed.
pub open spec fn line_length(text: Seq<char>) -> nat
    decreases text.len(),
{
    if text.len() == 0 || text[0] == '\n' {
        0
    } else {
        1 + line_length(text.skip(1))
    }
}

/// A line that a line feed ended, without the carriage return before it.
pub open spec fn without_return(line: Seq<char>) -> Seq<char> {
    if line.len() > 0 && line.last() == '\r' {
        line.drop_last()
    } else {
        line
    }
}

/// The lines of a text. A line feed ends a line, alone or after a carriage
/// return; what follows the last one is a line unless it is empty.
pub open spec fn lines(text: Seq<char>) -> Seq<Seq<char>>
    decreases text.len(),
{
    let n = line_length(text);
    if text.len() == 0 {
        Seq::empty()
    } else if n >= text.len() {
        seq![text]
    } else {
        seq![without_return(text.take(n as int))] + lines(text.skip(n as int + 1))
    }
}

proof fn line_length_is(text: Seq<char>, n: nat)
    requires
        n <= text.len(),
        forall|i: int| 0 <= i < n ==> #[trigger] text[i] != '\n',
        n < text.len() ==> text[n as int] == '\n',
    ensures
        line_length(text) == n,
    decreases n,
{
    if n > 0 {
        assert(text[0] != '\n');
        assert forall|i: int| 0 <= i < n - 1 implies #[trigger] text.skip(1)[i] != '\n' by {
            assert(text[i + 1] != '\n');
        }
        line_length_is(text.skip(1), (n - 1) as nat);
    }
}

/// What a list of character lists says.
pub open spec fn char_views(list: Seq<Vec<char>>) -> Seq<Seq<char>> {
    Seq::new(list.len(), |i: int| list[i]@)
}

/// The lines of a text.
pub fn lines_of(chars: &Vec<char>) -> (r: Vec<Vec<char>>)
    ensures
        char_views(r@) == lines(chars@),
{
    let mut out: Vec<Vec<char>> = Vec::new();
    let mut i: usize = 0;
    assert(chars@.skip(0) =~= chars@);
    assert(char_views(out@) + lines(chars@) =~= lines(chars@));
    while i < chars.len()
        invariant
            i <= chars.len(),
            lines(chars@) == char_views(out@) + lines(chars@.skip(i as int)),
        decreases chars.len() - i,
    {
        let mut end: usize = i;
        while end < chars.len() && chars[end] != '\n'
            invariant
                i <= end <= chars.len(),
                forall|k: int| i <= k < end ==> #[trigger] chars@[k] != '\n',
            decreases chars.len() - end,
        {
            end += 1;
        }
        let ghost rest = chars@.skip(i as int);
        proof {
            assert forall|k: int| 0 <= k < end - i implies #[trigger] rest[k] != '\n' by {
                assert(chars@[i + k] != '\n');
            }
            line_length_is(rest, (end - i) as nat);
        }
        let ghost before = char_views(out@);
        if end == chars.len() {
            let line = slice_of(chars, i, end);
            assert(line@ =~= rest);
            let ghost said = line@;
            out.push(line);
            assert(char_views(out@) =~= before.push(said));
            assert(before + seq![said] =~= before.push(said));
            return out;
        }
        let mut stop: usize = end;
        if end > i && chars[end - 1] == '\r' {
            stop = end - 1;
        }
        let line = slice_of(chars, i, stop);
        let ghost said = line@;
        proof {
            let full = rest.take(end - i);
            assert(full =~= chars@.subrange(i as int, end as int));
            if end > i {
                assert(full.last() == chars@[end - 1]);
                assert(full.drop_last() =~= chars@.subrange(i as int, end - 1));
            }
            assert(said =~= without_return(full));
            assert(rest.skip(end - i + 1) =~= chars@.skip(end + 1));
        }
        out.push(line);
        assert(char_views(out@) =~= before.push(said));
        assert(before + (seq![said] + lines(chars@.skip(end + 1))) =~= before.push(said) + lines(
            chars@.skip(end + 1),
        ));
        i = end + 1;
    }
    assert(chars@.skip(i as int) =~= seq![]);
    assert(char_views(out@) + seq![] =~= char_views(out@));
    out
}

// ---- Parts -----------------------------------------------------------------

/// The parts of a text between the occurrences of `separator`, which is not
/// empty.
pub open spec fn parts(text: Seq<char>, separator: Seq<char>) -> Seq<Seq<char>>
    decreases text.len(),
{
    match find_from(text, separator, 0) {
        Some(at) => if separator.len() > 0 && 0 <= at && at + separator.len() <= text.len() {
            seq![text.take(at)] + parts(text.skip(at + separator.len()), separator)
        } else {
            seq![text]
        },
        None => seq![text],
    }
}

/// The parts of a text between the occurrences of `separator`.
pub fn parts_of(chars: &Vec<char>, separator: &Vec<char>) -> (r: Vec<Vec<char>>)
    requires
        separator.len() > 0,
    ensures
        char_views(r@) == parts(chars@, separator@),
        r.len() > 0,
{
    let mut out: Vec<Vec<char>> = Vec::new();
    let mut rest: Vec<char> = slice_of(chars, 0, chars.len());
    assert(rest@ =~= chars@);
    assert(char_views(out@) + parts(chars@, separator@) =~= parts(chars@, separator@));
    loop
        invariant
            separator.len() > 0,
            parts(chars@, separator@) == char_views(out@) + parts(rest@, separator@),
        decreases rest.len(),
    {
        let ghost before = char_views(out@);
        match find(&rest, separator, 0) {
            Some(at) => {
                let part = slice_of(&rest, 0, at);
                let next = slice_of(&rest, at + separator.len(), rest.len());
                let ghost said = part@;
                assert(said =~= rest@.take(at as int));
                assert(next@ =~= rest@.skip(at + separator.len()));
                out.push(part);
                assert(char_views(out@) =~= before.push(said));
                assert(before + (seq![said] + parts(next@, separator@)) =~= before.push(said)
                    + parts(next@, separator@));
                rest = next;
            },
            None => {
                let ghost said = rest@;
                out.push(rest);
                assert(char_views(out@) =~= before.push(said));
                assert(before + seq![said] =~= before.push(said));
                return out;
            },
        }
    }
}

}
