//! Wrapping text to the width of a terminal.

use crate::control_plane::experiment::pair_views;
use crate::text::{chars_of, joined, string_from, string_of, texts};
use crate::words::{
    a_word_is_its_only_word, char_views, is_word, parts, parts_of, trim, trimmed, words,
    words_across_a_space, words_are_words, words_of,
};
use vstd::prelude::*;
use vstd::string::*;
use vstd::utf8::encode_utf8;

verus! {

/// How many bytes a text takes in UTF-8.
pub open spec fn byte_len(text: Seq<char>) -> int {
    encode_utf8(text).len() as int
}

/// How many bytes a text takes in UTF-8.
fn bytes_in(text: &str) -> (r: usize)
    ensures
        r == byte_len(text@),
{
    text.as_bytes().len()
}

/// How a text is to be wrapped.
pub struct WrapView {
    pub max_width: int,
    pub first_prefix: Seq<char>,
    pub continuation_prefix: Seq<char>,
}

impl WrapView {
    /// What stands before the next line.
    pub open spec fn prefix(self, first: bool) -> Seq<char> {
        if first {
            self.first_prefix
        } else {
            self.continuation_prefix
        }
    }

    /// How much room the next line has.
    pub open spec fn room(self, first: bool) -> int {
        if self.prefix(first).len() <= self.max_width {
            self.max_width - self.prefix(first).len()
        } else {
            0
        }
    }
}

/// The lines so far, and whether the next one is the first.
pub struct WrappedView {
    pub lines: Seq<(Seq<char>, Seq<char>)>,
    pub first: bool,
}

impl WrappedView {
    /// The lines with one more.
    pub open spec fn flushed(self, wrap: WrapView, line: Seq<char>) -> WrappedView {
        WrappedView { lines: self.lines.push((wrap.prefix(self.first), line)), first: false }
    }
}

/// Filling lines with the words from `i` on, behind the line `current`: a word
/// that has no room any more begins a new line.
pub open spec fn filled(
    wrap: WrapView,
    list: Seq<Seq<char>>,
    i: int,
    current: Seq<char>,
    state: WrappedView,
) -> WrappedView
    decreases list.len() - i,
{
    if i < 0 || i >= list.len() {
        if current.len() > 0 {
            state.flushed(wrap, current)
        } else {
            state
        }
    } else if current.len() == 0 {
        filled(wrap, list, i + 1, list[i], state)
    } else if byte_len(current) + 1 + byte_len(list[i]) <= wrap.room(state.first) {
        filled(wrap, list, i + 1, current + " "@ + list[i], state)
    } else {
        filled(wrap, list, i + 1, list[i], state.flushed(wrap, current))
    }
}

/// A segment on a line of its own where it fits, else filled word by word.
pub open spec fn with_segment(wrap: WrapView, segment: Seq<char>, state: WrappedView) -> WrappedView {
    if byte_len(segment) <= wrap.room(state.first) {
        state.flushed(wrap, segment)
    } else {
        filled(wrap, words(segment), 0, Seq::empty(), state)
    }
}

/// A segment as it is shown: from the second on with a bullet before it.
pub open spec fn shown_segment(index: int, segment: Seq<char>) -> Seq<char> {
    if index > 0 {
        "• "@ + trimmed(segment)
    } else {
        trimmed(segment)
    }
}

/// The first `n` segments of a text; those with nothing in them are passed over.
pub open spec fn wrapped_segments(
    wrap: WrapView,
    segments: Seq<Seq<char>>,
    n: int,
) -> WrappedView
    decreases n,
{
    if n <= 0 {
        WrappedView { lines: seq![], first: true }
    } else {
        let before = wrapped_segments(wrap, segments, n - 1);
        if trimmed(segments[n - 1]).len() == 0 {
            before
        } else {
            with_segment(wrap, shown_segment(n - 1, segments[n - 1]), before)
        }
    }
}

/// The lines of a wrapped text, each with its prefix.
pub open spec fn wrapped(wrap: WrapView, text: Seq<char>) -> Seq<(Seq<char>, Seq<char>)> {
    let segments = parts(text, " - "@);
    wrapped_segments(wrap, segments, segments.len() as int).lines
}

/// How a text is to be wrapped.
struct Wrap<'a> {
    max_width: usize,
    first_prefix: &'a str,
    continuation_prefix: &'a str,
}

impl<'a> View for Wrap<'a> {
    type V = WrapView;

    closed spec fn view(&self) -> WrapView {
        WrapView {
            max_width: self.max_width as int,
            first_prefix: self.first_prefix@,
            continuation_prefix: self.continuation_prefix@,
        }
    }
}

/// The lines so far, and whether the next one is the first.
struct Wrapped {
    lines: Vec<(String, String)>,
    first: bool,
}

impl View for Wrapped {
    type V = WrappedView;

    closed spec fn view(&self) -> WrappedView {
        WrappedView { lines: pair_views(self.lines@), first: self.first }
    }
}

impl<'a> Wrap<'a> {
    /// What stands before the next line.
    fn prefix(&self, first: bool) -> (r: &'a str)
        ensures
            r@ == self@.prefix(first),
    {
        if first {
            self.first_prefix
        } else {
            self.continuation_prefix
        }
    }

    /// How much room the next line has.
    fn room(&self, first: bool) -> (r: usize)
        ensures
            r == self@.room(first),
    {
        let taken: usize = self.prefix(first).unicode_len();
        if taken <= self.max_width {
            self.max_width - taken
        } else {
            0
        }
    }
}

impl Wrapped {
    /// Adds a line.
    fn flush(&mut self, wrap: &Wrap, line: String)
        ensures
            final(self)@ == old(self)@.flushed(wrap@, line@),
    {
        let ghost before = pair_views(self.lines@);
        let prefix = string_from(wrap.prefix(self.first));
        let ghost pair = (prefix@, line@);
        self.lines.push((prefix, line));
        assert(pair_views(self.lines@) =~= before.push(pair));
        self.first = false;
    }

    /// Fills lines with the words of a segment.
    fn fill(&mut self, wrap: &Wrap, segment: &str)
        ensures
            final(self)@ == filled(wrap@, words(segment@), 0, Seq::empty(), old(self)@),
    {
        let list = words_of(segment);
        let ghost views = texts(list@);
        let ghost whole = filled(wrap@, views, 0, Seq::empty(), self@);
        let mut current = String::new();
        let mut i: usize = 0;
        while i < list.len()
            invariant
                i <= list.len(),
                views == texts(list@),
                whole == filled(wrap@, views, i as int, current@, self@),
            decreases list.len() - i,
        {
            assert(views[i as int] == list[i as int]@);
            let room: usize = wrap.room(self.first);
            let word_bytes: usize = bytes_in(&list[i]);
            let line_bytes: usize = bytes_in(&current);
            if current.as_str().unicode_len() == 0 {
                current = list[i].clone();
            } else if word_bytes < room && line_bytes <= room - 1 - word_bytes {
                current.append(" ");
                current.append(&list[i]);
            } else {
                self.flush(wrap, current);
                current = list[i].clone();
            }
            i += 1;
        }
        if current.as_str().unicode_len() > 0 {
            self.flush(wrap, current);
        }
    }
}

/// A segment as it is shown.
fn show_segment(index: usize, segment: &Vec<char>) -> (r: String)
    ensures
        r@ == shown_segment(index as int, segment@),
{
    let kept = trim(segment);
    let text = string_of(&kept, 0, kept.len());
    assert(text@ =~= trimmed(segment@));
    if index > 0 {
        joined("• ", &text)
    } else {
        text
    }
}

/// Wraps text to fit within a maximum width, adding a prefix to continuation
/// lines. It also breaks at ` - `, to improve readability. What comes back is
/// the prefix and the content of each line.
pub fn wrap_text_lines(
    text: &str,
    max_width: usize,
    first_prefix: &str,
    continuation_prefix: &str,
) -> (r: Vec<(String, String)>)
    ensures
        pair_views(r@) == wrapped(
            WrapView {
                max_width: max_width as int,
                first_prefix: first_prefix@,
                continuation_prefix: continuation_prefix@,
            },
            text@,
        ),
{
    let wrap = Wrap { max_width, first_prefix, continuation_prefix };
    proof {
        reveal_strlit(" - ");
    }
    let segments = parts_of(&chars_of(text), &chars_of(" - "));
    let ghost views = char_views(segments@);
    let lines: Vec<(String, String)> = Vec::new();
    assert(pair_views(lines@) =~= seq![]);
    let mut state = Wrapped { lines, first: true };
    let mut i: usize = 0;
    while i < segments.len()
        invariant
            i <= segments.len(),
            views == char_views(segments@),
            state@ == wrapped_segments(wrap@, views, i as int),
        decreases segments.len() - i,
    {
        assert(views[i as int] == segments[i as int]@);
        if trim(&segments[i]).len() > 0 {
            let segment = show_segment(i, &segments[i]);
            let room: usize = wrap.room(state.first);
            if bytes_in(&segment) <= room {
                state.flush(&wrap, segment);
            } else {
                state.fill(&wrap, &segment);
            }
        }
        i += 1;
    }
    state.lines
}

/// The bytes of two texts in a row are those of the one and those of the other.
proof fn byte_len_adds(a: Seq<char>, b: Seq<char>)
    ensures
        byte_len(a + b) == byte_len(a) + byte_len(b),
    decreases a.len(),
{
    if a.len() == 0 {
        assert(a + b =~= b);
    } else {
        assert((a + b).drop_first() =~= a.drop_first() + b);
        byte_len_adds(a.drop_first(), b);
    }
}

/// Line number `i` is well wrapped: its prefix is that of a first line or of a
/// continuation, and its content fits unless it is one word that cannot be
/// broken.
pub open spec fn well_wrapped(wrap: WrapView, lines: Seq<(Seq<char>, Seq<char>)>, i: int) -> bool {
    &&& lines[i].0 == wrap.prefix(i == 0)
    &&& byte_len(lines[i].1) <= wrap.room(i == 0) || is_word(lines[i].1)
}

/// The lines so far are well wrapped.
spec fn sound(wrap: WrapView, state: WrappedView) -> bool {
    &&& state.first == (state.lines.len() == 0)
    &&& forall|i: int|
        0 <= i < state.lines.len() ==> #[trigger] well_wrapped(wrap, state.lines, i)
}

proof fn flushing_is_sound(wrap: WrapView, line: Seq<char>, state: WrappedView)
    requires
        sound(wrap, state),
        byte_len(line) <= wrap.room(state.first) || is_word(line),
    ensures
        sound(wrap, state.flushed(wrap, line)),
{
    let after = state.flushed(wrap, line);
    assert forall|i: int| 0 <= i < after.lines.len() implies #[trigger] well_wrapped(
        wrap,
        after.lines,
        i,
    ) by {
        if i < state.lines.len() {
            assert(well_wrapped(wrap, state.lines, i));
        }
    }
}

proof fn filling_is_sound(
    wrap: WrapView,
    list: Seq<Seq<char>>,
    i: int,
    current: Seq<char>,
    state: WrappedView,
)
    requires
        0 <= i,
        sound(wrap, state),
        forall|k: int| 0 <= k < list.len() ==> is_word(#[trigger] list[k]),
        current.len() > 0 ==> byte_len(current) <= wrap.room(state.first) || is_word(current),
    ensures
        sound(wrap, filled(wrap, list, i, current, state)),
    decreases list.len() - i,
{
    if i >= list.len() {
        if current.len() > 0 {
            flushing_is_sound(wrap, current, state);
        }
    } else {
        assert(is_word(list[i]));
        if current.len() == 0 {
            filling_is_sound(wrap, list, i + 1, list[i], state);
        } else if byte_len(current) + 1 + byte_len(list[i]) <= wrap.room(state.first) {
            byte_len_adds(current, " "@);
            byte_len_adds(current + " "@, list[i]);
            space_is_one_byte();
            filling_is_sound(wrap, list, i + 1, current + " "@ + list[i], state);
        } else {
            flushing_is_sound(wrap, current, state);
            filling_is_sound(wrap, list, i + 1, list[i], state.flushed(wrap, current));
        }
    }
}

proof fn space_is_one_byte()
    ensures
        byte_len(" "@) == 1,
{
    reveal_strlit(" ");
    vstd::utf8::is_ascii_chars_encode_utf8(" "@);
}

proof fn segments_are_sound(wrap: WrapView, segments: Seq<Seq<char>>, n: int)
    ensures
        sound(wrap, wrapped_segments(wrap, segments, n)),
    decreases n,
{
    if n > 0 {
        segments_are_sound(wrap, segments, n - 1);
        let before = wrapped_segments(wrap, segments, n - 1);
        if trimmed(segments[n - 1]).len() > 0 {
            let segment = shown_segment(n - 1, segments[n - 1]);
            if byte_len(segment) <= wrap.room(before.first) {
                flushing_is_sound(wrap, segment, before);
            } else {
                words_are_words(segment);
                filling_is_sound(wrap, words(segment), 0, Seq::empty(), before);
            }
        }
    }
}

/// Wrapped text fits: every line has the prefix of its place, and its content
/// takes no more room than that leaves, unless it is a single word.
pub proof fn wrapped_text_fits(wrap: WrapView, text: Seq<char>, i: int)
    requires
        0 <= i < wrapped(wrap, text).len(),
    ensures
        well_wrapped(wrap, wrapped(wrap, text), i),
{
    let segments = parts(text, " - "@);
    segments_are_sound(wrap, segments, segments.len() as int);
}

/// The words of the first `n` lines, in order.
pub open spec fn words_on(lines: Seq<(Seq<char>, Seq<char>)>, n: int) -> Seq<Seq<char>>
    decreases n,
{
    if n <= 0 {
        seq![]
    } else {
        words_on(lines, n - 1) + words(lines[n - 1].1)
    }
}

/// The words of the first `n` segments as they are shown, in order.
pub open spec fn words_shown(segments: Seq<Seq<char>>, n: int) -> Seq<Seq<char>>
    decreases n,
{
    if n <= 0 {
        seq![]
    } else if trimmed(segments[n - 1]).len() == 0 {
        words_shown(segments, n - 1)
    } else {
        words_shown(segments, n - 1) + words(shown_segment(n - 1, segments[n - 1]))
    }
}

proof fn words_on_first(
    lines: Seq<(Seq<char>, Seq<char>)>,
    more: Seq<(Seq<char>, Seq<char>)>,
    n: int,
)
    requires
        0 <= n <= lines.len() <= more.len(),
        forall|i: int| 0 <= i < lines.len() ==> lines[i] == more[i],
    ensures
        words_on(lines, n) == words_on(more, n),
    decreases n,
{
    if n > 0 {
        words_on_first(lines, more, n - 1);
    }
}

proof fn flushing_keeps_words(wrap: WrapView, line: Seq<char>, state: WrappedView)
    ensures
        words_on(state.flushed(wrap, line).lines, state.lines.len() as int + 1) == words_on(
            state.lines,
            state.lines.len() as int,
        ) + words(line),
{
    let after = state.flushed(wrap, line);
    words_on_first(state.lines, after.lines, state.lines.len() as int);
}

proof fn filling_keeps_words(
    wrap: WrapView,
    list: Seq<Seq<char>>,
    i: int,
    current: Seq<char>,
    state: WrappedView,
)
    requires
        0 <= i <= list.len(),
        forall|k: int| 0 <= k < list.len() ==> is_word(#[trigger] list[k]),
    ensures
        ({
            let after = filled(wrap, list, i, current, state);
            words_on(after.lines, after.lines.len() as int) == words_on(
                state.lines,
                state.lines.len() as int,
            ) + words(current) + list.skip(i)
        }),
    decreases list.len() - i,
{
    let so_far = words_on(state.lines, state.lines.len() as int);
    if current.len() == 0 {
        assert(words(current) =~= seq![]);
    }
    if i >= list.len() {
        assert(list.skip(i) =~= seq![]);
        if current.len() > 0 {
            flushing_keeps_words(wrap, current, state);
        }
        assert(so_far + words(current) + list.skip(i) =~= so_far + words(current));
        assert(so_far + seq![] =~= so_far);
    } else {
        assert(is_word(list[i]));
        a_word_is_its_only_word(list[i]);
        assert(list.skip(i) =~= seq![list[i]] + list.skip(i + 1));
        if current.len() == 0 {
            filling_keeps_words(wrap, list, i + 1, list[i], state);
            assert(so_far + seq![list[i]] + list.skip(i + 1) =~= so_far + words(current)
                + list.skip(i));
        } else if byte_len(current) + 1 + byte_len(list[i]) <= wrap.room(state.first) {
            words_across_a_space(current, list[i]);
            filling_keeps_words(wrap, list, i + 1, current + " "@ + list[i], state);
            assert(so_far + (words(current) + seq![list[i]]) + list.skip(i + 1) =~= so_far + words(
                current,
            ) + list.skip(i));
        } else {
            flushing_keeps_words(wrap, current, state);
            filling_keeps_words(wrap, list, i + 1, list[i], state.flushed(wrap, current));
            assert((so_far + words(current)) + seq![list[i]] + list.skip(i + 1) =~= so_far + words(
                current,
            ) + list.skip(i));
        }
    }
}

proof fn segments_keep_words(wrap: WrapView, segments: Seq<Seq<char>>, n: int)
    ensures
        ({
            let state = wrapped_segments(wrap, segments, n);
            words_on(state.lines, state.lines.len() as int) == words_shown(segments, n)
        }),
    decreases n,
{
    if n > 0 {
        segments_keep_words(wrap, segments, n - 1);
        let before = wrapped_segments(wrap, segments, n - 1);
        if trimmed(segments[n - 1]).len() > 0 {
            let segment = shown_segment(n - 1, segments[n - 1]);
            if byte_len(segment) <= wrap.room(before.first) {
                flushing_keeps_words(wrap, segment, before);
            } else {
                words_are_words(segment);
                filling_keeps_words(wrap, words(segment), 0, Seq::empty(), before);
                let so_far = words_on(before.lines, before.lines.len() as int);
                assert(words(Seq::<char>::empty()) =~= seq![]);
                assert(words(segment).skip(0) =~= words(segment));
                assert(so_far + seq![] + words(segment) =~= so_far + words(segment));
            }
        }
    }
}

/// Wrapping loses nothing: the lines hold the words of the text's segments, each
/// with its bullet, all of them and in their order.
pub proof fn wrapping_keeps_every_word(wrap: WrapView, text: Seq<char>)
    ensures
        words_on(wrapped(wrap, text), wrapped(wrap, text).len() as int) == words_shown(
            parts(text, " - "@),
            parts(text, " - "@).len() as int,
        ),
{
    let segments = parts(text, " - "@);
    segments_keep_words(wrap, segments, segments.len() as int);
}


/// The first line stands behind the first prefix and every other behind the one
/// for continuations, and together with its prefix each keeps to the width,
/// unless it is a single word that cannot be parted or the prefix alone fills
/// the line.
pub proof fn every_line_has_its_prefix(wrap: WrapView, text: Seq<char>, i: int)
    requires
        0 <= i < wrapped(wrap, text).len(),
    ensures
        ({
            let (prefix, line) = wrapped(wrap, text)[i];
            &&& i == 0 ==> prefix == wrap.first_prefix
            &&& i > 0 ==> prefix == wrap.continuation_prefix
            &&& prefix.len() + byte_len(line) <= wrap.max_width || is_word(line) || byte_len(line)
                == 0
        }),
{
    wrapped_text_fits(wrap, text, i);
}

}
