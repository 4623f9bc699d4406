//! From styled lines to what is written to a terminal.

use crate::render::{line_views, span_views, Span, SpanView, Style};
use crate::text::{find_from, find_from_is_first, has_text, texts};
use vstd::prelude::*;
use vstd::string::*;

verus! {

/// The sequence that ends a style.
pub open spec fn reset() -> Seq<char> {
    "\u{1b}[0m"@
}

/// The sequence that begins a style; plain text has none.
pub open spec fn begin(style: Style) -> Seq<char> {
    match style {
        Style::Plain => ""@,
        Style::Bold => "\u{1b}[1m"@,
        Style::Dimmed => "\u{1b}[2m"@,
        Style::Blue => "\u{1b}[34m"@,
        Style::Cyan => "\u{1b}[36m"@,
        Style::Green => "\u{1b}[32m"@,
        Style::Yellow => "\u{1b}[33m"@,
        Style::YellowBold => "\u{1b}[1;33m"@,
        Style::Red => "\u{1b}[31m"@,
    }
}

/// `text` with the style begun anew behind each sequence in it that ends a style.
pub open spec fn restyled(text: Seq<char>, style: Style) -> Seq<char>
    decreases text.len(),
{
    match find_from(text, "\u{1b}[0m"@, 0) {
        Some(at) => if 0 <= at && at + 4 <= text.len() {
            text.take(at + 4) + begin(style) + restyled(text.skip(at + 4), style)
        } else {
            text
        },
        None => text,
    }
}

/// `painted` is `text` with a style: as it stands where the terminal shows no
/// colours, and else between the style's sequence and the one that ends it, with
/// the style begun anew behind each end of a style in the text. Where colours are
/// switched off while the text is written, the sequences that begin the style can
/// be missing.
pub open spec fn is_styled(text: Seq<char>, style: Style, painted: Seq<char>) -> bool {
    let styled = restyled(text, style);
    painted == text || painted == begin(style) + styled + reset() || painted == begin(style) + text
        + reset() || painted == styled + reset() || painted == text + reset()
}

/// A text that ends no style is painted as it stands, or with the style's sequence
/// before it and the one that ends it behind it.
pub proof fn plain_words_are_framed(text: Seq<char>, style: Style, painted: Seq<char>)
    requires
        is_styled(text, style, painted),
        !has_text(text, reset()),
    ensures
        painted == text || painted == begin(style) + text + reset() || painted == text + reset(),
{
    find_from_is_first(text, "\u{1b}[0m"@, 0);
}

/// `colored::Colorize::bold`, written with the `Display` of its result: the text
/// alone, or between `ESC[1m` and `ESC[0m`, as the environment decides.
#[verifier::external_body]
fn bold(text: &str) -> (r: String)
    ensures
        is_styled(text@, Style::Bold, r@),
{
    colored::Colorize::bold(text).to_string()
}

/// `colored::Colorize::dimmed`, written with the `Display` of its result: the text
/// alone, or between `ESC[2m` and `ESC[0m`, as the environment decides.
#[verifier::external_body]
fn dimmed(text: &str) -> (r: String)
    ensures
        is_styled(text@, Style::Dimmed, r@),
{
    colored::Colorize::dimmed(text).to_string()
}

/// `colored::Colorize::blue`, written with the `Display` of its result: the text
/// alone, or between `ESC[34m` and `ESC[0m`, as the environment decides.
#[verifier::external_body]
fn blue(text: &str) -> (r: String)
    ensures
        is_styled(text@, Style::Blue, r@),
{
    colored::Colorize::blue(text).to_string()
}

/// `colored::Colorize::cyan`, written with the `Display` of its result: the text
/// alone, or between `ESC[36m` and `ESC[0m`, as the environment decides.
#[verifier::external_body]
fn cyan(text: &str) -> (r: String)
    ensures
        is_styled(text@, Style::Cyan, r@),
{
    colored::Colorize::cyan(text).to_string()
}

/// `colored::Colorize::green`, written with the `Display` of its result: the text
/// alone, or between `ESC[32m` and `ESC[0m`, as the environment decides.
#[verifier::external_body]
fn green(text: &str) -> (r: String)
    ensures
        is_styled(text@, Style::Green, r@),
{
    colored::Colorize::green(text).to_string()
}

/// `colored::Colorize::yellow`, written with the `Display` of its result: the text
/// alone, or between `ESC[33m` and `ESC[0m`, as the environment decides.
#[verifier::external_body]
fn yellow(text: &str) -> (r: String)
    ensures
        is_styled(text@, Style::Yellow, r@),
{
    colored::Colorize::yellow(text).to_string()
}

/// `colored::Colorize::red`, written with the `Display` of its result: the text
/// alone, or between `ESC[31m` and `ESC[0m`, as the environment decides.
#[verifier::external_body]
fn red(text: &str) -> (r: String)
    ensures
        is_styled(text@, Style::Red, r@),
{
    colored::Colorize::red(text).to_string()
}

/// `colored::Colorize::bold` of `colored::Colorize::yellow`, written with the
/// `Display` of its result: the text alone, or between `ESC[1;33m` and `ESC[0m`,
/// as the environment decides.
#[verifier::external_body]
fn yellow_bold(text: &str) -> (r: String)
    ensures
        is_styled(text@, Style::YellowBold, r@),
{
    colored::Colorize::bold(colored::Colorize::yellow(text)).to_string()
}

/// A piece of text with its style: plain text stays as it is.
pub open spec fn is_painted(span: SpanView, painted: Seq<char>) -> bool {
    if span.style is Plain {
        painted == span.text
    } else {
        is_styled(span.text, span.style, painted)
    }
}

/// A piece of text with its style.
pub fn paint(span: &Span) -> (r: String)
    ensures
        is_painted(span@, r@),
{
    match span.style {
        Style::Plain => span.text.clone(),
        Style::Bold => bold(&span.text),
        Style::Dimmed => dimmed(&span.text),
        Style::Blue => blue(&span.text),
        Style::Cyan => cyan(&span.text),
        Style::Green => green(&span.text),
        Style::Yellow => yellow(&span.text),
        Style::YellowBold => yellow_bold(&span.text),
        Style::Red => red(&span.text),
    }
}

/// The pieces of a line, painted.
pub open spec fn is_painted_line(line: Seq<SpanView>, pieces: Seq<Seq<char>>) -> bool {
    &&& pieces.len() == line.len()
    &&& forall|i: int| 0 <= i < line.len() ==> is_painted(#[trigger] line[i], pieces[i])
}

/// What painted lines say.
pub open spec fn piece_views(pieces: Seq<Vec<String>>) -> Seq<Seq<Seq<char>>> {
    Seq::new(pieces.len(), |i: int| texts(pieces[i]@))
}

/// The pieces of a line, painted.
fn paint_line(line: &Vec<Span>) -> (r: Vec<String>)
    ensures
        is_painted_line(span_views(line@), texts(r@)),
{
    let mut pieces: Vec<String> = Vec::new();
    let mut i: usize = 0;
    while i < line.len()
        invariant
            i <= line.len(),
            pieces.len() == i,
            forall|k: int| 0 <= k < i ==> is_painted((#[trigger] line[k])@, pieces[k]@),
        decreases line.len() - i,
    {
        pieces.push(paint(&line[i]));
        i += 1;
    }
    assert forall|k: int| 0 <= k < line.len() implies is_painted(
        #[trigger] span_views(line@)[k],
        texts(pieces@)[k],
    ) by {
        assert(is_painted(line[k]@, pieces[k]@));
    }
    pieces
}

/// Paints lines, piece by piece.
pub fn paint_lines(lines: &Vec<Vec<Span>>) -> (r: Vec<Vec<String>>)
    ensures
        r.len() == lines.len(),
        forall|i: int|
            0 <= i < lines.len() ==> is_painted_line(
                #[trigger] line_views(lines@)[i],
                piece_views(r@)[i],
            ),
{
    let mut painted: Vec<Vec<String>> = Vec::new();
    let mut i: usize = 0;
    while i < lines.len()
        invariant
            i <= lines.len(),
            painted.len() == i,
            forall|k: int|
                0 <= k < i ==> is_painted_line(
                    span_views((#[trigger] lines[k])@),
                    texts(painted[k]@),
                ),
        decreases lines.len() - i,
    {
        painted.push(paint_line(&lines[i]));
        i += 1;
    }
    assert forall|k: int| 0 <= k < lines.len() implies is_painted_line(
        #[trigger] line_views(lines@)[k],
        piece_views(painted@)[k],
    ) by {
        assert(is_painted_line(span_views(lines[k]@), texts(painted[k]@)));
    }
    painted
}

/// The first `n` pieces of a line, one after another.
pub open spec fn line_of(pieces: Seq<Seq<char>>, n: int) -> Seq<char>
    decreases n,
{
    if n <= 0 {
        Seq::empty()
    } else {
        line_of(pieces, n - 1) + pieces[n - 1]
    }
}

/// The first `n` lines, each with its end.
pub open spec fn lines_text(pieces: Seq<Seq<Seq<char>>>, n: int) -> Seq<char>
    decreases n,
{
    if n <= 0 {
        Seq::empty()
    } else {
        lines_text(pieces, n - 1) + line_of(pieces[n - 1], pieces[n - 1].len() as int) + "\n"@
    }
}

/// The pieces of a line, one after another.
fn assemble_line(pieces: &Vec<String>) -> (r: String)
    ensures
        r@ == line_of(texts(pieces@), pieces.len() as int),
{
    let ghost views = texts(pieces@);
    let mut out = String::new();
    let mut i: usize = 0;
    while i < pieces.len()
        invariant
            i <= pieces.len(),
            views == texts(pieces@),
            out@ == line_of(views, i as int),
        decreases pieces.len() - i,
    {
        assert(views[i as int] == pieces[i as int]@);
        out = out.concat(&pieces[i]);
        i += 1;
    }
    out
}

/// Painted lines as one text.
pub fn assemble(pieces: &Vec<Vec<String>>) -> (r: String)
    ensures
        r@ == lines_text(piece_views(pieces@), pieces.len() as int),
{
    let ghost views = piece_views(pieces@);
    let mut out = String::new();
    let mut i: usize = 0;
    while i < pieces.len()
        invariant
            i <= pieces.len(),
            views == piece_views(pieces@),
            out@ == lines_text(views, i as int),
        decreases pieces.len() - i,
    {
        assert(views[i as int] == texts(pieces[i as int]@));
        out = out.concat(&assemble_line(&pieces[i])).concat("\n");
        i += 1;
    }
    out
}

}
