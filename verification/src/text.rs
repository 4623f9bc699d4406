//! Text as sequences of characters: searching, splitting, trimming, joining.

use vstd::prelude::*;
use vstd::string::*;

verus! {

/// `String::push` appends one character to the end.
pub assume_specification[ String::push ](text: &mut String, c: char)
    ensures
        final(text)@ == old(text)@.push(c),
;

/// A string that says what `text` says.
pub fn string_from(text: &str) -> (r: String)
    ensures
        r@ == text@,
{
    text.to_owned()
}

/// `first` followed by `second`.
pub fn joined(first: &str, second: &str) -> (r: String)
    ensures
        r@ == first@ + second@,
{
    string_from(first).concat(second)
}

/// The parts one after another.
pub fn joined3(a: &str, b: &str, c: &str) -> (r: String)
    ensures
        r@ == a@ + b@ + c@,
{
    joined(a, b).concat(c)
}

/// The parts one after another.
pub fn joined4(a: &str, b: &str, c: &str, d: &str) -> (r: String)
    ensures
        r@ == a@ + b@ + c@ + d@,
{
    joined3(a, b, c).concat(d)
}

/// The parts one after another.
pub fn joined5(a: &str, b: &str, c: &str, d: &str, e: &str) -> (r: String)
    ensures
        r@ == a@ + b@ + c@ + d@ + e@,
{
    joined4(a, b, c, d).concat(e)
}

/// The parts one after another.
pub fn joined6(a: &str, b: &str, c: &str, d: &str, e: &str, f: &str) -> (r: String)
    ensures
        r@ == a@ + b@ + c@ + d@ + e@ + f@,
{
    joined5(a, b, c, d, e).concat(f)
}

/// The parts one after another.
pub fn joined7(a: &str, b: &str, c: &str, d: &str, e: &str, f: &str, g: &str) -> (r: String)
    ensures
        r@ == a@ + b@ + c@ + d@ + e@ + f@ + g@,
{
    joined6(a, b, c, d, e, f).concat(g)
}

/// What a list of strings says, one character sequence per string.
pub open spec fn texts(list: Seq<String>) -> Seq<Seq<char>> {
    Seq::new(list.len(), |i: int| list[i]@)
}

/// `part` stands in `text` at position `at`.
pub open spec fn occurs_at(text: Seq<char>, part: Seq<char>, at: int) -> bool {
    &&& 0 <= at
    &&& at + part.len() <= text.len()
    &&& text.subrange(at, at + part.len()) == part
}

/// `part` stands somewhere in `text`.
pub open spec fn has_text(text: Seq<char>, part: Seq<char>) -> bool {
    exists|at: int| occurs_at(text, part, at)
}

/// Where a text is part of a sum of texts it stands in the sum.
pub proof fn sums_hold_their_parts(part: Seq<char>)
    ensures
        forall|b: Seq<char>| has_text(#[trigger] (part + b), part),
        forall|a: Seq<char>| has_text(#[trigger] (a + part), part),
        forall|text: Seq<char>, b: Seq<char>|
            has_text(text, part) ==> has_text(#[trigger] (text + b), part),
{
    assert forall|b: Seq<char>| has_text(#[trigger] (part + b), part) by {
        assert((part + b).subrange(0, part.len() as int) =~= part);
        assert(occurs_at(part + b, part, 0));
    }
    assert forall|a: Seq<char>| has_text(#[trigger] (a + part), part) by {
        assert((a + part).subrange(a.len() as int, a.len() as int + part.len()) =~= part);
        assert(occurs_at(a + part, part, a.len() as int));
    }
    assert forall|text: Seq<char>, b: Seq<char>| has_text(text, part) implies has_text(
        #[trigger] (text + b),
        part,
    ) by {
        let at = choose|at: int| occurs_at(text, part, at);
        assert((text + b).subrange(at, at + part.len()) =~= part);
        assert(occurs_at(text + b, part, at));
    }
}

/// The end of a sum of texts stands in the sum.
pub proof fn a_sum_holds_its_end(start: Seq<char>, end: Seq<char>)
    ensures
        has_text(start + end, end),
{
    assert((start + end).subrange(start.len() as int, start.len() as int + end.len()) =~= end);
    assert(occurs_at(start + end, end, start.len() as int));
}

/// The first position at or after `from` at which `part` stands in `text`.
pub open spec fn find_from(text: Seq<char>, part: Seq<char>, from: int) -> Option<int>
    decreases text.len() + 1 - from,
{
    if from < 0 || from + part.len() > text.len() {
        None
    } else if occurs_at(text, part, from) {
        Some(from)
    } else {
        find_from(text, part, from + 1)
    }
}

/// What `find_from` gives is an occurrence with none before it, and it gives
/// nothing only where there is none.
pub proof fn find_from_is_first(text: Seq<char>, part: Seq<char>, from: int)
    requires
        0 <= from,
    ensures
        match find_from(text, part, from) {
            Some(at) => {
                &&& from <= at
                &&& occurs_at(text, part, at)
                &&& forall|i: int| from <= i < at ==> !occurs_at(text, part, i)
            },
            None => forall|i: int| from <= i ==> !occurs_at(text, part, i),
        },
    decreases text.len() + 1 - from,
{
    if from + part.len() > text.len() {
    } else if occurs_at(text, part, from) {
    } else {
        find_from_is_first(text, part, from + 1);
        assert forall|i: int| from <= i && i < from + 1 implies !occurs_at(text, part, i) by {
            assert(i == from);
        }
    }
}

/// The characters of a string.
pub fn chars_of(text: &str) -> (r: Vec<char>)
    ensures
        r@ == text@,
{
    let mut out: Vec<char> = Vec::new();
    for c in it: text.chars()
        invariant
            it.seq() == text@,
            out@ == text@.subrange(0, it.index() as int),
    {
        assert(text@.subrange(0, it.index() + 1) =~= text@.subrange(0, it.index() as int).push(
            text@[it.index() as int],
        ));
        out.push(c);
    }
    assert(text@.subrange(0, text@.len() as int) =~= text@);
    out
}

/// The string made of the characters from `from` up to `to`.
pub fn string_of(chars: &Vec<char>, from: usize, to: usize) -> (r: String)
    requires
        from <= to <= chars.len(),
    ensures
        r@ == chars@.subrange(from as int, to as int),
{
    let mut out = String::new();
    let mut i: usize = from;
    while i < to
        invariant
            from <= i <= to <= chars.len(),
            out@ == chars@.subrange(from as int, i as int),
        decreases to - i,
    {
        out.push(chars[i]);
        assert(chars@.subrange(from as int, i + 1) =~= chars@.subrange(from as int, i as int).push(
            chars@[i as int],
        ));
        i += 1;
    }
    out
}

/// Whether `part` stands in `text` at position `at`.
pub fn stands_at(text: &Vec<char>, part: &Vec<char>, at: usize) -> (r: bool)
    ensures
        r == occurs_at(text@, part@, at as int),
{
    if part.len() > text.len() || at > text.len() - part.len() {
        return false;
    }
    let mut i: usize = 0;
    while i < part.len()
        invariant
            i <= part.len(),
            at + part.len() <= text.len(),
            forall|k: int| 0 <= k < i ==> text@[at + k] == part@[k],
        decreases part.len() - i,
    {
        if text[at + i] != part[i] {
            assert(text@.subrange(at as int, at + part.len())[i as int] == text@[at + i]);
            return false;
        }
        i += 1;
    }
    assert(text@.subrange(at as int, at + part.len()) =~= part@);
    true
}

/// The first position at or after `from` at which `part` stands in `text`.
pub fn find(text: &Vec<char>, part: &Vec<char>, from: usize) -> (r: Option<usize>)
    ensures
        match r {
            Some(at) => find_from(text@, part@, from as int) == Some(at as int) && occurs_at(
                text@,
                part@,
                at as int,
            ) && from <= at,
            None => find_from(text@, part@, from as int) is None,
        },
{
    if part.len() > text.len() {
        return None;
    }
    let last: usize = text.len() - part.len();
    let mut i: usize = from;
    while i <= last
        invariant
            from <= i,
            last + part.len() == text.len(),
            find_from(text@, part@, from as int) == find_from(text@, part@, i as int),
        decreases last + 1 - i,
    {
        if stands_at(text, part, i) {
            return Some(i);
        }
        if i == last {
            assert(find_from(text@, part@, i + 1) is None);
            return None;
        }
        i += 1;
    }
    None
}

/// Whether `part` stands somewhere in `text`.
pub fn contains(text: &str, part: &str) -> (r: bool)
    ensures
        r == has_text(text@, part@),
{
    let whole = chars_of(text);
    let wanted = chars_of(part);
    proof {
        find_from_is_first(text@, part@, 0);
    }
    find(&whole, &wanted, 0).is_some()
}

/// The last position at or before `at` at which `part` stands in `text`.
pub open spec fn rfind_from(text: Seq<char>, part: Seq<char>, at: int) -> Option<int>
    decreases at + 1,
{
    if at < 0 {
        None
    } else if occurs_at(text, part, at) {
        Some(at)
    } else {
        rfind_from(text, part, at - 1)
    }
}

/// What follows the last `part` in `text`.
pub open spec fn after_last(text: Seq<char>, part: Seq<char>) -> Option<Seq<char>> {
    match rfind_from(text, part, text.len() as int) {
        Some(at) => Some(text.subrange(at + part.len(), text.len() as int)),
        None => None,
    }
}

/// What follows the last `part` in `text`.
pub fn rest_after_last(text: &Vec<char>, part: &Vec<char>) -> (r: Option<Vec<char>>)
    ensures
        match r {
            Some(rest) => after_last(text@, part@) == Some(rest@),
            None => after_last(text@, part@) is None,
        },
{
    let mut at: usize = text.len();
    loop
        invariant
            at <= text.len(),
            rfind_from(text@, part@, text.len() as int) == rfind_from(text@, part@, at as int),
        decreases at,
    {
        if stands_at(text, part, at) {
            return Some(slice_of(text, at + part.len(), text.len()));
        }
        if at == 0 {
            assert(rfind_from(text@, part@, -1) is None);
            return None;
        }
        at -= 1;
    }
}

/// The characters from `from` up to `to`.
pub fn slice_of(chars: &Vec<char>, from: usize, to: usize) -> (r: Vec<char>)
    requires
        from <= to <= chars.len(),
    ensures
        r@ == chars@.subrange(from as int, to as int),
{
    let mut out: Vec<char> = Vec::new();
    let mut i: usize = from;
    while i < to
        invariant
            from <= i <= to <= chars.len(),
            out@ == chars@.subrange(from as int, i as int),
        decreases to - i,
    {
        out.push(chars[i]);
        assert(chars@.subrange(from as int, i + 1) =~= chars@.subrange(from as int, i as int).push(
            chars@[i as int],
        ));
        i += 1;
    }
    out
}

/// A decimal digit.
pub open spec fn is_digit(c: char) -> bool {
    '0' <= c && c <= '9'
}

/// How many digits `text` starts with.
pub open spec fn digit_count(text: Seq<char>) -> nat
    decreases text.len(),
{
    if text.len() > 0 && is_digit(text[0]) {
        1 + digit_count(text.skip(1))
    } else {
        0
    }
}

/// The number that a sequence of decimal digits writes.
pub open spec fn decimal_value(digits: Seq<char>) -> nat
    decreases digits.len(),
{
    if digits.len() == 0 {
        0
    } else {
        decimal_value(digits.drop_last()) * 10 + (digits.last() as nat - '0' as nat) as nat
    }
}

/// The digits that `text` starts with.
pub open spec fn leading_digits(text: Seq<char>) -> Seq<char> {
    text.take(digit_count(text) as int)
}

/// The number that the digits at the start of `text` write, where there are
/// digits and the number fits in sixteen bits.
pub open spec fn leading_u16(text: Seq<char>) -> Option<u16> {
    let digits = leading_digits(text);
    if digits.len() == 0 || decimal_value(digits) > u16::MAX {
        None
    } else {
        Some(decimal_value(digits) as u16)
    }
}

/// Counting digits from the front: `n` digits and then none.
proof fn digit_count_is(text: Seq<char>, n: nat)
    requires
        n <= text.len(),
        forall|i: int| 0 <= i < n ==> is_digit(#[trigger] text[i]),
        n < text.len() ==> !is_digit(text[n as int]),
    ensures
        digit_count(text) == n,
    decreases n,
{
    if n > 0 {
        assert(is_digit(text[0]));
        assert forall|i: int| 0 <= i < n - 1 implies is_digit(#[trigger] text.skip(1)[i]) by {
            assert(is_digit(text[i + 1]));
        }
        digit_count_is(text.skip(1), (n - 1) as nat);
    }
}

/// More digits never make a smaller number.
pub proof fn decimal_value_grows(digits: Seq<char>, n: int)
    requires
        0 <= n <= digits.len(),
        forall|i: int| 0 <= i < digits.len() ==> is_digit(#[trigger] digits[i]),
    ensures
        decimal_value(digits.take(n)) <= decimal_value(digits),
    decreases digits.len() - n,
{
    if n == digits.len() {
        assert(digits.take(n) =~= digits);
    } else {
        assert(digits.take(n + 1).drop_last() =~= digits.take(n));
        assert(digits.take(n + 1).last() == digits[n]);
        decimal_value_grows(digits, n + 1);
    }
}

/// Reads the number that the digits at the start of `text` write.
pub fn parse_leading_u16(text: &Vec<char>) -> (r: Option<u16>)
    ensures
        r == leading_u16(text@),
{
    let mut n: usize = 0;
    while n < text.len() && '0' <= text[n] && text[n] <= '9'
        invariant
            n <= text.len(),
            forall|i: int| 0 <= i < n ==> is_digit(#[trigger] text@[i]),
        decreases text.len() - n,
    {
        n += 1;
    }
    proof {
        digit_count_is(text@, n as nat);
    }
    let ghost digits = text@.take(n as int);
    if n == 0 {
        return None;
    }
    let mut value: u32 = 0;
    let mut i: usize = 0;
    while i < n
        invariant
            i <= n <= text.len(),
            digits == text@.take(n as int),
            digits == leading_digits(text@),
            n > 0,
            forall|k: int| 0 <= k < n ==> is_digit(#[trigger] digits[k]),
            value == decimal_value(digits.take(i as int)),
            value <= u16::MAX,
        decreases n - i,
    {
        assert(is_digit(digits[i as int]));
        value = value * 10 + (text[i] as u32 - '0' as u32);
        assert(digits.take(i + 1).drop_last() =~= digits.take(i as int));
        assert(digits.take(i + 1).last() == text@[i as int]);
        i += 1;
        if value > 65535 {
            proof {
                decimal_value_grows(digits, i as int);
            }
            return None;
        }
    }
    assert(digits.take(n as int) =~= digits);
    Some(value as u16)
}

/// The decimal digit of a number below ten.
pub open spec fn digit_char(n: int) -> char {
    (('0' as int) + n) as char
}

/// The decimal digits of a number.
pub open spec fn decimal(n: nat) -> Seq<char>
    decreases n,
{
    if n < 10 {
        seq![digit_char(n as int)]
    } else {
        decimal(n / 10).push(digit_char((n % 10) as int))
    }
}

/// Reading the digits of a number gives the number back.
pub proof fn decimal_reads_back(n: nat)
    ensures
        decimal_value(decimal(n)) == n,
        decimal(n).len() > 0,
        forall|i: int| 0 <= i < decimal(n).len() ==> is_digit(#[trigger] decimal(n)[i]),
    decreases n,
{
    if n < 10 {
        assert(decimal(n).drop_last() =~= seq![]);
        assert(decimal_value(decimal(n).drop_last()) == 0);
    } else {
        decimal_reads_back(n / 10);
        assert(decimal(n).drop_last() =~= decimal(n / 10));
    }
}

/// The decimal digit of a number below ten.
fn digit_of(n: u64) -> (r: char)
    requires
        n < 10,
    ensures
        r == digit_char(n as int),
{
    (48 + n as u8) as char
}

/// The decimal digits of a number.
pub fn decimal_of(n: u64) -> (r: String)
    ensures
        r@ == decimal(n as nat),
    decreases n,
{
    if n < 10 {
        let mut out = String::new();
        out.push(digit_of(n));
        assert(out@ =~= decimal(n as nat));
        out
    } else {
        let mut out = decimal_of(n / 10);
        out.push(digit_of(n % 10));
        out
    }
}

/// The text as Rust's debug output quotes it.
pub uninterp spec fn debug_text(text: Seq<char>) -> Seq<char>;

/// `<str as std::fmt::Debug>::fmt`, through `format!`: the text between double
/// quotes with its special characters escaped. The result depends on the text
/// alone; the escaping itself is not stated.
#[verifier::external_body]
pub(crate) fn debug_of(text: &str) -> (r: String)
    ensures
        r@ == debug_text(text@),
{
    format!("{:?}", text)
}

/// An optional text as Rust's debug output writes it.
pub open spec fn debug_option(text: Option<Seq<char>>) -> Seq<char> {
    match text {
        Some(s) => "Some("@ + debug_text(s) + ")"@,
        None => "None"@,
    }
}

/// An optional text as Rust's debug output writes it.
pub fn debug_option_of(text: Option<&str>) -> (r: String)
    ensures
        match text {
            Some(s) => r@ == debug_option(Some(s@)),
            None => r@ == debug_option(None),
        },
{
    match text {
        Some(s) => joined3("Some(", &debug_of(s), ")"),
        None => string_from("None"),
    }
}

/// Whether one of the strings says what `wanted` says.
pub fn holds_text(list: &Vec<String>, wanted: &str) -> (r: bool)
    ensures
        r == texts(list@).contains(wanted@),
{
    let sought = string_from(wanted);
    let mut i: usize = 0;
    while i < list.len()
        invariant
            i <= list.len(),
            sought@ == wanted@,
            forall|k: int| 0 <= k < i ==> #[trigger] texts(list@)[k] != wanted@,
        decreases list.len() - i,
    {
        if list[i] == sought {
            assert(texts(list@)[i as int] == wanted@);
            return true;
        }
        assert(texts(list@)[i as int] != wanted@);
        i += 1;
    }
    false
}

/// Whether two lists hold the same texts, whatever their order.
pub fn same_texts(first: &Vec<String>, second: &Vec<String>) -> (r: bool)
    ensures
        r == (texts(first@).to_set() == texts(second@).to_set()),
{
    let forth = all_held(first, second);
    let back = all_held(second, first);
    proof {
        let a = texts(first@);
        let b = texts(second@);
        if forth && back {
            assert(a.to_set() =~= b.to_set());
        }
        if a.to_set() == b.to_set() {
            assert forall|i: int| 0 <= i < a.len() implies b.contains(#[trigger] a[i]) by {
                assert(a.to_set().contains(a[i]));
                assert(b.to_set().contains(a[i]));
            }
            assert forall|i: int| 0 <= i < b.len() implies a.contains(#[trigger] b[i]) by {
                assert(b.to_set().contains(b[i]));
                assert(a.to_set().contains(b[i]));
            }
        }
    }
    forth && back
}

/// Whether every text of the first list stands in the second.
fn all_held(first: &Vec<String>, second: &Vec<String>) -> (r: bool)
    ensures
        r == (forall|i: int|
            0 <= i < texts(first@).len() ==> texts(second@).contains(#[trigger] texts(first@)[i])),
{
    let mut i: usize = 0;
    while i < first.len()
        invariant
            i <= first.len(),
            forall|k: int| 0 <= k < i ==> texts(second@).contains(#[trigger] texts(first@)[k]),
        decreases first.len() - i,
    {
        if !holds_text(second, &first[i]) {
            assert(!texts(second@).contains(texts(first@)[i as int]));
            return false;
        }
        i += 1;
    }
    true
}

/// The parts one after another with `separator` between them.
pub open spec fn separated(parts: Seq<Seq<char>>, separator: Seq<char>) -> Seq<char>
    decreases parts.len(),
{
    if parts.len() == 0 {
        Seq::empty()
    } else if parts.len() == 1 {
        parts[0]
    } else {
        separated(parts.drop_last(), separator) + separator + parts.last()
    }
}

/// The strings one after another with `separator` between them.
pub fn join(parts: &Vec<String>, separator: &str) -> (r: String)
    ensures
        r@ == separated(texts(parts@), separator@),
{
    let mut out = String::new();
    let ghost views = texts(parts@);
    let mut i: usize = 0;
    while i < parts.len()
        invariant
            i <= parts.len(),
            views == texts(parts@),
            out@ == separated(views.take(i as int), separator@),
        decreases parts.len() - i,
    {
        assert(views.take(i + 1).drop_last() =~= views.take(i as int));
        assert(views.take(i + 1).last() == parts[i as int]@);
        if i > 0 {
            out.append(separator);
        } else {
            assert(Seq::<char>::empty() + parts[i as int]@ =~= parts[i as int]@);
        }
        out.append(&parts[i]);
        i += 1;
    }
    assert(views.take(parts.len() as int) =~= views);
    out
}

/// A character with the Latin capitals in lower case.
pub open spec fn lowercase_char(c: char) -> char {
    if 'A' <= c && c <= 'Z' {
        ((c as u8) + 32) as char
    } else {
        c
    }
}

/// A text with the Latin capitals in lower case.
pub open spec fn lowercase(text: Seq<char>) -> Seq<char> {
    Seq::new(text.len(), |i: int| lowercase_char(text[i]))
}

/// A text with the Latin capitals in lower case.
pub fn lowercase_of(text: &str) -> (r: String)
    ensures
        r@ == lowercase(text@),
{
    let chars = chars_of(text);
    let mut out = String::new();
    let mut i: usize = 0;
    while i < chars.len()
        invariant
            i <= chars.len(),
            chars@ == text@,
            out@ == lowercase(text@).take(i as int),
        decreases chars.len() - i,
    {
        let c: char = chars[i];
        if 'A' <= c && c <= 'Z' {
            out.push((c as u8 + 32) as char);
        } else {
            out.push(c);
        }
        assert(lowercase(text@).take(i + 1) =~= lowercase(text@).take(i as int).push(
            lowercase(text@)[i as int],
        ));
        i += 1;
    }
    assert(lowercase(text@).take(chars.len() as int) =~= lowercase(text@));
    out
}

/// Every character is one of ASCII.
pub open spec fn is_ascii_text(text: Seq<char>) -> bool {
    forall|i: int| 0 <= i < text.len() ==> (#[trigger] text[i] as u32) < 128
}

/// A text in lower case, as Unicode maps its letters.
pub uninterp spec fn lower_text(text: Seq<char>) -> Seq<char>;

/// `str::to_lowercase`: every letter in lower case as Unicode maps it, which
/// depends on the text alone. Of a text in ASCII it lowers the Latin capitals and
/// keeps the rest; the mapping of other letters is not stated.
#[verifier::external_body]
pub(crate) fn lower_of(text: &str) -> (r: String)
    ensures
        r@ == lower_text(text@),
        is_ascii_text(text@) ==> r@ == lowercase(text@),
{
    text.to_lowercase()
}

/// `a` comes before `b` in the order of their characters, or is the same.
pub open spec fn text_le(a: Seq<char>, b: Seq<char>) -> bool
    decreases a.len(),
{
    if a.len() == 0 {
        true
    } else if b.len() == 0 {
        false
    } else if a[0] != b[0] {
        a[0] < b[0]
    } else {
        text_le(a.skip(1), b.skip(1))
    }
}

/// Whether `a` comes before `b` in the order of their characters, or is the same.
pub fn text_at_most(a: &str, b: &str) -> (r: bool)
    ensures
        r == text_le(a@, b@),
{
    let first = chars_of(a);
    let second = chars_of(b);
    let mut i: usize = 0;
    assert(a@.skip(0) =~= a@);
    assert(b@.skip(0) =~= b@);
    loop
        invariant
            first@ == a@,
            second@ == b@,
            i <= first.len(),
            i <= second.len(),
            text_le(a@, b@) == text_le(a@.skip(i as int), b@.skip(i as int)),
        decreases first.len() - i,
    {
        if i == first.len() {
            return true;
        }
        if i == second.len() {
            return false;
        }
        if first[i] != second[i] {
            return first[i] < second[i];
        }
        assert(a@.skip(i as int).skip(1) =~= a@.skip(i + 1));
        assert(b@.skip(i as int).skip(1) =~= b@.skip(i + 1));
        i += 1;
    }
}

}
