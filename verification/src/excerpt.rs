//! Where an error stands in a source text: lines, columns, and the boundaries of
//! characters, all counted in bytes of the text's UTF-8 encoding.

use vstd::prelude::*;
use vstd::string::StringSliceAdditionalSpecFns;
use vstd::utf8::{
    decode_utf8, encode_utf8, is_char_boundary, is_leading_byte_width_1, pop_first_scalar,
    valid_utf8,
};
use crate::paint::{red_code, reset_code};
use crate::text::{
    decimal, lemma_boundary_between, lemma_decimal_len_monotonic, lemma_encode_concat, push_decimal,
    repeated,
};
use std::ops::Range;

verus! {

/// The byte that ends a line.
pub open spec fn newline() -> u8 {
    0x0a
}

/// The byte that may stand before the one that ends a line.
pub open spec fn carriage_return() -> u8 {
    0x0d
}

/// The first place at or after `at` where a character begins, or the end of the text.
pub open spec fn next_boundary(text: Seq<u8>, at: int) -> int
    decreases text.len() - at,
{
    if at >= text.len() {
        text.len() as int
    } else if is_char_boundary(text, at) {
        at
    } else {
        next_boundary(text, at + 1)
    }
}

/// Where the line that holds the place `at` begins: behind the nearest line end before
/// `at`, or at the beginning of the text.
pub open spec fn line_start(text: Seq<u8>, at: int) -> int
    decreases at,
{
    if at <= 0 {
        0
    } else if text[at - 1] == newline() {
        at
    } else {
        line_start(text, at - 1)
    }
}

/// Where the line that holds the place `at` ends: at the nearest line end at or after
/// `at`, or at the end of the text.
pub open spec fn line_end(text: Seq<u8>, at: int) -> int
    decreases text.len() - at,
{
    if at >= text.len() {
        text.len() as int
    } else if text[at] == newline() {
        at
    } else {
        line_end(text, at + 1)
    }
}

/// The line that holds the place `at`, without what ends it: the line end, and the
/// carriage return before the line end if there is one.
pub open spec fn line_at(text: Seq<u8>, at: int) -> Seq<u8> {
    let end = line_end(text, at);
    let line = text.subrange(line_start(text, at), end);
    if end < text.len() && line.len() > 0 && line.last() == carriage_return() {
        line.drop_last()
    } else {
        line
    }
}

/// How many lines end before the place `at`.
pub open spec fn lines_before(text: Seq<u8>, at: int) -> nat
    decreases at,
{
    if at <= 0 {
        0
    } else if text[at - 1] == newline() {
        lines_before(text, at - 1) + 1
    } else {
        lines_before(text, at - 1)
    }
}

/// The text with `mark` put in at the place `at`.
pub open spec fn spliced(text: Seq<u8>, at: int, mark: Seq<u8>) -> Seq<u8> {
    text.subrange(0, at) + mark + text.subrange(at, text.len() as int)
}

/// The source with the span from `start` to `stop` set between the codes that switch
/// red on and off.
pub open spec fn highlighted(source: Seq<u8>, start: int, stop: int) -> Seq<u8> {
    spliced(
        spliced(source, start, encode_utf8(red_code())),
        stop + encode_utf8(red_code()).len(),
        encode_utf8(reset_code()),
    )
}

/// The numbered line of an excerpt: the number, set to the right in a field `width`
/// wide, a colon and a space, the line, and a line end.
pub open spec fn numbered_line(number: nat, width: nat, line: Seq<u8>) -> Seq<char> {
    repeated(' ', (width - decimal(number).len()) as nat) + decimal(number) + ": "@ + decode_utf8(
        line,
    ) + "\n"@
}

/// The excerpt for a span that starts and stops where characters begin.
///
/// The excerpt shows the highlighted line on which the span starts, under its number
/// (counted from one), and before it the line before, if there is one. Under them a row
/// of dashes leads to a caret; the column of the span's start, the width of the
/// number and two more make the count of the dashes.
pub open spec fn excerpt_between(source: Seq<u8>, start: int, stop: int) -> Seq<char> {
    let shown = highlighted(source, start, stop);
    let first = line_start(source, start);
    let number = lines_before(source, start) + 1;
    let width = decimal(number).len();
    (if number > 1 {
        numbered_line((number - 1) as nat, width, line_at(shown, first - 1))
    } else {
        Seq::empty()
    }) + numbered_line(number, width, line_at(shown, start)) + repeated(
        '-',
        (start - first + width + 2) as nat,
    ) + "^\n"@
}

/// The excerpt for the span from `start` to `end` of a source. Each of the two places
/// is moved on to the first place at or after it where a character begins; the span
/// between them is highlighted, and the column is that of the place where it starts.
pub open spec fn excerpt(source: Seq<u8>, start: int, end: int) -> Seq<char> {
    excerpt_between(source, next_boundary(source, start), next_boundary(source, end))
}

/// Whether a span can be shown in a source: it lies inside, and the places of the
/// source can be counted in a `usize`.
pub open spec fn span_fits(source: Seq<u8>, start: int, end: int) -> bool {
    0 <= start <= end <= source.len() <= usize::MAX
}

// boundaries -----------------------------------------------------------------

/// The next boundary lies at or after the place asked for, inside the text, and no
/// character begins between the two.
pub proof fn lemma_next_boundary(text: Seq<u8>, at: int)
    requires
        valid_utf8(text),
        0 <= at <= text.len(),
    ensures
        at <= next_boundary(text, at) <= text.len(),
        is_char_boundary(text, next_boundary(text, at)),
        forall|j: int| at <= j < next_boundary(text, at) ==> !is_char_boundary(text, j),
    decreases text.len() - at,
{
    if at >= text.len() {
        vstd::utf8::is_char_boundary_start_end_of_seq(text);
    } else if !is_char_boundary(text, at) {
        lemma_next_boundary(text, at + 1);
    }
}

/// Behind a byte that is a whole character, a character begins.
pub proof fn lemma_boundary_after_ascii(text: Seq<u8>, at: int)
    requires
        valid_utf8(text),
        0 <= at < text.len(),
        is_leading_byte_width_1(text[at]),
    ensures
        is_char_boundary(text, at),
        is_char_boundary(text, at + 1),
{
    vstd::utf8::is_char_boundary_iff_not_is_continuation_byte(text, at);
    vstd::utf8::valid_utf8_split(text, at);
    let head = text.subrange(0, at);
    let tail = text.subrange(at, text.len() as int);
    let one = tail.subrange(0, 1);
    let rest = pop_first_scalar(tail);
    assert(valid_utf8(one)) by {
        reveal_with_fuel(valid_utf8, 2);
        assert(pop_first_scalar(one) =~= Seq::<u8>::empty());
    }
    vstd::utf8::valid_utf8_concat(head, one);
    lemma_boundary_between(head + one, rest);
    assert((head + one) + rest =~= text);
}

/// A place where a character begins in a text is one in every prefix of the text that
/// ends where a character begins.
pub proof fn lemma_boundary_in_prefix(text: Seq<u8>, from: int, to: int)
    requires
        valid_utf8(text),
        0 <= from <= to <= text.len(),
        is_char_boundary(text, from),
        is_char_boundary(text, to),
    ensures
        valid_utf8(text.subrange(0, to)),
        is_char_boundary(text.subrange(0, to), from),
{
    vstd::utf8::valid_utf8_split(text, to);
    let prefix = text.subrange(0, to);
    if from == to {
        vstd::utf8::is_char_boundary_start_end_of_seq(prefix);
    } else {
        vstd::utf8::is_char_boundary_iff_not_is_continuation_byte(text, from);
        vstd::utf8::is_char_boundary_iff_not_is_continuation_byte(prefix, from);
    }
}

/// The part of a valid text between two places where characters begin is valid.
pub proof fn lemma_valid_between(text: Seq<u8>, from: int, to: int)
    requires
        valid_utf8(text),
        0 <= from <= to <= text.len(),
        is_char_boundary(text, from),
        is_char_boundary(text, to),
    ensures
        valid_utf8(text.subrange(from, to)),
{
    lemma_boundary_in_prefix(text, from, to);
    let prefix = text.subrange(0, to);
    vstd::utf8::valid_utf8_split(prefix, from);
    assert(prefix.subrange(from, prefix.len() as int) =~= text.subrange(from, to));
}

/// What two valid encodings hold one after the other is what each holds, one after the
/// other.
pub proof fn lemma_decode_concat(a: Seq<u8>, b: Seq<u8>)
    requires
        valid_utf8(a),
        valid_utf8(b),
    ensures
        valid_utf8(a + b),
        decode_utf8(a + b) == decode_utf8(a) + decode_utf8(b),
{
    vstd::utf8::valid_utf8_concat(a, b);
    vstd::utf8::decode_utf8_encode_utf8(a);
    vstd::utf8::decode_utf8_encode_utf8(b);
    lemma_encode_concat(decode_utf8(a), decode_utf8(b));
    vstd::utf8::encode_utf8_decode_utf8(decode_utf8(a) + decode_utf8(b));
}

/// A later place has no earlier next boundary.
pub proof fn lemma_next_boundary_monotonic(text: Seq<u8>, first: int, second: int)
    requires
        valid_utf8(text),
        0 <= first <= second <= text.len(),
    ensures
        next_boundary(text, first) <= next_boundary(text, second),
{
    lemma_next_boundary(text, first);
    lemma_next_boundary(text, second);
}

// lines ----------------------------------------------------------------------

/// A line begins where the text begins or a line end stands just before, and no line
/// end stands between there and the place asked for.
pub proof fn lemma_line_start(text: Seq<u8>, first: int, at: int)
    requires
        0 <= first <= at <= text.len(),
        first == 0 || text[first - 1] == newline(),
        forall|j: int| first <= j < at ==> text[j] != newline(),
    ensures
        line_start(text, at) == first,
    decreases at - first,
{
    if first < at {
        lemma_line_start(text, first, at - 1);
    }
}

/// A line ends where the text ends or a line end stands, and no line end stands
/// between the place asked for and there.
pub proof fn lemma_line_end(text: Seq<u8>, at: int, end: int)
    requires
        0 <= at <= end <= text.len(),
        end == text.len() || text[end] == newline(),
        forall|j: int| at <= j < end ==> text[j] != newline(),
    ensures
        line_end(text, at) == end,
    decreases end - at,
{
    if at < end {
        lemma_line_end(text, at + 1, end);
    }
}

/// The two codes: their lengths, and that neither holds a byte that ends a line.
pub proof fn lemma_codes()
    ensures
        encode_utf8(red_code()).len() == 5,
        encode_utf8(reset_code()).len() == 4,
        valid_utf8(encode_utf8(red_code())),
        valid_utf8(encode_utf8(reset_code())),
        decode_utf8(encode_utf8(red_code())) == red_code(),
        decode_utf8(encode_utf8(reset_code())) == reset_code(),
        forall|i: int|
            0 <= i < 5 ==> (#[trigger] encode_utf8(red_code())[i]) != newline() && encode_utf8(
                red_code(),
            )[i] != carriage_return(),
        forall|i: int|
            0 <= i < 4 ==> (#[trigger] encode_utf8(reset_code())[i]) != newline() && encode_utf8(
                reset_code(),
            )[i] != carriage_return(),
{
    vstd::utf8::encode_utf8_valid_utf8(red_code());
    vstd::utf8::encode_utf8_valid_utf8(reset_code());
    vstd::utf8::encode_utf8_decode_utf8(red_code());
    vstd::utf8::encode_utf8_decode_utf8(reset_code());
    vstd::utf8::is_ascii_chars_encode_utf8(red_code());
    vstd::utf8::is_ascii_chars_encode_utf8(reset_code());
}

/// The highlighted source, byte by byte.
pub proof fn lemma_highlighted(source: Seq<u8>, start: int, stop: int)
    requires
        0 <= start <= stop <= source.len(),
    ensures
        highlighted(source, start, stop).len() == source.len() + 9,
        highlighted(source, start, stop) == source.subrange(0, start) + encode_utf8(red_code())
            + source.subrange(start, stop) + encode_utf8(reset_code()) + source.subrange(
            stop,
            source.len() as int,
        ),
        forall|j: int|
            0 <= j < start ==> #[trigger] highlighted(source, start, stop)[j] == source[j],
        forall|j: int|
            start <= j < start + 5 ==> #[trigger] highlighted(source, start, stop)[j]
                == encode_utf8(red_code())[j - start],
        forall|j: int|
            start + 5 <= j < stop + 5 ==> #[trigger] highlighted(source, start, stop)[j] == source[j
                - 5],
        forall|j: int|
            stop + 5 <= j < stop + 9 ==> #[trigger] highlighted(source, start, stop)[j]
                == encode_utf8(reset_code())[j - stop - 5],
        forall|j: int|
            stop + 9 <= j < source.len() + 9 ==> #[trigger] highlighted(source, start, stop)[j]
                == source[j - 9],
{
    lemma_codes();
}

/// Where a line ends that runs from `from` up to the line end at `end`, once the
/// carriage return before the line end is left out.
pub open spec fn trimmed_end(text: Seq<u8>, from: int, end: int) -> int {
    if end < text.len() && from < end && text[end - 1] == carriage_return() {
        end - 1
    } else {
        end
    }
}

/// The line before the one on which a span starts is a line of the source.
pub proof fn lemma_line_before(source: Seq<u8>, start: int, stop: int, prior: int, first: int)
    requires
        0 <= prior < first <= start <= stop <= source.len(),
        source[first - 1] == newline(),
        prior == 0 || source[prior - 1] == newline(),
        forall|j: int| prior <= j < first - 1 ==> source[j] != newline(),
    ensures
        line_at(highlighted(source, start, stop), first - 1) == source.subrange(
            prior,
            trimmed_end(source, prior, first - 1),
        ),
{
    let shown = highlighted(source, start, stop);
    lemma_highlighted(source, start, stop);
    lemma_line_start(shown, prior, first - 1);
    lemma_line_end(shown, first - 1, first - 1);
}

/// The line on which a span starts, with the codes around the part of the span that
/// lies on it: the line runs from `first` to `end`, the span from `start` to `stop`.
pub open spec fn shown_line(source: Seq<u8>, first: int, start: int, stop: int, end: int) -> Seq<
    u8,
> {
    if end < stop {
        source.subrange(first, start) + encode_utf8(red_code()) + source.subrange(
            start,
            trimmed_end(source, start, end),
        )
    } else {
        source.subrange(first, start) + encode_utf8(red_code()) + source.subrange(start, stop)
            + encode_utf8(reset_code()) + source.subrange(stop, trimmed_end(source, stop, end))
    }
}

/// The line on which a span starts, as the highlighted source shows it: the codes stand
/// where the span starts and stops, and the reset code is missing where the span runs
/// on beyond the line.
pub proof fn lemma_line_shown(source: Seq<u8>, start: int, stop: int, first: int, end: int)
    requires
        0 <= first <= start <= stop <= source.len(),
        start <= end <= source.len(),
        first == 0 || source[first - 1] == newline(),
        forall|j: int| first <= j < start ==> source[j] != newline(),
        forall|j: int| start <= j < end ==> source[j] != newline(),
        end == source.len() || source[end] == newline(),
    ensures
        line_at(highlighted(source, start, stop), start) == shown_line(
            source,
            first,
            start,
            stop,
            end,
        ),
{
    let shown = highlighted(source, start, stop);
    lemma_codes();
    lemma_highlighted(source, start, stop);
    lemma_line_start(shown, first, start);
    if end < stop {
        lemma_line_end(shown, start, end + 5);
    } else {
        lemma_line_end(shown, start, end + 9);
    }
}

/// UTF-8 safety: a span is highlighted from the nearest place at or after its start
/// where a character begins up to the nearest such place at or after its end, and the
/// codes are set between characters. The highlighted text is
/// valid UTF-8, and what it holds beside the two codes is the source, character by
/// character.
pub proof fn law_highlight_keeps_characters(source: Seq<char>, start: int, end: int)
    requires
        span_fits(encode_utf8(source), start, end),
    ensures
        ({
            let bytes = encode_utf8(source);
            let begin = next_boundary(bytes, start);
            let stop = next_boundary(bytes, end);
            let head = decode_utf8(bytes.subrange(0, begin));
            let span = decode_utf8(bytes.subrange(begin, stop));
            let tail = decode_utf8(bytes.subrange(stop, bytes.len() as int));
            &&& start <= begin <= stop <= bytes.len()
            &&& end <= stop
            &&& is_char_boundary(bytes, begin)
            &&& is_char_boundary(bytes, stop)
            &&& forall|j: int| start <= j < begin ==> !is_char_boundary(bytes, j)
            &&& forall|j: int| end <= j < stop ==> !is_char_boundary(bytes, j)
            &&& valid_utf8(highlighted(bytes, begin, stop))
            &&& decode_utf8(highlighted(bytes, begin, stop)) == head + red_code() + span
                + reset_code() + tail
            &&& head + span + tail == source
        }),
{
    let bytes = encode_utf8(source);
    vstd::utf8::encode_utf8_valid_utf8(source);
    vstd::utf8::encode_utf8_decode_utf8(source);
    vstd::utf8::is_char_boundary_start_end_of_seq(bytes);
    lemma_next_boundary(bytes, start);
    lemma_next_boundary(bytes, end);
    lemma_next_boundary_monotonic(bytes, start, end);
    let start = next_boundary(bytes, start);
    let stop = next_boundary(bytes, end);
    let len = bytes.len() as int;
    let red = encode_utf8(red_code());
    let reset = encode_utf8(reset_code());
    lemma_codes();
    lemma_highlighted(bytes, start, stop);
    let a = bytes.subrange(0, start);
    let b = bytes.subrange(start, stop);
    let c = bytes.subrange(stop, len);
    lemma_valid_between(bytes, 0, start);
    lemma_valid_between(bytes, start, stop);
    lemma_valid_between(bytes, stop, len);
    lemma_decode_concat(a, red);
    lemma_decode_concat(a + red, b);
    lemma_decode_concat(a + red + b, reset);
    lemma_decode_concat(a + red + b + reset, c);
    lemma_decode_concat(a, b);
    lemma_decode_concat(a + b, c);
    assert(a + b + c =~= bytes);
}

/// Finds the end of the character at the given position: the first place behind `end`
/// where a character begins.
pub fn find_end(s: &str, end: usize) -> (found: usize)
    requires
        end < s.spec_bytes().len(),
    ensures
        found == next_boundary(s.spec_bytes(), end + 1),
        end < found <= s.spec_bytes().len(),
        is_char_boundary(s.spec_bytes(), found as int),
{
    let mut end = end;
    let len = s.as_bytes().len();
    let ghost first = end;
    proof {
        vstd::utf8::encode_utf8_valid_utf8(s@);
        vstd::utf8::is_char_boundary_start_end_of_seq(s.spec_bytes());
        lemma_next_boundary(s.spec_bytes(), first + 1);
    }
    while !s.is_char_boundary(end + 1)
        invariant
            first <= end < s.spec_bytes().len(),
            s.spec_bytes().len() == len,
            valid_utf8(s.spec_bytes()),
            is_char_boundary(s.spec_bytes(), s.spec_bytes().len() as int),
            next_boundary(s.spec_bytes(), first + 1) == next_boundary(s.spec_bytes(), end + 1),
        decreases len - end,
    {
        end += 1;
    }
    proof {
        lemma_next_boundary(s.spec_bytes(), end + 1);
    }
    end + 1
}

/// The first place at or after `at` where a character begins.
pub fn boundary_from(s: &str, at: usize) -> (found: usize)
    requires
        at <= s.spec_bytes().len(),
    ensures
        found == next_boundary(s.spec_bytes(), at as int),
        at <= found <= s.spec_bytes().len(),
        is_char_boundary(s.spec_bytes(), found as int),
{
    proof {
        vstd::utf8::encode_utf8_valid_utf8(s@);
        lemma_next_boundary(s.spec_bytes(), at as int);
    }
    if at == 0 {
        0
    } else {
        find_end(s, at - 1)
    }
}

/// The part of a string between two places where characters begin.
pub fn slice<'a>(s: &'a str, from: usize, to: usize) -> (part: &'a str)
    requires
        from <= to <= s.spec_bytes().len(),
        is_char_boundary(s.spec_bytes(), from as int),
        is_char_boundary(s.spec_bytes(), to as int),
    ensures
        part.spec_bytes() == s.spec_bytes().subrange(from as int, to as int),
        part@ == decode_utf8(s.spec_bytes().subrange(from as int, to as int)),
{
    proof {
        vstd::utf8::encode_utf8_valid_utf8(s@);
        lemma_boundary_in_prefix(s.spec_bytes(), from as int, to as int);
    }
    let (head, _) = s.split_at(to);
    let (_, part) = head.split_at(from);
    proof {
        vstd::utf8::encode_utf8_decode_utf8(part@);
    }
    part
}

/// Where a place stands among the lines of a text.
pub struct Place {
    /// How many lines end before the place.
    pub line: usize,
    /// Where the line of the place begins.
    pub first: usize,
    /// Where the line before begins, if `line` is not zero.
    pub prior: usize,
}

/// Whether `place` is the place of `at` among the lines of a text.
pub open spec fn place_of(text: Seq<u8>, at: int, place: Place) -> bool {
    &&& place.line == lines_before(text, at)
    &&& place.first == line_start(text, at)
    &&& place.first <= at <= text.len()
    &&& place.line <= at
    &&& place.first == 0 || text[place.first - 1] == newline()
    &&& forall|j: int| place.first <= j < at ==> text[j] != newline()
    &&& place.line == 0 ==> place.first == 0
    &&& place.line > 0 ==> {
        &&& place.prior < place.first
        &&& place.prior == line_start(text, place.first - 1)
        &&& place.prior == 0 || text[place.prior - 1] == newline()
        &&& forall|j: int| place.prior <= j < place.first - 1 ==> text[j] != newline()
    }
}

/// Finds the line of a place: its index, where it begins, and where the line before
/// it begins.
pub fn locate(text: &[u8], at: usize) -> (place: Place)
    requires
        at <= text@.len(),
    ensures
        place_of(text@, at as int, place),
{
    let mut place = Place { line: 0, first: 0, prior: 0 };
    let mut i: usize = 0;
    while i < at
        invariant
            i <= at <= text@.len(),
            place_of(text@, i as int, place),
        decreases at - i,
    {
        if text[i] == 0x0a {
            place.line += 1;
            place.prior = place.first;
            place.first = i + 1;
        }
        i += 1;
    }
    place
}

/// Finds where the line of a place ends.
pub fn scan_line_end(text: &[u8], at: usize) -> (end: usize)
    requires
        at <= text@.len(),
    ensures
        end == line_end(text@, at as int),
        at <= end <= text@.len(),
        end == text@.len() || text@[end as int] == newline(),
        forall|j: int| at <= j < end ==> text@[j] != newline(),
{
    let mut end = at;
    while end < text.len() && text[end] != 0x0a
        invariant
            at <= end <= text@.len(),
            forall|j: int| at <= j < end ==> text@[j] != newline(),
        decreases text@.len() - end,
    {
        end += 1;
    }
    proof {
        lemma_line_end(text@, at as int, end as int);
    }
    end
}

/// Leaves out the carriage return before a line end.
pub fn trim_end(text: &[u8], from: usize, end: usize) -> (trimmed: usize)
    requires
        from <= end <= text@.len(),
    ensures
        trimmed == trimmed_end(text@, from as int, end as int),
        from <= trimmed <= end,
{
    if end < text.len() && from < end && text[end - 1] == 0x0d {
        end - 1
    } else {
        end
    }
}

/// Appends a one-character string `count` times.
pub fn push_times(out: &mut String, unit: &str, count: usize)
    requires
        unit@.len() == 1,
    ensures
        final(out)@ == old(out)@ + repeated(unit@[0], count as nat),
{
    let mut i: usize = 0;
    while i < count
        invariant
            i <= count,
            unit@.len() == 1,
            out@ == old(out)@ + repeated(unit@[0], i as nat),
        decreases count - i,
    {
        out.append(unit);
        i += 1;
    }
}

/// Appends a line number set to the right in a field `width` wide, a colon and a
/// space.
pub fn push_line_number(out: &mut String, number: u128, width: usize)
    requires
        decimal(number as nat).len() <= width,
    ensures
        final(out)@ == old(out)@ + repeated(' ', (width - decimal(number as nat).len()) as nat)
            + decimal(number as nat) + ": "@,
{
    let mut numeral = String::new();
    push_decimal(&mut numeral, number);
    let len = numeral.as_str().unicode_len();
    proof {
        reveal_strlit(" ");
    }
    push_times(out, " ", width - len);
    out.append(numeral.as_str());
    out.append(": ");
}

/// Appends the line before the one of `place`, under its number.
fn push_line_before(out: &mut String, input: &str, place: &Place, width: usize)
    requires
        place.line > 0,
        place.prior < place.first <= input.spec_bytes().len(),
        input.spec_bytes()[place.first - 1] == newline(),
        place.prior == 0 || input.spec_bytes()[place.prior - 1] == newline(),
        decimal(place.line as nat).len() <= width,
    ensures
        final(out)@ == old(out)@ + numbered_line(
            place.line as nat,
            width as nat,
            input.spec_bytes().subrange(
                place.prior as int,
                trimmed_end(input.spec_bytes(), place.prior as int, place.first - 1),
            ),
        ),
{
    let source = input.as_bytes();
    let ghost bytes = input.spec_bytes();
    let last = trim_end(source, place.prior, place.first - 1);
    proof {
        vstd::utf8::encode_utf8_valid_utf8(input@);
        lemma_boundary_after_ascii(bytes, place.first - 1);
        if place.prior > 0 {
            lemma_boundary_after_ascii(bytes, place.prior - 1);
        }
        if last < place.first - 1 {
            lemma_boundary_after_ascii(bytes, last as int);
        }
    }
    push_line_number(out, place.line as u128, width);
    out.append(slice(input, place.prior, last));
    out.append("\n");
}

/// Appends the line that runs from `first` to `end`, the codes around the part of the
/// span from `start` to `stop` that lies on it.
fn push_shown_line(
    out: &mut String,
    input: &str,
    first: usize,
    start: usize,
    stop: usize,
    end: usize,
)
    requires
        first <= start <= stop <= input.spec_bytes().len(),
        start <= end <= input.spec_bytes().len(),
        is_char_boundary(input.spec_bytes(), first as int),
        is_char_boundary(input.spec_bytes(), start as int),
        is_char_boundary(input.spec_bytes(), stop as int),
        end == input.spec_bytes().len() || input.spec_bytes()[end as int] == newline(),
    ensures
        final(out)@ == old(out)@ + decode_utf8(
            shown_line(input.spec_bytes(), first as int, start as int, stop as int, end as int),
        ),
{
    let source = input.as_bytes();
    let ghost bytes = input.spec_bytes();
    let ghost head = bytes.subrange(first as int, start as int);
    let ghost red = encode_utf8(red_code());
    let ghost reset = encode_utf8(reset_code());
    proof {
        vstd::utf8::encode_utf8_valid_utf8(input@);
        vstd::utf8::is_char_boundary_start_end_of_seq(bytes);
        lemma_codes();
        if end < bytes.len() {
            lemma_boundary_after_ascii(bytes, end as int);
        }
        lemma_valid_between(bytes, first as int, start as int);
        reveal_strlit("\x1B[31m");
        reveal_strlit("\x1B[0m");
        lemma_decode_concat(head, red);
    }
    out.append(slice(input, first, start));
    out.append("\x1B[31m");
    if end < stop {
        let last = trim_end(source, start, end);
        proof {
            if last < end {
                lemma_boundary_after_ascii(bytes, last as int);
            }
            lemma_valid_between(bytes, start as int, last as int);
            lemma_decode_concat(head + red, bytes.subrange(start as int, last as int));
        }
        out.append(slice(input, start, last));
    } else {
        let last = trim_end(source, stop, end);
        proof {
            if last < end {
                lemma_boundary_after_ascii(bytes, last as int);
            }
            lemma_valid_between(bytes, start as int, stop as int);
            lemma_valid_between(bytes, stop as int, last as int);
            let middle = bytes.subrange(start as int, stop as int);
            lemma_decode_concat(head + red, middle);
            lemma_decode_concat(head + red + middle, reset);
            lemma_decode_concat(
                head + red + middle + reset,
                bytes.subrange(stop as int, last as int),
            );
        }
        out.append(slice(input, start, stop));
        out.append("\x1B[0m");
        out.append(slice(input, stop, last));
    }
}

/// Appends the row of dashes that leads to the caret.
fn push_caret_line(out: &mut String, column: usize, width: usize)
    ensures
        final(out)@ == old(out)@ + repeated('-', (column + width + 2) as nat) + "^\n"@,
{
    proof {
        reveal_strlit("-");
    }
    push_times(out, "-", column);
    push_times(out, "-", width);
    push_times(out, "-", 2);
    out.append("^\n");
}

/// The excerpt for a span of the input: the line on which the span starts with the
/// span highlighted in it, the line before, and a caret under the column where the
/// span starts.
pub fn error_line(input: &str, range: Range<usize>) -> (text: String)
    requires
        span_fits(input.spec_bytes(), range.start as int, range.end as int),
    ensures
        text@ == excerpt(input.spec_bytes(), range.start as int, range.end as int),
{
    let source = input.as_bytes();
    let ghost bytes = input.spec_bytes();
    proof {
        vstd::utf8::encode_utf8_valid_utf8(input@);
        lemma_next_boundary(bytes, range.start as int);
        lemma_next_boundary(bytes, range.end as int);
        lemma_next_boundary_monotonic(bytes, range.start as int, range.end as int);
    }
    // no code may stand inside a character
    let start_pos = boundary_from(input, range.start);
    let stop = boundary_from(input, range.end);
    let place = locate(source, start_pos);
    let end = scan_line_end(source, start_pos);
    let number: u128 = place.line as u128 + 1;
    let mut numeral = String::new();
    push_decimal(&mut numeral, number);
    let width = numeral.as_str().unicode_len();
    let mut text = String::new();
    // print the line and the previous one
    if place.line > 0 {
        proof {
            lemma_decimal_len_monotonic((number - 1) as nat, number as nat);
            lemma_line_before(
                bytes,
                start_pos as int,
                stop as int,
                place.prior as int,
                place.first as int,
            );
        }
        push_line_before(&mut text, input, &place, width);
    }
    proof {
        if place.first > 0 {
            lemma_boundary_after_ascii(bytes, place.first - 1);
        }
        lemma_line_shown(bytes, start_pos as int, stop as int, place.first as int, end as int);
    }
    push_line_number(&mut text, number, width);
    push_shown_line(&mut text, input, place.first, start_pos, stop, end);
    text.append("\n");
    push_caret_line(&mut text, start_pos - place.first, width);
    text
}

} // verus!
