//! What to tell the user of a parse error: a message, and the place in the source.

use vstd::prelude::*;
use vstd::string::StringSliceAdditionalSpecFns;
use std::ops::Range;
use crate::excerpt::{error_line, excerpt, span_fits};
use crate::paint::{red, red_outcome};
use crate::text::{decimal, join, join_strings, push_decimal, strings_view};

verus! {

/// A parse error, with the text of the token it speaks of.
#[derive(Debug)]
pub enum ParseError {
    /// No token begins at the place.
    InvalidToken { location: usize },
    /// The input ended where one of the expected tokens had to follow.
    UnrecognizedEOF { location: usize, expected: Vec<String> },
    /// A token stands where one of the expected tokens had to stand: where it starts,
    /// its text, and where it ends.
    UnrecognizedToken { token: (usize, String, usize), expected: Vec<String> },
    /// A token stands behind the end of the program.
    ExtraToken { token: (usize, String, usize) },
    /// An error of the grammar's own.
    User { error: String },
}

/// The model of a parse error.
pub enum ParseErrorModel {
    InvalidToken { location: nat },
    UnrecognizedEOF { location: nat, expected: Seq<Seq<char>> },
    UnrecognizedToken { start: nat, token: Seq<char>, end: nat, expected: Seq<Seq<char>> },
    ExtraToken { start: nat, token: Seq<char>, end: nat },
    User { error: Seq<char> },
}

impl View for ParseError {
    type V = ParseErrorModel;

    open spec fn view(&self) -> ParseErrorModel {
        match self {
            ParseError::InvalidToken { location } => ParseErrorModel::InvalidToken {
                location: *location as nat,
            },
            ParseError::UnrecognizedEOF { location, expected } => ParseErrorModel::UnrecognizedEOF {
                location: *location as nat,
                expected: strings_view(expected@),
            },
            ParseError::UnrecognizedToken { token, expected } => {
                ParseErrorModel::UnrecognizedToken {
                    start: token.0 as nat,
                    token: token.1@,
                    end: token.2 as nat,
                    expected: strings_view(expected@),
                }
            },
            ParseError::ExtraToken { token } => ParseErrorModel::ExtraToken {
                start: token.0 as nat,
                token: token.1@,
                end: token.2 as nat,
            },
            ParseError::User { error } => ParseErrorModel::User { error: error@ },
        }
    }
}

/// The text of a string that may be missing.
pub open spec fn text_of(string: Option<String>) -> Option<Seq<char>> {
    match string {
        Some(text) => Some(text@),
        None => None,
    }
}

/// The places where a range starts and ends, if there is one.
pub open spec fn places_of(range: Option<Range<usize>>) -> Option<(int, int)> {
    match range {
        Some(range) => Some((range.start as int, range.end as int)),
        None => None,
    }
}

/// The words that say where a token was found.
pub open spec fn found_at(start: nat, end: nat) -> Seq<char> {
    "` found at "@ + decimal(start) + ".."@ + decimal(end)
}

/// The message of a parse error, before it is painted.
pub open spec fn headline(error: ParseErrorModel) -> Seq<char> {
    match error {
        ParseErrorModel::InvalidToken { location } => "Invalid token at "@ + decimal(location),
        ParseErrorModel::UnrecognizedEOF { location, expected } =>
            "Unexpected end of file. Expected one of "@ + join(expected, ", "@),
        ParseErrorModel::UnrecognizedToken { start, token, end, expected } =>
            "Unrecognized token `"@ + token + found_at(start, end),
        ParseErrorModel::ExtraToken { start, token, end } => "Extra token `"@ + token + found_at(
            start,
            end,
        ),
        ParseErrorModel::User { error } => error,
    }
}

/// What is painted after the message, if anything: the painted message behind its
/// title where the input ended early, and the expected tokens where another token was
/// found.
pub open spec fn follow_up(error: ParseErrorModel, painted: Seq<char>) -> Option<Seq<char>> {
    match error {
        ParseErrorModel::UnrecognizedEOF { location, expected } => Some(
            "Parse error: "@ + painted,
        ),
        ParseErrorModel::UnrecognizedToken { start, token, end, expected } => Some(
            "Expected: "@ + join(expected, " or "@),
        ),
        _ => None,
    }
}

/// The span of the source that a parse error speaks of, if it speaks of one.
pub open spec fn span_of(error: ParseErrorModel) -> Option<(int, int)> {
    match error {
        ParseErrorModel::InvalidToken { location } => Some((location as int, location as int + 1)),
        ParseErrorModel::UnrecognizedToken { start, token, end, expected } => Some(
            (start as int, end as int),
        ),
        ParseErrorModel::ExtraToken { start, token, end } => Some((start as int, end as int)),
        _ => None,
    }
}

/// Whether the span that a parse error speaks of can be shown in a source.
pub open spec fn error_fits(error: ParseErrorModel, source: Seq<u8>) -> bool {
    span_of(error) matches Some(span) ==> span_fits(source, span.0, span.1)
}

/// The excerpt for the span of a parse error, or nothing where it speaks of none.
pub open spec fn excerpt_of(error: ParseErrorModel, source: Seq<u8>) -> Seq<char> {
    match span_of(error) {
        Some(span) => excerpt(source, span.0, span.1),
        None => Seq::empty(),
    }
}

/// What is written to the error channel for a parse error, given its painted message
/// and what was painted after it: the message first, then the excerpt of the source
/// where the error speaks of a span.
pub open spec fn report(
    error: ParseErrorModel,
    source: Seq<u8>,
    first: Seq<char>,
    second: Option<Seq<char>>,
) -> Seq<char> {
    match error {
        ParseErrorModel::InvalidToken { location } => "Parse error: "@ + first + "\n"@
            + excerpt_of(error, source),
        ParseErrorModel::UnrecognizedEOF { location, expected } => second.unwrap() + "\n"@,
        ParseErrorModel::UnrecognizedToken { start, token, end, expected } => first + "\n"@
            + second.unwrap() + "\n"@ + excerpt_of(error, source),
        ParseErrorModel::ExtraToken { start, token, end } => first + "\n"@ + excerpt_of(
            error,
            source,
        ),
        ParseErrorModel::User { error } => first + "\n"@,
    }
}

/// Whether a text is one that may be written for a parse error: its message painted
/// red in one of the ways painting may come out, and so what follows the message.
pub open spec fn reports(error: ParseErrorModel, source: Seq<u8>, shown: Seq<char>) -> bool {
    exists|first: Seq<char>, second: Option<Seq<char>>|
        {
            &&& red_outcome(headline(error), first)
            &&& match follow_up(error, first) {
                Some(text) => second matches Some(painted) && red_outcome(text, painted),
                None => second is None,
            }
            &&& shown == #[trigger] report(error, source, first, second)
        }
}

impl ParseError {
    /// The message of the error, before it is painted.
    pub fn headline(&self) -> (message: String)
        ensures
            message@ == headline(self@),
    {
        match self {
            ParseError::InvalidToken { location } => {
                let mut message = String::from_str("Invalid token at ");
                push_decimal(&mut message, *location as u128);
                message
            },
            ParseError::UnrecognizedEOF { location: _, expected } => {
                let mut message = String::from_str("Unexpected end of file. Expected one of ");
                message.append(join_strings(expected, ", ").as_str());
                message
            },
            ParseError::UnrecognizedToken { token, expected: _ } => {
                let mut message = String::from_str("Unrecognized token `");
                message.append(token.1.as_str());
                push_found_at(&mut message, token.0, token.2);
                message
            },
            ParseError::ExtraToken { token } => {
                let mut message = String::from_str("Extra token `");
                message.append(token.1.as_str());
                push_found_at(&mut message, token.0, token.2);
                message
            },
            ParseError::User { error } => error.clone(),
        }
    }

    /// What is painted after the message, given the painted message.
    pub fn follow_up(&self, painted: &str) -> (text: Option<String>)
        ensures
            text_of(text) == follow_up(self@, painted@),
    {
        match self {
            ParseError::UnrecognizedEOF { location: _, expected: _ } => {
                let mut text = String::from_str("Parse error: ");
                text.append(painted);
                Some(text)
            },
            ParseError::UnrecognizedToken { token: _, expected } => {
                let mut text = String::from_str("Expected: ");
                text.append(join_strings(expected, " or ").as_str());
                Some(text)
            },
            _ => None,
        }
    }

    /// Whether the span that the error speaks of lies in the input.
    pub fn fits(&self, input: &str) -> (fits: bool)
        ensures
            fits == error_fits(self@, input.spec_bytes()),
    {
        let len = input.as_bytes().len();
        match self {
            ParseError::InvalidToken { location } => *location < len,
            ParseError::UnrecognizedToken { token, expected: _ } => token.0 <= token.2 && token.2
                <= len,
            ParseError::ExtraToken { token } => token.0 <= token.2 && token.2 <= len,
            _ => true,
        }
    }

    /// The span of the input that the error speaks of, if it speaks of one.
    pub fn span(&self) -> (span: Option<Range<usize>>)
        requires
            span_of(self@) matches Some(span) ==> span.1 <= usize::MAX,
        ensures
            places_of(span) == span_of(self@),
    {
        match self {
            ParseError::InvalidToken { location } => Some(*location..*location + 1),
            ParseError::UnrecognizedToken { token, expected: _ } => Some(token.0..token.2),
            ParseError::ExtraToken { token } => Some(token.0..token.2),
            _ => None,
        }
    }
}

/// Appends the words that say where a token was found.
fn push_found_at(out: &mut String, start: usize, end: usize)
    ensures
        final(out)@ == old(out)@ + found_at(start as nat, end as nat),
{
    out.append("` found at ");
    push_decimal(out, start as u128);
    out.append("..");
    push_decimal(out, end as u128);
}

/// Puts together what is written for a parse error from a painted message, what was
/// painted after it, and the excerpt of the input.
pub fn compose_report(
    error: &ParseError,
    input: &str,
    first: String,
    second: Option<String>,
) -> (shown: String)
    requires
        error_fits(error@, input.spec_bytes()),
        follow_up(error@, first@) is Some ==> second is Some,
    ensures
        shown@ == report(error@, input.spec_bytes(), first@, text_of(second)),
{
    let excerpt = match error.span() {
        Some(span) => error_line(input, span),
        None => String::new(),
    };
    match error {
        ParseError::InvalidToken { location: _ } => {
            let mut shown = String::from_str("Parse error: ");
            shown.append(first.as_str());
            shown.append("\n");
            shown.append(excerpt.as_str());
            shown
        },
        ParseError::UnrecognizedEOF { location: _, expected: _ } => {
            let mut shown = second.unwrap();
            shown.append("\n");
            shown
        },
        ParseError::UnrecognizedToken { token: _, expected: _ } => {
            let mut shown = first;
            shown.append("\n");
            shown.append(second.unwrap().as_str());
            shown.append("\n");
            shown.append(excerpt.as_str());
            shown
        },
        ParseError::ExtraToken { token: _ } => {
            let mut shown = first;
            shown.append("\n");
            shown.append(excerpt.as_str());
            shown
        },
        ParseError::User { error: _ } => {
            let mut shown = first;
            shown.append("\n");
            shown
        },
    }
}

/// What is to be written to the error channel for a parse error: the message, painted
/// red as far as colouring is switched on, and behind it the excerpt of the input.
pub fn parse_error_report(error: &ParseError, input: &str) -> (shown: String)
    requires
        error_fits(error@, input.spec_bytes()),
    ensures
        reports(error@, input.spec_bytes(), shown@),
{
    let message = error.headline();
    let first = red(message.as_str());
    let second = match error.follow_up(first.as_str()) {
        Some(text) => Some(red(text.as_str())),
        None => None,
    };
    compose_report(error, input, first, second)
}

/// What is to be written for each of the errors in the given input, in their order.
pub fn parse_errors_report(errs: &Vec<ParseError>, input: &str) -> (shown: Vec<String>)
    requires
        forall|i: int|
            0 <= i < errs@.len() ==> error_fits(#[trigger] errs@[i]@, input.spec_bytes()),
    ensures
        shown@.len() == errs@.len(),
        forall|i: int|
            0 <= i < errs@.len() ==> reports(errs@[i]@, input.spec_bytes(), #[trigger] shown@[i]@),
{
    let mut shown: Vec<String> = Vec::new();
    let mut i: usize = 0;
    while i < errs.len()
        invariant
            i <= errs.len(),
            shown@.len() == i,
            forall|j: int|
                0 <= j < errs@.len() ==> error_fits(#[trigger] errs@[j]@, input.spec_bytes()),
            forall|j: int|
                0 <= j < i ==> reports(errs@[j]@, input.spec_bytes(), #[trigger] shown@[j]@),
        decreases errs.len() - i,
    {
        shown.push(parse_error_report(&errs[i], input));
        i += 1;
    }
    shown
}

} // verus!
