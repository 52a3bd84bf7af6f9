//! Red paint for a terminal, and the text that stands for what could not be parsed.

use vstd::prelude::*;
use colored::Colorize;

verus! {

/// The escape sequence that switches a terminal's foreground to red.
pub open spec fn red_code() -> Seq<char> {
    seq!['\u{1b}', '[', '3', '1', 'm']
}

/// The escape sequence that switches a terminal back to its defaults.
pub open spec fn reset_code() -> Seq<char> {
    seq!['\u{1b}', '[', '0', 'm']
}

/// The text as `colored` hands it on between its colour codes: behind every reset
/// code that the text holds, the red code switches the colour on again.
pub open spec fn reset_escaped(text: Seq<char>) -> Seq<char>
    decreases text.len(),
{
    if text.len() < 4 {
        text
    } else if text.take(4) == reset_code() {
        reset_code() + red_code() + reset_escaped(text.skip(4))
    } else {
        seq![text[0]] + reset_escaped(text.skip(1))
    }
}

/// What painting a text red may give: the text as it is, or the text between the red
/// code and the reset code, either of the two parts before the reset code being as
/// `colored` makes it or as it was.
pub open spec fn red_outcome(text: Seq<char>, painted: Seq<char>) -> bool {
    ||| painted == text
    ||| painted == red_code() + reset_escaped(text) + reset_code()
    ||| painted == red_code() + text + reset_code()
    ||| painted == reset_escaped(text) + reset_code()
    ||| painted == text + reset_code()
}

/// What painting a text red may give when the text holds no escape character: the text
/// as it is, the text between the two codes, or the text before the reset code alone.
pub open spec fn painted_red(text: Seq<char>, painted: Seq<char>) -> bool {
    ||| painted == text
    ||| painted == red_code() + text + reset_code()
    ||| painted == text + reset_code()
}

/// A text without an escape character holds no reset code to switch the colour on
/// behind.
pub proof fn lemma_nothing_to_escape(text: Seq<char>)
    requires
        !text.contains('\u{1b}'),
    ensures
        reset_escaped(text) == text,
    decreases text.len(),
{
    if text.len() >= 4 {
        assert(text.take(4)[0] == text[0]);
        assert(text.contains(text[0]));
        let rest = text.skip(1);
        assert forall|c: char| rest.contains(c) implies text.contains(c) by {
            let i = choose|i: int| 0 <= i < rest.len() && rest[i] == c;
            assert(text[i + 1] == c);
        }
        lemma_nothing_to_escape(rest);
        assert(seq![text[0]] + rest =~= text);
    }
}

/// `Colorize::red` of `colored`, then its `Display`.
///
/// `colored` writes the text as it is where colouring is switched off, and else the
/// red code, the text with the colour switched on again behind its reset codes, and
/// the reset code. Colouring is a switch of the whole process, set from the
/// environment or by hand, and `colored` asks for it anew before each part; the
/// contract lists what can come of that.
#[verifier::external_body]
pub(crate) fn red(text: &str) -> (painted: String)
    ensures
        red_outcome(text@, painted@),
{
    text.red().to_string()
}

/// The text drawn for a placeholder, in expression and in statement position.
pub struct Marks {
    pub expression: Seq<char>,
    pub statement: Seq<char>,
}

impl Marks {
    /// The marks without paint.
    pub open spec fn plain() -> Marks {
        Marks { expression: "error"@, statement: "error!\n"@ }
    }

    /// Whether both marks are what painting the plain marks red may give.
    pub open spec fn painted(self) -> bool {
        &&& painted_red("error"@, self.expression)
        &&& painted_red("error!\n"@, self.statement)
    }
}

/// How a renderer draws placeholders.
pub struct ErrorMarks {
    pub expression: String,
    pub statement: String,
}

impl View for ErrorMarks {
    type V = Marks;

    open spec fn view(&self) -> Marks {
        Marks { expression: self.expression@, statement: self.statement@ }
    }
}

impl ErrorMarks {
    /// The marks without paint, whatever the terminal.
    pub fn plain() -> (marks: Self)
        ensures
            marks@ == Marks::plain(),
    {
        ErrorMarks {
            expression: String::from_str("error"),
            statement: String::from_str("error!\n"),
        }
    }

    /// The marks painted red, as far as colouring is switched on.
    pub fn painted() -> (marks: Self)
        ensures
            marks@.painted(),
    {
        proof {
            reveal_strlit("error");
            reveal_strlit("error!\n");
            lemma_nothing_to_escape("error"@);
            lemma_nothing_to_escape("error!\n"@);
        }
        ErrorMarks { expression: red("error"), statement: red("error!\n") }
    }
}

} // verus!
