//! The cursor that rendering writes through: a buffer and an indentation level.

use vstd::prelude::*;
use crate::paint::{ErrorMarks, Marks};
use crate::render::{program_whole, render_program};
use crate::resolved_ast::Program;

verus! {

/// Four spaces, the width of one indentation level.
pub open spec fn indent_unit() -> Seq<char> {
    seq![' ', ' ', ' ', ' ']
}

/// The whitespace that opens a line at the given indentation level.
pub open spec fn indentation(level: nat) -> Seq<char>
    decreases level,
{
    if level == 0 {
        Seq::empty()
    } else {
        indentation((level - 1) as nat) + indent_unit()
    }
}

/// The state of rendering: the text written so far, and the current indentation level.
pub struct Formatter {
    pub indent_level: usize,
    pub string: String,
}

impl Formatter {
    /// An empty buffer at indentation level zero.
    pub fn new() -> (fmt: Self)
        ensures
            fmt.indent_level == 0,
            fmt.string@ == Seq::<char>::empty(),
    {
        Self { indent_level: 0, string: String::new() }
    }

    /// One level deeper.
    pub fn indent(&mut self)
        requires
            old(self).indent_level < usize::MAX,
        ensures
            final(self).indent_level == old(self).indent_level + 1,
            final(self).string@ == old(self).string@,
    {
        self.indent_level += 1;
    }

    /// One level back. There is no level below zero.
    pub fn unindent(&mut self)
        requires
            old(self).indent_level > 0,
        ensures
            final(self).indent_level == old(self).indent_level - 1,
            final(self).string@ == old(self).string@,
    {
        self.indent_level -= 1;
    }

    /// Appends the whitespace of the current level.
    pub fn push_indent(&mut self)
        ensures
            final(self).indent_level == old(self).indent_level,
            final(self).string@ == old(self).string@ + indentation(old(self).indent_level as nat),
    {
        let mut i: usize = 0;
        while i < self.indent_level
            invariant
                i <= self.indent_level,
                self.indent_level == old(self).indent_level,
                self.string@ == old(self).string@ + indentation(i as nat),
            decreases self.indent_level - i,
        {
            proof {
                reveal_strlit("    ");
            }
            self.string.append("    ");
            i += 1;
        }
    }

    /// Appends the whitespace of the current level, then `s`.
    pub fn push_str_indented(&mut self, s: &str)
        ensures
            final(self).indent_level == old(self).indent_level,
            final(self).string@ == old(self).string@ + indentation(old(self).indent_level as nat)
                + s@,
    {
        self.push_indent();
        self.string.append(s);
    }

    /// Appends the whitespace of the current level, then `s`.
    pub fn push_string_indented(&mut self, s: String)
        ensures
            final(self).indent_level == old(self).indent_level,
            final(self).string@ == old(self).string@ + indentation(old(self).indent_level as nat)
                + s@,
    {
        self.push_indent();
        self.string.append(s.as_str());
    }

    /// Appends `s`.
    pub fn push_str(&mut self, s: &str)
        ensures
            final(self).indent_level == old(self).indent_level,
            final(self).string@ == old(self).string@ + s@,
    {
        self.string.append(s);
    }

    /// Appends `s`.
    pub fn push_string(&mut self, s: String)
        ensures
            final(self).indent_level == old(self).indent_level,
            final(self).string@ == old(self).string@ + s@,
    {
        self.string.append(s.as_str());
    }
}

/// A node that can be written as canonical text.
pub trait Format {
    /// The node's canonical text at an indentation level, placeholders drawn as `marks`.
    spec fn rendered(&self, level: nat, marks: Marks) -> Seq<char>;

    /// How many indentation levels the node opens inside itself.
    spec fn depth(&self) -> nat;

    /// Whether every reference inside the node leads somewhere.
    spec fn well_formed(&self) -> bool;

    /// Whether the node holds no placeholder.
    spec fn whole(&self) -> bool;

    /// The text of a node without placeholders does not depend on how placeholders are
    /// drawn.
    proof fn whole_ignores_marks(&self, level: nat, first: Marks, second: Marks)
        requires
            self.whole(),
        ensures
            self.rendered(level, first) == self.rendered(level, second),
    ;

    /// Appends the node's canonical text, placeholders drawn as `marks`. The
    /// indentation level is afterwards what it was.
    fn format_with(&self, fmt: &mut Formatter, marks: &ErrorMarks)
        requires
            self.well_formed(),
            old(fmt).indent_level + self.depth() <= usize::MAX,
        ensures
            final(fmt).indent_level == old(fmt).indent_level,
            final(fmt).string@ == old(fmt).string@ + self.rendered(
                old(fmt).indent_level as nat,
                marks@,
            ),
    ;

    /// Appends the node's canonical text, placeholders painted red as far as the
    /// terminal's settings allow. Where the node holds no placeholder, the text is the
    /// same for every terminal.
    fn format(&self, fmt: &mut Formatter)
        requires
            self.well_formed(),
            old(fmt).indent_level + self.depth() <= usize::MAX,
        ensures
            final(fmt).indent_level == old(fmt).indent_level,
            exists|marks: Marks|
                marks.painted() && final(fmt).string@ == old(fmt).string@
                    + #[trigger] self.rendered(old(fmt).indent_level as nat, marks),
            self.whole() ==> final(fmt).string@ == old(fmt).string@ + self.rendered(
                old(fmt).indent_level as nat,
                Marks::plain(),
            ),
    ;
}

/// The canonical text of a resolved program, placeholders drawn as `marks`.
pub fn format_with(input: &Program, marks: &ErrorMarks) -> (text: String)
    requires
        input.well_formed(),
        input.depth() <= usize::MAX,
    ensures
        text@ == render_program(input@, 0, marks@),
{
    let mut formatter = Formatter { indent_level: 0, string: String::new() };
    input.format_with(&mut formatter, marks);
    formatter.string
}

/// The canonical text of a resolved program, placeholders painted red as far as the
/// terminal's settings allow.
pub fn format(input: &Program) -> (text: String)
    requires
        input.well_formed(),
        input.depth() <= usize::MAX,
    ensures
        exists|marks: Marks|
            marks.painted() && text@ == #[trigger] render_program(input@, 0, marks),
        program_whole(input@) ==> text@ == render_program(input@, 0, Marks::plain()),
{
    let mut formatter = Formatter { indent_level: 0, string: String::new() };
    input.format(&mut formatter);
    formatter.string
}

/// The canonical text of a resolved program, or nothing where an item names a function
/// that the table does not hold or the program is deeper than a `usize` can count.
pub fn try_format(input: &Program) -> (text: Option<String>)
    ensures
        text is Some <==> input.well_formed() && input.depth() < usize::MAX,
        text matches Some(text) ==> exists|marks: Marks|
            marks.painted() && text@ == #[trigger] render_program(input@, 0, marks),
        text matches Some(text) ==> (program_whole(input@) ==> text@ == render_program(
            input@,
            0,
            Marks::plain(),
        )),
{
    if input.resolves() && input.nesting() < usize::MAX {
        Some(format(input))
    } else {
        None
    }
}

} // verus!
