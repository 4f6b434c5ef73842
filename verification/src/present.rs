//! Rendering of matched entries into output lines.

use vstd::prelude::*;

use colored::Colorize;

use crate::entry::Entry;
use crate::entry::EntryView;
use crate::text::is_substring;

verus! {

/// The terminal reset sequence that styling emits after styled text.
pub open spec fn reset_sequence() -> Seq<char> {
    seq!['\u{1b}', '[', '0', 'm']
}

/// `s` holds a terminal reset sequence of its own.
pub open spec fn contains_reset(s: Seq<char>) -> bool {
    is_substring(reset_sequence(), s)
}

/// An output line: a leading space, some rendering of the acronym, a colon
/// and a space, then the definition.
pub open spec fn line_around(acronym_text: Seq<char>, definition: Seq<char>) -> Seq<char> {
    seq![' '] + acronym_text + seq![':', ' '] + definition
}

/// The unstyled output line for an entry.
pub open spec fn plain_line(e: EntryView) -> Seq<char> {
    line_around(e.acronym, e.definition)
}

/// A styled output line for an entry: the acronym stands intact between
/// possibly empty styling sequences, and the rest of the line is as in the
/// unstyled form.
pub open spec fn styled_line_ok(line: Seq<char>, e: EntryView) -> bool {
    exists|before: Seq<char>, after: Seq<char>|
        line == line_around(before + e.acronym + after, e.definition)
}

/// An output line that frames some rendering of the acronym while carrying
/// the entry's definition unchanged.
pub open spec fn line_carries_definition(line: Seq<char>, e: EntryView) -> bool {
    exists|acronym_text: Seq<char>| line == line_around(acronym_text, e.definition)
}

/// Relies on colored's `Colorize::bold`, `Colorize::blue` and the
/// `Display` of `ColoredString`: when styling is active the rendered text
/// is the input between a style prefix and a reset sequence, and when it
/// is not (styling switched off, or no terminal) it is the input alone.
/// colored re-inserts style codes inside an input that already holds a
/// reset sequence, so only inputs without one are claimed to pass through
/// intact.
#[verifier::external_body]
fn emphasize(s: &str) -> (r: String)
    ensures
        !contains_reset(s@) ==> exists|before: Seq<char>, after: Seq<char>|
            r@ == before + s@ + after,
{
    format!("{}", s.bold().blue())
}

impl Entry {
    /// The output line for this entry: a leading space, the acronym —
    /// emphasised when `color` is set, which never changes its characters
    /// — then a colon, a space and the definition.
    pub fn render(&self, color: bool) -> (line: String)
        ensures
            !color ==> line@ == plain_line(self@),
            color ==> line_carries_definition(line@, self@),
            color && !contains_reset(self@.acronym) ==> styled_line_ok(line@, self@),
    {
        let acronym_text: String = if color {
            emphasize(self.acronym.as_str())
        } else {
            self.acronym.clone()
        };
        let mut line = String::new();
        line.append(" ");
        line.append(acronym_text.as_str());
        line.append(": ");
        line.append(self.definition.as_str());
        proof {
            reveal_strlit(" ");
            reveal_strlit(": ");
            assert(" "@ =~= seq![' ']);
            assert(": "@ =~= seq![':', ' ']);
            assert(line@ =~= line_around(acronym_text@, self@.definition));
            if color && !contains_reset(self@.acronym) {
                let (before, after) = choose|before: Seq<char>, after: Seq<char>|
                    acronym_text@ == before + self@.acronym + after;
                assert(line@ == line_around(before + self@.acronym + after, self@.definition));
            }
        }
        line
    }
}

} // verus!
