//! A list of choices with one more at its end: to go back.

use std::fmt::Display;
use vstd::prelude::*;

verus! {

/// What the choice to go back is shown as.
pub const DESELECT_MSG: &'static str = "← Go Back";

/// One of the given choices, or the choice to go back.
pub enum Selectable<T> {
    /// One of the given choices.
    Item(T),
    /// The choice to go back.
    Back,
}

/// Whether a text holds the sequence that ends all styles.
pub open spec fn has_reset(text: Seq<char>) -> bool {
    exists|i: int| 0 <= i && i + 4 <= text.len() && #[trigger] text.subrange(i, i + 4) == "\x1B[0m"@
}

/// A text in bold, as a terminal shows it: between the sequence that turns
/// bold on and the one that ends all styles.
pub open spec fn bold_text(text: Seq<char>) -> Seq<char> {
    "\x1B[1m"@ + text + "\x1B[0m"@
}

/// `colored::Colorize::bold` and the `Display` of what it gives: the text
/// itself where colours are off, else the text between the sequence for bold
/// and the reset sequence. Whether colours are on is the environment's to
/// say. Of a text that holds a reset sequence itself nothing is claimed.
#[verifier::external_body]
fn bold(text: &str) -> (shown: String)
    ensures
        !has_reset(text@) ==> shown@ == text@ || shown@ == bold_text(text@),
{
    colored::Colorize::bold(text).to_string()
}

impl<T> Selectable<T> where T: Display {
    /// The given choices in their order, and after them the choice to go
    /// back.
    pub fn new(values: Vec<T>) -> (choices: Vec<Selectable<T>>)
        ensures
            choices.len() == values.len() + 1,
            forall|i: int| 0 <= i < values.len() ==> choices[i] == Selectable::Item(values[i]),
            choices[values.len() as int] is Back,
    {
        let ghost given = values@;
        let mut choices: Vec<Selectable<T>> = Vec::new();
        for value in it: values
            invariant
                it.seq() == given,
                choices.len() == it.index(),
                forall|i: int| 0 <= i < choices.len() ==> choices[i] == Selectable::Item(given[i]),
        {
            choices.push(Selectable::Item(value));
        }
        choices.push(Selectable::Back);
        choices
    }

    /// The choice as a list shows it: a given choice as it shows itself,
    /// the choice to go back as [`DESELECT_MSG`], in bold where colours are
    /// on.
    pub fn to_text(&self) -> (shown: String)
        ensures
            match *self {
                Selectable::Item(value) => vstd::string::to_string_from_display_ensures::<T>(
                    &value,
                    shown,
                ),
                Selectable::Back => shown@ == DESELECT_MSG@ || shown@ == bold_text(DESELECT_MSG@),
            },
    {
        match self {
            Selectable::Item(value) => value.to_string(),
            Selectable::Back => {
                proof {
                    reveal_strlit("← Go Back");
                    reveal_strlit("\x1B[0m");
                    assert forall|i: int| 0 <= i && i + 4 <= DESELECT_MSG@.len() implies #[trigger] DESELECT_MSG@.subrange(
                        i,
                        i + 4,
                    ) != "\x1B[0m"@ by {
                        assert(DESELECT_MSG@.subrange(i, i + 4)[0] == DESELECT_MSG@[i]);
                    }
                }
                bold(DESELECT_MSG)
            },
        }
    }
}

} // verus!
