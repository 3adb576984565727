//! What can go wrong when texts are read as values.

use crate::value::Kind;
use vstd::prelude::*;

verus! {

/// A text that is no value of the kind asked for.
#[derive(Clone, Copy, Debug, PartialEq, Eq, Structural)]
pub struct ConversionError {
    /// The kind that the text was to be read as.
    pub kind: Kind,
}

/// Why an argument list was not parsed to its end.
#[derive(Clone, Copy, Debug, PartialEq, Eq, Structural)]
pub enum ParseError {
    /// The argument at `position` was given as the value of flag number
    /// `flag` and is no value of its kind.
    Conversion { flag: usize, position: usize, kind: Kind },
    /// The argument at `position` asks to toggle flag number `flag`, which
    /// holds no truth value.
    NotBoolean { flag: usize, position: usize, kind: Kind },
}

/// The texts of the arguments.
pub open spec fn texts(args: Seq<String>) -> Seq<Seq<char>> {
    args.map_values(|s: String| s@)
}

/// The text of the argument at `position`; the empty text where the
/// argument list is shorter than that.
pub open spec fn text_at(args: Seq<Seq<char>>, position: int) -> Seq<char> {
    if 0 <= position < args.len() {
        args[position]
    } else {
        Seq::empty()
    }
}

impl ParseError {
    /// The line that tells the user of the program what went wrong.
    pub open spec fn message_text(self, args: Seq<Seq<char>>) -> Seq<char> {
        match self {
            ParseError::Conversion { position, kind, .. } => "Cannot parse type `"@
                + kind.name_text() + "` from String that has the value `"@ + text_at(
                args,
                position as int,
            ) + "`"@,
            ParseError::NotBoolean { position, kind, .. } => "Cannot toggle `"@ + text_at(
                args,
                position as int,
            ) + "`: the flag holds a value of type `"@ + kind.name_text() + "`"@,
        }
    }

    /// The line that tells the user of the program what went wrong, given
    /// the argument list that was parsed.
    pub fn message(&self, args: &[String]) -> (line: String)
        ensures
            line@ == self.message_text(texts(args@)),
    {
        proof {
            reveal_strlit("");
        }
        match *self {
            ParseError::Conversion { position, kind, .. } => {
                let text = if position < args.len() {
                    args[position].as_str()
                } else {
                    ""
                };
                let mut line = String::from_str("Cannot parse type `");
                line.append(kind.name());
                line.append("` from String that has the value `");
                line.append(text);
                line.append("`");
                line
            },
            ParseError::NotBoolean { position, kind, .. } => {
                let text = if position < args.len() {
                    args[position].as_str()
                } else {
                    ""
                };
                let mut line = String::from_str("Cannot toggle `");
                line.append(text);
                line.append("`: the flag holds a value of type `");
                line.append(kind.name());
                line.append("`");
                line
            },
        }
    }
}

} // verus!
