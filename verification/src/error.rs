//! The failures that end the processing of one page.

use vstd::prelude::*;

verus! {

/// A page from which no record can be built. Fields that are merely absent
/// from a page never give one of these: they degrade to placeholder values.
#[derive(Debug, PartialEq, Eq)]
pub enum ParseError {
    /// The title markup holds no `<` to part the name from the level text.
    MissingDelimiter { title: String },
    /// The digits found in the level text make no 32-bit integer.
    BadLevel { text: String, name: String },
}

/// `ParseError` as mathematical values.
pub ghost enum ParseErrorModel {
    MissingDelimiter { title: Seq<char> },
    BadLevel { text: Seq<char>, name: Seq<char> },
}

impl View for ParseError {
    type V = ParseErrorModel;

    open spec fn view(&self) -> ParseErrorModel {
        match *self {
            ParseError::MissingDelimiter { title } => ParseErrorModel::MissingDelimiter {
                title: title@,
            },
            ParseError::BadLevel { text, name } => ParseErrorModel::BadLevel {
                text: text@,
                name: name@,
            },
        }
    }
}

} // verus!
