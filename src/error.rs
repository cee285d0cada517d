use vstd::prelude::*;

verus! {

/// What went wrong while reading source text.
#[derive(Debug, PartialEq, Eq, Clone)]
pub enum ParseError {
    /// A float run that holds no digit.
    MalformedNumber { received: String },
    SequenceNotFound { expected: String, received: String },
    InvalidSequence { expected: String, received: String },
}

/// The mathematical value of a [`ParseError`].
pub enum SpecParseError {
    MalformedNumber(Seq<char>),
    SequenceNotFound(Seq<char>, Seq<char>),
    InvalidSequence(Seq<char>, Seq<char>),
}

impl View for ParseError {
    type V = SpecParseError;

    open spec fn view(&self) -> SpecParseError {
        match self {
            ParseError::MalformedNumber { received } => SpecParseError::MalformedNumber(received@),
            ParseError::SequenceNotFound { expected, received } => SpecParseError::SequenceNotFound(
                expected@,
                received@,
            ),
            ParseError::InvalidSequence { expected, received } => SpecParseError::InvalidSequence(
                expected@,
                received@,
            ),
        }
    }
}

pub fn not_found(expected: &str, received: &str) -> (r: ParseError)
    ensures
        r@ == SpecParseError::SequenceNotFound(expected@, received@),
{
    ParseError::SequenceNotFound { expected: expected.to_owned(), received: received.to_owned() }
}

} // verus!
