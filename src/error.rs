//! Why a text could not be read as a GUID.
use vstd::prelude::*;

verus! {

/// The reason a text was refused.
#[derive(Debug, Clone, Copy, PartialEq, Eq, Structural)]
pub enum ParseGuidErrorKind {
    /// Once quotes, white space and hyphens are removed, the text does not hold
    /// exactly 32 characters.
    InvalidLenError,
    /// The text has the right length but holds a character that is not a
    /// hexadecimal digit; the value is that character's index in the text.
    InvalidHexDigit(usize),
    /// A field's bytes could not be taken out of the 16-byte form. The parser
    /// of this crate never reports it: its length check rules it out.
    SliceConversion,
}

impl ParseGuidErrorKind {
    /// The short description of this reason.
    pub open spec fn spec_message(self) -> Seq<char> {
        match self {
            ParseGuidErrorKind::InvalidLenError => "Invalid Length"@,
            ParseGuidErrorKind::InvalidHexDigit(_) => "Invalid Hex Digit"@,
            ParseGuidErrorKind::SliceConversion => "Invalid Slice Conversion"@,
        }
    }

    /// The short description of this reason, as text.
    pub fn to_string(&self) -> (r: String)
        ensures
            r@ == self.spec_message(),
    {
        match self {
            ParseGuidErrorKind::InvalidLenError => String::from_str("Invalid Length"),
            ParseGuidErrorKind::InvalidHexDigit(_) => String::from_str("Invalid Hex Digit"),
            ParseGuidErrorKind::SliceConversion => String::from_str("Invalid Slice Conversion"),
        }
    }
}

/// The error of reading a GUID from text: one reason, and nothing else.
#[derive(Debug)]
pub struct ParseGuidError {
    source: ParseGuidErrorKind,
}

impl ParseGuidError {
    /// The reason this error stands for.
    pub closed spec fn spec_kind(&self) -> ParseGuidErrorKind {
        self.source
    }

    /// The error for `kind`.
    pub fn new(kind: ParseGuidErrorKind) -> (r: ParseGuidError)
        ensures
            r.spec_kind() == kind,
    {
        ParseGuidError { source: kind }
    }

    /// The reason this error stands for.
    pub fn kind(&self) -> (r: &ParseGuidErrorKind)
        ensures
            *r == self.spec_kind(),
    {
        &self.source
    }

    /// The full description of this error.
    pub open spec fn spec_message(&self) -> Seq<char> {
        "Error while parsing Guid string: "@ + self.spec_kind().spec_message()
    }

    /// The full description of this error, as text.
    pub fn to_string(&self) -> (r: String)
        ensures
            r@ == self.spec_message(),
    {
        let reason = self.source.to_string();
        String::from_str("Error while parsing Guid string: ").concat(reason.as_str())
    }
}

impl Default for ParseGuidError {
    /// The error for a text of the wrong length.
    fn default() -> (r: ParseGuidError)
        ensures
            r.spec_kind() == ParseGuidErrorKind::InvalidLenError,
    {
        ParseGuidError { source: ParseGuidErrorKind::InvalidLenError }
    }
}

} // verus!
