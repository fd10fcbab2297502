//! The signals with which decoding ends or fails.

use core::num::ParseFloatError;
use core::num::ParseIntError;
use vstd::prelude::*;
use vstd::std_specs::convert::FromSpecImpl;
use vstd::string::*;

verus! {

/// The error of the standard parsers of numbers with a fraction. The
/// library carries such a value and never looks into it.
#[verifier::external_type_specification]
#[verifier::external_body]
pub struct ExParseFloatError(ParseFloatError);

/// Why a record could not be decoded, or that there is none left.
#[derive(Debug)]
#[non_exhaustive]
pub enum Error {
    /// The input ended where the next field or record would start. This is
    /// how a stream of records ends, not a fault in it.
    NoData,
    /// Kept for consumers that must guess a type and cannot.
    CannotInferType,
    /// The consumer asked for a shape that the decoder cannot give at this
    /// point; the text names the shape.
    InvalidType(&'static str),
    /// The input ended in the middle of something; the text says of what.
    UnexpectedEndOfInput(&'static str),
    /// A value was asked for as an integer and is none.
    ParseIntError(ParseIntError),
    /// A value was asked for as a number with a fraction and is none.
    ParseFloatError(ParseFloatError),
    /// The input breaks the grammar; the text says how.
    OtherError(&'static str),
    /// The consumer itself gave up, with this message.
    Custom(String),
}

impl From<ParseIntError> for Error {
    fn from(value: ParseIntError) -> (e: Error) {
        Error::ParseIntError(value)
    }
}

impl FromSpecImpl<ParseIntError> for Error {
    open spec fn obeys_from_spec() -> bool {
        true
    }

    open spec fn from_spec(value: ParseIntError) -> Error {
        Error::ParseIntError(value)
    }
}

impl From<ParseFloatError> for Error {
    fn from(value: ParseFloatError) -> (e: Error) {
        Error::ParseFloatError(value)
    }
}

impl FromSpecImpl<ParseFloatError> for Error {
    open spec fn obeys_from_spec() -> bool {
        true
    }

    open spec fn from_spec(value: ParseFloatError) -> Error {
        Error::ParseFloatError(value)
    }
}

impl Error {
    /// The text of the error as it is shown to a person.
    pub open spec fn message(self) -> Seq<char> {
        match self {
            Error::NoData => "no data found"@,
            Error::CannotInferType => "cannot infer type"@,
            Error::InvalidType(shape) => "invalid type, `"@ + shape@ + "` requested"@,
            Error::UnexpectedEndOfInput(doing) => "unexpected end of input while `"@ + doing@
                + "`"@,
            Error::ParseIntError(_) => "issue parsing integer: `0`"@,
            Error::ParseFloatError(_) => "issue parsing float: `0`"@,
            Error::OtherError(what) => "`"@ + what@ + "`"@,
            Error::Custom(what) => "`"@ + what@ + "`"@,
        }
    }

    /// Whether this is the signal that ends a stream of records.
    pub fn is_no_data(&self) -> (b: bool)
        ensures
            b == (*self is NoData),
    {
        match self {
            Error::NoData => true,
            _ => false,
        }
    }

    pub fn to_string(&self) -> (text: String)
        ensures
            text@ == self.message(),
    {
        match self {
            Error::NoData => String::from_str("no data found"),
            Error::CannotInferType => String::from_str("cannot infer type"),
            Error::InvalidType(shape) => String::from_str("invalid type, `").concat(shape).concat(
                "` requested",
            ),
            Error::UnexpectedEndOfInput(doing) => String::from_str(
                "unexpected end of input while `",
            ).concat(doing).concat("`"),
            Error::ParseIntError(_) => String::from_str("issue parsing integer: `0`"),
            Error::ParseFloatError(_) => String::from_str("issue parsing float: `0`"),
            Error::OtherError(what) => String::from_str("`").concat(what).concat("`"),
            Error::Custom(what) => String::from_str("`").concat(what.as_str()).concat("`"),
        }
    }
}

} // verus!
