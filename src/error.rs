//! The failures that every backend reports in one vocabulary.

use vstd::prelude::*;
use vstd::string::*;

verus! {

/// A failure of a credential operation.
///
/// Absence is never one of these at the public surface: `get` reports it as
/// `None` and `delete` as `false`.
#[derive(Debug, Clone)]
pub enum KeytarError {
    /// The native store failed; `details` is for operators, not for parsing.
    Library { name: String, details: String },
    /// Nothing matched the given parameters.
    NotFound,
    /// The operating system failed the call.
    Os(String),
    /// Bytes that should have been UTF-8 text were not.
    Utf8(String),
    /// Wide native text could not be decoded.
    Utf16(String),
    /// A caller's value was refused before any native call.
    InvalidArg { argument: String, details: String },
}

/// The four categories that every native failure falls into.
#[derive(Debug, Clone, Copy, PartialEq, Eq, Structural)]
pub enum ErrorKind {
    NotFound,
    InvalidArgument,
    BackendFailure,
    EncodingFailure,
}

impl KeytarError {
    pub open spec fn spec_kind(&self) -> ErrorKind {
        match self {
            KeytarError::Library { .. } => ErrorKind::BackendFailure,
            KeytarError::Os(_) => ErrorKind::BackendFailure,
            KeytarError::NotFound => ErrorKind::NotFound,
            KeytarError::Utf8(_) => ErrorKind::EncodingFailure,
            KeytarError::Utf16(_) => ErrorKind::EncodingFailure,
            KeytarError::InvalidArg { .. } => ErrorKind::InvalidArgument,
        }
    }

    /// The category of this failure.
    #[verifier::when_used_as_spec(spec_kind)]
    pub fn kind(&self) -> (r: ErrorKind)
        ensures
            r == self.spec_kind(),
    {
        match self {
            KeytarError::Library { .. } => ErrorKind::BackendFailure,
            KeytarError::Os(_) => ErrorKind::BackendFailure,
            KeytarError::NotFound => ErrorKind::NotFound,
            KeytarError::Utf8(_) => ErrorKind::EncodingFailure,
            KeytarError::Utf16(_) => ErrorKind::EncodingFailure,
            KeytarError::InvalidArg { .. } => ErrorKind::InvalidArgument,
        }
    }
}

/// A native error code with optional details, as a backend received it.
pub struct Error {
    pub code: Option<i32>,
    pub details: Option<String>,
}

/// The decimal digit for `d < 10`.
pub open spec fn digit_char(d: nat) -> char {
    if d == 0 {
        '0'
    } else if d == 1 {
        '1'
    } else if d == 2 {
        '2'
    } else if d == 3 {
        '3'
    } else if d == 4 {
        '4'
    } else if d == 5 {
        '5'
    } else if d == 6 {
        '6'
    } else if d == 7 {
        '7'
    } else if d == 8 {
        '8'
    } else {
        '9'
    }
}

/// The decimal digits of a natural number, without leading zeros.
pub open spec fn digits(n: nat) -> Seq<char>
    decreases n,
{
    if n < 10 {
        seq![digit_char(n)]
    } else {
        digits(n / 10).push(digit_char(n % 10))
    }
}

/// An integer in decimal, with a leading `-` when it is negative.
pub open spec fn decimal(n: int) -> Seq<char> {
    if n < 0 {
        seq!['-'] + digits((-n) as nat)
    } else {
        digits(n as nat)
    }
}

/// Relies on `i32`'s `Display` (through `ToString`): decimal digits, with a
/// leading `-` for a negative value.
#[verifier::external_body]
fn decimal_text(n: i32) -> (r: String)
    ensures
        r@ == decimal(n as int),
{
    n.to_string()
}

/// The diagnostic line for a code and details.
pub open spec fn error_text(code: Option<i32>, details: Option<Seq<char>>) -> Seq<char> {
    match code {
        Some(c) => match details {
            Some(d) => "[ERR] keytar-rs - code: "@ + decimal(c as int) + ", details: "@ + d,
            None => "[ERR] keytar-rs - code: "@ + decimal(c as int),
        },
        None => match details {
            Some(d) => "[ERR] keytar-rs - details: "@ + d,
            None => "[ERR] keytar-rs error - no further info provided."@,
        },
    }
}

impl Error {
    /// An error that carries details and no code.
    pub fn from_details(details: &str) -> (r: Self)
        ensures
            r.code is None,
            r.details matches Some(d) && d@ == details@,
    {
        Error { code: None, details: Some(details.to_owned()) }
    }

    /// An error that carries a native code and no details.
    pub fn from_code(code: i32) -> (r: Self)
        ensures
            r.code == Some(code),
            r.details is None,
    {
        Error { code: Some(code), details: None }
    }

    /// The diagnostic line: the code and the details, those that are there.
    pub fn to_string(&self) -> (r: String)
        ensures
            r@ == error_text(
                self.code,
                match self.details {
                    Some(d) => Some(d@),
                    None => None,
                },
            ),
    {
        match self.code {
            Some(code) => match &self.details {
                Some(detail) => "[ERR] keytar-rs - code: ".to_owned().concat(
                    decimal_text(code).as_str(),
                ).concat(", details: ").concat(detail.as_str()),
                None => "[ERR] keytar-rs - code: ".to_owned().concat(decimal_text(code).as_str()),
            },
            None => match &self.details {
                Some(detail) => "[ERR] keytar-rs - details: ".to_owned().concat(detail.as_str()),
                None => "[ERR] keytar-rs error - no further info provided.".to_owned(),
            },
        }
    }
}

} // verus!
