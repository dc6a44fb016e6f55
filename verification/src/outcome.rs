//! What becomes of a request: how the service's reply is read, and what the
//! command line shows for it.

use vstd::prelude::*;
use vstd::string::StringExecFns;

verus! {

/// The body with which the service turns a request down. It answers so for a
/// long URL it cannot take and for an alias that is too short or in use, and
/// with the same success status as for a short URL.
pub const REJECTION: &'static str = "Error";

/// What the command line shows when a long URL alone was turned down.
pub const INVALID_URL: &'static str = "the url you entered is invalid";

/// What the command line shows when a long URL with an alias was turned down.
pub const INVALID_ALIAS: &'static str =
    "the url/alias you entered is invalid; alias must be at least 5 characters";

/// What the command line shows, before the cause, when no reply came.
pub const NO_REPLY: &'static str = "the request failed: ";

/// What the command line shows when the endpoint cannot be used.
pub const NO_ENDPOINT: &'static str = "the service endpoint is not a usable URL";

/// Why a request brought no short URL.
#[derive(Debug, PartialEq, Eq)]
pub enum ShortenError {
    /// The endpoint of the service is not a URL that requests can be built on.
    Configuration,
    /// No reply came; the text says what went wrong on the way.
    Network(String),
    /// The service turned the long URL or the alias down.
    Rejected,
}

/// What the command line does at its end.
#[derive(Debug, PartialEq, Eq)]
pub struct Report {
    /// The line to print.
    pub line: String,
    /// The status to exit with.
    pub status: i32,
}

/// The line for a result: the short URL itself, or the words for the error.
/// A rejection is worded by whether an alias was asked for.
pub open spec fn report_line(with_alias: bool, result: Result<String, ShortenError>) -> Seq<char> {
    match result {
        Ok(short) => short@,
        Err(ShortenError::Rejected) => if with_alias {
            INVALID_ALIAS@
        } else {
            INVALID_URL@
        },
        Err(ShortenError::Network(cause)) => NO_REPLY@ + cause@,
        Err(ShortenError::Configuration) => NO_ENDPOINT@,
    }
}

/// The exit status for a result: 0 for a short URL, 1 for every error.
pub open spec fn report_status(result: Result<String, ShortenError>) -> int {
    if result is Ok {
        0
    } else {
        1
    }
}

/// Reads the body of a reply: the rejection body is an error, and any other
/// body is the short URL, handed on as it came.
pub fn interpret(body: String) -> (r: Result<String, ShortenError>)
    ensures
        body@ == REJECTION@ ==> r == Err::<String, ShortenError>(ShortenError::Rejected),
        body@ != REJECTION@ ==> r == Ok::<String, ShortenError>(body),
{
    let rejection: String = String::from_str(REJECTION);
    if body == rejection {
        Err(ShortenError::Rejected)
    } else {
        Ok(body)
    }
}

/// What the command line prints and exits with for the result of a request
/// that was made with an alias or without one.
pub fn report(with_alias: bool, result: Result<String, ShortenError>) -> (r: Report)
    ensures
        r.line@ == report_line(with_alias, result),
        r.status == report_status(result),
{
    match result {
        Ok(short) => Report { line: short, status: 0 },
        Err(ShortenError::Rejected) => {
            let words: &str = if with_alias {
                INVALID_ALIAS
            } else {
                INVALID_URL
            };
            Report { line: String::from_str(words), status: 1 }
        },
        Err(ShortenError::Network(cause)) => {
            let line: String = String::from_str(NO_REPLY).concat(cause.as_str());
            Report { line, status: 1 }
        },
        Err(ShortenError::Configuration) => Report { line: String::from_str(NO_ENDPOINT), status: 1 },
    }
}

} // verus!
