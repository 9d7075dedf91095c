//! Errors of the library, and how the request layer reports them.
use vstd::prelude::*;

verus! {

/// The status code of a successful page fetch.
pub const STATUS_OK: u16 = 200;

/// The status code of a page that does not exist.
pub const STATUS_NOT_FOUND: u16 = 404;

/// Why an operation failed. Every failure is returned, never raised.
#[derive(Debug, PartialEq, Eq)]
pub enum Error {
    /// The request could not be sent or its body not read.
    Request,
    /// The server answered with this status instead of the expected one.
    Http(u16),
    /// A JSON document did not have the expected shape.
    Deserializer,
    /// A page was too large to parse.
    Html,
    /// This text is not a battletag.
    Battletag(String),
    /// A page did not match any known layout.
    Parse,
}

impl Error {
    /// `Ok` when `code` is the expected status (200 unless given), else the
    /// status as an error.
    pub fn result_from_status(code: u16, expected: Option<u16>) -> (r: Result<(), Error>)
        ensures
            r is Ok <==> code == (match expected {
                Some(e) => e,
                None => STATUS_OK,
            }),
            r matches Err(e) ==> e == Error::Http(code),
    {
        let expected = match expected {
            Some(code) => code,
            None => STATUS_OK,
        };
        if expected == code {
            Ok(())
        } else {
            Err(Error::Http(code))
        }
    }
}

/// How a request's failure is answered to the caller of the API.
#[derive(Debug, Clone, Copy, PartialEq, Eq)]
pub enum ApiError {
    /// Something upstream failed or changed its layout.
    Internal,
    /// The player or page does not exist.
    NotFound,
}

impl ApiError {
    /// A missing page is "not found"; every other failure is internal.
    pub fn from_error(e: &Error) -> (r: ApiError)
        ensures
            r == (if *e == Error::Http(STATUS_NOT_FOUND) {
                ApiError::NotFound
            } else {
                ApiError::Internal
            }),
    {
        match e {
            Error::Http(code) => {
                if *code == STATUS_NOT_FOUND {
                    ApiError::NotFound
                } else {
                    ApiError::Internal
                }
            },
            _ => ApiError::Internal,
        }
    }
}

} // verus!
