//! The service's error taxonomy and its mapping to what a client is shown:
//! a status code and a coarse client-facing error class.

use vstd::prelude::*;

verus! {

/// Everything the service can fail with.
#[derive(Debug, Clone, PartialEq, Eq, Structural)]
pub enum Error {
    LoginFail,
    AuthFailNoAuthTokenCookie,
    AuthFailTokenWrongFormat,
    AuthFailCtxNotInRequestExt,
    TicketDeleteFailIdNotFound { id: u64 },
    DataBaseError,
    DataBaseCouldNotInsert,
}

/// The error classes a client may see.
#[allow(non_camel_case_types)]
#[derive(Debug, Clone, Copy, PartialEq, Eq, Structural)]
pub enum ClientError {
    LOGIN_FAIL,
    NO_AUTH,
    INVALID_PARAMS,
    SERVICE_ERROR,
}

impl Error {
    /// The status code and client error class this error maps to: a failed
    /// login and every authentication failure are forbidden (403), a delete
    /// of an unknown id is a bad request (400), and everything else is an
    /// internal error (500).
    pub open spec fn spec_client_status_and_error(self) -> (u16, ClientError) {
        match self {
            Error::LoginFail => (403, ClientError::LOGIN_FAIL),
            Error::AuthFailNoAuthTokenCookie => (403, ClientError::NO_AUTH),
            Error::AuthFailTokenWrongFormat => (403, ClientError::NO_AUTH),
            Error::AuthFailCtxNotInRequestExt => (403, ClientError::NO_AUTH),
            Error::TicketDeleteFailIdNotFound { .. } => (400, ClientError::INVALID_PARAMS),
            Error::DataBaseError => (500, ClientError::SERVICE_ERROR),
            Error::DataBaseCouldNotInsert => (500, ClientError::SERVICE_ERROR),
        }
    }

    pub fn client_status_and_error(&self) -> (r: (u16, ClientError))
        ensures
            r == self.spec_client_status_and_error(),
    {
        match self {
            Error::LoginFail => (403, ClientError::LOGIN_FAIL),
            Error::AuthFailNoAuthTokenCookie => (403, ClientError::NO_AUTH),
            Error::AuthFailTokenWrongFormat => (403, ClientError::NO_AUTH),
            Error::AuthFailCtxNotInRequestExt => (403, ClientError::NO_AUTH),
            Error::TicketDeleteFailIdNotFound { .. } => (400, ClientError::INVALID_PARAMS),
            Error::DataBaseError => (500, ClientError::SERVICE_ERROR),
            Error::DataBaseCouldNotInsert => (500, ClientError::SERVICE_ERROR),
        }
    }
}

} // verus!
