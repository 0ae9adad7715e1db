use vstd::prelude::*;

verus! {

/// Errors the computation layer surfaces to its callers.
///
/// Cache misses and cache write failures are deliberately absent: the
/// cache is best-effort and its failures are absorbed by the caller, never
/// surfaced.  An unresolvable emission-factor source is absent too: the
/// resolver always falls back to a default instead of erroring.
#[derive(Clone, Copy, Debug, PartialEq, Eq, Structural)]
pub enum ApiError {
    /// The raw interval string failed strict validation; a client error.
    InvalidInterval,
    /// No row matched the request; a client error.
    NotFound,
    /// A value or total left the model's numeric range; a client error.
    OutOfRange,
    /// A failure talking to the relational store; a server error.
    StoreError,
}

impl ApiError {
    /// The HTTP status code the transport layer should answer with.
    pub fn status_code(&self) -> (code: u16)
        ensures
            code == match *self {
                ApiError::InvalidInterval => 400u16,
                ApiError::NotFound => 404u16,
                ApiError::OutOfRange => 422u16,
                ApiError::StoreError => 500u16,
            },
    {
        match self {
            ApiError::InvalidInterval => 400,
            ApiError::NotFound => 404,
            ApiError::OutOfRange => 422,
            ApiError::StoreError => 500,
        }
    }
}

} // verus!
