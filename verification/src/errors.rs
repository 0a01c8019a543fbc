//! The service-level error taxonomy of the surrounding web application.

use vstd::prelude::*;

use vstd::string::StringExecFns;

verus! {

/// An error a request handler reports to its client.
#[derive(Debug)]
pub enum ServiceError {
    InternalServerError,
    BadRequest(String),
    JWKSFetchError,
    JWTTokenCreationError,
}

impl ServiceError {
    /// The display text of the error: the bad-request text carries its
    /// detail, the others render as fixed phrases.
    pub fn message(&self) -> (r: String)
        ensures
            match self {
                ServiceError::InternalServerError => r@ == "Internal Server Error"@,
                ServiceError::BadRequest(detail) => r@ == "BadRequest: "@ + detail@,
                ServiceError::JWKSFetchError => r@ == "JWKSFetchError"@,
                ServiceError::JWTTokenCreationError => r@ == "JWTTokenCreationError"@,
            },
    {
        match self {
            ServiceError::InternalServerError => String::from_str("Internal Server Error"),
            ServiceError::BadRequest(detail) => {
                let mut r = String::from_str("BadRequest: ");
                r.append(detail.as_str());
                r
            },
            ServiceError::JWKSFetchError => String::from_str("JWKSFetchError"),
            ServiceError::JWTTokenCreationError => String::from_str("JWTTokenCreationError"),
        }
    }
}

} // verus!
