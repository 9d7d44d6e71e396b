use vstd::prelude::*;

use crate::errors::{AppError, AppErrorV};
use crate::strutil::{dec_rep, dec_string};

verus! {

/// The classified result of one transport attempt: success or one
/// specific failure kind. This mapping is the single source of truth for
/// how transport results become domain errors.
#[derive(Debug, Clone)]
pub enum Outcome {
    Success(String),
    AuthInvalid,
    Forbidden,
    RateLimited,
    NotFound,
    ServerError(String),
    UnknownStatus(String),
    TransportTransient(String),
    TransportFatal(String),
}

pub ghost enum OutcomeV {
    Success(Seq<char>),
    AuthInvalid,
    Forbidden,
    RateLimited,
    NotFound,
    ServerError(Seq<char>),
    UnknownStatus(Seq<char>),
    TransportTransient(Seq<char>),
    TransportFatal(Seq<char>),
}

impl View for Outcome {
    type V = OutcomeV;

    open spec fn view(&self) -> OutcomeV {
        match self {
            Outcome::Success(s) => OutcomeV::Success(s@),
            Outcome::AuthInvalid => OutcomeV::AuthInvalid,
            Outcome::Forbidden => OutcomeV::Forbidden,
            Outcome::RateLimited => OutcomeV::RateLimited,
            Outcome::NotFound => OutcomeV::NotFound,
            Outcome::ServerError(s) => OutcomeV::ServerError(s@),
            Outcome::UnknownStatus(s) => OutcomeV::UnknownStatus(s@),
            Outcome::TransportTransient(s) => OutcomeV::TransportTransient(s@),
            Outcome::TransportFatal(s) => OutcomeV::TransportFatal(s@),
        }
    }
}

pub open spec fn server_error_detail(status: u16) -> Seq<char> {
    "server error: "@ + dec_rep(status as nat)
}

pub open spec fn unknown_status_detail(status: u16) -> Seq<char> {
    "unexpected status: "@ + dec_rep(status as nat)
}

/// How any status code is classified: 200 success, 401 auth-invalid,
/// 403 forbidden, 429 rate-limited, 404 not-found, 5xx server error,
/// anything else an unknown status.
pub open spec fn spec_classify(status: u16, body: Seq<char>) -> OutcomeV {
    if status == 200 {
        OutcomeV::Success(body)
    } else if status == 401 {
        OutcomeV::AuthInvalid
    } else if status == 403 {
        OutcomeV::Forbidden
    } else if status == 429 {
        OutcomeV::RateLimited
    } else if status == 404 {
        OutcomeV::NotFound
    } else if 500 <= status && status <= 599 {
        OutcomeV::ServerError(server_error_detail(status))
    } else {
        OutcomeV::UnknownStatus(unknown_status_detail(status))
    }
}

/// Classify one transport response. Total and deterministic over the
/// whole status space; the body is carried through on success only.
pub fn classify(status: u16, body: String) -> (r: Outcome)
    ensures
        r@ == spec_classify(status, body@),
{
    if status == 200 {
        Outcome::Success(body)
    } else if status == 401 {
        Outcome::AuthInvalid
    } else if status == 403 {
        Outcome::Forbidden
    } else if status == 429 {
        Outcome::RateLimited
    } else if status == 404 {
        Outcome::NotFound
    } else if 500 <= status && status <= 599 {
        let mut d = "server error: ".to_owned();
        let num = dec_string(status as u64);
        d.append(num.as_str());
        Outcome::ServerError(d)
    } else {
        let mut d = "unexpected status: ".to_owned();
        let num = dec_string(status as u64);
        d.append(num.as_str());
        Outcome::UnknownStatus(d)
    }
}

/// The domain error that a non-success status maps to; meaningful only
/// for a status other than 200.
pub open spec fn spec_status_error(status: u16) -> AppErrorV {
    match spec_classify(status, Seq::<char>::empty()) {
        OutcomeV::AuthInvalid => AppErrorV::AuthInvalid,
        OutcomeV::Forbidden => AppErrorV::Forbidden,
        OutcomeV::RateLimited => AppErrorV::RateLimit,
        OutcomeV::NotFound => AppErrorV::NotFound,
        OutcomeV::ServerError(d) => AppErrorV::Network(d),
        OutcomeV::UnknownStatus(d) => AppErrorV::Unknown(d),
        _ => AppErrorV::Unknown(Seq::<char>::empty()),
    }
}

/// Map a status code to the unit result the transport layer reports:
/// `Ok` exactly for 200, otherwise the one domain error of the code.
pub fn map_status_code(status: u16) -> (r: Result<(), AppError>)
    ensures
        r is Ok <==> status == 200,
        (r matches Err(e) ==> e@ == spec_status_error(status)),
{
    match classify(status, String::new()) {
        Outcome::Success(_) => Ok(()),
        Outcome::AuthInvalid => Err(AppError::AuthInvalid),
        Outcome::Forbidden => Err(AppError::Forbidden),
        Outcome::RateLimited => Err(AppError::RateLimit),
        Outcome::NotFound => Err(AppError::NotFound),
        Outcome::ServerError(d) => Err(AppError::Network(d)),
        Outcome::UnknownStatus(d) => Err(AppError::Unknown(d)),
        Outcome::TransportTransient(d) => Err(AppError::Network(d)),
        Outcome::TransportFatal(d) => Err(AppError::Unknown(d)),
    }
}

} // verus!
