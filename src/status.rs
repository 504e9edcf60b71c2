//! Transport statuses of the upstream simulator and how a poll ends.
use vstd::prelude::*;

verus! {

#[verifier::external_type_specification]
pub struct ExCode(tonic::Code);

#[verifier::external_type_specification]
#[verifier::external_body]
pub struct ExStatus(tonic::Status);

/// The gRPC code that a status carries.
pub uninterp spec fn code_of(s: tonic::Status) -> tonic::Code;

/// Relies on tonic::Status::code, which returns the code the status was
/// built with.
pub assume_specification[ tonic::Status::code ](s: &tonic::Status) -> (r: tonic::Code)
    ensures
        r == code_of(*s),
;

/// How a poll of one entity ended.
pub enum PollOutcome<T> {
    /// The simulator answered with a fresh transform.
    Found(T),
    /// The simulator no longer knows the entity: it died unseen.
    NotFound,
    /// Any other transport failure; it ends the subscription.
    Failed(tonic::Status),
}

/// The subscription ended with an error.
pub enum Error {
    /// The upstream answered with a status other than "not found".
    Status(tonic::Status),
    /// The outbound channel got closed.
    Send,
}

/// A failed poll is an implicit death exactly when its code is `NotFound`.
pub open spec fn spec_outcome_for_code<T>(code: tonic::Code, s: tonic::Status) -> PollOutcome<T> {
    match code {
        tonic::Code::NotFound => PollOutcome::NotFound,
        _ => PollOutcome::Failed(s),
    }
}

/// Classifies a transport failure of a poll by its code.
pub fn outcome_for_code<T>(code: tonic::Code, s: tonic::Status) -> (r: PollOutcome<T>)
    ensures
        r == spec_outcome_for_code::<T>(code, s),
{
    match code {
        tonic::Code::NotFound => PollOutcome::NotFound,
        _ => PollOutcome::Failed(s),
    }
}

/// Classifies the failure of a poll by the code that the status carries.
pub fn outcome_from_status<T>(s: tonic::Status) -> (r: PollOutcome<T>)
    ensures
        r == spec_outcome_for_code::<T>(code_of(s), s),
{
    let code = s.code();
    outcome_for_code(code, s)
}

} // verus!
