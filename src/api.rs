use vstd::prelude::*;
use vstd::string::StringExecFns;

use crate::types::{ErrorResponse, RepositoryError, ServiceError};

verus! {

broadcast use vstd::string::to_string_from_display_ensures_for_str;

/// `prefix`, then `middle`, then `suffix`.
pub fn joined(prefix: &str, middle: &String, suffix: &str) -> (r: String)
    ensures
        r@ == prefix@ + middle@ + suffix@,
{
    let start = prefix.to_string();
    let with_middle = start.concat(middle.as_str());
    with_middle.concat(suffix)
}

/// The message that reports a service error to a caller.
pub open spec fn error_message(err: ServiceError) -> Seq<char> {
    match err {
        ServiceError::IdentityNotFound { identity } => "User identity "@ + identity@
            + " cannot be found."@,
        ServiceError::IdentityUnauthorized { identity } => "User identity "@ + identity@
            + " is not authorized to perform this action."@,
        ServiceError::InternalError { reason } => "Internal error: "@ + reason@ + ""@,
        ServiceError::DraftNotFound => "Draft not found"@,
        ServiceError::StoryNotFound => "Story not found"@,
        ServiceError::UnprocessableEntity { reason } => "Unprocessable entity: "@ + reason@ + ""@,
        ServiceError::Conflict { entity } => ""@ + entity@ + " already exists"@,
        ServiceError::TransferError { reason } => "Transfer failed: "@ + reason@ + ""@,
        ServiceError::AiModelError(m) => ""@ + m@ + ""@,
    }
}

/// The response that reports a service error to a caller.
pub fn api_err(err: ServiceError) -> (r: ErrorResponse)
    ensures
        r.message@ == error_message(err),
{
    let message = match &err {
        ServiceError::IdentityNotFound { identity } => joined(
            "User identity ",
            identity,
            " cannot be found.",
        ),
        ServiceError::IdentityUnauthorized { identity } => joined(
            "User identity ",
            identity,
            " is not authorized to perform this action.",
        ),
        ServiceError::InternalError { reason } => joined("Internal error: ", reason, ""),
        ServiceError::DraftNotFound => "Draft not found".to_string(),
        ServiceError::StoryNotFound => "Story not found".to_string(),
        ServiceError::UnprocessableEntity { reason } => joined("Unprocessable entity: ", reason, ""),
        ServiceError::Conflict { entity } => joined("", entity, " already exists"),
        ServiceError::TransferError { reason } => joined("Transfer failed: ", reason, ""),
        ServiceError::AiModelError(m) => joined("", m, ""),
    };
    ErrorResponse { message }
}

/// The message that describes a repository error.
pub open spec fn repository_error_message(e: RepositoryError) -> Seq<char> {
    match e {
        RepositoryError::NotFound => "The requested entity was not found in the repository."@,
        RepositoryError::Conflict => "Cannot write on existing entity."@,
        RepositoryError::IllegalUpdate { reason } => "Invalid update operation: "@ + reason@ + "."@,
        RepositoryError::UnsupportedOperation => "Unsupported operation"@,
        RepositoryError::IllegalArgument { reason } => "Illegal argument: "@ + reason@ + ""@,
    }
}

/// The message that describes a repository error.
pub fn repository_error_text(e: &RepositoryError) -> (r: String)
    ensures
        r@ == repository_error_message(*e),
{
    match e {
        RepositoryError::NotFound => "The requested entity was not found in the repository.".to_string(),
        RepositoryError::Conflict => "Cannot write on existing entity.".to_string(),
        RepositoryError::IllegalUpdate { reason } => joined("Invalid update operation: ", reason, "."),
        RepositoryError::UnsupportedOperation => "Unsupported operation".to_string(),
        RepositoryError::IllegalArgument { reason } => joined("Illegal argument: ", reason, ""),
    }
}

/// `prefix` followed by the message of `e`.
pub fn with_cause(prefix: &str, e: &RepositoryError) -> (r: String)
    ensures
        r@ == prefix@ + repository_error_message(*e),
{
    let message = repository_error_text(e);
    prefix.to_string().concat(message.as_str())
}

/// The reason of a failed compensation: what failed, then the error that
/// the compensation was for.
pub fn rollback_reason(prefix: &str, e: &RepositoryError, original: &String) -> (r: String)
    ensures
        r@ == prefix@ + repository_error_message(*e) + ". original error: Internal error: "@
            + original@,
{
    let cause = with_cause(prefix, e);
    cause.concat(". original error: Internal error: ").concat(original.as_str())
}

} // verus!
