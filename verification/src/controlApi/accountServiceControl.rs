//! Errors of the account service endpoints.

use crate::controlApi::httpControl::{detailedError, ApiError};
use crate::localization::ErrorCode;
use vstd::prelude::*;

verus! {

/// Answers a request that the account service could not serve.
pub fn accountServiceFailure(detail: String) -> (result: ApiError)
    ensures
        result@ == detailedError(500, ErrorCode::ServiceStartFailed, detail@),
{
    ApiError::internal(ErrorCode::ServiceStartFailed).withDetail(detail)
}

/// Answers a request whose body is not what it should be.
pub fn invalidRequest(detail: String) -> (result: ApiError)
    ensures
        result@ == detailedError(400, ErrorCode::InvalidConfigurationRequest, detail@),
{
    ApiError::badRequest(ErrorCode::InvalidConfigurationRequest).withDetail(detail)
}

} // verus!
