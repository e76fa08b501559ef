//! Looking into recorded bodies: decoding protocol buffers and validating text.

pub mod htmlStructure;
pub mod protobuf;
pub mod reports;
pub mod validation;

use crate::controlApi::httpControl::{plainError, ApiError, ApiErrorView};
use crate::localization::ErrorCode;
use vstd::prelude::*;

verus! {

/// Why a protocol tool cannot do what it is asked for.
#[derive(Clone, Copy, Debug, PartialEq, Eq, Structural)]
pub enum ProtocolError {
    InvalidDescriptor,
    InvalidDescriptorMessageType,
    InvalidProtobufRoute,
    InvalidValidateConfiguration,
    UnsupportedValidationContent,
    ValidatorDisabled,
    OnlineUploadConfirmationRequired,
    OnlineValidationFailed,
    Storage,
}

/// The answer to a failed protocol tool: a failure of the backend where its storage or the online
/// validator failed, a bad request otherwise.
pub open spec fn protocolApiError(error: ProtocolError) -> ApiErrorView {
    match error {
        ProtocolError::Storage | ProtocolError::OnlineValidationFailed => plainError(
            500,
            ErrorCode::ToolOperationFailed,
        ),
        _ => plainError(400, ErrorCode::InvalidToolConfiguration),
    }
}

/// Answers a failed protocol tool.
pub fn mapProtocolError(error: ProtocolError) -> (result: ApiError)
    ensures
        result@ == protocolApiError(error),
{
    match error {
        ProtocolError::Storage | ProtocolError::OnlineValidationFailed => ApiError::internal(
            ErrorCode::ToolOperationFailed,
        ),
        _ => ApiError::badRequest(ErrorCode::InvalidToolConfiguration),
    }
}

/// The diagnostic of stored protocol tools that cannot be used.
pub open spec fn storedProtocolProblem(error: ProtocolError) -> Seq<char> {
    match error {
        ProtocolError::InvalidDescriptor => "保存的 Protobuf 描述符无效"@,
        ProtocolError::InvalidDescriptorMessageType => "保存的 Protobuf 消息类型无效"@,
        ProtocolError::InvalidProtobufRoute => "保存的 Protobuf 路由无效"@,
        ProtocolError::InvalidValidateConfiguration => "保存的正文校验配置无效"@,
        _ => "保存的协议工具配置无效"@,
    }
}

/// The diagnostic of stored protocol tools that cannot be used.
pub fn protocolConfigurationIoError(error: ProtocolError) -> (result: &'static str)
    ensures
        result@ == storedProtocolProblem(error),
{
    match error {
        ProtocolError::InvalidDescriptor => "保存的 Protobuf 描述符无效",
        ProtocolError::InvalidDescriptorMessageType => "保存的 Protobuf 消息类型无效",
        ProtocolError::InvalidProtobufRoute => "保存的 Protobuf 路由无效",
        ProtocolError::InvalidValidateConfiguration => "保存的正文校验配置无效",
        _ => "保存的协议工具配置无效",
    }
}

/// Puts a configuration into effect once it was stored; one that could not be stored changes nothing.
pub fn publishConfiguration<T>(current: &mut T, candidate: T, stored: bool) -> (result: Result<
    (),
    ProtocolError,
>)
    ensures
        stored ==> result == Ok::<(), ProtocolError>(()) && *final(current) == candidate,
        !stored ==> result == Err::<(), ProtocolError>(ProtocolError::Storage) && *final(current)
            == *old(current),
{
    if stored {
        *current = candidate;
        Ok(())
    } else {
        Err(ProtocolError::Storage)
    }
}

/// What a client can mend is a bad request; a failure to store or to reach the validator is not.
pub proof fn lawOnlyFailuresOfOursAreInternal(error: ProtocolError)
    ensures
        protocolApiError(error).status == 500 <==> error is Storage || error
            is OnlineValidationFailed,
        protocolApiError(error).status == 400 <==> !(error is Storage || error
            is OnlineValidationFailed),
        protocolApiError(error).status == 500 ==> protocolApiError(error).code
            == ErrorCode::ToolOperationFailed,
        protocolApiError(error).status == 400 ==> protocolApiError(error).code
            == ErrorCode::InvalidToolConfiguration,
{
}

/// A stored configuration that cannot be used is told by what is wrong in it.
pub proof fn lawStoredProblemIsTold(error: ProtocolError)
    ensures
        storedProtocolProblem(ProtocolError::InvalidDescriptor) == "保存的 Protobuf 描述符无效"@,
        storedProtocolProblem(ProtocolError::InvalidDescriptorMessageType)
            == "保存的 Protobuf 消息类型无效"@,
        storedProtocolProblem(ProtocolError::InvalidProtobufRoute) == "保存的 Protobuf 路由无效"@,
        storedProtocolProblem(ProtocolError::InvalidValidateConfiguration) == "保存的正文校验配置无效"@,
        !(error is InvalidDescriptor || error is InvalidDescriptorMessageType || error
            is InvalidProtobufRoute || error is InvalidValidateConfiguration) ==> storedProtocolProblem(
            error,
        ) == "保存的协议工具配置无效"@,
{
}

} // verus!
