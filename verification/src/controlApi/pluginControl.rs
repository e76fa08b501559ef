//! Plugins: switching them and what a failed operation is answered with.

use crate::controlApi::httpControl::{plainError, ApiError, ApiErrorView};
use crate::localization::ErrorCode;
use vstd::prelude::*;

verus! {

/// The largest package that may be uploaded, in bytes.
pub const maximumPluginPackageBytes: usize = 67108864;

/// How many calls of extensions are shown.
pub const shownInvocationTraces: usize = 512;

/// Why an operation on plugins fails.
#[derive(Clone, Copy, Debug, PartialEq, Eq, Structural)]
pub enum PluginHostError {
    NotFound,
    InvalidConfiguration,
    Package,
    PackageTooLarge,
    /// Loading, running or storing failed.
    Other,
}

/// The answer to a failed operation on plugins; nothing of files or systems is told.
pub open spec fn pluginError(error: PluginHostError) -> ApiErrorView {
    match error {
        PluginHostError::NotFound => plainError(404, ErrorCode::PluginNotFound),
        PluginHostError::InvalidConfiguration
        | PluginHostError::Package
        | PluginHostError::PackageTooLarge => plainError(400, ErrorCode::PluginOperationFailed),
        PluginHostError::Other => plainError(409, ErrorCode::PluginOperationFailed),
    }
}

/// Answers a failed operation on plugins.
pub fn pluginApiError(error: PluginHostError) -> (result: ApiError)
    ensures
        result@ == pluginError(error),
{
    match error {
        PluginHostError::NotFound => ApiError::notFound(ErrorCode::PluginNotFound),
        PluginHostError::InvalidConfiguration => ApiError::badRequest(
            ErrorCode::PluginOperationFailed,
        ),
        PluginHostError::Package => ApiError::badRequest(ErrorCode::PluginOperationFailed),
        PluginHostError::PackageTooLarge => ApiError::badRequest(ErrorCode::PluginOperationFailed),
        PluginHostError::Other => ApiError::conflict(ErrorCode::PluginOperationFailed),
    }
}

/// What is asked of the plugin host.
#[derive(Clone, Copy, Debug, PartialEq, Eq, Structural)]
pub enum PluginSwitch {
    Enable,
    Disable,
}

/// What is asked of the plugin host to switch a plugin.
pub fn setPluginEnabled(enabled: bool) -> (result: PluginSwitch)
    ensures
        result == if enabled {
            PluginSwitch::Enable
        } else {
            PluginSwitch::Disable
        },
{
    if enabled {
        PluginSwitch::Enable
    } else {
        PluginSwitch::Disable
    }
}

/// A plugin that is not there is not found, a package or a configuration that is wrong is refused, and anything else
/// that the host could not do stands in conflict with it.
pub proof fn lawPluginFailureIsTold(error: PluginHostError)
    ensures
        pluginError(error).status == 404 <==> error == PluginHostError::NotFound,
        pluginError(error).status == 409 <==> error == PluginHostError::Other,
        pluginError(error).status == 400 <==> error == PluginHostError::InvalidConfiguration || error
            == PluginHostError::Package || error == PluginHostError::PackageTooLarge,
        pluginError(error).code == if error == PluginHostError::NotFound {
            ErrorCode::PluginNotFound
        } else {
            ErrorCode::PluginOperationFailed
        },
{
}

} // verus!
