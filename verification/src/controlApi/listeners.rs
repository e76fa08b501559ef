//! The public state of the data plane's listeners.

use crate::localization::{
    catalogComplete, errorTemplate, interpolated, lawCompleteCatalogRendersEveryError,
    localizeError, ErrorCode, Locale, LocaleCatalog, MessageParam, MessageParams,
};
use crate::text::{concatText, copyOptional, copyText, optionalView, startsWith, startsWithText};
use vstd::prelude::*;

verus! {

/// The lifecycle of one listener. A missing endpoint alone never tells failure from absence.
#[derive(Clone, Copy, Debug, PartialEq, Eq, Structural)]
pub enum ListenerState {
    Disabled,
    Stopped,
    Running,
    Failed,
}

/// The machine-readable failure of a listener.
#[derive(Debug)]
pub struct ListenerErrorSnapshot {
    pub code: String,
    pub messageKey: String,
    pub params: MessageParams,
}

/// The mathematical value of a listener failure.
pub struct ListenerErrorView {
    pub code: Seq<char>,
    pub messageKey: Seq<char>,
    pub params: Seq<(Seq<char>, Seq<char>)>,
}

impl View for ListenerErrorSnapshot {
    type V = ListenerErrorView;

    open spec fn view(&self) -> ListenerErrorView {
        ListenerErrorView {
            code: self.code@,
            messageKey: self.messageKey@,
            params: self.params@,
        }
    }
}

/// The mathematical value of an optional listener failure.
pub open spec fn errorView(error: Option<ListenerErrorSnapshot>) -> Option<ListenerErrorView> {
    match error {
        Some(snapshot) => Some(snapshot@),
        None => None,
    }
}

/// The state of one listener as clients see it.
#[derive(Debug)]
pub struct ListenerSnapshot {
    pub enabled: bool,
    pub state: ListenerState,
    pub boundEndpoint: Option<String>,
    pub error: Option<ListenerErrorSnapshot>,
}

/// The state of both protocols of the fused listener.
#[derive(Debug)]
pub struct ListenerSnapshots {
    pub socks5: ListenerSnapshot,
    pub httpProxy: ListenerSnapshot,
}

/// The state of a listener: disabled, else running, else failed, else stopped.
pub open spec fn stateOfListener(enabled: bool, running: bool, failed: bool) -> ListenerState {
    if !enabled {
        ListenerState::Disabled
    } else if running {
        ListenerState::Running
    } else if failed {
        ListenerState::Failed
    } else {
        ListenerState::Stopped
    }
}

/// The state of a listener by priority.
pub fn listenerState(enabled: bool, running: bool, failed: bool) -> (result: ListenerState)
    ensures
        result == stateOfListener(enabled, running, failed),
{
    if !enabled {
        ListenerState::Disabled
    } else if running {
        ListenerState::Running
    } else if failed {
        ListenerState::Failed
    } else {
        ListenerState::Stopped
    }
}

/// A listener failure without named values.
pub open spec fn plainListenerError(code: Seq<char>, messageKey: Seq<char>) -> ListenerErrorView {
    ListenerErrorView { code, messageKey, params: Seq::empty() }
}

/// A listener failure that carries no diagnostic of its own.
pub fn listenerError(code: &str, messageKey: &str) -> (result: ListenerErrorSnapshot)
    ensures
        result@ == plainListenerError(code@, messageKey@),
{
    ListenerErrorSnapshot {
        code: copyText(code),
        messageKey: copyText(messageKey),
        params: MessageParams::new(),
    }
}

/// The error code under which a listener failure is rendered.
pub open spec fn renderedCode(code: Seq<char>) -> ErrorCode {
    if startsWith(code, "httpProxy"@) {
        ErrorCode::HttpProxyListenerFailed
    } else {
        ErrorCode::ServiceStartFailed
    }
}

/// The English text of a listener failure.
pub open spec fn listenerErrorText(
    catalogs: Seq<LocaleCatalog>,
    error: ListenerErrorView,
) -> Seq<char> {
    interpolated(
        errorTemplate(catalogs, renderedCode(error.code), Locale::En)->0,
        error.params,
    )
}

/// The English text of a listener failure, for start diagnostics.
pub fn listenerErrorMessage(error: &ListenerErrorSnapshot, catalogs: &Vec<LocaleCatalog>) -> (result:
    String)
    requires
        catalogComplete(catalogs@),
    ensures
        result@ == listenerErrorText(catalogs@, error@),
{
    proof {
        lawCompleteCatalogRendersEveryError(
            catalogs@,
            ErrorCode::HttpProxyListenerFailed,
            Locale::En,
        );
        lawCompleteCatalogRendersEveryError(catalogs@, ErrorCode::ServiceStartFailed, Locale::En);
    }
    if startsWithText(error.code.as_str(), "httpProxy") {
        localizeError(catalogs, ErrorCode::HttpProxyListenerFailed, Locale::En, &error.params)
    } else {
        localizeError(catalogs, ErrorCode::ServiceStartFailed, Locale::En, &error.params)
    }
}

/// The diagnostic of a failed listener, where there is one.
pub open spec fn aggregatedErrors(
    catalogs: Seq<LocaleCatalog>,
    error: Option<ListenerErrorView>,
) -> Option<Seq<char>> {
    match error {
        Some(failure) => Some("[socks5] "@ + listenerErrorText(catalogs, failure)),
        None => None,
    }
}

/// The diagnostic of a failed listener, where there is one.
pub fn aggregateListenerErrors(
    error: &Option<ListenerErrorSnapshot>,
    catalogs: &Vec<LocaleCatalog>,
) -> (result: Option<String>)
    requires
        catalogComplete(catalogs@),
    ensures
        optionalView(result) == aggregatedErrors(catalogs@, errorView(*error)),
{
    match error {
        Some(failure) => {
            let message = listenerErrorMessage(failure, catalogs);
            Some(concatText("[socks5] ", message.as_str()))
        },
        None => None,
    }
}

fn copyParams(params: &MessageParams) -> (result: MessageParams)
    ensures
        result@ == params@,
{
    let mut entries: Vec<MessageParam> = Vec::new();
    let mut i: usize = 0;
    while i < params.entries.len()
        invariant
            i <= params.entries.len(),
            entries@.len() == i,
            forall|k: int| 0 <= k < i ==> (#[trigger] entries@[k])@ == params.entries@[k]@,
        decreases params.entries.len() - i,
    {
        entries.push(
            MessageParam {
                name: copyText(params.entries[i].name.as_str()),
                value: copyText(params.entries[i].value.as_str()),
            },
        );
        i += 1;
    }
    let result = MessageParams { entries };
    assert(result@ == params@);
    result
}

/// An independent copy of an optional listener failure.
pub fn copyListenerError(error: &Option<ListenerErrorSnapshot>) -> (result: Option<
    ListenerErrorSnapshot,
>)
    ensures
        errorView(result) == errorView(*error),
{
    match error {
        Some(snapshot) => Some(
            ListenerErrorSnapshot {
                code: copyText(snapshot.code.as_str()),
                messageKey: copyText(snapshot.messageKey.as_str()),
                params: copyParams(&snapshot.params),
            },
        ),
        None => None,
    }
}

/// Whether a snapshot shows a listener with this endpoint and failure.
pub open spec fn showsListener(
    snapshot: ListenerSnapshot,
    enabled: bool,
    endpoint: Option<Seq<char>>,
    error: Option<ListenerErrorView>,
) -> bool {
    &&& snapshot.enabled == enabled
    &&& snapshot.state == stateOfListener(enabled, endpoint is Some, error is Some)
    &&& optionalView(snapshot.boundEndpoint) == endpoint
    &&& errorView(snapshot.error) == error
}

fn snapshotListener(
    enabled: bool,
    endpoint: &Option<String>,
    error: &Option<ListenerErrorSnapshot>,
) -> (result: ListenerSnapshot)
    ensures
        showsListener(result, enabled, optionalView(*endpoint), errorView(*error)),
{
    ListenerSnapshot {
        enabled,
        state: listenerState(enabled, endpoint.is_some(), error.is_some()),
        boundEndpoint: copyOptional(endpoint),
        error: copyListenerError(error),
    }
}

/// The public state of both protocols: they share one listener, and HTTP may be switched off.
pub fn listenerSnapshots(
    boundEndpoint: &Option<String>,
    socksError: &Option<ListenerErrorSnapshot>,
    httpEnabled: bool,
) -> (result: ListenerSnapshots)
    ensures
        showsListener(result.socks5, true, optionalView(*boundEndpoint), errorView(*socksError)),
        showsListener(
            result.httpProxy,
            httpEnabled,
            optionalView(*boundEndpoint),
            errorView(*socksError),
        ),
{
    ListenerSnapshots {
        socks5: snapshotListener(true, boundEndpoint, socksError),
        httpProxy: snapshotListener(httpEnabled, boundEndpoint, socksError),
    }
}

/// A listener is shown as it is: off where it is off, running where it is bound, failed where it could not be, and
/// stopped otherwise.
pub proof fn lawListenerIsShownAsItIs(enabled: bool, running: bool, failed: bool)
    ensures
        stateOfListener(enabled, running, failed) == ListenerState::Disabled <==> !enabled,
        stateOfListener(enabled, running, failed) == ListenerState::Running <==> enabled && running,
        stateOfListener(enabled, running, failed) == ListenerState::Failed <==> enabled && !running
            && failed,
        stateOfListener(enabled, running, failed) == ListenerState::Stopped <==> enabled && !running
            && !failed,
{
}

/// Only failures of the proxy for the web are told as such.
pub proof fn lawListenerFailureHasItsText(
    catalogs: Seq<LocaleCatalog>,
    rest: Seq<char>,
    error: ListenerErrorView,
)
    ensures
        renderedCode("httpProxy"@ + rest) == ErrorCode::HttpProxyListenerFailed,
        !startsWith(rest, "httpProxy"@) ==> renderedCode(rest) == ErrorCode::ServiceStartFailed,
        aggregatedErrors(catalogs, None) is None,
        aggregatedErrors(catalogs, Some(error)) == Some(
            "[socks5] "@ + listenerErrorText(catalogs, error),
        ),
{
    assert(("httpProxy"@ + rest).take("httpProxy"@.len() as int) =~= "httpProxy"@);
}

/// What is shown of a listener is what is known of it: its switch, its address and its failure, and it runs where it
/// is switched on and has an address.
pub proof fn lawShownListenerSaysWhatIsKnown(
    snapshot: ListenerSnapshot,
    enabled: bool,
    endpoint: Option<Seq<char>>,
    error: Option<ListenerErrorView>,
)
    requires
        showsListener(snapshot, enabled, endpoint, error),
    ensures
        snapshot.enabled == enabled,
        snapshot.state == ListenerState::Running <==> enabled && endpoint is Some,
        snapshot.state == ListenerState::Disabled <==> !enabled,
        snapshot.state == ListenerState::Failed <==> enabled && endpoint is None && error is Some,
        optionalView(snapshot.boundEndpoint) == endpoint,
        snapshot.error is Some <==> error is Some,
{
}

} // verus!
