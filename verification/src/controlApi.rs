//! The control API: what it accepts, what it answers and how it drives the data plane.

pub mod accountRecovery;
pub mod accountServiceControl;
pub mod accountServiceMapping;
pub mod accountServiceSupervisor;
pub mod applicationBodyDecoder;
pub mod clientPackageControl;
pub mod configuration;
pub mod configurationStore;
pub mod dataDirectory;
pub mod headerFields;
pub mod headerText;
pub mod httpControl;
pub mod initialization;
pub mod listenerControl;
pub mod listeners;
pub mod mapLocalImport;
pub mod mcpControl;
pub mod mediaPreviewControl;
pub mod metrics;
pub mod pluginControl;
pub mod processControl;
pub mod processIcon;
pub mod protocolControl;
pub mod protocolHandler;
pub mod recordingControl;
pub mod repeatControl;
pub mod runtimeEventControl;
pub mod serviceStartup;
pub mod serviceState;
pub mod sessions;
pub mod sslControl;
pub mod stateProjection;
pub mod toolControl;
pub mod transactions;
pub mod uiContextControl;
