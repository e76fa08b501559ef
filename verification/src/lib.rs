//! Control plane of a capture proxy: configuration, service lifecycle, recorded traffic and the
//! rules by which the control API answers.

#![allow(non_snake_case)]
#![allow(non_upper_case_globals)]

pub mod controlApi;
pub mod documents;
pub mod encoding;
pub mod identifier;
pub mod localization;
pub mod network;
pub mod ordering;
pub mod packetDataPlane;
pub mod runtime;
pub mod text;
