//! FastLane: a local HTTP proxy that keeps, per accelerated domain, the
//! fastest measured IP address in a time-limited cache.
//!
//! This crate holds the proxy's decisions and data: the IP cache, the
//! configuration model, the control API's routing, target resolution and
//! request forwarding plans, speed-test selection and the bookkeeping of the
//! system proxy setting. The network, file and registry work lives in the
//! program around it.

pub mod cache;
pub mod clock;
pub mod config;
pub mod control;
pub mod proxy;
pub mod speedtest;
pub mod system_proxy;
pub mod text;
