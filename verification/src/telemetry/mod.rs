//! Telemetry sinks.

pub mod multi;
pub mod noop;
pub mod observe;
pub mod render;

pub use crate::telemetry::multi::MultiEmit;
pub use crate::telemetry::noop::NoopEmit;
pub use crate::telemetry_schema::{Event, ResyncReason, TelemetryEmit};
