//! A sink that drops all events.

use vstd::prelude::*;

use crate::telemetry_schema::{Event, TelemetryEmit};

verus! {

/// Drops all events.
#[derive(Debug, Clone, Copy)]
pub struct NoopEmit;

impl TelemetryEmit for NoopEmit {
    fn emit(&self, _event: Event) {
    }
}

} // verus!
