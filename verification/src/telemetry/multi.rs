//! A sink that feeds two sinks.

use vstd::prelude::*;

use crate::telemetry_schema::{Event, TelemetryEmit};

verus! {

/// Hands every event to both sinks, to the first one first.
#[derive(Debug, Clone, Copy)]
pub struct MultiEmit<A: TelemetryEmit, B: TelemetryEmit>(pub A, pub B);

impl<A: TelemetryEmit, B: TelemetryEmit> TelemetryEmit for MultiEmit<A, B> {
    fn emit(&self, event: Event)
        ensures
            call_ensures(A::emit, (&self.0, event), ()),
            call_ensures(B::emit, (&self.1, event), ()),
    {
        self.0.emit(event);
        self.1.emit(event);
    }
}

} // verus!
