//! Lifecycle of a session.

use vstd::prelude::*;

verus! {

/// Coarse state of the parallel port service.
#[derive(Debug, Clone, Copy, PartialEq, Eq, Structural)]
pub enum Phase3State {
    Boot,
    ServeLpt,
    Error,
}

/// State of the supervisor, as the status light shows it.
#[derive(Debug, Clone, Copy, PartialEq, Eq, Structural)]
pub enum SupervisorState {
    Boot,
    Selftest,
    AwaitHostPower,
    DetectMachineClass,
    InjectDebug,
    ServeStage0Download,
    ServeStage1Handoff,
    ServeCapHandshake,
    ServeStage2Download,
    DpReady,
    DpActive,
    ErrorRecoverable,
    FaultUnrecoverable,
}

} // verus!
