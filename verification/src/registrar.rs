//! The registrar: keep asking to be a candidate sequencer, and start a poll
//! cycle for every height that is assigned.

use vstd::prelude::*;
use crate::types::{BlockHeight, FailureKind};

verus! {

/// Milliseconds between two registration requests.
pub const REGISTRATION_INTERVAL_MS: u64 = 500;

/// How one registration request ended.
#[derive(Clone, Copy, Debug, PartialEq, Eq, Structural)]
pub enum RegistrationOutcome {
    /// The node is a candidate for `height`.
    Assigned { height: BlockHeight },
    /// The request was heard, and the node is not eligible at present.
    NotAssigned,
    /// The request itself failed.
    Failed { kind: FailureKind },
}

/// What the registrar does after one request.
#[derive(Clone, Copy, Debug, PartialEq, Eq, Structural)]
pub enum RegistrarStep {
    /// Start one poll cycle for `height`, then sleep for `delay_ms`
    /// milliseconds and ask again.
    Spawn { height: BlockHeight, delay_ms: u64 },
    /// Sleep for `delay_ms` milliseconds and ask again.
    Wait { delay_ms: u64 },
    /// Stop asking.
    Abort,
}

impl RegistrarStep {
    /// The height for which a poll cycle is to be started, if any.
    pub open spec fn spawned(self) -> Option<BlockHeight> {
        match self {
            RegistrarStep::Spawn { height, .. } => Some(height),
            _ => None,
        }
    }
}

/// One decision of the registrar: what to do after a request that ended in
/// `outcome`.
///
/// An assigned height starts exactly one poll cycle, for that height. The
/// registrar then asks again after the registration interval, as it does
/// after an answer without a height and after a transient fault. Only a fault
/// that no repetition can mend stops it.
pub fn registerer(outcome: RegistrationOutcome) -> (step: RegistrarStep)
    ensures
        step.spawned() == match outcome {
            RegistrationOutcome::Assigned { height } => Some(height),
            _ => None,
        },
        step is Abort <==> outcome == (RegistrationOutcome::Failed { kind: FailureKind::Fatal }),
        step matches RegistrarStep::Spawn { delay_ms, .. } ==> delay_ms == REGISTRATION_INTERVAL_MS,
        step matches RegistrarStep::Wait { delay_ms } ==> delay_ms == REGISTRATION_INTERVAL_MS,
{
    match outcome {
        RegistrationOutcome::Assigned { height } => RegistrarStep::Spawn {
            height,
            delay_ms: REGISTRATION_INTERVAL_MS,
        },
        RegistrationOutcome::NotAssigned => RegistrarStep::Wait { delay_ms: REGISTRATION_INTERVAL_MS },
        RegistrationOutcome::Failed { kind: FailureKind::Transient } => RegistrarStep::Wait {
            delay_ms: REGISTRATION_INTERVAL_MS,
        },
        RegistrationOutcome::Failed { kind: FailureKind::Fatal } => RegistrarStep::Abort,
    }
}

} // verus!
