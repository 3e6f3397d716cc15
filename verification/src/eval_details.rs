//! Why an evaluation came out as it did, and when.

use vstd::prelude::*;

verus! {

#[derive(Debug, Copy, Clone, PartialEq, Eq, Structural)]
pub enum EvaluationReason {
    Network,
    DataAdapter,
    Uninitialized,
    Unrecognized,
    Unsupported,
}

#[derive(Debug, Copy, Clone, PartialEq, Eq, Structural)]
pub struct EvalDetails {
    pub reason: EvaluationReason,
    pub config_sync_time: u64,
    pub init_time: u64,
    pub server_time: u64,
}

impl EvalDetails {
    /// The details of an evaluation made at `server_time` before any rule
    /// set has arrived.
    pub fn default(server_time: u64) -> (r: Self)
        ensures
            r == (EvalDetails {
                reason: EvaluationReason::Uninitialized,
                config_sync_time: 0,
                init_time: 0,
                server_time,
            }),
    {
        EvalDetails {
            reason: EvaluationReason::Uninitialized,
            config_sync_time: 0,
            init_time: 0,
            server_time,
        }
    }

    /// The name of the reason, as exposure events carry it.
    pub fn reason_name(&self) -> (r: &'static str)
        ensures
            r@ == reason_text(self.reason),
    {
        match self.reason {
            EvaluationReason::Network => "Network",
            EvaluationReason::DataAdapter => "DataAdapter",
            EvaluationReason::Uninitialized => "Uninitialized",
            EvaluationReason::Unrecognized => "Unrecognized",
            EvaluationReason::Unsupported => "Unsupported",
        }
    }
}

pub open spec fn reason_text(reason: EvaluationReason) -> Seq<char> {
    match reason {
        EvaluationReason::Network => "Network"@,
        EvaluationReason::DataAdapter => "DataAdapter"@,
        EvaluationReason::Uninitialized => "Uninitialized"@,
        EvaluationReason::Unrecognized => "Unrecognized"@,
        EvaluationReason::Unsupported => "Unsupported"@,
    }
}

} // verus!
