//! What one trigger of a binding does: the call it issues, and how its
//! outcome is reported. A failed call is never fatal.
use vstd::prelude::*;
use crate::config::Binding;

verus! {

/// What a trigger asks of the session.
pub enum TriggerPlan {
    /// Issue this remote call.
    Call { domain: String, service: String, payload: serde_json::Value },
    /// The session is not there: report it and drop this trigger.
    NoSession,
}

/// How the outcome of a trigger is reported.
#[derive(Debug)]
pub enum Report {
    /// The hub acknowledged the call; logged at information level.
    Acknowledged(String),
    /// The call failed with this text; logged as an error and shown to the user.
    CallFailed(String),
    /// No session was available; logged as an error and shown to the user.
    NoSession,
}

#[derive(PartialEq, Eq, Structural, Clone, Copy, Debug)]
pub enum Level {
    Info,
    Error,
}

/// Decides what a trigger of `binding` does, given whether the session is there.
pub fn on_trigger<K>(session_ready: bool, binding: &Binding<K>) -> (r: TriggerPlan)
    ensures
        session_ready ==> r == (TriggerPlan::Call {
            domain: binding.domain,
            service: binding.service,
            payload: binding.payload,
        }),
        !session_ready ==> r is NoSession,
{
    if session_ready {
        TriggerPlan::Call {
            domain: binding.domain.clone(),
            service: binding.service.clone(),
            payload: binding.payload.clone(),
        }
    } else {
        TriggerPlan::NoSession
    }
}

/// Turns the outcome of a remote call (its acknowledgement or its error text)
/// into a report.
pub fn on_outcome(outcome: Result<String, String>) -> (r: Report)
    ensures
        outcome is Ok ==> r == Report::Acknowledged(outcome->Ok_0),
        outcome is Err ==> r == Report::CallFailed(outcome->Err_0),
{
    match outcome {
        Ok(ack) => Report::Acknowledged(ack),
        Err(text) => Report::CallFailed(text),
    }
}

impl Report {
    pub open spec fn spec_notifies_user(&self) -> bool {
        !(self is Acknowledged)
    }

    /// Whether the user is shown a notification.
    pub fn notifies_user(&self) -> (r: bool)
        ensures
            r == self.spec_notifies_user(),
    {
        match self {
            Report::Acknowledged(_) => false,
            _ => true,
        }
    }

    /// The level at which the report is logged.
    pub fn level(&self) -> (r: Level)
        ensures
            self is Acknowledged ==> r == Level::Info,
            !(self is Acknowledged) ==> r == Level::Error,
    {
        match self {
            Report::Acknowledged(_) => Level::Info,
            _ => Level::Error,
        }
    }
}

} // verus!
