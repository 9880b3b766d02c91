//! The resize workflow: stop, wait until stopped, modify the type, set
//! the CPU-credit specification for burstable types, start again. The
//! decisions live here, fully verified; the caller performs each remote
//! call and feeds the outcome back. The workflow aborts at the first
//! failing step — except the credit step, whose failure is reported but
//! does not abort — and never rolls back.

use vstd::prelude::*;
use crate::app::AppEvent;
use crate::text::str_eq;

verus! {

/// The step the workflow will attempt next.
#[derive(Clone, Copy, Debug, PartialEq, Eq, Structural)]
pub enum SagaStep {
    Stop,
    WaitStopped,
    Modify,
    CreditSpec,
    Start,
    Done,
}

/// One remote call the caller must perform for the workflow.
#[derive(Clone, Debug, PartialEq)]
pub enum SagaCall {
    Stop { instance_id: String },
    /// Poll the instance state every `poll_secs` until it reads
    /// "stopped", up to a ceiling of `timeout_secs`.
    WaitUntilStopped { instance_id: String, timeout_secs: u64, poll_secs: u64 },
    ModifyType { instance_id: String, new_type: String },
    ModifyCreditSpec { instance_id: String, credit_spec: String },
    Start { instance_id: String },
}

/// The resize workflow's state: what to resize, to what, with which
/// credit preference, and which step comes next.
pub struct ResizeSaga {
    pub instance_id: String,
    pub new_type: String,
    pub credit_spec: String,
    pub step: SagaStep,
}

/// A type is burstable when its name begins with the letter `t`; only
/// those get a CPU-credit specification.
pub open spec fn is_burstable(name: Seq<char>) -> bool {
    name.len() > 0 && name[0] == 't'
}

/// The step after a successful one: the strict stop, wait, modify,
/// credit (burstable types only), start order.
pub open spec fn step_after_success(step: SagaStep, new_type: Seq<char>) -> SagaStep {
    match step {
        SagaStep::Stop => SagaStep::WaitStopped,
        SagaStep::WaitStopped => SagaStep::Modify,
        SagaStep::Modify => if is_burstable(new_type) {
            SagaStep::CreditSpec
        } else {
            SagaStep::Start
        },
        SagaStep::CreditSpec => SagaStep::Start,
        SagaStep::Start => SagaStep::Done,
        SagaStep::Done => SagaStep::Done,
    }
}

/// The step after a failed one: everything aborts except the credit
/// step, which reports and goes on to start the instance.
pub open spec fn step_after_failure(step: SagaStep) -> SagaStep {
    match step {
        SagaStep::CreditSpec => SagaStep::Start,
        _ => SagaStep::Done,
    }
}

/// The error prefix naming each step.
pub open spec fn failure_prefix(step: SagaStep) -> Seq<char> {
    match step {
        SagaStep::Stop => "Stop failed: "@,
        SagaStep::WaitStopped => "Wait failed: "@,
        SagaStep::Modify => "Modify failed: "@,
        SagaStep::CreditSpec => "Credit spec failed: "@,
        SagaStep::Start => "Start failed: "@,
        SagaStep::Done => Seq::empty(),
    }
}

fn concat2(a: &str, b: &str) -> (r: String)
    ensures
        r@ == a@ + b@,
{
    let mut s = a.to_owned();
    s.append(b);
    s
}

fn concat3(a: &str, b: &str, c: &str) -> (r: String)
    ensures
        r@ == a@ + b@ + c@,
{
    let mut s = a.to_owned();
    s.append(b);
    s.append(c);
    s
}

impl ResizeSaga {
    /// A fresh workflow, about to stop the instance.
    pub fn new(instance_id: String, new_type: String, credit_spec: String) -> (r: ResizeSaga)
        ensures
            r.instance_id == instance_id,
            r.new_type == new_type,
            r.credit_spec == credit_spec,
            r.step == SagaStep::Stop,
    {
        ResizeSaga { instance_id, new_type, credit_spec, step: SagaStep::Stop }
    }

    /// The progress messages to emit and the remote call to perform for
    /// the current step; nothing once the workflow is done.
    pub fn next_call(&self) -> (r: Option<(Vec<AppEvent>, SagaCall)>)
        ensures
            self.step is Done <==> r is None,
            (r matches Some((events, call)) ==> match self.step {
                SagaStep::Stop => {
                    &&& events@.len() == 0
                    &&& (call matches SagaCall::Stop { instance_id } && instance_id@
                        == self.instance_id@)
                },
                SagaStep::WaitStopped => {
                    &&& events@.len() == 1
                    &&& (events@[0] matches AppEvent::Message(m) && m@ == "Waiting for stop..."@)
                    &&& (call matches SagaCall::WaitUntilStopped {
                        instance_id,
                        timeout_secs,
                        poll_secs,
                    } && instance_id@ == self.instance_id@ && timeout_secs == 300 && poll_secs
                        == 2)
                },
                SagaStep::Modify => {
                    &&& events@.len() == 1
                    &&& (events@[0] matches AppEvent::Message(m) && m@ == "Changing to "@
                        + self.new_type@ + "..."@)
                    &&& (call matches SagaCall::ModifyType { instance_id, new_type } &&
                        instance_id@ == self.instance_id@ && new_type@ == self.new_type@)
                },
                SagaStep::CreditSpec => {
                    &&& events@.len() == 1
                    &&& (events@[0] matches AppEvent::Message(m) && m@
                        == "Setting credit spec..."@)
                    &&& (call matches SagaCall::ModifyCreditSpec { instance_id, credit_spec } &&
                        instance_id@ == self.instance_id@ && credit_spec@ == self.credit_spec@)
                },
                SagaStep::Start => {
                    &&& events@.len() == 1
                    &&& (events@[0] matches AppEvent::Message(m) && m@ == "Starting..."@)
                    &&& (call matches SagaCall::Start { instance_id } && instance_id@
                        == self.instance_id@)
                },
                SagaStep::Done => false,
            }),
    {
        match self.step {
            SagaStep::Stop => {
                let events: Vec<AppEvent> = Vec::new();
                Some((events, SagaCall::Stop { instance_id: self.instance_id.clone() }))
            },
            SagaStep::WaitStopped => {
                let mut events: Vec<AppEvent> = Vec::new();
                events.push(AppEvent::Message("Waiting for stop...".to_owned()));
                Some(
                    (
                        events,
                        SagaCall::WaitUntilStopped {
                            instance_id: self.instance_id.clone(),
                            timeout_secs: 300,
                            poll_secs: 2,
                        },
                    ),
                )
            },
            SagaStep::Modify => {
                let mut events: Vec<AppEvent> = Vec::new();
                events.push(
                    AppEvent::Message(concat3("Changing to ", self.new_type.as_str(), "...")),
                );
                Some(
                    (
                        events,
                        SagaCall::ModifyType {
                            instance_id: self.instance_id.clone(),
                            new_type: self.new_type.clone(),
                        },
                    ),
                )
            },
            SagaStep::CreditSpec => {
                let mut events: Vec<AppEvent> = Vec::new();
                events.push(AppEvent::Message("Setting credit spec...".to_owned()));
                Some(
                    (
                        events,
                        SagaCall::ModifyCreditSpec {
                            instance_id: self.instance_id.clone(),
                            credit_spec: self.credit_spec.clone(),
                        },
                    ),
                )
            },
            SagaStep::Start => {
                let mut events: Vec<AppEvent> = Vec::new();
                events.push(AppEvent::Message("Starting...".to_owned()));
                Some((events, SagaCall::Start { instance_id: self.instance_id.clone() }))
            },
            SagaStep::Done => None,
        }
    }

    /// Advances past the current step given its outcome and returns the
    /// events to emit: on failure, an error naming the step (aborting
    /// unless it was the credit step); on final success, the completion
    /// message and the refresh signal.
    pub fn on_result(&mut self, error: Option<String>) -> (events: Vec<AppEvent>)
        ensures
            final(self).instance_id == old(self).instance_id,
            final(self).new_type == old(self).new_type,
            final(self).credit_spec == old(self).credit_spec,
            match error {
                Some(e) => {
                    &&& final(self).step == (if old(self).step is Done {
                        SagaStep::Done
                    } else {
                        step_after_failure(old(self).step)
                    })
                    &&& if old(self).step is Done {
                        events@.len() == 0
                    } else {
                        events@.len() == 1 && (events@[0] matches AppEvent::Error(m) && m@
                            == failure_prefix(old(self).step) + e@)
                    }
                },
                None => {
                    &&& final(self).step == step_after_success(
                        old(self).step,
                        old(self).new_type@,
                    )
                    &&& if old(self).step is Start {
                        &&& events@.len() == 2
                        &&& (events@[0] matches AppEvent::Message(m) && m@
                            == "Done. Refreshing..."@)
                        &&& events@[1] is InstancesUpdated
                    } else {
                        events@.len() == 0
                    }
                },
            },
    {
        let mut events: Vec<AppEvent> = Vec::new();
        match error {
            Some(e) => {
                match self.step {
                    SagaStep::Stop => {
                        events.push(AppEvent::Error(concat2("Stop failed: ", e.as_str())));
                        self.step = SagaStep::Done;
                    },
                    SagaStep::WaitStopped => {
                        events.push(AppEvent::Error(concat2("Wait failed: ", e.as_str())));
                        self.step = SagaStep::Done;
                    },
                    SagaStep::Modify => {
                        events.push(AppEvent::Error(concat2("Modify failed: ", e.as_str())));
                        self.step = SagaStep::Done;
                    },
                    SagaStep::CreditSpec => {
                        events.push(
                            AppEvent::Error(concat2("Credit spec failed: ", e.as_str())),
                        );
                        self.step = SagaStep::Start;
                    },
                    SagaStep::Start => {
                        events.push(AppEvent::Error(concat2("Start failed: ", e.as_str())));
                        self.step = SagaStep::Done;
                    },
                    SagaStep::Done => {},
                }
            },
            None => {
                match self.step {
                    SagaStep::Stop => {
                        self.step = SagaStep::WaitStopped;
                    },
                    SagaStep::WaitStopped => {
                        self.step = SagaStep::Modify;
                    },
                    SagaStep::Modify => {
                        let burstable = self.new_type.as_str().unicode_len() > 0
                            && self.new_type.as_str().get_char(0) == 't';
                        if burstable {
                            self.step = SagaStep::CreditSpec;
                        } else {
                            self.step = SagaStep::Start;
                        }
                    },
                    SagaStep::CreditSpec => {
                        self.step = SagaStep::Start;
                    },
                    SagaStep::Start => {
                        events.push(AppEvent::Message("Done. Refreshing...".to_owned()));
                        events.push(AppEvent::InstancesUpdated);
                        self.step = SagaStep::Done;
                    },
                    SagaStep::Done => {},
                }
            },
        }
        events
    }
}

/// What the polling step does with one observed state: finish when the
/// instance reads "stopped", give up past the ceiling, else poll again.
#[derive(Clone, Copy, Debug, PartialEq, Eq, Structural)]
pub enum WaitDecision {
    Stopped,
    TimedOut,
    Poll,
}

/// Decides one round of the wait-until-stopped poll. The ceiling is
/// checked only after a state that is not "stopped", as a strict bound.
pub fn wait_decision(state: &str, elapsed_secs: u64, timeout_secs: u64) -> (r: WaitDecision)
    ensures
        r == (if state@ == "stopped"@ {
            WaitDecision::Stopped
        } else if elapsed_secs > timeout_secs {
            WaitDecision::TimedOut
        } else {
            WaitDecision::Poll
        }),
{
    if str_eq(state, "stopped") {
        WaitDecision::Stopped
    } else if elapsed_secs > timeout_secs {
        WaitDecision::TimedOut
    } else {
        WaitDecision::Poll
    }
}

} // verus!
