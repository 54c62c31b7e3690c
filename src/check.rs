use crate::decide::{reason_text, should_run, stale, Decision, Timestamp};
use crate::error::{not_found_message, AppError};
use vstd::prelude::*;

verus! {

/// What probing one path for its modification time gave.
#[derive(Debug)]
pub enum Probe {
    Present(Timestamp),
    /// The path does not exist.
    Absent,
    /// Any other failure, with the message that gives its cause.
    Failed(String),
}

/// The check of one invocation, probe by probe: every input in resolution
/// order, then the output. It stops at the first input that is absent or
/// cannot be probed, so a decision is only ever made with all inputs present.
#[derive(Debug)]
pub struct Check {
    inputs: Vec<String>,
    output: String,
    resolved: Vec<(String, Timestamp)>,
}

/// `r` ends the check with the error message `msg`.
pub open spec fn fails_with(r: Option<Result<Decision, AppError>>, msg: Seq<char>) -> bool {
    r matches Some(Err(e)) && e.0@ == msg
}

/// `r` ends the check with the decision made from `entries` and the output's probe.
pub open spec fn decided(
    r: Option<Result<Decision, AppError>>,
    entries: Seq<(String, Timestamp)>,
    output: Seq<char>,
    out: Option<Timestamp>,
) -> bool {
    r matches Some(Ok(d)) && d.run == stale(entries, out) && d.reason@ == reason_text(
        entries,
        output,
        out,
    )
}

impl Check {
    /// The input paths, in resolution order.
    pub closed spec fn input_paths(&self) -> Seq<String> {
        self.inputs@
    }

    /// The output path.
    pub closed spec fn output_path(&self) -> Seq<char> {
        self.output@
    }

    /// The inputs found present so far, with their times.
    pub closed spec fn input_times(&self) -> Seq<(String, Timestamp)> {
        self.resolved@
    }

    /// At least one input; those resolved so far are a prefix of the inputs.
    pub open spec fn wf(&self) -> bool {
        &&& self.input_paths().len() > 0
        &&& self.input_times().len() <= self.input_paths().len()
        &&& forall|i: int|
            0 <= i < self.input_times().len() ==> #[trigger] self.input_times()[i].0
                == self.input_paths()[i]
    }

    /// Whether the next probe is that of an input (else it is the output's).
    pub open spec fn probing_inputs(&self) -> bool {
        self.input_times().len() < self.input_paths().len()
    }

    /// Starts the check of a resolved, non-empty input list against `output`.
    pub fn new(inputs: Vec<String>, output: String) -> (c: Check)
        requires
            inputs.len() > 0,
        ensures
            c.wf(),
            c.input_paths() == inputs@,
            c.output_path() == output@,
            c.input_times() == Seq::<(String, Timestamp)>::empty(),
    {
        Check { inputs, output, resolved: Vec::new() }
    }

    /// The path to probe next: the first input not yet found, or else the output.
    pub fn next_path(&self) -> (p: String)
        requires
            self.wf(),
        ensures
            self.probing_inputs() ==> p == self.input_paths()[self.input_times().len() as int],
            !self.probing_inputs() ==> p@ == self.output_path(),
    {
        if self.resolved.len() < self.inputs.len() {
            self.inputs[self.resolved.len()].clone()
        } else {
            self.output.clone()
        }
    }

    /// Takes the probe of the path that `next_path` named. Returns `None`
    /// while more probes are needed, else how the invocation ends. An absent
    /// input ends it with `file not found: <path>`, whatever the output's state.
    pub fn advance(&mut self, probe: Probe) -> (r: Option<Result<Decision, AppError>>)
        requires
            old(self).wf(),
        ensures
            final(self).wf(),
            final(self).input_paths() == old(self).input_paths(),
            final(self).output_path() == old(self).output_path(),
            old(self).probing_inputs() ==> ({
                let before = old(self).input_times();
                let path = old(self).input_paths()[before.len() as int];
                match probe {
                    Probe::Present(t) => r is None && final(self).input_times() == before.push(
                        (path, t),
                    ),
                    Probe::Absent => fails_with(r, not_found_message(path@))
                        && final(self).input_times() == before,
                    Probe::Failed(m) => fails_with(r, m@) && final(self).input_times() == before,
                }
            }),
            !old(self).probing_inputs() ==> ({
                let before = old(self).input_times();
                let output = old(self).output_path();
                &&& final(self).input_times() == before
                &&& match probe {
                    Probe::Present(t) => decided(r, before, output, Some(t)),
                    Probe::Absent => decided(r, before, output, None),
                    Probe::Failed(m) => fails_with(r, m@),
                }
            }),
    {
        if self.resolved.len() < self.inputs.len() {
            let k = self.resolved.len();
            match probe {
                Probe::Present(t) => {
                    let path = self.inputs[k].clone();
                    self.resolved.push((path, t));
                    None
                },
                Probe::Absent => Some(Err(AppError::not_found(self.inputs[k].as_str()))),
                Probe::Failed(m) => Some(Err(AppError(m))),
            }
        } else {
            match probe {
                Probe::Present(t) => Some(Ok(should_run(&self.resolved, self.output.as_str(), Some(t)))),
                Probe::Absent => Some(Ok(should_run(&self.resolved, self.output.as_str(), None))),
                Probe::Failed(m) => Some(Err(AppError(m))),
            }
        }
    }
}

} // verus!
