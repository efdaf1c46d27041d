//! Supervision of the external decryption program: the checks made before it
//! is started, its arguments, the decisions of the poll loop (progress, stall,
//! timeout, exit) and the check of its output. The caller spawns, polls, sleeps
//! and kills; this module decides.
use vstd::prelude::*;

verus! {

#[derive(PartialEq, Eq, Structural, Clone, Copy, Debug)]
pub enum DecryptError {
    /// No program at the configured path.
    BinaryMissing,
    /// The program is there but no execute permission bit is set.
    BinaryNotExecutable,
    /// The encrypted input is missing or empty.
    InputMissing,
    /// The program exited unsuccessfully, with this exit code if it had one.
    ProcessFailed { code: Option<i32> },
    /// The run took longer than this many seconds and was terminated.
    Timeout { secs: u64 },
    /// The program succeeded but wrote no output file.
    OutputMissing,
}

/// Checks made before the program is started: it exists, it is executable where
/// the platform has permission bits (`mode`), and the input is not empty.
pub open spec fn preflight_of(exists: bool, mode: Option<u32>, input_size: u64) -> Result<(), DecryptError> {
    if !exists {
        Err(DecryptError::BinaryMissing)
    } else if mode matches Some(m) && m & 0o111u32 == 0 {
        Err(DecryptError::BinaryNotExecutable)
    } else if input_size == 0 {
        Err(DecryptError::InputMissing)
    } else {
        Ok(())
    }
}

pub fn preflight(exists: bool, mode: Option<u32>, input_size: u64) -> (r: Result<(), DecryptError>)
    ensures
        r == preflight_of(exists, mode, input_size),
{
    if !exists {
        return Err(DecryptError::BinaryMissing);
    }
    match mode {
        Some(m) => {
            if m & 0o111u32 == 0 {
                return Err(DecryptError::BinaryNotExecutable);
            }
        },
        None => {},
    }
    if input_size == 0 {
        return Err(DecryptError::InputMissing);
    }
    Ok(())
}

/// The program's arguments: decrypt mode, a direct key, the key, input, output.
pub fn decryptor_args(key: &str, input: &str, output: &str) -> (r: Vec<String>)
    ensures
        r@.len() == 5,
        r@[0]@ == "d"@,
        r@[1]@ == "key"@,
        r@[2]@ == key@,
        r@[3]@ == input@,
        r@[4]@ == output@,
{
    let mut v: Vec<String> = Vec::new();
    v.push("d".to_owned());
    v.push("key".to_owned());
    v.push(key.to_owned());
    v.push(input.to_owned());
    v.push(output.to_owned());
    v
}

/// How the program ended.
#[derive(PartialEq, Eq, Structural, Clone, Copy, Debug)]
pub struct ExitInfo {
    pub success: bool,
    pub code: Option<i32>,
}

/// One look at the running job.
#[derive(PartialEq, Eq, Structural, Clone, Copy, Debug)]
pub struct Poll {
    /// `Some` once the program has exited.
    pub exited: Option<ExitInfo>,
    /// Size of the output file, `None` while it does not exist.
    pub output_size: Option<u64>,
    /// Milliseconds since the program was started.
    pub elapsed_ms: u64,
}

#[derive(PartialEq, Eq, Structural, Clone, Copy, Debug)]
pub enum SuperviseEvent {
    Polled(Poll),
    /// The program was terminated after a timeout and has been waited for.
    Terminated,
}

#[derive(PartialEq, Eq, Structural, Clone, Copy, Debug)]
pub enum SuperviseAction {
    /// Show `progress` bytes (or an indeterminate indicator), sleep one poll
    /// interval, poll again.
    Continue { progress: u64, indeterminate: bool },
    /// The program succeeded; the final progress shown is `progress`.
    Succeeded { progress: u64 },
    /// Terminate the program, wait for it, then report `Terminated`.
    Terminate,
    Failed(DecryptError),
}

/// The poll loop's state.
#[derive(PartialEq, Eq, Structural, Clone, Copy, Debug)]
pub struct Supervisor {
    pub input_size: u64,
    pub timeout_secs: u64,
    /// Polls with an unchanged output size after which a stall is flagged.
    pub stall_threshold: u64,
    pub last_size: Option<u64>,
    /// Consecutive polls that saw the output size unchanged.
    pub unchanged_polls: u64,
    pub stalled: bool,
}

pub open spec fn min_u64(a: u64, b: u64) -> u64 {
    if a <= b { a } else { b }
}

pub open spec fn timed_out(elapsed_ms: u64, timeout_secs: u64) -> bool {
    elapsed_ms as int > timeout_secs as int * 1000
}

/// The progress shown for an output of `size` bytes: never beyond the input size.
pub open spec fn progress_of(s: Supervisor, size: Option<u64>) -> u64 {
    match size {
        Some(z) => min_u64(z, s.input_size),
        None => match s.last_size {
            Some(z) => min_u64(z, s.input_size),
            None => 0,
        },
    }
}

/// The state after the output was seen at `size` by a poll of a running program.
pub open spec fn observe(s: Supervisor, size: Option<u64>) -> Supervisor {
    match size {
        Some(z) => {
            let unchanged = if s.last_size == Some(z) {
                if s.unchanged_polls < u64::MAX { (s.unchanged_polls + 1) as u64 } else { s.unchanged_polls }
            } else {
                0
            };
            Supervisor {
                last_size: Some(z),
                unchanged_polls: unchanged,
                stalled: s.stalled || unchanged >= s.stall_threshold,
                ..s
            }
        },
        None => s,
    }
}

pub open spec fn supervise_step(s: Supervisor, e: SuperviseEvent) -> (Supervisor, SuperviseAction) {
    match e {
        SuperviseEvent::Polled(p) => match p.exited {
            Some(x) => {
                if x.success {
                    (s, SuperviseAction::Succeeded { progress: progress_of(s, p.output_size) })
                } else {
                    (s, SuperviseAction::Failed(DecryptError::ProcessFailed { code: x.code }))
                }
            },
            None => {
                let n = observe(s, p.output_size);
                if timed_out(p.elapsed_ms, s.timeout_secs) {
                    (n, SuperviseAction::Terminate)
                } else {
                    (n, SuperviseAction::Continue { progress: progress_of(s, p.output_size), indeterminate: n.stalled })
                }
            },
        },
        SuperviseEvent::Terminated => (s, SuperviseAction::Failed(DecryptError::Timeout { secs: s.timeout_secs })),
    }
}

} // verus!

verus! {

fn is_timed_out(elapsed_ms: u64, timeout_secs: u64) -> (r: bool)
    ensures
        r == timed_out(elapsed_ms, timeout_secs),
{
    if timeout_secs <= u64::MAX / 1000 {
        elapsed_ms > timeout_secs * 1000
    } else {
        proof {
            assert(timeout_secs as int * 1000 > u64::MAX) by (nonlinear_arith)
                requires timeout_secs > u64::MAX / 1000;
        }
        false
    }
}

impl Supervisor {
    pub fn new(input_size: u64, timeout_secs: u64, stall_threshold: u64) -> (r: Supervisor)
        ensures
            r == (Supervisor {
                input_size,
                timeout_secs,
                stall_threshold,
                last_size: None,
                unchanged_polls: 0,
                stalled: false,
            }),
    {
        Supervisor { input_size, timeout_secs, stall_threshold, last_size: None, unchanged_polls: 0, stalled: false }
    }

    fn progress(&self, size: Option<u64>) -> (r: u64)
        ensures
            r == progress_of(*self, size),
    {
        let z = match size {
            Some(z) => z,
            None => match self.last_size {
                Some(z) => z,
                None => 0,
            },
        };
        if z <= self.input_size { z } else { self.input_size }
    }

    /// Takes in what the caller observed and says what it does next.
    pub fn step(&mut self, e: SuperviseEvent) -> (r: SuperviseAction)
        ensures
            (*final(self), r) == supervise_step(*old(self), e),
    {
        match e {
            SuperviseEvent::Polled(p) => {
                let progress = self.progress(p.output_size);
                match p.exited {
                    Some(x) => {
                        if x.success {
                            SuperviseAction::Succeeded { progress }
                        } else {
                            SuperviseAction::Failed(DecryptError::ProcessFailed { code: x.code })
                        }
                    },
                    None => {
                        match p.output_size {
                            Some(z) => {
                                let same = match self.last_size {
                                    Some(l) => l == z,
                                    None => false,
                                };
                                if same {
                                    if self.unchanged_polls < u64::MAX {
                                        self.unchanged_polls = self.unchanged_polls + 1;
                                    }
                                } else {
                                    self.unchanged_polls = 0;
                                }
                                self.last_size = Some(z);
                                self.stalled = self.stalled || self.unchanged_polls >= self.stall_threshold;
                            },
                            None => {},
                        }
                        if is_timed_out(p.elapsed_ms, self.timeout_secs) {
                            SuperviseAction::Terminate
                        } else {
                            SuperviseAction::Continue { progress, indeterminate: self.stalled }
                        }
                    },
                }
            },
            SuperviseEvent::Terminated => SuperviseAction::Failed(DecryptError::Timeout { secs: self.timeout_secs }),
        }
    }
}

/// The check of a finished run's output: it must exist; `Ok(true)` carries the
/// warning that it is under half the input's size.
pub open spec fn output_check_of(output_size: Option<u64>, input_size: u64) -> Result<bool, DecryptError> {
    match output_size {
        Some(z) => Ok(z < input_size / 2),
        None => Err(DecryptError::OutputMissing),
    }
}

pub fn check_output(output_size: Option<u64>, input_size: u64) -> (r: Result<bool, DecryptError>)
    ensures
        r == output_check_of(output_size, input_size),
{
    match output_size {
        Some(z) => Ok(z < input_size / 2),
        None => Err(DecryptError::OutputMissing),
    }
}

/// A stall is not fatal: a poll that finds the program running before the
/// timeout always lets the job continue.
pub proof fn lemma_running_within_timeout_continues(s: Supervisor, p: Poll)
    requires
        p.exited is None,
        !timed_out(p.elapsed_ms, s.timeout_secs),
    ensures
        supervise_step(s, SuperviseEvent::Polled(p)).1 is Continue,
{
}

/// The state after polling a running program `k` times while its output stays at `size`.
pub open spec fn polls_unchanged(s: Supervisor, size: u64, elapsed_ms: u64, k: nat) -> Supervisor
    decreases k,
{
    if k == 0 {
        s
    } else {
        let p = Poll { exited: None, output_size: Some(size), elapsed_ms };
        supervise_step(polls_unchanged(s, size, elapsed_ms, (k - 1) as nat), SuperviseEvent::Polled(p)).0
    }
}

proof fn lemma_polls_unchanged_state(s: Supervisor, size: u64, elapsed_ms: u64, k: nat)
    requires
        s.last_size is None,
        !s.stalled,
        k >= 1,
        k <= u64::MAX,
    ensures
        ({
            let t = polls_unchanged(s, size, elapsed_ms, k);
            &&& t.last_size == Some(size)
            &&& t.unchanged_polls == k - 1
            &&& t.stalled == (k - 1 >= s.stall_threshold)
            &&& t.input_size == s.input_size
            &&& t.timeout_secs == s.timeout_secs
            &&& t.stall_threshold == s.stall_threshold
        }),
    decreases k,
{
    if k > 1 {
        lemma_polls_unchanged_state(s, size, elapsed_ms, (k - 1) as nat);
    } else {
        assert(polls_unchanged(s, size, elapsed_ms, 0) == s);
    }
}

/// Stall versus timeout: while the program runs and its output stops growing,
/// the poll numbered `k` (from 1) continues, with an indeterminate indicator
/// exactly when `k - 1` unchanged polls reached the stall threshold; once the
/// time passes the timeout the program is terminated, and only after it is
/// confirmed terminated does the job fail, with `Timeout`.
pub proof fn lemma_stall_then_timeout(s: Supervisor, size: u64, elapsed_ms: u64, k: nat, late_ms: u64)
    requires
        s.last_size is None,
        !s.stalled,
        k >= 1,
        k <= u64::MAX,
        !timed_out(elapsed_ms, s.timeout_secs),
        timed_out(late_ms, s.timeout_secs),
    ensures
        ({
            let before = polls_unchanged(s, size, elapsed_ms, (k - 1) as nat);
            let p = Poll { exited: None, output_size: Some(size), elapsed_ms };
            let late = Poll { exited: None, output_size: Some(size), elapsed_ms: late_ms };
            let after = polls_unchanged(s, size, elapsed_ms, k);
            &&& supervise_step(before, SuperviseEvent::Polled(p)).1 == (SuperviseAction::Continue {
                progress: min_u64(size, s.input_size),
                indeterminate: k - 1 >= s.stall_threshold,
            })
            &&& supervise_step(after, SuperviseEvent::Polled(late)).1 == SuperviseAction::Terminate
            &&& supervise_step(supervise_step(after, SuperviseEvent::Polled(late)).0, SuperviseEvent::Terminated).1
                == SuperviseAction::Failed(DecryptError::Timeout { secs: s.timeout_secs })
        }),
{
    lemma_polls_unchanged_state(s, size, elapsed_ms, k);
    if k > 1 {
        lemma_polls_unchanged_state(s, size, elapsed_ms, (k - 1) as nat);
    } else {
        assert(polls_unchanged(s, size, elapsed_ms, 0) == s);
    }
}

} // verus!
