//! One replica slot of a program group: the attached child process, its
//! lifecycle state, and the check that drives the state machine one tick
//! forward.

use vstd::prelude::*;

verus! {

use crate::error::Error;
use crate::program::{AutoRestart, Program};
use crate::sys;
use vstd::string::StringExecFns;

/// The last sampled condition of a replica's child process.
#[derive(Debug, Clone, PartialEq)]
pub enum ChildExitStatus {
    /// The child exited with this code, or died by this signal number.
    Exited(i32),
    /// The child is alive.
    Running,
    /// No child process is attached to the slot.
    NonExistent,
    /// Waiting on the child failed, with the system's message.
    WaitError(String),
}

/// Lifecycle state of one replica.
#[derive(Debug, Clone, Copy, PartialEq, Eq, Structural)]
pub enum ProgramState {
    /// Spawned, not yet proven alive long enough.
    Starting,
    /// Alive and considered successfully started.
    Running,
    /// A recent spawn failed or exited too fast; a retry is pending.
    Backoff,
    /// The graceful stop signal was sent; within the grace window.
    Stopping,
    /// Exited cleanly after a stop. Terminal.
    Stopped,
    /// Exited with an expected exit code. Terminal.
    Exited,
    /// All start retries are exhausted. Terminal.
    Fatal,
    /// Escalated to the kill signal after the grace window. Terminal.
    Killed,
    /// Exited unexpectedly and the policy forbids restarts. Terminal.
    Pending,
    /// An unknown condition; never produced by the state machine. Terminal.
    Error,
    /// An operator- or policy-initiated restart is in progress.
    Restarting,
}

/// One replica slot: at most one attached operating-system process, plus the
/// book-keeping the state machine needs.
#[derive(Debug, Clone)]
pub struct ChildProcess {
    /// Process id of the attached child; None when no process is attached.
    pub child: Option<u32>,
    /// Lifecycle state of the slot.
    pub state: ProgramState,
    /// Last sampled child condition.
    pub exit_status: ChildExitStatus,
    /// Tick time of the most recent spawn attempt.
    pub start_secs: Option<u64>,
    /// Tick time the stop or kill signal was last sent.
    pub end_time: Option<u64>,
    /// Restart attempts since the last successful Running transition.
    pub restart_count: u8,
}

/// What one tick of the state machine decides for a replica: its next state
/// and restart count, and the effects the caller must carry out.
#[derive(Debug, Clone, Copy, PartialEq, Eq, Structural)]
pub struct StepEffect {
    /// The replica's next lifecycle state.
    pub state: ProgramState,
    /// The replica's next restart count.
    pub count: u8,
    /// Whether the kill signal is sent to any attached process.
    pub kill: bool,
    /// Whether a fresh child must be spawned and attached to the slot.
    pub respawn: bool,
}

/// The human-readable label of a lifecycle state.
pub open spec fn spec_state_label(s: ProgramState) -> Seq<char> {
    match s {
        ProgramState::Starting => "Starting"@,
        ProgramState::Running => "Running"@,
        ProgramState::Backoff => "Backoff"@,
        ProgramState::Stopping => "Stopping"@,
        ProgramState::Stopped => "Stopped"@,
        ProgramState::Exited => "Exited"@,
        ProgramState::Fatal => "Fatal"@,
        ProgramState::Killed => "Killed"@,
        ProgramState::Pending => "Pending"@,
        ProgramState::Error => "Error"@,
        ProgramState::Restarting => "Restarting"@,
    }
}

impl ProgramState {
    /// The state's human-readable label, as status lines print it.
    pub fn to_string(&self) -> (r: String)
        ensures
            r@ == spec_state_label(*self),
    {
        match self {
            ProgramState::Starting => String::from_str("Starting"),
            ProgramState::Running => String::from_str("Running"),
            ProgramState::Backoff => String::from_str("Backoff"),
            ProgramState::Stopping => String::from_str("Stopping"),
            ProgramState::Stopped => String::from_str("Stopped"),
            ProgramState::Exited => String::from_str("Exited"),
            ProgramState::Fatal => String::from_str("Fatal"),
            ProgramState::Killed => String::from_str("Killed"),
            ProgramState::Pending => String::from_str("Pending"),
            ProgramState::Error => String::from_str("Error"),
            ProgramState::Restarting => String::from_str("Restarting"),
        }
    }
}

/// States that never transition without an external command or reload.
pub open spec fn spec_is_terminal(s: ProgramState) -> bool {
    ||| s is Stopped
    ||| s is Exited
    ||| s is Fatal
    ||| s is Killed
    ||| s is Pending
    ||| s is Error
}

/// Exec mirror of [`spec_is_terminal`].
pub fn is_terminal(s: &ProgramState) -> (r: bool)
    ensures
        r == spec_is_terminal(*s),
{
    matches!(
        s,
        ProgramState::Stopped
        | ProgramState::Exited
        | ProgramState::Fatal
        | ProgramState::Killed
        | ProgramState::Pending
        | ProgramState::Error
    )
}

/// Whole seconds elapsed at `now` since `since`; zero when `since` is unset
/// or lies in the future.
pub open spec fn spec_elapsed(now: u64, since: Option<u64>) -> u64 {
    match since {
        Some(t) => if now >= t { (now - t) as u64 } else { 0 },
        None => 0,
    }
}

/// Exec mirror of [`spec_elapsed`].
pub fn elapsed_secs(now: u64, since: &Option<u64>) -> (r: u64)
    ensures
        r == spec_elapsed(now, *since),
{
    match since {
        Some(t) => if now >= *t { now - *t } else { 0 },
        None => 0,
    }
}

/// Whether an exit code counts as expected under the configured set.
/// Codes are compared in the unsigned-byte range, as the set is stored.
pub open spec fn spec_expected_exit(codes: Seq<u8>, code: i32) -> bool {
    codes.contains(code as u8)
}

/// Whether a sampled status is an exit with an expected code.
pub open spec fn spec_status_expected(s: ChildExitStatus, codes: Seq<u8>) -> bool {
    match s {
        ChildExitStatus::Exited(c) => spec_expected_exit(codes, c),
        _ => false,
    }
}

/// True when `codes` holds `code`.
fn contains_code(codes: &Vec<u8>, code: u8) -> (r: bool)
    ensures
        r == codes@.contains(code),
{
    let mut i: usize = 0;
    while i < codes.len()
        invariant
            i <= codes.len(),
            forall|k: int| 0 <= k < i ==> codes@[k] != code,
        decreases codes.len() - i,
    {
        if codes[i] == code {
            return true;
        }
        i += 1;
    }
    false
}

/// The restart count after one more attempt, saturating at the type's top.
pub open spec fn spec_sat_inc(c: u8) -> u8 {
    if c == 255 { 255u8 } else { (c + 1) as u8 }
}

/// The decision the state machine takes for a replica in state `pre.state`
/// observing `sample` at tick time `now`, under the policy in `cfg`.
/// Terminal states decide nothing: the replica stays as it is.
pub open spec fn spec_step(pre: ChildProcess, cfg: Program, sample: ChildExitStatus, now: u64) -> StepEffect {
    let stay = StepEffect { state: pre.state, count: pre.restart_count, kill: false, respawn: false };
    match pre.state {
        ProgramState::Starting => match sample {
            ChildExitStatus::Exited(c) => {
                if spec_expected_exit(cfg.exitcodes@, c) {
                    StepEffect { state: ProgramState::Exited, count: pre.restart_count, kill: false, respawn: false }
                } else if pre.restart_count >= cfg.start_retries {
                    StepEffect { state: ProgramState::Fatal, count: pre.restart_count, kill: false, respawn: false }
                } else if cfg.auto_restart is Never {
                    StepEffect { state: ProgramState::Pending, count: pre.restart_count, kill: false, respawn: false }
                } else {
                    StepEffect { state: ProgramState::Backoff, count: (pre.restart_count + 1) as u8, kill: true, respawn: true }
                }
            },
            ChildExitStatus::Running => StepEffect { state: ProgramState::Running, count: 0, kill: false, respawn: false },
            _ => stay,
        },
        ProgramState::Running => match sample {
            ChildExitStatus::Exited(c) => {
                if spec_expected_exit(cfg.exitcodes@, c) {
                    StepEffect { state: ProgramState::Exited, count: pre.restart_count, kill: false, respawn: false }
                } else if pre.restart_count >= cfg.start_retries {
                    StepEffect { state: ProgramState::Fatal, count: pre.restart_count, kill: false, respawn: false }
                } else if cfg.auto_restart is Never {
                    StepEffect { state: ProgramState::Pending, count: pre.restart_count, kill: false, respawn: false }
                } else {
                    StepEffect { state: ProgramState::Backoff, count: (pre.restart_count + 1) as u8, kill: true, respawn: true }
                }
            },
            ChildExitStatus::Running => stay,
            _ => stay,
        },
        ProgramState::Backoff => match sample {
            ChildExitStatus::Exited(c) => {
                if spec_expected_exit(cfg.exitcodes@, c) {
                    stay
                } else if pre.restart_count >= cfg.start_retries {
                    StepEffect { state: ProgramState::Fatal, count: pre.restart_count, kill: true, respawn: false }
                } else if cfg.auto_restart is Never {
                    StepEffect { state: ProgramState::Pending, count: pre.restart_count, kill: true, respawn: false }
                } else {
                    StepEffect { state: ProgramState::Backoff, count: (pre.restart_count + 1) as u8, kill: true, respawn: true }
                }
            },
            ChildExitStatus::Running => StepEffect { state: ProgramState::Running, count: 0, kill: false, respawn: false },
            ChildExitStatus::NonExistent => {
                if spec_elapsed(now, pre.start_secs) < cfg.start_secs {
                    stay
                } else if pre.restart_count >= cfg.start_retries {
                    StepEffect { state: ProgramState::Fatal, count: pre.restart_count, kill: false, respawn: false }
                } else {
                    StepEffect { state: ProgramState::Backoff, count: (pre.restart_count + 1) as u8, kill: true, respawn: true }
                }
            },
            _ => stay,
        },
        ProgramState::Restarting => match sample {
            ChildExitStatus::Exited(_) | ChildExitStatus::NonExistent => {
                StepEffect { state: ProgramState::Starting, count: spec_sat_inc(pre.restart_count), kill: true, respawn: true }
            },
            ChildExitStatus::Running => stay,
            _ => stay,
        },
        ProgramState::Stopping => match sample {
            ChildExitStatus::Exited(c) => {
                if spec_expected_exit(cfg.exitcodes@, c) {
                    StepEffect { state: ProgramState::Stopped, count: pre.restart_count, kill: false, respawn: false }
                } else {
                    StepEffect { state: ProgramState::Fatal, count: pre.restart_count, kill: false, respawn: false }
                }
            },
            ChildExitStatus::Running => {
                if spec_elapsed(now, pre.end_time) >= cfg.stop_time {
                    StepEffect { state: ProgramState::Killed, count: pre.restart_count, kill: true, respawn: false }
                } else {
                    stay
                }
            },
            ChildExitStatus::NonExistent => StepEffect { state: ProgramState::Stopped, count: pre.restart_count, kill: false, respawn: false },
            _ => stay,
        },
        _ => stay,
    }
}

/// The replica after one tick: the decision of [`spec_step`] applied to the
/// slot, with the sampled status recorded, the slot emptied before a
/// respawn, and the signal time recorded when a kill is sent to an attached
/// child. A terminal replica is untouched.
pub open spec fn spec_apply(pre: ChildProcess, cfg: Program, sample: ChildExitStatus, now: u64) -> ChildProcess {
    if spec_is_terminal(pre.state) {
        pre
    } else {
        let st = spec_step(pre, cfg, sample, now);
        ChildProcess {
            child: if st.respawn { None } else { pre.child },
            state: st.state,
            exit_status: sample,
            start_secs: pre.start_secs,
            end_time: if st.kill && pre.child is Some { Some(now) } else { pre.end_time },
            restart_count: st.count,
        }
    }
}

/// What any status sampled for the replica `c` must look like: an empty slot
/// reports NonExistent and nothing else does, and an exit already recorded
/// for an attached child is reported again unchanged.
pub open spec fn spec_sample_ok(c: ChildProcess, s: ChildExitStatus) -> bool {
    &&& c.child is None ==> s is NonExistent
    &&& c.child is Some ==> !(s is NonExistent)
    &&& c.child is Some && c.exit_status is Exited ==> s == c.exit_status
}

/// A slot whose tick must consult the operating system: not terminal, with a
/// child attached and no exit already recorded. Only such a slot can meet a
/// wait error; every other slot's check is owed success.
pub open spec fn spec_slot_unpinned(c: ChildProcess) -> bool {
    &&& !spec_is_terminal(c.state)
    &&& c.child is Some
    &&& !(c.exit_status is Exited)
}

impl ChildProcess {
    /// Whether the last sampled exit carries an expected exit code.
    pub fn is_exit_status_in_config(&self, config: &Program) -> (r: bool)
        ensures
            r == spec_status_expected(self.exit_status, config.exitcodes@),
    {
        match &self.exit_status {
            ChildExitStatus::Exited(c) => contains_code(&config.exitcodes, #[verifier::truncate] (*c as u8)),
            _ => false,
        }
    }

    /// Samples the child's condition without blocking. An empty slot reports
    /// NonExistent; an exit observed earlier is reported again from the
    /// recorded status, as the process was already reaped.
    pub fn get_child_exit_status(&self) -> (s: ChildExitStatus)
        ensures
            spec_sample_ok(*self, s),
    {
        match &self.child {
            None => ChildExitStatus::NonExistent,
            Some(pid) => match &self.exit_status {
                ChildExitStatus::Exited(c) => ChildExitStatus::Exited(*c),
                _ => sys::wait_on(*pid, false),
            },
        }
    }

    /// Applies one decision of the state machine to the slot, given the
    /// status `sample` observed at tick time `now`. Pure bookkeeping: the
    /// caller sends the signals and spawns the replacement child that the
    /// returned effect demands.
    pub fn transition(&mut self, config: &Program, sample: ChildExitStatus, now: u64) -> (eff: StepEffect)
        ensures
            *final(self) == spec_apply(*old(self), *config, sample, now),
            eff == spec_step(*old(self), *config, sample, now),
    {
        if is_terminal(&self.state) {
            return StepEffect { state: self.state, count: self.restart_count, kill: false, respawn: false };
        }
        let expected = match &sample {
            ChildExitStatus::Exited(c) => contains_code(&config.exitcodes, #[verifier::truncate] (*c as u8)),
            _ => false,
        };
        let had_child = self.child.is_some();
        let eff: StepEffect = match self.state {
            ProgramState::Starting | ProgramState::Running => match &sample {
                ChildExitStatus::Exited(_) => {
                    if expected {
                        StepEffect { state: ProgramState::Exited, count: self.restart_count, kill: false, respawn: false }
                    } else if self.restart_count >= config.start_retries {
                        StepEffect { state: ProgramState::Fatal, count: self.restart_count, kill: false, respawn: false }
                    } else if config.auto_restart == AutoRestart::Never {
                        StepEffect { state: ProgramState::Pending, count: self.restart_count, kill: false, respawn: false }
                    } else {
                        StepEffect { state: ProgramState::Backoff, count: self.restart_count + 1, kill: true, respawn: true }
                    }
                },
                ChildExitStatus::Running => {
                    if self.state == ProgramState::Starting {
                        StepEffect { state: ProgramState::Running, count: 0, kill: false, respawn: false }
                    } else {
                        StepEffect { state: self.state, count: self.restart_count, kill: false, respawn: false }
                    }
                },
                _ => StepEffect { state: self.state, count: self.restart_count, kill: false, respawn: false },
            },
            ProgramState::Backoff => match &sample {
                ChildExitStatus::Exited(_) => {
                    if expected {
                        StepEffect { state: self.state, count: self.restart_count, kill: false, respawn: false }
                    } else if self.restart_count >= config.start_retries {
                        StepEffect { state: ProgramState::Fatal, count: self.restart_count, kill: true, respawn: false }
                    } else if config.auto_restart == AutoRestart::Never {
                        StepEffect { state: ProgramState::Pending, count: self.restart_count, kill: true, respawn: false }
                    } else {
                        StepEffect { state: ProgramState::Backoff, count: self.restart_count + 1, kill: true, respawn: true }
                    }
                },
                ChildExitStatus::Running => StepEffect { state: ProgramState::Running, count: 0, kill: false, respawn: false },
                ChildExitStatus::NonExistent => {
                    if elapsed_secs(now, &self.start_secs) < config.start_secs as u64 {
                        StepEffect { state: self.state, count: self.restart_count, kill: false, respawn: false }
                    } else if self.restart_count >= config.start_retries {
                        StepEffect { state: ProgramState::Fatal, count: self.restart_count, kill: false, respawn: false }
                    } else {
                        StepEffect { state: ProgramState::Backoff, count: self.restart_count + 1, kill: true, respawn: true }
                    }
                },
                _ => StepEffect { state: self.state, count: self.restart_count, kill: false, respawn: false },
            },
            ProgramState::Restarting => match &sample {
                ChildExitStatus::Exited(_) | ChildExitStatus::NonExistent => {
                    let next = if self.restart_count == 255 { 255 } else { self.restart_count + 1 };
                    StepEffect { state: ProgramState::Starting, count: next, kill: true, respawn: true }
                },
                _ => StepEffect { state: self.state, count: self.restart_count, kill: false, respawn: false },
            },
            ProgramState::Stopping => match &sample {
                ChildExitStatus::Exited(_) => {
                    if expected {
                        StepEffect { state: ProgramState::Stopped, count: self.restart_count, kill: false, respawn: false }
                    } else {
                        StepEffect { state: ProgramState::Fatal, count: self.restart_count, kill: false, respawn: false }
                    }
                },
                ChildExitStatus::Running => {
                    if elapsed_secs(now, &self.end_time) >= config.stop_time as u64 {
                        StepEffect { state: ProgramState::Killed, count: self.restart_count, kill: true, respawn: false }
                    } else {
                        StepEffect { state: self.state, count: self.restart_count, kill: false, respawn: false }
                    }
                },
                ChildExitStatus::NonExistent => StepEffect { state: ProgramState::Stopped, count: self.restart_count, kill: false, respawn: false },
                _ => StepEffect { state: self.state, count: self.restart_count, kill: false, respawn: false },
            },
            _ => StepEffect { state: self.state, count: self.restart_count, kill: false, respawn: false },
        };
        self.state = eff.state;
        self.restart_count = eff.count;
        self.exit_status = sample;
        if eff.respawn {
            self.child = None;
        }
        if eff.kill && had_child {
            self.end_time = Some(now);
        }
        eff
    }

    /// Sends `sig` to the attached child, if any, recording the signal time;
    /// the kill signal also reaps the terminated process so no zombie stays.
    /// An empty slot is left untouched.
    pub fn send_kill(&mut self, sig: i32, now: u64)
        ensures
            *final(self) == (ChildProcess {
                end_time: if old(self).child is Some { Some(now) } else { old(self).end_time },
                ..*old(self)
            }),
    {
        if let Some(p) = self.child {
            self.end_time = Some(now);
            sys::send_signal(p, sig);
            if sig == 9 {
                let _ = sys::wait_on(p, true);
            }
        }
    }

    /// Sends the kill signal to the attached child, if any, and reaps it.
    pub fn kill_program(&mut self, now: u64)
        ensures
            *final(self) == (ChildProcess {
                end_time: if old(self).child is Some { Some(now) } else { old(self).end_time },
                ..*old(self)
            }),
    {
        self.send_kill(9, now);
    }

    /// Starts a graceful stop: the replica enters Stopping and the stop
    /// signal goes to the attached child.
    pub fn stop(&mut self, sig: i32, now: u64)
        ensures
            *final(self) == (ChildProcess {
                state: ProgramState::Stopping,
                end_time: if old(self).child is Some { Some(now) } else { old(self).end_time },
                ..*old(self)
            }),
    {
        self.state = ProgramState::Stopping;
        self.send_kill(sig, now);
    }

    /// Starts a restart: the replica enters Restarting and the stop signal
    /// goes to the attached child; the next ticks respawn it once it exits.
    pub fn restart(&mut self, sig: i32, now: u64)
        ensures
            *final(self) == (ChildProcess {
                state: ProgramState::Restarting,
                end_time: if old(self).child is Some { Some(now) } else { old(self).end_time },
                ..*old(self)
            }),
    {
        self.state = ProgramState::Restarting;
        self.send_kill(sig, now);
    }

    /// Records one more restart attempt, saturating at the counter's top.
    pub fn increment_start_retries(&mut self)
        ensures
            *final(self) == (ChildProcess { restart_count: spec_sat_inc(old(self).restart_count), ..*old(self) }),
    {
        if self.restart_count < 255 {
            self.restart_count = self.restart_count + 1;
        }
    }

    /// Attaches the outcome of a spawn requested for this slot. A successful
    /// spawn installs the new process id, presumed running; a failed spawn
    /// leaves the slot empty in Backoff, for later ticks to retry.
    pub fn attach_spawn(&mut self, outcome: SpawnOutcome, now: u64)
        ensures
            *final(self) == spec_attach(*old(self), outcome, now),
    {
        match outcome {
            SpawnOutcome::Attached(pid) => {
                self.child = Some(pid);
                self.exit_status = ChildExitStatus::Running;
                self.start_secs = Some(now);
            },
            SpawnOutcome::Failed => {
                self.child = None;
                self.state = ProgramState::Backoff;
                self.exit_status = ChildExitStatus::NonExistent;
                self.start_secs = Some(now);
            },
        }
    }

    /// Runs one tick of the state machine for this replica: samples the
    /// child, applies the transition, and sends any kill the decision
    /// demands. Returns whether the caller must spawn a replacement child
    /// and attach it, or the wait error that ended the sampling. A terminal
    /// replica is left untouched, with nothing sampled and nothing signalled.
    pub fn check(&mut self, config: &Program, now: u64) -> (r: Result<bool, Error>)
        ensures
            spec_is_terminal(old(self).state) ==> *final(self) == *old(self) && r == Ok::<bool, Error>(false),
            !spec_slot_unpinned(*old(self)) ==> r is Ok,
            !spec_is_terminal(old(self).state) ==> exists|s: ChildExitStatus|
                {
                    &&& spec_sample_ok(*old(self), s)
                    &&& *final(self) == #[trigger] spec_apply(*old(self), *config, s, now)
                    &&& match r {
                        Ok(b) => !(s is WaitError) && b == spec_step(*old(self), *config, s, now).respawn,
                        Err(e) => s is WaitError && (s matches ChildExitStatus::WaitError(m)
                            && e == Error::WaitError(m)),
                    }
                },
    {
        let ghost pre = *self;
        if is_terminal(&self.state) {
            return Ok(false);
        }
        let sample = self.get_child_exit_status();
        let err_msg: Option<String> = match &sample {
            ChildExitStatus::WaitError(m) => Some(m.clone()),
            _ => None,
        };
        let pid = self.child;
        let ghost s_wit = sample;
        let eff = self.transition(config, sample, now);
        if eff.kill {
            if let Some(p) = pid {
                sys::send_signal(p, 9);
                let _ = sys::wait_on(p, true);
            }
        }
        proof {
            assert(spec_sample_ok(pre, s_wit));
            assert(*self == spec_apply(pre, *config, s_wit, now));
        }
        match err_msg {
            Some(m) => {
                proof {
                    assert(s_wit is WaitError);
                    assert(spec_slot_unpinned(pre));
                }
                Err(Error::WaitError(m))
            },
            None => Ok(eff.respawn),
        }
    }
}

/// The result a spawn attempt hands back to the library: the process id of
/// the new child, or the fact that the spawn failed.
#[derive(Debug, Clone, Copy, PartialEq, Eq, Structural)]
pub enum SpawnOutcome {
    /// A child was spawned and carries this process id.
    Attached(u32),
    /// The spawn failed; no process is attached.
    Failed,
}

/// The replica after a spawn outcome is attached to its slot.
pub open spec fn spec_attach(pre: ChildProcess, outcome: SpawnOutcome, now: u64) -> ChildProcess {
    match outcome {
        SpawnOutcome::Attached(pid) => ChildProcess {
            child: Some(pid),
            exit_status: ChildExitStatus::Running,
            start_secs: Some(now),
            ..pre
        },
        SpawnOutcome::Failed => ChildProcess {
            child: None,
            state: ProgramState::Backoff,
            exit_status: ChildExitStatus::NonExistent,
            start_secs: Some(now),
            ..pre
        },
    }
}

/// The state machine reads only the policy fields of the configuration:
/// two configurations that agree on those decide every tick alike.
pub proof fn lemma_step_congruence(pre: ChildProcess, c1: Program, c2: Program, s: ChildExitStatus, now: u64)
    requires
        c1.exitcodes@ == c2.exitcodes@,
        c1.start_retries == c2.start_retries,
        c1.auto_restart == c2.auto_restart,
        c1.start_secs == c2.start_secs,
        c1.stop_time == c2.stop_time,
    ensures
        spec_step(pre, c1, s, now) == spec_step(pre, c2, s, now),
        spec_apply(pre, c1, s, now) == spec_apply(pre, c2, s, now),
{
}

/// A replica in a terminal state never changes on a tick: whatever status a
/// sample would report, the tick leaves the replica exactly as it is.
pub proof fn lemma_terminal_is_stable(pre: ChildProcess, cfg: Program, sample: ChildExitStatus, now: u64)
    requires
        spec_is_terminal(pre.state),
    ensures
        spec_apply(pre, cfg, sample, now) == pre,
        spec_step(pre, cfg, sample, now) == (StepEffect {
            state: pre.state,
            count: pre.restart_count,
            kill: false,
            respawn: false,
        }),
{
}

/// A tick that moves a replica into Running resets its restart count to
/// zero.
pub proof fn lemma_running_resets_count(pre: ChildProcess, cfg: Program, sample: ChildExitStatus, now: u64)
    ensures
        ({
            let post = spec_apply(pre, cfg, sample, now);
            post.state is Running && !(pre.state is Running) ==> post.restart_count == 0
        }),
{
}

/// One tick keeps the restart count within one attempt past the configured
/// retries, provided a replica sent into Restarting had not exhausted them:
/// a slot at the bound is declared Fatal instead of retried.
pub proof fn lemma_restart_count_bound(pre: ChildProcess, cfg: Program, sample: ChildExitStatus, now: u64)
    requires
        pre.restart_count <= cfg.start_retries
            || (!(pre.state is Restarting) && pre.restart_count <= cfg.start_retries + 1),
    ensures
        spec_apply(pre, cfg, sample, now).restart_count <= cfg.start_retries + 1,
{
}

/// A replica that has used up its retries reaches Fatal on the next
/// unexpected exit observed in an active state.
pub proof fn lemma_exhausted_retries_turn_fatal(pre: ChildProcess, cfg: Program, sample: ChildExitStatus, now: u64)
    requires
        pre.restart_count >= cfg.start_retries,
        pre.state is Starting || pre.state is Running || pre.state is Backoff,
        sample matches ChildExitStatus::Exited(c) && !spec_expected_exit(cfg.exitcodes@, c),
    ensures
        spec_apply(pre, cfg, sample, now).state is Fatal,
{
}

/// The manual-restart progress law: a replica in Restarting only records the
/// sample while its child is still alive, and on the observed exit counts
/// one more attempt, demands a fresh child, and enters Starting.
pub proof fn lemma_restarting_progress(pre: ChildProcess, cfg: Program, sample: ChildExitStatus, now: u64)
    requires
        pre.state is Restarting,
    ensures
        sample is Running ==> spec_apply(pre, cfg, sample, now) == (ChildProcess {
            exit_status: sample,
            ..pre
        }),
        sample is Exited || sample is NonExistent ==> ({
            let post = spec_apply(pre, cfg, sample, now);
            &&& post.state is Starting
            &&& post.restart_count == spec_sat_inc(pre.restart_count)
            &&& post.child is None
            &&& spec_step(pre, cfg, sample, now).respawn
        }),
{
}

} // verus!
