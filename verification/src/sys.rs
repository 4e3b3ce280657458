//! Trusted boundary to the operating system: waiting on and signalling
//! child processes. Each item wraps exactly one outside call.

use vstd::prelude::*;

verus! {

use crate::childprocess::ChildExitStatus;

/// Relies on nix::sys::wait::waitpid: polls (or, when `block` is set, awaits)
/// the status of the child with the given process id. A child that exited
/// normally reports its exit code; one killed by a signal reports the signal
/// number; a child with nothing to report is running. An error carries the
/// system's message. The outcome depends on the live process table, so
/// nothing more is promised of it.
#[verifier::external_body]
pub(crate) fn wait_on(pid: u32, block: bool) -> (r: ChildExitStatus)
    ensures
        !(r is NonExistent),
{
    let flags = if block { None } else { Some(nix::sys::wait::WaitPidFlag::WNOHANG) };
    match nix::sys::wait::waitpid(nix::unistd::Pid::from_raw(pid as i32), flags) {
        Ok(nix::sys::wait::WaitStatus::Exited(_, code)) => ChildExitStatus::Exited(code),
        Ok(nix::sys::wait::WaitStatus::Signaled(_, sig, _)) => ChildExitStatus::Exited(sig as i32),
        Ok(_) => ChildExitStatus::Running,
        Err(e) => ChildExitStatus::WaitError(e.to_string()),
    }
}

/// Relies on nix::sys::signal::kill: sends the given signal to the process
/// with the given id. Delivery failures are ignored, as the supervisor's
/// liveness must not depend on them.
#[verifier::external_body]
pub(crate) fn send_signal(pid: u32, sig: i32) {
    if let Ok(s) = nix::sys::signal::Signal::try_from(sig) {
        let _ = nix::sys::signal::kill(nix::unistd::Pid::from_raw(pid as i32), s);
    }
}

} // verus!
