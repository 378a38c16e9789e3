//! The termination protocol: graceful-then-forceful escalation on the
//! Unix family, a single forceful terminate on the Windows family. The
//! decisions are pure functions from what the operating system reported
//! to the next step; the embedding program runs the commands.
//!
//! Termination is idempotent with respect to an already-exited pid: the
//! process's existence is verified before any escalation, so a pid that
//! is already gone — whether the interrupt was delivered or its
//! delivery failed because no such process exists — is reported
//! terminated, never as a spurious failure.

use vstd::prelude::*;
use crate::data::ProcessError;

verus! {

/// Grace period between the interrupt signal and the liveness check,
/// in milliseconds.
pub const TERMINATION_GRACE_MS: u64 = 1000;

/// The next step of the Unix-family termination protocol.
#[derive(Clone, Copy, Debug, PartialEq, Eq, Structural)]
pub enum TermStep {
    /// Wait out the grace period, then check whether the process still
    /// exists and report through `after_grace_check`.
    WaitAndCheck,
    /// Check at once — without waiting — whether the process still
    /// exists, and report through `after_grace_check`.
    CheckNow,
    /// Send the non-catchable kill signal and report its outcome
    /// through `kill_outcome`.
    SendKill,
    /// The process is gone; termination succeeded.
    Finished,
}

pub open spec fn spec_after_interrupt(interrupt_sent: bool) -> TermStep {
    if interrupt_sent {
        TermStep::WaitAndCheck
    } else {
        TermStep::CheckNow
    }
}

pub open spec fn spec_after_grace_check(still_alive: bool) -> TermStep {
    if still_alive {
        TermStep::SendKill
    } else {
        TermStep::Finished
    }
}

/// The protocol starts by sending an interrupt. This function decides
/// what follows: a delivered interrupt earns the process the grace
/// period before its existence is checked; a failed delivery (for
/// instance because the process has already exited) skips the wait but
/// still goes through the existence check, never straight to the kill.
pub fn after_interrupt(interrupt_sent: bool) -> (r: TermStep)
    ensures
        r == spec_after_interrupt(interrupt_sent),
{
    if interrupt_sent {
        TermStep::WaitAndCheck
    } else {
        TermStep::CheckNow
    }
}

/// After the existence check: a process that is already gone is
/// reported terminated without ever being killed forcefully; one that
/// is still there is escalated to the kill signal.
pub fn after_grace_check(still_alive: bool) -> (r: TermStep)
    ensures
        r == spec_after_grace_check(still_alive),
{
    if still_alive {
        TermStep::SendKill
    } else {
        TermStep::Finished
    }
}

/// The outcome of the kill signal on the Unix family: success means the
/// process is removed; failure carries the kill command's diagnostic
/// text.
pub fn kill_outcome(kill_ok: bool, stderr: &str) -> (r: Result<(), ProcessError>)
    ensures
        kill_ok ==> r == Ok::<(), ProcessError>(()),
        !kill_ok ==> (r matches Err(e) && e matches ProcessError::TerminationError(m) && m@
            == stderr@),
{
    if kill_ok {
        Ok(())
    } else {
        Err(ProcessError::TerminationError(String::from_str(stderr)))
    }
}

/// The escalation invariant of the two-phase protocol: every path out
/// of the interrupt leads to the existence check, a process found gone
/// there — an already-exited pid included — is a success and is never
/// sent the kill signal, and only a process that still exists after
/// the check is killed forcefully.
pub proof fn lemma_escalation(interrupt_sent: bool, still_alive: bool)
    ensures
        spec_after_interrupt(interrupt_sent) == TermStep::WaitAndCheck || spec_after_interrupt(
            interrupt_sent,
        ) == TermStep::CheckNow,
        spec_after_interrupt(interrupt_sent) != TermStep::SendKill,
        spec_after_grace_check(false) == TermStep::Finished,
        spec_after_grace_check(still_alive) == TermStep::SendKill <==> still_alive,
{
}

/// What the Windows-family decoded diagnostic text of a failed
/// terminate command is: `encoding_rs::GBK`'s decoding of the raw
/// error-stream bytes.
pub uninterp spec fn gbk_decoded(bytes: Seq<u8>) -> Seq<char>;

/// Relies on `encoding_rs::GBK`'s `decode`: the decoded text (with
/// malformed sequences replaced) is a function of the bytes alone.
#[verifier::external_body]
fn decode_gbk(bytes: &[u8]) -> (r: String)
    ensures
        r@ == gbk_decoded(bytes@),
{
    let (text, _encoding_used, _had_errors) = encoding_rs::GBK.decode(bytes);
    text.into_owned()
}

/// The outcome of the Windows-family terminate command: success is the
/// command's own exit status; failure carries the diagnostic text from
/// its error stream, decoded from the console code page.
pub fn taskkill_outcome(success: bool, stderr_raw: &[u8]) -> (r: Result<(), ProcessError>)
    ensures
        success ==> r == Ok::<(), ProcessError>(()),
        !success ==> (r matches Err(e) && e matches ProcessError::TerminationError(m) && m@
            == gbk_decoded(stderr_raw@)),
{
    if success {
        Ok(())
    } else {
        Err(ProcessError::TerminationError(decode_gbk(stderr_raw)))
    }
}

} // verus!
