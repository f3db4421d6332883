//! Classifying what a command run produced, and the decisions taken while
//! waiting on it under a timeout.

use vstd::prelude::*;

verus! {

/// What running a command came to.
pub enum ExecutionResult {
    Success(String),
    Error(String),
    Timeout,
}

/// The text a caller receives for a result.
pub open spec fn rendered(r: ExecutionResult) -> Seq<char> {
    match r {
        ExecutionResult::Success(s) => s@,
        ExecutionResult::Error(s) => s@,
        ExecutionResult::Timeout => "Error: Command timed out"@,
    }
}

impl ExecutionResult {
    /// The text a caller receives: the output or error text, or a fixed
    /// message for a timeout.
    pub fn into_string(self) -> (r: String)
        ensures
            r@ == rendered(self),
    {
        match self {
            ExecutionResult::Success(s) => s,
            ExecutionResult::Error(s) => s,
            ExecutionResult::Timeout => String::from_str("Error: Command timed out"),
        }
    }
}

/// What `String::from_utf8_lossy` makes of a byte sequence.
pub uninterp spec fn lossy_text(bytes: Seq<u8>) -> Seq<char>;

/// Relies on `String::from_utf8_lossy`: the bytes decoded as UTF-8, each
/// invalid sequence replaced by U+FFFD; the result depends on the bytes alone,
/// and is empty exactly when there are no bytes.
#[verifier::external_body]
fn decode_lossy(bytes: &[u8]) -> (r: String)
    ensures
        r@ == lossy_text(bytes@),
        r@.len() == 0 <==> bytes@.len() == 0,
{
    String::from_utf8_lossy(bytes).into_owned()
}

/// The result for a command that exited: its standard output on success;
/// otherwise `Error: ` and its standard error, or its standard output where
/// the error stream is empty.
pub open spec fn classified(success: bool, out: Seq<char>, err: Seq<char>, r: ExecutionResult) -> bool {
    if success {
        r matches ExecutionResult::Success(s) && s@ == out
    } else if err.len() == 0 {
        r matches ExecutionResult::Error(s) && s@ == "Error: "@ + out
    } else {
        r matches ExecutionResult::Error(s) && s@ == "Error: "@ + err
    }
}

/// Classifies an exited command from its decoded output streams.
pub fn classify_output(success: bool, stdout: String, stderr: String) -> (r: ExecutionResult)
    ensures
        classified(success, stdout@, stderr@, r),
{
    if success {
        ExecutionResult::Success(stdout)
    } else if stderr.as_str().is_empty() {
        let mut s = String::from_str("Error: ");
        s.append(stdout.as_str());
        ExecutionResult::Error(s)
    } else {
        let mut s = String::from_str("Error: ");
        s.append(stderr.as_str());
        ExecutionResult::Error(s)
    }
}

/// The result for a command that exited, from its raw streams: its decoded
/// standard output on success; otherwise `Error: ` and its decoded standard
/// error, or its standard output where no error bytes were written.
pub open spec fn classified_bytes(success: bool, out: Seq<u8>, err: Seq<u8>, r: ExecutionResult) -> bool {
    if success {
        r matches ExecutionResult::Success(s) && s@ == lossy_text(out)
    } else if err.len() == 0 {
        r matches ExecutionResult::Error(s) && s@ == "Error: "@ + lossy_text(out)
    } else {
        r matches ExecutionResult::Error(s) && s@ == "Error: "@ + lossy_text(err)
    }
}

/// Classifies an exited command from its raw output streams.
pub fn output_to_result(success: bool, stdout: &[u8], stderr: &[u8]) -> (r: ExecutionResult)
    ensures
        classified_bytes(success, stdout@, stderr@, r),
{
    classify_output(success, decode_lossy(stdout), decode_lossy(stderr))
}

/// `prefix` followed by `detail`, as an error result.
fn failure(prefix: &str, detail: &str) -> (r: ExecutionResult)
    ensures
        r matches ExecutionResult::Error(s) && s@ == prefix@ + detail@,
{
    let mut s = String::from_str(prefix);
    s.append(detail);
    ExecutionResult::Error(s)
}

/// The result when the command could not be started under a timeout.
pub fn spawn_failure(detail: &str) -> (r: ExecutionResult)
    ensures
        r matches ExecutionResult::Error(s) && s@ == "Error: Failed to spawn command: "@ + detail@,
{
    failure("Error: Failed to spawn command: ", detail)
}

/// The result when the command could not be run to completion without a
/// timeout.
pub fn execute_failure(detail: &str) -> (r: ExecutionResult)
    ensures
        r matches ExecutionResult::Error(s) && s@ == "Error: Failed to execute command: "@ + detail@,
{
    failure("Error: Failed to execute command: ", detail)
}

/// What the wait on a started command under a timeout reported.
pub enum WaitOutcome {
    /// The command exited within the timeout.
    Exited { success: bool, stdout: Vec<u8>, stderr: Vec<u8> },
    /// Waiting on the command failed.
    Failed(String),
    /// The timeout elapsed first.
    TimedOut,
    /// The waiting side lost its channel without a report.
    Disconnected,
}

/// What to do once the wait has ended: whether to kill the command, and the
/// result to report.
pub struct Settlement {
    pub kill: bool,
    pub result: ExecutionResult,
}

/// The result reported for a wait outcome.
pub open spec fn settled(outcome: WaitOutcome, r: ExecutionResult) -> bool {
    match outcome {
        WaitOutcome::Exited { success, stdout, stderr } => classified_bytes(
            success,
            stdout@,
            stderr@,
            r,
        ),
        WaitOutcome::Failed(m) => r matches ExecutionResult::Error(s) && s@ == "Error: Command failed: "@ + m@,
        WaitOutcome::TimedOut => r is Timeout,
        WaitOutcome::Disconnected => r matches ExecutionResult::Error(s) && s@
            == "Error: Command thread disconnected unexpectedly"@,
    }
}

/// Decides what follows a wait: a command that ran past its timeout is killed
/// and reported as timed out; otherwise its outcome is classified.
pub fn settle_wait(outcome: WaitOutcome) -> (r: Settlement)
    ensures
        r.kill <==> outcome is TimedOut,
        settled(outcome, r.result),
{
    match outcome {
        WaitOutcome::Exited { success, stdout, stderr } => Settlement {
            kill: false,
            result: output_to_result(success, stdout.as_slice(), stderr.as_slice()),
        },
        WaitOutcome::Failed(m) => Settlement {
            kill: false,
            result: failure("Error: Command failed: ", m.as_str()),
        },
        WaitOutcome::TimedOut => Settlement { kill: true, result: ExecutionResult::Timeout },
        WaitOutcome::Disconnected => Settlement {
            kill: false,
            result: ExecutionResult::Error(
                String::from_str("Error: Command thread disconnected unexpectedly"),
            ),
        },
    }
}

/// A program and its argument vector; never passed through a shell.
pub struct CommandLine {
    pub program: String,
    pub args: Vec<String>,
}

} // verus!
