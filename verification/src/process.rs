//! How a run of an external command ended, and the log that keeps what the
//! commands of one conversion printed.

use vstd::prelude::*;
use crate::error::ProcessError;

verus! {

/// How an attempt to run an external command ended.
#[derive(Clone, Copy, Debug, PartialEq, Eq, Structural)]
pub enum Exit {
    /// The program could not be started.
    NotStarted,
    /// The program ran and ended with this exit status.
    Code(i32),
    /// The program ran and ended without an exit status.
    Unknown,
}

/// A run succeeds exactly when the program reports exit status 0. That it
/// could not be started is kept apart from every other failure.
pub open spec fn run_result(exit: Exit) -> Result<(), ProcessError> {
    match exit {
        Exit::Code(status) => if status == 0 {
            Ok(())
        } else {
            Err(ProcessError::NonZeroExit)
        },
        Exit::NotStarted => Err(ProcessError::SpawnFailed),
        Exit::Unknown => Err(ProcessError::NonZeroExit),
    }
}

/// What the commands of one conversion run printed, in the order in which it
/// was recorded. Nothing is ever taken out of a log.
pub struct PipelineLog {
    bytes: Vec<u8>,
}

impl View for PipelineLog {
    type V = Seq<u8>;

    closed spec fn view(&self) -> Seq<u8> {
        self.bytes@
    }
}

impl Exit {
    /// Whether the run succeeded, and if not, why.
    pub fn result(self) -> (result: Result<(), ProcessError>)
        ensures
            result == run_result(self),
    {
        match self {
            Exit::Code(status) => if status == 0 {
                Ok(())
            } else {
                Err(ProcessError::NonZeroExit)
            },
            Exit::NotStarted => Err(ProcessError::SpawnFailed),
            Exit::Unknown => Err(ProcessError::NonZeroExit),
        }
    }
}

impl PipelineLog {
    /// An empty log.
    pub fn new() -> (log: PipelineLog)
        ensures
            log@ == Seq::<u8>::empty(),
    {
        PipelineLog { bytes: Vec::new() }
    }

    /// Adds `chunk` at the end of the log.
    pub fn append(&mut self, chunk: &[u8])
        ensures
            final(self)@ == old(self)@ + chunk@,
    {
        self.bytes.extend_from_slice(chunk);
    }

    /// Records one run of a command: what it printed to standard output,
    /// then what it printed to standard error, is added at the end of the
    /// log, whatever the outcome. The result is that of the run.
    pub fn record(&mut self, exit: Exit, stdout: &[u8], stderr: &[u8]) -> (result: Result<
        (),
        ProcessError,
    >)
        ensures
            final(self)@ == old(self)@ + stdout@ + stderr@,
            result == run_result(exit),
    {
        self.append(stdout);
        self.append(stderr);
        exit.result()
    }

    /// The number of bytes in the log.
    pub fn len(&self) -> (len: usize)
        ensures
            len == self@.len(),
    {
        self.bytes.len()
    }

    /// A copy of the log's contents.
    pub fn contents(&self) -> (bytes: Vec<u8>)
        ensures
            bytes@ == self@,
    {
        let mut bytes: Vec<u8> = Vec::new();
        bytes.extend_from_slice(self.bytes.as_slice());
        bytes
    }
}

/// A log only grows: what it held before a run was recorded is still there,
/// at the same place.
pub proof fn law_log_only_grows(before: Seq<u8>, stdout: Seq<u8>, stderr: Seq<u8>)
    ensures
        before.is_prefix_of(before + stdout + stderr),
        (before + stdout + stderr).len() == before.len() + stdout.len() + stderr.len(),
{
}

} // verus!
