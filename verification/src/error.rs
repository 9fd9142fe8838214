//! What can go wrong in a conversion run.

use vstd::prelude::*;
use vstd::string::*;

verus! {

/// Why running an external command did not succeed.
#[derive(Clone, Copy, Debug, PartialEq, Eq, Structural)]
pub enum ProcessError {
    /// The program could not be started at all.
    SpawnFailed,
    /// The program ran and did not report a zero exit status.
    NonZeroExit,
}

/// Why a duration could not be had from the prober.
#[derive(Clone, Copy, Debug, PartialEq, Eq, Structural)]
pub enum ProbeError {
    /// The prober could not be started, or did not report a zero exit status.
    ExecutionFailed,
    /// The prober's output is not a decimal number of seconds that fits.
    ParseFailed,
}

/// Why a stage of the pipeline failed.
#[derive(Clone, Debug, PartialEq, Eq)]
pub enum StageError {
    /// A folder holds no file to convert.
    NoFilesFound,
    /// The extension of the input at `path` names no format that can be
    /// converted.
    UnsupportedFormat { path: String },
    /// An external tool could not be started.
    Spawn,
    /// An external tool ran and did not report a zero exit status.
    Execution,
    /// The output of an external tool could not be read as expected.
    Parse,
    /// The working area, or a file in it, could not be written.
    Io,
}

/// A stage error with its path as plain text.
pub enum StageErrorView {
    NoFilesFound,
    UnsupportedFormat { path: Seq<char> },
    Spawn,
    Execution,
    Parse,
    Io,
}

impl View for StageError {
    type V = StageErrorView;

    open spec fn view(&self) -> StageErrorView {
        match self {
            StageError::NoFilesFound => StageErrorView::NoFilesFound,
            StageError::UnsupportedFormat { path } => StageErrorView::UnsupportedFormat {
                path: path@,
            },
            StageError::Spawn => StageErrorView::Spawn,
            StageError::Execution => StageErrorView::Execution,
            StageError::Parse => StageErrorView::Parse,
            StageError::Io => StageErrorView::Io,
        }
    }
}

/// The stage error that a process error becomes.
pub open spec fn stage_error_of_process(error: ProcessError) -> StageErrorView {
    match error {
        ProcessError::SpawnFailed => StageErrorView::Spawn,
        ProcessError::NonZeroExit => StageErrorView::Execution,
    }
}

/// The stage error that a probe error becomes.
pub open spec fn stage_error_of_probe(error: ProbeError) -> StageErrorView {
    match error {
        ProbeError::ExecutionFailed => StageErrorView::Execution,
        ProbeError::ParseFailed => StageErrorView::Parse,
    }
}

/// The message that tells a user of `error`.
pub open spec fn message_text(error: StageErrorView) -> Seq<char> {
    match error {
        StageErrorView::NoFilesFound => "no media files found"@,
        StageErrorView::UnsupportedFormat { path } => "unsupported file format: "@ + path,
        StageErrorView::Spawn => "external tool could not be started"@,
        StageErrorView::Execution => "external tool failed: non-zero exit, see log"@,
        StageErrorView::Parse => "duration could not be parsed"@,
        StageErrorView::Io => "working area could not be written"@,
    }
}

impl ProcessError {
    /// In a few words, what happened.
    pub fn reason(&self) -> (text: &'static str)
        ensures
            text@ == match *self {
                ProcessError::SpawnFailed => "spawn failed"@,
                ProcessError::NonZeroExit => "non-zero exit"@,
            },
    {
        match self {
            ProcessError::SpawnFailed => "spawn failed",
            ProcessError::NonZeroExit => "non-zero exit",
        }
    }

    /// Where to look for more.
    pub fn detail(&self) -> (text: &'static str)
        ensures
            text@ == match *self {
                ProcessError::SpawnFailed => "the program could not be started"@,
                ProcessError::NonZeroExit => "see log"@,
            },
    {
        match self {
            ProcessError::SpawnFailed => "the program could not be started",
            ProcessError::NonZeroExit => "see log",
        }
    }

    /// This error as the failure of a stage.
    pub fn to_stage_error(self) -> (error: StageError)
        ensures
            error@ == stage_error_of_process(self),
    {
        match self {
            ProcessError::SpawnFailed => StageError::Spawn,
            ProcessError::NonZeroExit => StageError::Execution,
        }
    }
}

impl ProbeError {
    /// This error as the failure of a stage.
    pub fn to_stage_error(self) -> (error: StageError)
        ensures
            error@ == stage_error_of_probe(self),
    {
        match self {
            ProbeError::ExecutionFailed => StageError::Execution,
            ProbeError::ParseFailed => StageError::Parse,
        }
    }
}

impl StageError {
    /// A copy of this error.
    pub fn duplicate(&self) -> (copy: StageError)
        ensures
            copy@ == self@,
    {
        match self {
            StageError::NoFilesFound => StageError::NoFilesFound,
            StageError::UnsupportedFormat { path } => StageError::UnsupportedFormat {
                path: path.clone(),
            },
            StageError::Spawn => StageError::Spawn,
            StageError::Execution => StageError::Execution,
            StageError::Parse => StageError::Parse,
            StageError::Io => StageError::Io,
        }
    }

    /// The message that tells a user of this error.
    pub fn message(&self) -> (text: String)
        ensures
            text@ == message_text(self@),
    {
        match self {
            StageError::NoFilesFound => "no media files found".to_owned(),
            StageError::UnsupportedFormat { path } => {
                let mut text = "unsupported file format: ".to_owned();
                text.append(path.as_str());
                text
            },
            StageError::Spawn => "external tool could not be started".to_owned(),
            StageError::Execution => "external tool failed: non-zero exit, see log".to_owned(),
            StageError::Parse => "duration could not be parsed".to_owned(),
            StageError::Io => "working area could not be written".to_owned(),
        }
    }
}

} // verus!
