//! External commands as values: which tool to run, and with which arguments.

use vstd::prelude::*;
use vstd::string::*;
use crate::text::texts;

verus! {

/// The external programs that the pipeline relies on.
#[derive(Clone, Copy, Debug, PartialEq, Eq, Structural)]
pub enum Tool {
    /// Re-encodes one file, and joins files into one container.
    Transcoder,
    /// Reports how long a file plays.
    Prober,
    /// Reads the identifier of the disc in a drive.
    DiscReader,
}

/// One invocation of a tool.
#[derive(Clone, Debug, PartialEq, Eq)]
pub struct Command {
    pub tool: Tool,
    pub args: Vec<String>,
}

/// A command with its arguments as plain text.
pub struct CommandView {
    pub tool: Tool,
    pub args: Seq<Seq<char>>,
}

impl View for Command {
    type V = CommandView;

    open spec fn view(&self) -> CommandView {
        CommandView { tool: self.tool, args: texts(self.args@) }
    }
}

/// The name under which a tool is usually installed.
pub open spec fn program_name(tool: Tool) -> Seq<char> {
    match tool {
        Tool::Transcoder => "ffmpeg"@,
        Tool::Prober => "ffprobe"@,
        Tool::DiscReader => "cd-discid"@,
    }
}

/// Whether what a tool prints is kept in the log of the run. The transcoder's
/// output is; what the prober and the disc reader print is their answer, and
/// is handed back to be read.
pub open spec fn keeps_log(tool: Tool) -> bool {
    tool == Tool::Transcoder
}

impl Tool {
    /// Whether what this tool prints is kept in the log of the run, which
    /// must then be open before the tool is started.
    pub fn logs_output(&self) -> (logged: bool)
        ensures
            logged == keeps_log(*self),
    {
        match self {
            Tool::Transcoder => true,
            Tool::Prober => false,
            Tool::DiscReader => false,
        }
    }

    /// The name under which this tool is usually installed.
    pub fn program(&self) -> (name: &'static str)
        ensures
            name@ == program_name(*self),
    {
        match self {
            Tool::Transcoder => "ffmpeg",
            Tool::Prober => "ffprobe",
            Tool::DiscReader => "cd-discid",
        }
    }
}

} // verus!
