//! The order of a conversion run, as a state machine. The machine decides;
//! its caller does the outside work that it asks for and reports back.

use vstd::prelude::*;
use vstd::string::*;
use crate::command::{Command, CommandView};
use crate::converter::{
    intermediate_path,
    manifest_text,
    merge_command,
    probe_command,
    transcode_command,
    Converter,
};
use crate::error::{
    stage_error_of_probe,
    stage_error_of_process,
    StageError,
    StageErrorView,
};
use crate::media::{format_of, MediaFormat};
use crate::metadata::{
    built_text,
    header_text,
    law_empty_document,
    numbered,
    numbered_title,
    ChapterMetadataDocument,
};
use crate::paths::{file_stem, file_stem_of, join, joined};
use crate::probe::{probe_duration, probe_result};
use crate::process::{run_result, Exit};
use crate::text::texts;

verus! {

/// The stages of a run.
#[derive(Clone, Copy, Debug, PartialEq, Eq, Structural)]
pub enum Stage {
    Idle,
    Transcoding,
    Probing,
    BuildingMetadata,
    Merging,
    Done,
    Failed,
}

/// What is to be converted: the input files in playing order, titles that
/// take the place of the names derived from the files, and where the
/// audiobook goes.
#[derive(Clone, Debug, PartialEq, Eq)]
pub struct ConversionJob {
    pub inputs: Vec<String>,
    pub chapter_titles: Option<Vec<String>>,
    pub output: String,
}

/// A job as plain text.
pub struct JobView {
    pub inputs: Seq<Seq<char>>,
    pub chapter_titles: Option<Seq<Seq<char>>>,
    pub output: Seq<char>,
}

impl View for ConversionJob {
    type V = JobView;

    open spec fn view(&self) -> JobView {
        JobView {
            inputs: texts(self.inputs@),
            chapter_titles: match self.chapter_titles {
                Some(titles) => Some(texts(titles@)),
                None => None,
            },
            output: self.output@,
        }
    }
}

/// Where a run stands.
#[derive(Clone, Debug, PartialEq, Eq)]
pub enum State {
    /// Nothing has been asked for yet.
    Idle,
    /// The working area, or the intermediate file of input `index`, is being
    /// made.
    Transcoding { index: usize },
    /// The intermediate file of input `index` is being probed.
    Probing { index: usize },
    /// The chapter document is being written.
    BuildingMetadata,
    /// The manifest is being written (`listed` is false), or the merge is
    /// running (`listed` is true).
    Merging { listed: bool },
    /// The audiobook has been written.
    Done,
    /// The run has been given up in `stage`, because of `error`.
    Failed { stage: Stage, error: StageError },
}

/// A state with its error as plain text.
pub enum StateView {
    Idle,
    Transcoding { index: nat },
    Probing { index: nat },
    BuildingMetadata,
    Merging { listed: bool },
    Done,
    Failed { stage: Stage, error: StageErrorView },
}

impl View for State {
    type V = StateView;

    open spec fn view(&self) -> StateView {
        match self {
            State::Idle => StateView::Idle,
            State::Transcoding { index } => StateView::Transcoding { index: *index as nat },
            State::Probing { index } => StateView::Probing { index: *index as nat },
            State::BuildingMetadata => StateView::BuildingMetadata,
            State::Merging { listed } => StateView::Merging { listed: *listed },
            State::Done => StateView::Done,
            State::Failed { stage, error } => StateView::Failed { stage: *stage, error: error@ },
        }
    }
}

/// What the caller reports to the machine.
#[derive(Clone, Debug, PartialEq, Eq)]
pub enum Event {
    /// The run is to begin.
    Start,
    /// The working area was made at this path, or could not be made.
    WorkDir(Option<String>),
    /// The command that was asked for ended in `exit`, and printed `output` to
    /// its standard output.
    Exited { exit: Exit, output: String },
    /// The file that was asked for was written, or could not be written.
    Written(bool),
    /// The log could not be opened, so the command that was asked for, whose
    /// output the log keeps, was not started.
    LogUnavailable,
}

/// An event as plain text.
pub enum EventView {
    Start,
    WorkDir(Option<Seq<char>>),
    Exited { exit: Exit, output: Seq<char> },
    Written(bool),
    LogUnavailable,
}

impl View for Event {
    type V = EventView;

    open spec fn view(&self) -> EventView {
        match self {
            Event::Start => EventView::Start,
            Event::WorkDir(dir) => EventView::WorkDir(
                match dir {
                    Some(path) => Some(path@),
                    None => None,
                },
            ),
            Event::Exited { exit, output } => EventView::Exited { exit: *exit, output: output@ },
            Event::Written(done) => EventView::Written(*done),
            Event::LogUnavailable => EventView::LogUnavailable,
        }
    }
}

/// How far a run has come, for display. It decides nothing.
#[derive(Clone, Debug, PartialEq, Eq)]
pub struct Progress {
    pub stage: Stage,
    /// The number of files that are done with.
    pub position: usize,
    /// The number of files in all.
    pub total: usize,
    pub message: String,
}

/// Progress as plain text.
pub struct ProgressView {
    pub stage: Stage,
    pub position: nat,
    pub total: nat,
    pub message: Seq<char>,
}

impl View for Progress {
    type V = ProgressView;

    open spec fn view(&self) -> ProgressView {
        ProgressView {
            stage: self.stage,
            position: self.position as nat,
            total: self.total as nat,
            message: self.message@,
        }
    }
}

/// What the machine asks its caller to do.
#[derive(Clone, Debug, PartialEq, Eq)]
pub enum Action {
    /// Nothing: the run has not begun. Report `Start`.
    Standby,
    /// Make a working area for this run alone. Report `WorkDir`.
    CreateWorkDir,
    /// Run `command` and show `progress`. Where the output of its tool is kept
    /// in the log, open the log first, and do not start the tool without it.
    /// Report `Exited`, or `LogUnavailable`.
    Run { command: Command, progress: Progress },
    /// Write `contents` to the file at `path`. Report `Written`.
    Write { path: String, contents: String },
    /// Nothing more: the audiobook is there.
    Finish,
    /// Nothing more: the run failed in `stage` with `error`.
    Abort { stage: Stage, error: StageError },
}

/// An action as plain text.
pub enum ActionView {
    Standby,
    CreateWorkDir,
    Run { command: CommandView, progress: ProgressView },
    Write { path: Seq<char>, contents: Seq<char> },
    Finish,
    Abort { stage: Stage, error: StageErrorView },
}

impl View for Action {
    type V = ActionView;

    open spec fn view(&self) -> ActionView {
        match self {
            Action::Standby => ActionView::Standby,
            Action::CreateWorkDir => ActionView::CreateWorkDir,
            Action::Run { command, progress } => ActionView::Run {
                command: command@,
                progress: progress@,
            },
            Action::Write { path, contents } => ActionView::Write {
                path: path@,
                contents: contents@,
            },
            Action::Finish => ActionView::Finish,
            Action::Abort { stage, error } => ActionView::Abort { stage: *stage, error: error@ },
        }
    }
}

/// One run: its job, its working area once that is made, the durations
/// probed so far, and where it stands.
pub struct Pipeline {
    job: ConversionJob,
    work_dir: Option<String>,
    durations: Vec<u64>,
    state: State,
}

/// A run as plain values.
pub struct PipelineView {
    pub job: JobView,
    pub work_dir: Option<Seq<char>>,
    pub durations: Seq<u64>,
    pub state: StateView,
}

impl View for Pipeline {
    type V = PipelineView;

    closed spec fn view(&self) -> PipelineView {
        PipelineView {
            job: self.job@,
            work_dir: match self.work_dir {
                Some(dir) => Some(dir@),
                None => None,
            },
            durations: self.durations@,
            state: self.state@,
        }
    }
}

/// The run of `job` before it begins.
pub open spec fn initial(job: JobView) -> PipelineView {
    PipelineView { job, work_dir: None, durations: Seq::empty(), state: StateView::Idle }
}

/// The stage that a state belongs to.
pub open spec fn stage_of(state: StateView) -> Stage {
    match state {
        StateView::Idle => Stage::Idle,
        StateView::Transcoding { .. } => Stage::Transcoding,
        StateView::Probing { .. } => Stage::Probing,
        StateView::BuildingMetadata => Stage::BuildingMetadata,
        StateView::Merging { .. } => Stage::Merging,
        StateView::Done => Stage::Done,
        StateView::Failed { .. } => Stage::Failed,
    }
}

/// Whether a run in this state is over.
pub open spec fn is_over(state: StateView) -> bool {
    state is Done || state is Failed
}

/// `p` in another state.
pub open spec fn moved(p: PipelineView, state: StateView) -> PipelineView {
    PipelineView { state, ..p }
}

/// `p` given up in `stage` because of `error`.
pub open spec fn failed(p: PipelineView, stage: Stage, error: StageErrorView) -> PipelineView {
    moved(p, StateView::Failed { stage, error })
}

/// The state in which input `index` comes up for transcoding. When there is
/// no such input, the stage is done: probing begins, or, where there is no
/// input at all and so nothing to probe, the building of the metadata. An
/// input of no known format ends the run.
pub open spec fn turn_to_input(inputs: Seq<Seq<char>>, index: nat) -> StateView {
    if index >= inputs.len() {
        if inputs.len() == 0 {
            StateView::BuildingMetadata
        } else {
            StateView::Probing { index: 0 }
        }
    } else if format_of(inputs[index as int]) is None {
        StateView::Failed {
            stage: Stage::Transcoding,
            error: StageErrorView::UnsupportedFormat { path: inputs[index as int] },
        }
    } else {
        StateView::Transcoding { index }
    }
}

/// The run after `event` was reported in `p`. An event that does not answer
/// what `p` waits for changes nothing; nor does any event once the run is
/// over.
pub open spec fn next(p: PipelineView, event: EventView) -> PipelineView {
    let count = p.job.inputs.len();
    match (p.state, event) {
        (StateView::Idle, EventView::Start) => moved(p, StateView::Transcoding { index: 0 }),
        (StateView::Transcoding { index }, EventView::WorkDir(made)) => if p.work_dir is Some {
            p
        } else {
            match made {
                Some(dir) => PipelineView {
                    work_dir: Some(dir),
                    state: turn_to_input(p.job.inputs, index),
                    ..p
                },
                None => failed(p, Stage::Transcoding, StageErrorView::Io),
            }
        },
        (StateView::Transcoding { index }, EventView::Exited { exit, output }) => if p.work_dir
            is None {
            p
        } else {
            match run_result(exit) {
                Ok(_) => moved(p, turn_to_input(p.job.inputs, index + 1)),
                Err(error) => failed(p, Stage::Transcoding, stage_error_of_process(error)),
            }
        },
        (StateView::Transcoding { index }, EventView::LogUnavailable) => if p.work_dir is None {
            p
        } else {
            failed(p, Stage::Transcoding, StageErrorView::Io)
        },
        (StateView::Probing { index }, EventView::Exited { exit, output }) => match probe_result(
            exit,
            output,
        ) {
            Ok(duration) => PipelineView {
                durations: p.durations.push(duration),
                state: if index + 1 < count {
                    StateView::Probing { index: index + 1 }
                } else {
                    StateView::BuildingMetadata
                },
                ..p
            },
            Err(error) => failed(p, Stage::Probing, stage_error_of_probe(error)),
        },
        (StateView::BuildingMetadata, EventView::Written(done)) => if done {
            moved(p, StateView::Merging { listed: false })
        } else {
            failed(p, Stage::BuildingMetadata, StageErrorView::Io)
        },
        (StateView::Merging { listed }, EventView::Written(done)) => if listed {
            p
        } else if done {
            moved(p, StateView::Merging { listed: true })
        } else {
            failed(p, Stage::Merging, StageErrorView::Io)
        },
        (StateView::Merging { listed }, EventView::Exited { exit, output }) => if !listed {
            p
        } else {
            match run_result(exit) {
                Ok(_) => moved(p, StateView::Done),
                Err(error) => failed(p, Stage::Merging, stage_error_of_process(error)),
            }
        },
        (StateView::Merging { listed }, EventView::LogUnavailable) => if !listed {
            p
        } else {
            failed(p, Stage::Merging, StageErrorView::Io)
        },
        _ => p,
    }
}

/// The name that a chapter takes from the input at `path`, which is input
/// number `index`: the stem of the file name, or the numbered title where the
/// path names no file.
pub open spec fn fallback_name(path: Seq<char>, index: int) -> Seq<char> {
    match file_stem(path) {
        Some(stem) => stem,
        None => numbered_title(index),
    }
}

/// The names that the chapters take from `inputs`.
pub open spec fn fallback_names(inputs: Seq<Seq<char>>) -> Seq<Seq<char>> {
    Seq::new(inputs.len(), |i: int| fallback_name(inputs[i], i))
}

/// The paths of the first `count` intermediate files in `work_dir`.
pub open spec fn intermediate_paths(work_dir: Seq<char>, count: nat) -> Seq<Seq<char>> {
    Seq::new(count, |i: int| intermediate_path(work_dir, i as nat))
}

/// Where the chapter document of a run is written.
pub open spec fn metadata_path(work_dir: Seq<char>) -> Seq<char> {
    joined(work_dir, "chapters.ffmeta"@)
}

/// Where the manifest of a run is written.
pub open spec fn manifest_path(work_dir: Seq<char>) -> Seq<char> {
    joined(work_dir, "concat.txt"@)
}

/// What `p` waits for.
pub open spec fn request(p: PipelineView) -> ActionView {
    let count = p.job.inputs.len();
    let dir = p.work_dir->0;
    match p.state {
        StateView::Idle => ActionView::Standby,
        StateView::Transcoding { index } => if p.work_dir is None {
            ActionView::CreateWorkDir
        } else {
            ActionView::Run {
                command: transcode_command(
                    p.job.inputs[index as int],
                    intermediate_path(dir, index),
                ),
                progress: ProgressView {
                    stage: Stage::Transcoding,
                    position: index,
                    total: count,
                    message: "Processing: "@ + p.job.inputs[index as int],
                },
            }
        },
        StateView::Probing { index } => ActionView::Run {
            command: probe_command(intermediate_path(dir, index)),
            progress: ProgressView {
                stage: Stage::Probing,
                position: count,
                total: count,
                message: "All files converted."@,
            },
        },
        StateView::BuildingMetadata => ActionView::Write {
            path: metadata_path(dir),
            contents: built_text(
                p.durations,
                p.job.chapter_titles,
                fallback_names(p.job.inputs),
            ),
        },
        StateView::Merging { listed } => if !listed {
            ActionView::Write {
                path: manifest_path(dir),
                contents: manifest_text(intermediate_paths(dir, count)),
            }
        } else {
            ActionView::Run {
                command: merge_command(manifest_path(dir), metadata_path(dir), p.job.output),
                progress: ProgressView {
                    stage: Stage::Merging,
                    position: count,
                    total: count,
                    message: "Merging files into final m4b with chapters..."@,
                },
            }
        },
        StateView::Done => ActionView::Finish,
        StateView::Failed { stage, error } => ActionView::Abort { stage, error },
    }
}

/// Whether the first `count` inputs all have a format that can be converted.
pub open spec fn supported_up_to(inputs: Seq<Seq<char>>, count: int) -> bool {
    forall|i: int| 0 <= i < count && i < inputs.len() ==> format_of(#[trigger] inputs[i]) is Some
}

/// What holds of every run that began as `initial` says and went on as `next`
/// says: a run that waits for anything past the working area has one, no
/// input is transcoded before those before it were found convertible,
/// probing begins only when every input was converted, and the metadata is
/// built only from one duration for each input. A job without inputs is a
/// job like any other.
pub open spec fn well_formed(p: PipelineView) -> bool {
    let count = p.job.inputs.len();
    match p.state {
        StateView::Idle => p.work_dir is None && p.durations.len() == 0,
        StateView::Transcoding { index } => {
            &&& p.durations.len() == 0
            &&& p.work_dir is None ==> index == 0
            &&& p.work_dir is Some ==> index < count && supported_up_to(
                p.job.inputs,
                (index + 1) as int,
            )
        },
        StateView::Probing { index } => {
            &&& index < count
            &&& p.work_dir is Some
            &&& p.durations.len() == index
            &&& supported_up_to(p.job.inputs, count as int)
        },
        StateView::BuildingMetadata | StateView::Merging { .. } | StateView::Done => {
            &&& p.work_dir is Some
            &&& p.durations.len() == count
            &&& supported_up_to(p.job.inputs, count as int)
        },
        StateView::Failed { .. } => true,
    }
}

/// The names that the chapters take from `inputs`.
fn names_of(inputs: &Vec<String>) -> (names: Vec<String>)
    ensures
        texts(names@) == fallback_names(texts(inputs@)),
{
    let mut names: Vec<String> = Vec::new();
    let mut i: usize = 0;
    while i < inputs.len()
        invariant
            i <= inputs.len(),
            names.len() == i,
            forall|k: int|
                0 <= k < i ==> (#[trigger] names[k])@ == fallback_name(inputs[k]@, k),
        decreases inputs.len() - i,
    {
        let name = match file_stem_of(inputs[i].as_str()) {
            Some(stem) => stem,
            None => numbered(i),
        };
        names.push(name);
        i = i + 1;
    }
    assert(texts(names@) =~= fallback_names(texts(inputs@)));
    names
}

/// The paths of the first `count` intermediate files in `work_dir`.
fn intermediates(work_dir: &str, count: usize) -> (paths: Vec<String>)
    ensures
        texts(paths@) == intermediate_paths(work_dir@, count as nat),
{
    let mut paths: Vec<String> = Vec::new();
    let mut i: usize = 0;
    while i < count
        invariant
            i <= count,
            paths.len() == i,
            forall|k: int|
                0 <= k < i ==> (#[trigger] paths[k])@ == intermediate_path(work_dir@, k as nat),
        decreases count - i,
    {
        paths.push(Converter::intermediate(work_dir, i));
        i = i + 1;
    }
    assert(texts(paths@) =~= intermediate_paths(work_dir@, count as nat));
    paths
}

impl Pipeline {
    /// The run of `job`, before it begins.
    pub fn new(job: ConversionJob) -> (p: Pipeline)
        ensures
            p@ == initial(job@),
            well_formed(p@),
    {
        Pipeline { job, work_dir: None, durations: Vec::new(), state: State::Idle }
    }

    /// The stage that the run is in.
    pub fn stage(&self) -> (stage: Stage)
        ensures
            stage == stage_of(self@.state),
    {
        match self.state {
            State::Idle => Stage::Idle,
            State::Transcoding { .. } => Stage::Transcoding,
            State::Probing { .. } => Stage::Probing,
            State::BuildingMetadata => Stage::BuildingMetadata,
            State::Merging { .. } => Stage::Merging,
            State::Done => Stage::Done,
            State::Failed { .. } => Stage::Failed,
        }
    }

    /// The state in which input `index` comes up for transcoding.
    fn turn_to(&self, index: usize) -> (state: State)
        ensures
            state@ == turn_to_input(self@.job.inputs, index as nat),
    {
        if index >= self.job.inputs.len() {
            if self.job.inputs.len() == 0 {
                State::BuildingMetadata
            } else {
                State::Probing { index: 0 }
            }
        } else {
            match MediaFormat::of_path(self.job.inputs[index].as_str()) {
                Some(_) => State::Transcoding { index },
                None => State::Failed {
                    stage: Stage::Transcoding,
                    error: StageError::UnsupportedFormat { path: self.job.inputs[index].clone() },
                },
            }
        }
    }

    /// Takes in what the caller reports. The run moves as `next` says.
    pub fn advance(&mut self, event: Event)
        requires
            well_formed(old(self)@),
        ensures
            final(self)@ == next(old(self)@, event@),
            well_formed(final(self)@),
    {
        let count = self.job.inputs.len();
        match self.state {
            State::Idle => {
                if let Event::Start = event {
                    self.state = State::Transcoding { index: 0 };
                }
            },
            State::Transcoding { index } => {
                match event {
                    Event::WorkDir(made) => {
                        if self.work_dir.is_none() {
                            match made {
                                Some(dir) => {
                                    let state = self.turn_to(index);
                                    self.work_dir = Some(dir);
                                    self.state = state;
                                },
                                None => {
                                    self.state = State::Failed {
                                        stage: Stage::Transcoding,
                                        error: StageError::Io,
                                    };
                                },
                            }
                        }
                    },
                    Event::Exited { exit, output } => {
                        if self.work_dir.is_some() {
                            match exit.result() {
                                Ok(_) => {
                                    let state = self.turn_to(index + 1);
                                    self.state = state;
                                },
                                Err(error) => {
                                    self.state = State::Failed {
                                        stage: Stage::Transcoding,
                                        error: error.to_stage_error(),
                                    };
                                },
                            }
                        }
                    },
                    Event::LogUnavailable => {
                        if self.work_dir.is_some() {
                            self.state = State::Failed {
                                stage: Stage::Transcoding,
                                error: StageError::Io,
                            };
                        }
                    },
                    _ => {},
                }
            },
            State::Probing { index } => {
                if let Event::Exited { exit, output } = event {
                    match probe_duration(exit, output.as_str()) {
                        Ok(duration) => {
                            self.durations.push(duration);
                            if index + 1 < count {
                                self.state = State::Probing { index: index + 1 };
                            } else {
                                self.state = State::BuildingMetadata;
                            }
                        },
                        Err(error) => {
                            self.state = State::Failed {
                                stage: Stage::Probing,
                                error: error.to_stage_error(),
                            };
                        },
                    }
                }
            },
            State::BuildingMetadata => {
                if let Event::Written(done) = event {
                    if done {
                        self.state = State::Merging { listed: false };
                    } else {
                        self.state = State::Failed {
                            stage: Stage::BuildingMetadata,
                            error: StageError::Io,
                        };
                    }
                }
            },
            State::Merging { listed } => {
                match event {
                    Event::Written(done) => {
                        if !listed {
                            if done {
                                self.state = State::Merging { listed: true };
                            } else {
                                self.state = State::Failed {
                                    stage: Stage::Merging,
                                    error: StageError::Io,
                                };
                            }
                        }
                    },
                    Event::Exited { exit, output } => {
                        if listed {
                            match exit.result() {
                                Ok(_) => {
                                    self.state = State::Done;
                                },
                                Err(error) => {
                                    self.state = State::Failed {
                                        stage: Stage::Merging,
                                        error: error.to_stage_error(),
                                    };
                                },
                            }
                        }
                    },
                    Event::LogUnavailable => {
                        if listed {
                            self.state = State::Failed {
                                stage: Stage::Merging,
                                error: StageError::Io,
                            };
                        }
                    },
                    _ => {},
                }
            },
            State::Done => {},
            State::Failed { .. } => {},
        }
    }

    /// What the run waits for, as `request` says.
    pub fn request(&self) -> (action: Action)
        requires
            well_formed(self@),
        ensures
            action@ == request(self@),
    {
        let count = self.job.inputs.len();
        match &self.state {
            State::Idle => Action::Standby,
            State::Transcoding { index } => {
                match &self.work_dir {
                    None => Action::CreateWorkDir,
                    Some(dir) => {
                        let input = self.job.inputs[*index].as_str();
                        let output = Converter::intermediate(dir.as_str(), *index);
                        let mut message = "Processing: ".to_owned();
                        message.append(input);
                        let progress = Progress {
                            stage: Stage::Transcoding,
                            position: *index,
                            total: count,
                            message,
                        };
                        match Converter::transcode(input, output.as_str()) {
                            Ok(command) => Action::Run { command, progress },
                            Err(error) => Action::Abort { stage: Stage::Transcoding, error },
                        }
                    },
                }
            },
            State::Probing { index } => {
                let dir = self.work_dir.as_ref().unwrap();
                let path = Converter::intermediate(dir.as_str(), *index);
                Action::Run {
                    command: Converter::probe(path.as_str()),
                    progress: Progress {
                        stage: Stage::Probing,
                        position: count,
                        total: count,
                        message: "All files converted.".to_owned(),
                    },
                }
            },
            State::BuildingMetadata => {
                let dir = self.work_dir.as_ref().unwrap();
                let names = names_of(&self.job.inputs);
                let doc = ChapterMetadataDocument::build(
                    &self.durations,
                    self.job.chapter_titles.as_ref(),
                    &names,
                );
                Action::Write {
                    path: join(dir.as_str(), "chapters.ffmeta"),
                    contents: doc.render(),
                }
            },
            State::Merging { listed } => {
                let dir = self.work_dir.as_ref().unwrap();
                let manifest = join(dir.as_str(), "concat.txt");
                if !*listed {
                    let paths = intermediates(dir.as_str(), count);
                    Action::Write { path: manifest, contents: Converter::manifest(&paths) }
                } else {
                    let metadata = join(dir.as_str(), "chapters.ffmeta");
                    Action::Run {
                        command: Converter::merge(
                            manifest.as_str(),
                            metadata.as_str(),
                            self.job.output.as_str(),
                        ),
                        progress: Progress {
                            stage: Stage::Merging,
                            position: count,
                            total: count,
                            message: "Merging files into final m4b with chapters...".to_owned(),
                        },
                    }
                }
            },
            State::Done => Action::Finish,
            State::Failed { stage, error } => Action::Abort {
                stage: *stage,
                error: error.duplicate(),
            },
        }
    }

    /// Takes in what the caller reports, and says what to do next.
    pub fn step(&mut self, event: Event) -> (action: Action)
        requires
            well_formed(old(self)@),
        ensures
            final(self)@ == next(old(self)@, event@),
            well_formed(final(self)@),
            action@ == request(final(self)@),
    {
        self.advance(event);
        self.request()
    }
}

/// The run that `p` becomes when `events` are reported one after another.
pub open spec fn run_through(p: PipelineView, events: Seq<EventView>) -> PipelineView
    decreases events.len(),
{
    if events.len() == 0 {
        p
    } else {
        next(run_through(p, events.drop_last()), events.last())
    }
}

/// Once a run is over, no event changes it: it stays done, or stays failed in
/// the same stage with the same error, which is the first that occurred.
pub proof fn law_over_stays_over(p: PipelineView, event: EventView)
    requires
        is_over(p.state),
    ensures
        next(p, event) == p,
{
}

/// Every event leaves a well-formed run well-formed.
pub proof fn law_well_formed_kept(p: PipelineView, event: EventView)
    requires
        well_formed(p),
    ensures
        well_formed(next(p, event)),
{
}

/// Whatever is reported, in whatever order, a run that began at its beginning
/// is well-formed.
pub proof fn law_run_well_formed(job: JobView, events: Seq<EventView>)
    ensures
        well_formed(run_through(initial(job), events)),
    decreases events.len(),
{
    if events.len() > 0 {
        law_run_well_formed(job, events.drop_last());
        law_well_formed_kept(run_through(initial(job), events.drop_last()), events.last());
    }
}

/// A job with an input that cannot be converted never leaves the transcode
/// stage but by failing: whatever is reported, the run neither probes nor
/// builds metadata nor merges, and it transcodes no input behind the first
/// that cannot be converted.
pub proof fn law_unsupported_input_stops_run(job: JobView, events: Seq<EventView>, k: int)
    requires
        0 <= k < job.inputs.len(),
        format_of(job.inputs[k]) is None,
    ensures
        ({
            let p = run_through(initial(job), events);
            &&& p.state is Idle || p.state is Transcoding || p.state is Failed
            &&& p.state matches StateView::Transcoding { index } ==> index <= k
            &&& !(request(p) is Write)
            &&& request(p) matches ActionView::Run { command, progress } ==> progress.stage
                == Stage::Transcoding
        }),
{
    law_run_well_formed(job, events);
    lemma_job_kept(initial(job), events);
}

/// When the input before an input that cannot be converted has been
/// transcoded, the run fails in the transcode stage, with the path of the
/// input that cannot be converted.
pub proof fn law_unsupported_input_fails(p: PipelineView, event: EventView, k: nat)
    requires
        p.work_dir is Some,
        0 < k < p.job.inputs.len(),
        (p.state == StateView::Transcoding { index: (k - 1) as nat }),
        format_of(p.job.inputs[k as int]) is None,
        (event matches EventView::Exited { exit, .. } && exit == Exit::Code(0)),
    ensures
        (next(p, event).state == StateView::Failed {
            stage: Stage::Transcoding,
            error: StageErrorView::UnsupportedFormat { path: p.job.inputs[k as int] },
        }),
{
}

/// A job without inputs runs like any other, with nothing to transcode and
/// nothing to probe: once the working area is made, the run asks for the
/// chapter document, which is the header alone, then for the manifest, which
/// is empty, then for the merge.
pub proof fn law_empty_job_runs(job: JobView, dir: Seq<char>)
    requires
        job.inputs.len() == 0,
    ensures
        ({
            let started = next(initial(job), EventView::Start);
            let ready = next(started, EventView::WorkDir(Some(dir)));
            let written = next(ready, EventView::Written(true));
            let listed = next(written, EventView::Written(true));
            let merged = next(listed, EventView::Exited { exit: Exit::Code(0), output: Seq::empty() });
            &&& request(started) is CreateWorkDir
            &&& request(ready) == ActionView::Write {
                path: metadata_path(dir),
                contents: header_text(),
            }
            &&& request(written) == ActionView::Write {
                path: manifest_path(dir),
                contents: Seq::empty(),
            }
            &&& request(listed) matches ActionView::Run { command, .. } && command == merge_command(
                manifest_path(dir),
                metadata_path(dir),
                job.output,
            )
            &&& request(merged) is Finish
        }),
{
    law_empty_document(job.chapter_titles, fallback_names(job.inputs));
    assert(intermediate_paths(dir, 0) =~= Seq::<Seq<char>>::empty());
    assert(job.inputs =~= Seq::<Seq<char>>::empty());
}

/// No event changes the job of a run.
proof fn lemma_job_kept(p: PipelineView, events: Seq<EventView>)
    ensures
        run_through(p, events).job == p.job,
    decreases events.len(),
{
    if events.len() > 0 {
        lemma_job_kept(p, events.drop_last());
    }
}

} // verus!
