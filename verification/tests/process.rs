use media_converter::error::{ProbeError, ProcessError, StageError};
use media_converter::process::{Exit, PipelineLog};

#[test]
fn exit_status_zero_is_success() {
    assert_eq!(Exit::Code(0).result(), Ok(()));
}

#[test]
fn success_does_not_depend_on_the_output() {
    let mut log = PipelineLog::new();
    assert_eq!(log.record(Exit::Code(0), b"", b""), Ok(()));
    assert_eq!(log.record(Exit::Code(0), b"error: everything failed", b"fatal"), Ok(()));
    assert_eq!(log.record(Exit::Code(0), &[0xff, 0x00, 0xfe], b"\n"), Ok(()));
}

#[test]
fn exit_status_two_is_an_execution_error_and_is_logged() {
    let mut log = PipelineLog::new();
    let result = log.record(Exit::Code(2), b"out line\n", b"err line\n");
    assert_eq!(result, Err(ProcessError::NonZeroExit));
    assert_eq!(log.contents(), b"out line\nerr line\n".to_vec());
}

#[test]
fn other_exits_fail() {
    assert_eq!(Exit::Code(1).result(), Err(ProcessError::NonZeroExit));
    assert_eq!(Exit::Code(-1).result(), Err(ProcessError::NonZeroExit));
    assert_eq!(Exit::Code(i32::MIN).result(), Err(ProcessError::NonZeroExit));
    assert_eq!(Exit::Unknown.result(), Err(ProcessError::NonZeroExit));
}

#[test]
fn a_program_that_does_not_start_is_told_apart() {
    assert_eq!(Exit::NotStarted.result(), Err(ProcessError::SpawnFailed));
    assert_ne!(Exit::NotStarted.result(), Exit::Code(1).result());
}

#[test]
fn the_log_only_grows() {
    let mut log = PipelineLog::new();
    assert_eq!(log.len(), 0);
    assert!(log.contents().is_empty());
    log.append(b"abc");
    assert_eq!(log.contents(), b"abc".to_vec());
    let _ = log.record(Exit::Code(0), b"1", b"2");
    assert_eq!(log.contents(), b"abc12".to_vec());
    let _ = log.record(Exit::NotStarted, b"", b"");
    assert_eq!(log.contents(), b"abc12".to_vec());
    let _ = log.record(Exit::Code(3), b"", b"xyz");
    assert_eq!(log.contents(), b"abc12xyz".to_vec());
    assert_eq!(log.len(), 8);
}

#[test]
fn process_errors_say_what_happened() {
    assert_eq!(ProcessError::NonZeroExit.reason(), "non-zero exit");
    assert_eq!(ProcessError::NonZeroExit.detail(), "see log");
    assert_eq!(ProcessError::SpawnFailed.reason(), "spawn failed");
    assert_eq!(ProcessError::SpawnFailed.detail(), "the program could not be started");
}

#[test]
fn errors_become_stage_errors() {
    assert_eq!(ProcessError::SpawnFailed.to_stage_error(), StageError::Spawn);
    assert_eq!(ProcessError::NonZeroExit.to_stage_error(), StageError::Execution);
    assert_eq!(ProbeError::ExecutionFailed.to_stage_error(), StageError::Execution);
    assert_eq!(ProbeError::ParseFailed.to_stage_error(), StageError::Parse);
}

#[test]
fn stage_errors_have_messages() {
    assert_eq!(StageError::NoFilesFound.message(), "no media files found");
    assert_eq!(
        StageError::UnsupportedFormat { path: "a/b.txt".to_string() }.message(),
        "unsupported file format: a/b.txt"
    );
    assert_eq!(StageError::Spawn.message(), "external tool could not be started");
    assert_eq!(StageError::Execution.message(), "external tool failed: non-zero exit, see log");
    assert_eq!(StageError::Parse.message(), "duration could not be parsed");
    assert_eq!(StageError::Io.message(), "working area could not be written");
}

#[test]
fn stage_errors_can_be_copied() {
    let error = StageError::UnsupportedFormat { path: "x.bin".to_string() };
    assert_eq!(error.duplicate(), error);
    assert_eq!(StageError::Io.duplicate(), StageError::Io);
    assert_eq!(StageError::NoFilesFound.duplicate(), StageError::NoFilesFound);
}
