use media_converter::command::{Command, Tool};
use media_converter::converter::Converter;
use media_converter::error::StageError;

fn args(list: &[&str]) -> Vec<String> {
    list.iter().map(|s| s.to_string()).collect()
}

fn transcode_of(input: &str, output: &str) -> Command {
    Command {
        tool: Tool::Transcoder,
        args: args(&["-i", input, "-c:a", "aac", "-b:a", "64k", "-vn", output]),
    }
}

#[test]
fn ogg_is_re_encoded_to_aac() {
    let command = Converter::convert_ogg_to_m4b("in/a.ogg", "/tmp/w/0000.m4a");
    assert_eq!(command.tool, Tool::Transcoder);
    assert_eq!(
        command.args,
        args(&["-i", "in/a.ogg", "-c:a", "aac", "-b:a", "64k", "-vn", "/tmp/w/0000.m4a"])
    );
}

#[test]
fn mp3_is_re_encoded_with_the_same_profile() {
    assert_eq!(
        Converter::convert_mp3_to_m4b("b.mp3", "0001.m4a"),
        transcode_of("b.mp3", "0001.m4a")
    );
    assert_eq!(
        Converter::convert_mp3_to_m4b("x", "y").args[2..7],
        Converter::convert_ogg_to_m4b("p", "q").args[2..7]
    );
}

#[test]
fn transcode_picks_the_command_by_extension() {
    assert_eq!(Converter::transcode("a.ogg", "o"), Ok(transcode_of("a.ogg", "o")));
    assert_eq!(Converter::transcode("a.mp3", "o"), Ok(transcode_of("a.mp3", "o")));
    assert_eq!(Converter::transcode("a.wav", "o"), Ok(transcode_of("a.wav", "o")));
}

#[test]
fn transcode_refuses_other_extensions() {
    assert_eq!(
        Converter::transcode("notes.txt", "o"),
        Err(StageError::UnsupportedFormat { path: "notes.txt".to_string() })
    );
    assert_eq!(
        Converter::transcode("dir/a.OGG", "o"),
        Err(StageError::UnsupportedFormat { path: "dir/a.OGG".to_string() })
    );
    assert_eq!(
        Converter::transcode("noextension", "o"),
        Err(StageError::UnsupportedFormat { path: "noextension".to_string() })
    );
}

#[test]
fn probe_asks_for_the_bare_duration() {
    let command = Converter::probe("/tmp/w/0003.m4a");
    assert_eq!(command.tool, Tool::Prober);
    assert_eq!(
        command.args,
        args(&[
            "-v",
            "error",
            "-show_entries",
            "format=duration",
            "-of",
            "default=noprint_wrappers=1:nokey=1",
            "/tmp/w/0003.m4a",
        ])
    );
}

#[test]
fn merge_copies_streams_and_takes_the_metadata_of_the_second_input() {
    let command = Converter::merge("/w/concat.txt", "/w/chapters.ffmeta", "My Book.m4b");
    assert_eq!(command.tool, Tool::Transcoder);
    assert_eq!(
        command.args,
        args(&[
            "-f",
            "concat",
            "-safe",
            "0",
            "-i",
            "/w/concat.txt",
            "-i",
            "/w/chapters.ffmeta",
            "-map_metadata",
            "1",
            "-c",
            "copy",
            "My Book.m4b",
        ])
    );
}

#[test]
fn intermediate_files_are_named_by_position() {
    assert_eq!(Converter::intermediate("/tmp/w", 0), "/tmp/w/0000.m4a");
    assert_eq!(Converter::intermediate("/tmp/w", 7), "/tmp/w/0007.m4a");
    assert_eq!(Converter::intermediate("/tmp/w/", 42), "/tmp/w/0042.m4a");
    assert_eq!(Converter::intermediate("w", 9999), "w/9999.m4a");
    assert_eq!(Converter::intermediate("w", 10000), "w/10000.m4a");
    assert_eq!(Converter::intermediate("", 1), "0001.m4a");
}

#[test]
fn intermediate_names_sort_in_processing_order() {
    let names: Vec<String> = (0..1200).map(|i| Converter::intermediate("d", i)).collect();
    let mut sorted = names.clone();
    sorted.sort();
    assert_eq!(names, sorted);
}

#[test]
fn manifest_lists_one_quoted_path_per_line() {
    let paths = args(&["/tmp/w/0000.m4a", "/tmp/w/0001.m4a"]);
    assert_eq!(
        Converter::manifest(&paths),
        "file '/tmp/w/0000.m4a'\nfile '/tmp/w/0001.m4a'\n"
    );
}

#[test]
fn manifest_of_nothing_is_empty() {
    assert_eq!(Converter::manifest(&Vec::new()), "");
}

#[test]
fn manifest_keeps_blanks_and_guards_quotes() {
    let paths = args(&["/tmp/my work/0000.m4a", "/tmp/it's/0001.m4a", "'", "a''b"]);
    assert_eq!(
        Converter::manifest(&paths),
        "file '/tmp/my work/0000.m4a'\n\
         file '/tmp/it'\\''s/0001.m4a'\n\
         file ''\\'''\n\
         file 'a'\\'''\\''b'\n"
    );
}

#[test]
fn only_the_transcoder_is_logged() {
    assert!(Tool::Transcoder.logs_output());
    assert!(!Tool::Prober.logs_output());
    assert!(!Tool::DiscReader.logs_output());
}

#[test]
fn tools_have_their_usual_names() {
    assert_eq!(Tool::Transcoder.program(), "ffmpeg");
    assert_eq!(Tool::Prober.program(), "ffprobe");
    assert_eq!(Tool::DiscReader.program(), "cd-discid");
}
