use media_converter::error::StageError;
use media_converter::media::{found_inputs, is_media_file, MediaFormat};
use media_converter::paths::{extension_of, file_stem_of, join};
use media_converter::probe::parse_duration;
use media_converter::text::{chars_of, push_decimal, push_zero_padded, string_of};

fn some(s: &str) -> Option<String> {
    Some(s.to_string())
}

#[test]
fn extension_follows_the_last_dot() {
    assert_eq!(extension_of("a.ogg"), some("ogg"));
    assert_eq!(extension_of("dir/b.tar.gz"), some("gz"));
    assert_eq!(extension_of("/x/y.z/track 01.mp3"), some("mp3"));
    assert_eq!(extension_of("name."), some(""));
    assert_eq!(extension_of("..."), some(""));
}

#[test]
fn extension_is_missing_without_a_dot_inside_the_name() {
    assert_eq!(extension_of("README"), None);
    assert_eq!(extension_of(".hidden"), None);
    assert_eq!(extension_of("dir.d/file"), None);
    assert_eq!(extension_of("dir/"), None);
    assert_eq!(extension_of(""), None);
    assert_eq!(extension_of("."), None);
    assert_eq!(extension_of(".."), None);
    assert_eq!(extension_of("a/.."), None);
}

#[test]
fn stem_is_the_name_without_extension() {
    assert_eq!(file_stem_of("a.ogg"), some("a"));
    assert_eq!(file_stem_of("dir/b.tar.gz"), some("b.tar"));
    assert_eq!(file_stem_of("/x/01 - Intro.mp3"), some("01 - Intro"));
    assert_eq!(file_stem_of("README"), some("README"));
    assert_eq!(file_stem_of(".hidden"), some(".hidden"));
    assert_eq!(file_stem_of("name."), some("name"));
    assert_eq!(file_stem_of("..."), some(".."));
    assert_eq!(file_stem_of(""), None);
    assert_eq!(file_stem_of(".."), None);
}

#[test]
fn separators_and_dots_at_the_end_count_for_nothing() {
    assert_eq!(extension_of("a.ogg/"), some("ogg"));
    assert_eq!(extension_of("a.ogg//"), some("ogg"));
    assert_eq!(extension_of("a.ogg/."), some("ogg"));
    assert_eq!(extension_of("x/y.mp3/.//./"), some("mp3"));
    assert_eq!(file_stem_of("dir/"), some("dir"));
    assert_eq!(file_stem_of("dir/."), some("dir"));
    assert_eq!(file_stem_of("/music/book/"), some("book"));
    assert_eq!(file_stem_of("a/./b"), some("b"));
    assert_eq!(file_stem_of("a//b"), some("b"));
}

#[test]
fn some_paths_name_no_file() {
    for path in ["", "/", "//", ".", "./", "./.", "/.", "..", "../", "a/..", "a/../", "a/../."] {
        assert_eq!(file_stem_of(path), None, "{:?}", path);
        assert_eq!(extension_of(path), None, "{:?}", path);
    }
}

#[test]
fn a_folder_with_files_is_taken() {
    assert_eq!(found_inputs(&["a.ogg".to_string()]), Ok(()));
    assert_eq!(found_inputs(&["x".to_string(), "y".to_string()]), Ok(()));
}

#[test]
fn a_folder_without_files_is_refused() {
    assert_eq!(found_inputs(&[]), Err(StageError::NoFilesFound));
    assert_eq!(found_inputs(&Vec::new()), Err(StageError::NoFilesFound));
}

#[test]
fn stem_keeps_characters_outside_ascii() {
    assert_eq!(file_stem_of("bücher/größe.ogg"), some("größe"));
    assert_eq!(extension_of("bücher/größe.ogg"), some("ogg"));
}

#[test]
fn join_sets_one_separator() {
    assert_eq!(join("/tmp/work", "0000.m4a"), "/tmp/work/0000.m4a");
    assert_eq!(join("/tmp/work/", "0000.m4a"), "/tmp/work/0000.m4a");
    assert_eq!(join("", "concat.txt"), "concat.txt");
    assert_eq!(join("/", "x"), "/x");
    assert_eq!(join("rel", ""), "rel/");
}

#[test]
fn formats_are_told_by_extension() {
    assert_eq!(MediaFormat::of_path("a.ogg"), Some(MediaFormat::Ogg));
    assert_eq!(MediaFormat::of_path("b.mp3"), Some(MediaFormat::Mp3));
    assert_eq!(MediaFormat::of_path("c.wav"), Some(MediaFormat::Wav));
    assert_eq!(MediaFormat::of_path("x/y/z.tar.wav"), Some(MediaFormat::Wav));
    assert_eq!(MediaFormat::of_path("a.ogg/"), Some(MediaFormat::Ogg));
    assert_eq!(MediaFormat::of_path("a.mp3/."), Some(MediaFormat::Mp3));
}

#[test]
fn other_extensions_name_no_format() {
    assert_eq!(MediaFormat::of_path("a.flac"), None);
    assert_eq!(MediaFormat::of_path("a.OGG"), None);
    assert_eq!(MediaFormat::of_path("a.mp"), None);
    assert_eq!(MediaFormat::of_path("a.mp34"), None);
    assert_eq!(MediaFormat::of_path("ogg"), None);
    assert_eq!(MediaFormat::of_path(".ogg"), None);
    assert_eq!(MediaFormat::of_path("a.ogg/.."), None);
    assert_eq!(MediaFormat::of_path(""), None);
}

#[test]
fn media_files_have_a_listed_extension() {
    let exts = vec!["ogg".to_string(), "mp3".to_string(), "wav".to_string()];
    assert!(is_media_file("a/b/c.mp3", &exts));
    assert!(is_media_file("c.wav", &exts));
    assert!(!is_media_file("c.txt", &exts));
    assert!(!is_media_file("mp3", &exts));
    assert!(!is_media_file("c.mp3", &Vec::new()));
    assert!(is_media_file("cover.jpg", &vec!["jpg".to_string()]));
}

#[test]
fn decimal_numerals() {
    let mut out = String::from("n=");
    push_decimal(&mut out, 0);
    out.push(',');
    push_decimal(&mut out, 7);
    out.push(',');
    push_decimal(&mut out, 1234567890);
    out.push(',');
    push_decimal(&mut out, u128::MAX);
    assert_eq!(out, "n=0,7,1234567890,340282366920938463463374607431768211455");
}

#[test]
fn zero_padded_numerals() {
    let mut out = String::new();
    push_zero_padded(&mut out, 0, 4);
    out.push(' ');
    push_zero_padded(&mut out, 12, 4);
    out.push(' ');
    push_zero_padded(&mut out, 9999, 4);
    out.push(' ');
    push_zero_padded(&mut out, 12345, 4);
    out.push(' ');
    push_zero_padded(&mut out, 5, 0);
    out.push(' ');
    push_zero_padded(&mut out, 3, 2);
    assert_eq!(out, "0000 0012 9999 12345 5 03");
}

#[test]
fn characters_round_trip() {
    let v = chars_of("aäb€c");
    assert_eq!(v, vec!['a', 'ä', 'b', '€', 'c']);
    assert_eq!(string_of(&v, 1, 4), "äb€");
    assert_eq!(string_of(&v, 2, 2), "");
    assert_eq!(string_of(&v, 0, 5), "aäb€c");
}

#[test]
fn a_name_is_its_stem_and_its_extension() {
    for (path, name) in [
        ("a.ogg", "a.ogg"),
        ("dir/b.tar.gz", "b.tar.gz"),
        ("x/name.", "name."),
        ("/r/...", "..."),
        ("caf\u{e9}/01 - d\u{e9}but.mp3", "01 - d\u{e9}but.mp3"),
    ] {
        let stem = file_stem_of(path).unwrap();
        let ext = extension_of(path).unwrap();
        assert_eq!(format!("{}.{}", stem, ext), name);
        assert!(!ext.contains('.'));
    }
    for path in ["README", "dir/.hidden", "a.b/c"] {
        assert_eq!(extension_of(path), None);
        assert_eq!(file_stem_of(path).unwrap(), path.rsplit('/').next().unwrap());
    }
}

#[test]
fn numerals_read_back() {
    for n in [0u64, 1, 9, 10, 99, 100, 12345, 999_999, 18_446_744_073_709] {
        let mut text = String::new();
        push_decimal(&mut text, n as u128);
        assert_eq!(text, n.to_string());
        assert_eq!(parse_duration(&text), Ok(n * 1_000_000));
    }
}
