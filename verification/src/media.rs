//! The audio formats that can be converted, told by a file's extension.

use vstd::prelude::*;
use vstd::string::*;
use crate::error::{StageError, StageErrorView};
use crate::paths::{extension, extension_of};
use crate::text::{chars_of, texts};

verus! {

/// A format that the transcoder is asked to read.
#[derive(Clone, Copy, Debug, PartialEq, Eq, Structural)]
pub enum MediaFormat {
    Ogg,
    Mp3,
    Wav,
}

/// The format that an extension stands for. Extensions are compared as
/// written: "OGG" names no format.
pub open spec fn format_of_extension(ext: Seq<char>) -> Option<MediaFormat> {
    if ext == seq!['o', 'g', 'g'] {
        Some(MediaFormat::Ogg)
    } else if ext == seq!['m', 'p', '3'] {
        Some(MediaFormat::Mp3)
    } else if ext == seq!['w', 'a', 'v'] {
        Some(MediaFormat::Wav)
    } else {
        None
    }
}

/// The format of the file that `path` names, if its extension names one.
pub open spec fn format_of(path: Seq<char>) -> Option<MediaFormat> {
    match extension(path) {
        Some(ext) => format_of_extension(ext),
        None => None,
    }
}

/// Whether `path` has an extension and `extensions` lists it.
pub open spec fn has_listed_extension(path: Seq<char>, extensions: Seq<Seq<char>>) -> bool {
    extension(path) is Some && extensions.contains(extension(path)->0)
}

/// Whether `v` is the three characters `a`, `b`, `c`.
fn is_triple(v: &Vec<char>, a: char, b: char, c: char) -> (same: bool)
    ensures
        same == (v@ == seq![a, b, c]),
{
    if v.len() == 3 && v[0] == a && v[1] == b && v[2] == c {
        assert(v@ =~= seq![a, b, c]);
        true
    } else {
        assert(v@ != seq![a, b, c]) by {
            let t = seq![a, b, c];
            assert(t.len() == 3 && t[0] == a && t[1] == b && t[2] == c);
        }
        false
    }
}

impl MediaFormat {
    /// The format of the file that `path` names.
    pub fn of_path(path: &str) -> (format: Option<MediaFormat>)
        ensures
            format == format_of(path@),
    {
        match extension_of(path) {
            None => None,
            Some(ext) => {
                let v = chars_of(ext.as_str());
                if is_triple(&v, 'o', 'g', 'g') {
                    Some(MediaFormat::Ogg)
                } else if is_triple(&v, 'm', 'p', '3') {
                    Some(MediaFormat::Mp3)
                } else if is_triple(&v, 'w', 'a', 'v') {
                    Some(MediaFormat::Wav)
                } else {
                    None
                }
            },
        }
    }
}

/// Whether the file that `path` names has one of `extensions`. This is the
/// test by which a folder's files are taken as tracks.
pub fn is_media_file(path: &str, extensions: &Vec<String>) -> (listed: bool)
    ensures
        listed == has_listed_extension(path@, texts(extensions@)),
{
    match extension_of(path) {
        None => false,
        Some(ext) => {
            let mut i: usize = 0;
            while i < extensions.len()
                invariant
                    i <= extensions.len(),
                    extension(path@) == Some(ext@),
                    forall|k: int| 0 <= k < i ==> texts(extensions@)[k] != ext@,
                decreases extensions.len() - i,
            {
                if extensions[i] == ext {
                    assert(texts(extensions@)[i as int] == ext@);
                    assert(texts(extensions@).contains(ext@));
                    return true;
                }
                i = i + 1;
            }
            false
        },
    }
}

/// Whether a folder gave anything to convert: a folder without a media file
/// is refused, with an error of its own, before any work is begun.
pub fn found_inputs(files: &[String]) -> (result: Result<(), StageError>)
    ensures
        files@.len() > 0 <==> result is Ok,
        result matches Err(error) ==> error@ == StageErrorView::NoFilesFound,
{
    if files.len() > 0 {
        Ok(())
    } else {
        Err(StageError::NoFilesFound)
    }
}

} // verus!
