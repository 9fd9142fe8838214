//! Compact discs: the files that a rip leaves, the identifier of a disc, and
//! the track titles in the answer of a metadata service.

use vstd::prelude::*;
use vstd::string::*;
use crate::command::{Command, CommandView, Tool};
use crate::process::Exit;
use crate::text::{
    blank,
    chars_of,
    is_blank,
    push_zero_padded,
    skip_blanks,
    string_of,
    texts,
    trim_start,
    zero_padded,
};

verus! {

/// The number of tracks that a rip writes.
pub const RIPPED_TRACKS: usize = 10;

/// Why a disc has no identifier.
#[derive(Clone, Copy, Debug, PartialEq, Eq, Structural)]
pub enum DiscIdError {
    /// The disc reader could not be started, or did not report exit status 0.
    ReaderFailed,
    /// The disc reader printed nothing but blanks.
    NoIdentifier,
}

/// A track of a medium, as the metadata service describes it.
#[derive(Clone, Debug, PartialEq, Eq)]
pub struct Track {
    pub title: String,
}

/// One disc of a release.
#[derive(Clone, Debug, PartialEq, Eq)]
pub struct Medium {
    pub tracks: Vec<Track>,
}

/// A release that holds the disc that was asked about.
#[derive(Clone, Debug, PartialEq, Eq)]
pub struct Release {
    pub media: Vec<Medium>,
}

/// The answer of the metadata service.
#[derive(Clone, Debug, PartialEq, Eq)]
pub struct DiscLookup {
    pub releases: Vec<Release>,
}

/// The characters of `s` before its first blank.
pub open spec fn leading_word(s: Seq<char>) -> Seq<char>
    decreases s.len(),
{
    if s.len() == 0 || is_blank(s.first()) {
        Seq::empty()
    } else {
        seq![s.first()] + leading_word(s.drop_first())
    }
}

/// The first word of `s`: what stands between the blanks at its start and the
/// next blank. Empty when `s` holds blanks only.
pub open spec fn first_word(s: Seq<char>) -> Seq<char> {
    leading_word(trim_start(s))
}

/// The identifier in what the disc reader printed: its first word.
pub open spec fn disc_id_result(exit: Exit, output: Seq<char>) -> Result<Seq<char>, DiscIdError> {
    if exit != Exit::Code(0) {
        Err(DiscIdError::ReaderFailed)
    } else if first_word(output).len() == 0 {
        Err(DiscIdError::NoIdentifier)
    } else {
        Ok(first_word(output))
    }
}

/// The command that reads the identifier of the disc in `device`.
pub open spec fn disc_id_command(device: Seq<char>) -> CommandView {
    CommandView { tool: Tool::DiscReader, args: seq![device] }
}

/// The address at which the metadata service answers for the disc
/// `disc_id`.
pub open spec fn lookup_url_text(disc_id: Seq<char>) -> Seq<char> {
    "https://musicbrainz.org/ws/2/discid/"@ + disc_id + "?inc=recordings+artists&fmt=json"@
}

/// The path of the file that a rip into `folder` writes for track `number`:
/// "track", the number in at least two digits, ".wav".
pub open spec fn ripped_track_path(folder: Seq<char>, number: nat) -> Seq<char> {
    folder + "/track"@ + zero_padded(number, 2) + ".wav"@
}

/// The paths of the files that a rip into `folder` writes: tracks 1 to
/// `RIPPED_TRACKS`, in order.
pub open spec fn ripped_track_paths(folder: Seq<char>) -> Seq<Seq<char>> {
    Seq::new(RIPPED_TRACKS as nat, |i: int| ripped_track_path(folder, (i + 1) as nat))
}

/// The titles of `tracks`, in order.
pub open spec fn titles_of(tracks: Seq<Track>) -> Seq<Seq<char>> {
    Seq::new(tracks.len(), |i: int| tracks[i].title@)
}

/// The command that reads the identifier of the disc in `device`.
pub fn disc_reader(device: &str) -> (command: Command)
    ensures
        command@ == disc_id_command(device@),
{
    let mut args: Vec<String> = Vec::new();
    args.push(device.to_owned());
    assert(texts(args@) =~= seq![device@]);
    Command { tool: Tool::DiscReader, args }
}

/// The identifier of a disc, from one run of the disc reader: `exit` is how
/// the run ended, `output` what it printed to standard output.
pub fn get_disc_id(exit: Exit, output: &str) -> (result: Result<String, DiscIdError>)
    ensures
        match result {
            Ok(id) => disc_id_result(exit, output@) == Ok::<Seq<char>, DiscIdError>(id@),
            Err(error) => disc_id_result(exit, output@) == Err::<Seq<char>, DiscIdError>(error),
        },
{
    match exit {
        Exit::Code(0) => {},
        _ => {
            return Err(DiscIdError::ReaderFailed);
        },
    }
    let v = chars_of(output);
    assert(v@.skip(0) =~= v@);
    let from = skip_blanks(&v, 0);
    let mut to: usize = from;
    assert(v@.subrange(from as int, to as int) =~= Seq::<char>::empty());
    while to < v.len() && !blank(v[to])
        invariant
            from <= to <= v.len(),
            leading_word(v@.skip(from as int)) == v@.subrange(from as int, to as int)
                + leading_word(v@.skip(to as int)),
        decreases v.len() - to,
    {
        proof {
            let rest = v@.skip(to as int);
            assert(rest.drop_first() =~= v@.skip(to + 1));
            assert(v@.subrange(from as int, to + 1) =~= v@.subrange(from as int, to as int)
                + seq![rest.first()]);
            assert(v@.subrange(from as int, to as int) + (seq![rest.first()] + leading_word(
                rest.drop_first(),
            )) =~= v@.subrange(from as int, to as int) + seq![rest.first()] + leading_word(
                rest.drop_first(),
            ));
        }
        to = to + 1;
    }
    assert(leading_word(v@.skip(to as int)) =~= Seq::<char>::empty());
    assert(first_word(output@) =~= v@.subrange(from as int, to as int));
    if to == from {
        Err(DiscIdError::NoIdentifier)
    } else {
        Ok(string_of(&v, from, to))
    }
}

/// The address at which the metadata service answers for the disc
/// `disc_id`.
pub fn lookup_url(disc_id: &str) -> (url: String)
    ensures
        url@ == lookup_url_text(disc_id@),
{
    let mut url = "https://musicbrainz.org/ws/2/discid/".to_owned();
    url.append(disc_id);
    url.append("?inc=recordings+artists&fmt=json");
    url
}

/// The track titles that an answer of the metadata service gives: those of
/// the first medium of the first release. An answer without a release, or
/// whose first release has no medium, gives none.
pub fn track_titles(answer: &DiscLookup) -> (titles: Option<Vec<String>>)
    ensures
        match titles {
            Some(list) => answer.releases.len() > 0 && answer.releases[0].media.len() > 0
                && texts(list@) == titles_of(answer.releases[0].media[0].tracks@),
            None => answer.releases.len() == 0 || answer.releases[0].media.len() == 0,
        },
{
    if answer.releases.len() == 0 {
        return None;
    }
    let release = &answer.releases[0];
    if release.media.len() == 0 {
        return None;
    }
    let tracks = &release.media[0].tracks;
    let mut list: Vec<String> = Vec::new();
    let mut i: usize = 0;
    while i < tracks.len()
        invariant
            i <= tracks.len(),
            list.len() == i,
            forall|k: int| 0 <= k < i ==> (#[trigger] list[k])@ == tracks[k].title@,
        decreases tracks.len() - i,
    {
        list.push(tracks[i].title.clone());
        i = i + 1;
    }
    assert(texts(list@) =~= titles_of(tracks@));
    Some(list)
}

/// The paths of the files that a rip into `output_folder` writes, in track
/// order.
pub fn rip_cd_to_wav(output_folder: &str) -> (files: Vec<String>)
    ensures
        texts(files@) == ripped_track_paths(output_folder@),
{
    let mut files: Vec<String> = Vec::new();
    let mut i: usize = 0;
    while i < RIPPED_TRACKS
        invariant
            i <= RIPPED_TRACKS,
            files.len() == i,
            forall|k: int|
                0 <= k < i ==> (#[trigger] files[k])@ == ripped_track_path(
                    output_folder@,
                    (k + 1) as nat,
                ),
        decreases RIPPED_TRACKS - i,
    {
        let mut path = output_folder.to_owned();
        path.append("/track");
        push_zero_padded(&mut path, i + 1, 2);
        path.append(".wav");
        assert(path@ =~= ripped_track_path(output_folder@, (i + 1) as nat));
        files.push(path);
        i = i + 1;
    }
    assert(texts(files@) =~= ripped_track_paths(output_folder@));
    files
}

} // verus!
