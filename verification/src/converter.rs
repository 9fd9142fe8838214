//! The commands of a conversion: one re-encode per input, one probe per
//! intermediate file, one merge; and the manifest that the merge reads.

use vstd::prelude::*;
use vstd::string::*;
use crate::command::{Command, CommandView, Tool};
use crate::error::{StageError, StageErrorView};
use crate::media::{format_of, MediaFormat};
use crate::paths::{join, joined};
use crate::pipeline::{initial, well_formed, ConversionJob, JobView, Pipeline};
use crate::text::{
    chars_of,
    decimal,
    digit_char,
    owned_list,
    push_zero_padded,
    texts,
    zero_padded,
    zeros,
};

verus! {

/// Builds the commands by which files are converted.
pub struct Converter;

/// The arguments that re-encode `input` into `output`: audio only, AAC at a
/// constant 64 kbit/s.
pub open spec fn transcode_args(input: Seq<char>, output: Seq<char>) -> Seq<Seq<char>> {
    seq!["-i"@, input, "-c:a"@, "aac"@, "-b:a"@, "64k"@, "-vn"@, output]
}

/// The command that re-encodes `input` into `output`.
pub open spec fn transcode_command(input: Seq<char>, output: Seq<char>) -> CommandView {
    CommandView { tool: Tool::Transcoder, args: transcode_args(input, output) }
}

/// The arguments that make the prober print the duration of `path` in
/// seconds, and nothing else.
pub open spec fn probe_args(path: Seq<char>) -> Seq<Seq<char>> {
    seq![
        "-v"@,
        "error"@,
        "-show_entries"@,
        "format=duration"@,
        "-of"@,
        "default=noprint_wrappers=1:nokey=1"@,
        path,
    ]
}

/// The command that probes `path`.
pub open spec fn probe_command(path: Seq<char>) -> CommandView {
    CommandView { tool: Tool::Prober, args: probe_args(path) }
}

/// The arguments that join the files listed in `manifest` into `output`
/// without re-encoding, with the metadata of the file `metadata`.
pub open spec fn merge_args(manifest: Seq<char>, metadata: Seq<char>, output: Seq<char>) -> Seq<
    Seq<char>,
> {
    seq![
        "-f"@,
        "concat"@,
        "-safe"@,
        "0"@,
        "-i"@,
        manifest,
        "-i"@,
        metadata,
        "-map_metadata"@,
        "1"@,
        "-c"@,
        "copy"@,
        output,
    ]
}

/// The command that merges.
pub open spec fn merge_command(
    manifest: Seq<char>,
    metadata: Seq<char>,
    output: Seq<char>,
) -> CommandView {
    CommandView { tool: Tool::Transcoder, args: merge_args(manifest, metadata, output) }
}

/// The command that re-encodes `input` into `output`, chosen by the format of
/// `input`; an input of no known format is refused.
pub open spec fn transcode_choice(input: Seq<char>, output: Seq<char>) -> Result<
    CommandView,
    StageErrorView,
> {
    match format_of(input) {
        Some(_) => Ok(transcode_command(input, output)),
        None => Err(StageErrorView::UnsupportedFormat { path: input }),
    }
}

/// The name of the intermediate file of input number `index`, counted from 0:
/// the number in at least four digits, so that names sort as numbers do.
pub open spec fn intermediate_name(index: nat) -> Seq<char> {
    zero_padded(index, 4) + ".m4a"@
}

/// The path of the intermediate file of input number `index` in `work_dir`.
pub open spec fn intermediate_path(work_dir: Seq<char>, index: nat) -> Seq<char> {
    joined(work_dir, intermediate_name(index))
}

/// Whether `a` sorts before `b`, as strings are sorted: at the first place
/// where they differ `a` holds the lesser character, or `a` ends there.
pub open spec fn sorts_before(a: Seq<char>, b: Seq<char>) -> bool
    decreases a.len(),
{
    if b.len() == 0 {
        false
    } else if a.len() == 0 {
        true
    } else if a.first() != b.first() {
        (a.first() as u32) < (b.first() as u32)
    } else {
        sorts_before(a.drop_first(), b.drop_first())
    }
}

/// Strings that agree before place `k` and differ at `k` sort as their
/// characters at `k` do.
proof fn lemma_sorts_before_at(a: Seq<char>, b: Seq<char>, k: int)
    requires
        0 <= k < a.len(),
        k < b.len(),
        forall|i: int| 0 <= i < k ==> a[i] == b[i],
        (a[k] as u32) < (b[k] as u32),
    ensures
        sorts_before(a, b),
    decreases k,
{
    if k > 0 {
        assert(a.first() == b.first());
        assert forall|i: int| 0 <= i < k - 1 implies a.drop_first()[i] == b.drop_first()[i] by {
            assert(a[i + 1] == b[i + 1]);
        }
        lemma_sorts_before_at(a.drop_first(), b.drop_first(), k - 1);
    }
}

/// The digit of `n` at place `k` of four, counted from the thousands.
spec fn place_digit(n: nat, k: int) -> nat {
    if k == 0 {
        n / 1000
    } else if k == 1 {
        n / 100 % 10
    } else if k == 2 {
        n / 10 % 10
    } else {
        n % 10
    }
}

/// A number under 10000 padded to four places is its four digits.
proof fn lemma_four_digits(n: nat)
    requires
        n < 10000,
    ensures
        zero_padded(n, 4) == seq![
            digit_char(n / 1000),
            digit_char(n / 100 % 10),
            digit_char(n / 10 % 10),
            digit_char(n % 10),
        ],
{
    reveal_with_fuel(decimal, 5);
    let digits = seq![
        digit_char(n / 1000),
        digit_char(n / 100 % 10),
        digit_char(n / 10 % 10),
        digit_char(n % 10),
    ];
    if n < 10 {
        assert(decimal(n) =~= seq![digit_char(n)]);
        assert(zeros(3) + decimal(n) =~= digits);
    } else if n < 100 {
        assert(decimal(n) =~= seq![digit_char(n / 10), digit_char(n % 10)]);
        assert(zeros(2) + decimal(n) =~= digits);
    } else if n < 1000 {
        assert(decimal(n) =~= seq![digit_char(n / 100), digit_char(n / 10 % 10), digit_char(n % 10)]);
        assert(zeros(1) + decimal(n) =~= digits);
    } else {
        assert(decimal(n) =~= digits);
    }
}

/// The name of one of the first ten thousand intermediate files begins with
/// the four digits of its number.
proof fn lemma_name_digits(n: nat)
    requires
        n < 10000,
    ensures
        intermediate_name(n).len() >= 4,
        forall|k: int|
            0 <= k < 4 ==> #[trigger] intermediate_name(n)[k] == digit_char(place_digit(n, k)),
{
    lemma_four_digits(n);
    let digits = zero_padded(n, 4);
    assert(digits.len() == 4);
    assert forall|k: int| 0 <= k < 4 implies #[trigger] intermediate_name(n)[k] == digit_char(
        place_digit(n, k),
    ) by {
        assert(intermediate_name(n)[k] == digits[k]);
    }
}

/// Where two numbers under 10000 first differ in their four digits, the
/// lesser number has the lesser digit.
proof fn lemma_digits_differ(i: nat, j: nat) -> (k: int)
    requires
        i < j < 10000,
    ensures
        0 <= k < 4,
        forall|m: int| 0 <= m < k ==> place_digit(i, m) == place_digit(j, m),
        place_digit(i, k) < place_digit(j, k) < 10,
{
    if i / 1000 != j / 1000 {
        0
    } else if i / 100 % 10 != j / 100 % 10 {
        1
    } else if i / 10 % 10 != j / 10 % 10 {
        2
    } else {
        3
    }
}

/// Digits sort as the numbers that they write.
proof fn lemma_digit_order(d: nat, e: nat)
    requires
        d < e < 10,
    ensures
        (digit_char(d) as u32) < (digit_char(e) as u32),
{
}

/// Among the first ten thousand intermediate files, names sort in the order
/// of the inputs, whatever the inputs are called.
pub proof fn law_intermediate_names_sorted(i: nat, j: nat)
    requires
        i < j < 10000,
    ensures
        sorts_before(intermediate_name(i), intermediate_name(j)),
{
    let k = lemma_digits_differ(i, j);
    lemma_name_digits(i);
    lemma_name_digits(j);
    lemma_digit_order(place_digit(i, k), place_digit(j, k));
    let a = intermediate_name(i);
    let b = intermediate_name(j);
    assert forall|m: int| 0 <= m < k implies a[m] == b[m] by {
        assert(place_digit(i, m) == place_digit(j, m));
    }
    lemma_sorts_before_at(a, b, k);
}

/// `path` as it stands between single quotes in a manifest: each single quote
/// in it closes the quotation, is written behind a backslash, and opens the
/// quotation again.
pub open spec fn quoted_text(path: Seq<char>) -> Seq<char>
    decreases path.len(),
{
    if path.len() == 0 {
        Seq::empty()
    } else if path.last() == '\'' {
        quoted_text(path.drop_last()) + "'\\''"@
    } else {
        quoted_text(path.drop_last()).push(path.last())
    }
}

/// What the reader of a manifest takes `token` for. Between single quotes
/// every character stands for itself, up to the next single quote; outside
/// them a backslash makes the character behind it stand for itself. `inside`
/// says whether `token` begins between quotes.
pub open spec fn unquoted_text(token: Seq<char>, inside: bool) -> Seq<char>
    decreases token.len(),
{
    if token.len() == 0 {
        Seq::empty()
    } else if token.first() == '\'' {
        unquoted_text(token.drop_first(), !inside)
    } else if !inside && token.first() == '\\' && token.len() >= 2 {
        seq![token[1]] + unquoted_text(token.skip(2), false)
    } else {
        seq![token.first()] + unquoted_text(token.drop_first(), inside)
    }
}

/// What one character of a path is written as between single quotes.
spec fn quoted_char(c: char) -> Seq<char> {
    if c == '\'' {
        "'\\''"@
    } else {
        seq![c]
    }
}

/// Quoting goes character by character, from the front as from the back.
proof fn lemma_quoted_from_front(path: Seq<char>)
    requires
        path.len() > 0,
    ensures
        quoted_text(path) == quoted_char(path.first()) + quoted_text(path.drop_first()),
    decreases path.len(),
{
    let last = quoted_char(path.last());
    assert(quoted_text(path) =~= quoted_text(path.drop_last()) + last);
    if path.len() == 1 {
        assert(path.drop_last() =~= Seq::<char>::empty());
        assert(path.drop_first() =~= Seq::<char>::empty());
        assert(quoted_text(path) =~= quoted_char(path.first()));
    } else {
        let middle = path.drop_first().drop_last();
        lemma_quoted_from_front(path.drop_last());
        assert(path.drop_last().drop_first() =~= middle);
        assert(path.drop_last().first() == path.first());
        assert(path.drop_first().last() == path.last());
        assert(quoted_text(path.drop_first()) =~= quoted_text(middle) + last);
        assert(quoted_text(path) =~= quoted_char(path.first()) + (quoted_text(middle) + last));
    }
}

/// Reading from inside the quotes, the quoted path and the closing quote
/// give the path.
proof fn lemma_unquoted_inside(path: Seq<char>)
    ensures
        unquoted_text(quoted_text(path).push('\''), true) == path,
    decreases path.len(),
{
    reveal_strlit("'\\''");
    if path.len() == 0 {
        let token = quoted_text(path).push('\'');
        assert(token =~= seq!['\'']);
        assert(token.drop_first() =~= Seq::<char>::empty());
        assert(unquoted_text(Seq::<char>::empty(), false) =~= Seq::<char>::empty());
        assert(unquoted_text(token, true) == unquoted_text(token.drop_first(), false));
        assert(path =~= Seq::<char>::empty());
    } else {
        let c = path.first();
        let rest = path.drop_first();
        let tail = quoted_text(rest).push('\'');
        lemma_quoted_from_front(path);
        lemma_unquoted_inside(rest);
        let token = quoted_text(path).push('\'');
        assert(token =~= quoted_char(c) + tail);
        if c == '\'' {
            let t1 = token.drop_first();
            assert(t1 =~= seq!['\\', '\'', '\''] + tail);
            assert(t1.skip(2) =~= seq!['\''] + tail);
            assert(t1.skip(2).drop_first() =~= tail);
            assert(unquoted_text(t1.skip(2), false) == unquoted_text(tail, true));
            assert(unquoted_text(t1, false) =~= seq!['\''] + rest);
            assert(unquoted_text(token, true) == unquoted_text(t1, false));
            assert(seq!['\''] + rest =~= path);
        } else {
            assert(token.drop_first() =~= tail);
            assert(unquoted_text(token, true) =~= seq![c] + rest);
            assert(seq![c] + rest =~= path);
        }
    }
}

/// Quoting is safe for every path: the reader of the manifest takes the
/// quoted path, between its single quotes, for the path itself, whatever
/// characters the path holds.
pub proof fn law_quoting_reads_back(path: Seq<char>)
    ensures
        unquoted_text(seq!['\''] + quoted_text(path) + seq!['\''], false) == path,
{
    let token = seq!['\''] + quoted_text(path) + seq!['\''];
    lemma_unquoted_inside(path);
    assert(token.drop_first() =~= quoted_text(path).push('\''));
}

/// A path without a single quote stands between the quotes as it is.
pub proof fn law_plain_path_unchanged(path: Seq<char>)
    requires
        !path.contains('\''),
    ensures
        quoted_text(path) == path,
    decreases path.len(),
{
    if path.len() > 0 {
        let front = path.drop_last();
        assert(path[path.len() - 1] == path.last());
        assert forall|i: int| 0 <= i < front.len() implies front[i] != '\'' by {
            assert(front[i] == path[i]);
        }
        law_plain_path_unchanged(front);
        assert(front.push(path.last()) =~= path);
    } else {
        assert(path =~= Seq::<char>::empty());
    }
}

/// The manifest line that names `path`.
pub open spec fn manifest_line(path: Seq<char>) -> Seq<char> {
    "file '"@ + quoted_text(path) + "'\n"@
}

/// The manifest that lists `paths`: one line each, in order.
pub open spec fn manifest_text(paths: Seq<Seq<char>>) -> Seq<char>
    decreases paths.len(),
{
    if paths.len() == 0 {
        Seq::empty()
    } else {
        manifest_text(paths.drop_last()) + manifest_line(paths.last())
    }
}

/// The transcode command for `input` and `output`.
fn transcoder(input: &str, output: &str) -> (command: Command)
    ensures
        command@ == transcode_command(input@, output@),
{
    let mut args: Vec<String> = Vec::new();
    args.push("-i".to_owned());
    args.push(input.to_owned());
    args.push("-c:a".to_owned());
    args.push("aac".to_owned());
    args.push("-b:a".to_owned());
    args.push("64k".to_owned());
    args.push("-vn".to_owned());
    args.push(output.to_owned());
    assert(texts(args@) =~= transcode_args(input@, output@));
    Command { tool: Tool::Transcoder, args }
}

/// Appends the manifest line for `path` to `out`.
fn push_manifest_line(out: &mut String, path: &str)
    ensures
        final(out)@ == old(out)@ + manifest_line(path@),
{
    let v = chars_of(path);
    out.append("file '");
    let ghost start = out@;
    let mut i: usize = 0;
    assert(v@.take(0) =~= Seq::<char>::empty());
    while i < v.len()
        invariant
            i <= v.len(),
            out@ == start + quoted_text(v@.take(i as int)),
        decreases v.len() - i,
    {
        let ghost before = out@;
        if v[i] == '\'' {
            out.append("'\\''");
        } else {
            out.push(v[i]);
        }
        i = i + 1;
        proof {
            let taken = v@.take(i as int);
            assert(taken.drop_last() =~= v@.take(i - 1));
            assert(out@ =~= start + quoted_text(taken));
        }
    }
    assert(v@.take(i as int) =~= v@);
    out.append("'\n");
    assert(final(out)@ =~= old(out)@ + manifest_line(path@));
}

impl Converter {
    /// The converter. It has no settings: every input is converted with the
    /// same profile.
    pub fn new() -> (converter: Converter) {
        Converter
    }

    /// The command that converts the Ogg file `input` into `output`.
    pub fn convert_ogg_to_m4b(input: &str, output: &str) -> (command: Command)
        ensures
            command@ == transcode_command(input@, output@),
    {
        transcoder(input, output)
    }

    /// The command that converts the MP3 file `input` into `output`. Wave
    /// files are converted by this command too.
    pub fn convert_mp3_to_m4b(input: &str, output: &str) -> (command: Command)
        ensures
            command@ == transcode_command(input@, output@),
    {
        transcoder(input, output)
    }

    /// The command that converts `input` into `output`, chosen by the
    /// extension of `input`. An input whose extension names no format is
    /// refused, with its path.
    pub fn transcode(input: &str, output: &str) -> (choice: Result<Command, StageError>)
        ensures
            match choice {
                Ok(command) => transcode_choice(input@, output@) == Ok::<
                    CommandView,
                    StageErrorView,
                >(command@),
                Err(error) => transcode_choice(input@, output@) == Err::<
                    CommandView,
                    StageErrorView,
                >(error@),
            },
    {
        match MediaFormat::of_path(input) {
            Some(MediaFormat::Ogg) => Ok(Converter::convert_ogg_to_m4b(input, output)),
            Some(MediaFormat::Mp3) => Ok(Converter::convert_mp3_to_m4b(input, output)),
            Some(MediaFormat::Wav) => Ok(Converter::convert_mp3_to_m4b(input, output)),
            None => Err(StageError::UnsupportedFormat { path: input.to_owned() }),
        }
    }

    /// The command that asks the prober for the duration of `path`.
    pub fn probe(path: &str) -> (command: Command)
        ensures
            command@ == probe_command(path@),
    {
        let mut args: Vec<String> = Vec::new();
        args.push("-v".to_owned());
        args.push("error".to_owned());
        args.push("-show_entries".to_owned());
        args.push("format=duration".to_owned());
        args.push("-of".to_owned());
        args.push("default=noprint_wrappers=1:nokey=1".to_owned());
        args.push(path.to_owned());
        assert(texts(args@) =~= probe_args(path@));
        Command { tool: Tool::Prober, args }
    }

    /// The command that joins the files listed in the manifest at `manifest`
    /// into `output`, copying the streams and taking the metadata from the
    /// chapter document at `metadata`.
    pub fn merge(manifest: &str, metadata: &str, output: &str) -> (command: Command)
        ensures
            command@ == merge_command(manifest@, metadata@, output@),
    {
        let mut args: Vec<String> = Vec::new();
        args.push("-f".to_owned());
        args.push("concat".to_owned());
        args.push("-safe".to_owned());
        args.push("0".to_owned());
        args.push("-i".to_owned());
        args.push(manifest.to_owned());
        args.push("-i".to_owned());
        args.push(metadata.to_owned());
        args.push("-map_metadata".to_owned());
        args.push("1".to_owned());
        args.push("-c".to_owned());
        args.push("copy".to_owned());
        args.push(output.to_owned());
        assert(texts(args@) =~= merge_args(manifest@, metadata@, output@));
        Command { tool: Tool::Transcoder, args }
    }

    /// The path of the intermediate file of input number `index` in
    /// `work_dir`.
    pub fn intermediate(work_dir: &str, index: usize) -> (path: String)
        ensures
            path@ == intermediate_path(work_dir@, index as nat),
    {
        let mut name = String::new();
        push_zero_padded(&mut name, index, 4);
        name.append(".m4a");
        assert(name@ =~= intermediate_name(index as nat));
        join(work_dir, name.as_str())
    }

    /// The run that converts `media_files`, in this order, into the one
    /// audiobook `output_file`, at its beginning. Where `chapter_titles` are
    /// given, they name the chapters in place of the names of the files.
    pub fn convert_and_merge_to_m4b(
        &self,
        media_files: &[String],
        output_file: &str,
        chapter_titles: Option<&[String]>,
    ) -> (run: Pipeline)
        ensures
            (run@ == initial(
                JobView {
                    inputs: texts(media_files@),
                    chapter_titles: match chapter_titles {
                        Some(titles) => Some(texts(titles@)),
                        None => None,
                    },
                    output: output_file@,
                },
            )),
            well_formed(run@),
    {
        let titles = match chapter_titles {
            Some(list) => Some(owned_list(list)),
            None => None,
        };
        Pipeline::new(
            ConversionJob {
                inputs: owned_list(media_files),
                chapter_titles: titles,
                output: output_file.to_owned(),
            },
        )
    }

    /// The manifest that lists `paths`, one quoted path per line, in order.
    pub fn manifest(paths: &Vec<String>) -> (out: String)
        ensures
            out@ == manifest_text(texts(paths@)),
    {
        let mut out = String::new();
        let mut i: usize = 0;
        assert(texts(paths@).take(0) =~= Seq::<Seq<char>>::empty());
        while i < paths.len()
            invariant
                i <= paths.len(),
                out@ == manifest_text(texts(paths@).take(i as int)),
            decreases paths.len() - i,
        {
            push_manifest_line(&mut out, paths[i].as_str());
            i = i + 1;
            proof {
                let taken = texts(paths@).take(i as int);
                assert(taken.drop_last() =~= texts(paths@).take(i - 1));
                assert(taken.last() == paths@[i - 1]@);
            }
        }
        assert(texts(paths@).take(i as int) =~= texts(paths@));
        out
    }
}

} // verus!
