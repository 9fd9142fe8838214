//! Chapters, and a plain listing of them. Times are whole microseconds.

use vstd::prelude::*;
use vstd::string::*;
use crate::text::{chars_of, decimal, push_chars, push_decimal, push_zero_padded, zero_padded};

verus! {

/// A named point in the audio stream. A chapter lasts until the next chapter
/// starts, or until the stream ends.
#[derive(Clone, Debug, PartialEq, Eq)]
pub struct Chapter {
    pub title: String,
    /// Microseconds from the start of the stream.
    pub start_time: u128,
}

/// `s` without the zeros at its end.
pub open spec fn strip_zeros(s: Seq<char>) -> Seq<char>
    decreases s.len(),
{
    if s.len() > 0 && s.last() == '0' {
        strip_zeros(s.drop_last())
    } else {
        s
    }
}

/// What follows the whole seconds when `micros` microseconds (under a
/// million) are written as a decimal fraction of a second: nothing for 0,
/// else a point and the six digits up to the last one that is not zero.
pub open spec fn fraction_text(micros: nat) -> Seq<char> {
    if micros == 0 {
        Seq::empty()
    } else {
        seq!['.'] + strip_zeros(zero_padded(micros, 6))
    }
}

/// `micros` microseconds written in seconds, in the shortest decimal form:
/// 5000000 is "5", 3200000 is "3.2", 1 is "0.000001".
pub open spec fn seconds_text(micros: nat) -> Seq<char> {
    decimal(micros / 1000000) + fraction_text(micros % 1000000)
}

/// The line that lists one chapter: its start in seconds, " - ", its title.
pub open spec fn listing_line(chapter: Chapter) -> Seq<char> {
    seconds_text(chapter.start_time as nat) + " - "@ + chapter.title@ + "\n"@
}

/// The listing of `chapters`: one line each, in order.
pub open spec fn listing_text(chapters: Seq<Chapter>) -> Seq<char>
    decreases chapters.len(),
{
    if chapters.len() == 0 {
        Seq::empty()
    } else {
        listing_text(chapters.drop_last()) + listing_line(chapters.last())
    }
}

/// Appends `seconds_text(micros)` to `out`.
fn push_seconds(out: &mut String, micros: u128)
    ensures
        final(out)@ == old(out)@ + seconds_text(micros as nat),
{
    push_decimal(out, micros / 1000000);
    let rest = (micros % 1000000) as usize;
    let ghost whole = out@;
    if rest != 0 {
        out.push('.');
        let mut digits = String::new();
        push_zero_padded(&mut digits, rest, 6);
        let v = chars_of(digits.as_str());
        assert(v@ =~= zero_padded(rest as nat, 6));
        let mut end: usize = v.len();
        assert(v@.take(end as int) =~= v@);
        while end > 0 && v[end - 1] == '0'
            invariant
                end <= v.len(),
                strip_zeros(v@) == strip_zeros(v@.take(end as int)),
            decreases end,
        {
            assert(v@.take(end as int).drop_last() =~= v@.take(end - 1));
            end = end - 1;
        }
        assert(v@.take(end as int) =~= v@.subrange(0, end as int));
        push_chars(out, &v, 0, end);
    }
    assert(out@ =~= whole + fraction_text(rest as nat));
    assert(final(out)@ =~= old(out)@ + seconds_text(micros as nat));
}

impl Chapter {
    /// A chapter called `title` that starts `start_time` microseconds into
    /// the stream.
    pub fn new(title: String, start_time: u128) -> (chapter: Chapter)
        ensures
            chapter.title == title,
            chapter.start_time == start_time,
    {
        Chapter { title, start_time }
    }

    /// One chapter for each pair of a title and a start time, in order.
    pub fn create_chapters(chapter_data: Vec<(String, u128)>) -> (chapters: Vec<Chapter>)
        ensures
            chapters.len() == chapter_data.len(),
            forall|i: int|
                0 <= i < chapters.len() ==> (#[trigger] chapters[i]).title@ == chapter_data[i].0@
                    && chapters[i].start_time == chapter_data[i].1,
    {
        let mut chapters: Vec<Chapter> = Vec::new();
        let mut i: usize = 0;
        while i < chapter_data.len()
            invariant
                i <= chapter_data.len(),
                chapters.len() == i,
                forall|k: int|
                    0 <= k < i ==> (#[trigger] chapters[k]).title@ == chapter_data[k].0@
                        && chapters[k].start_time == chapter_data[k].1,
            decreases chapter_data.len() - i,
        {
            let title = chapter_data[i].0.clone();
            chapters.push(Chapter::new(title, chapter_data[i].1));
            i = i + 1;
        }
        chapters
    }

    /// Lists `chapters`, one line each: the start in seconds, " - ", the
    /// title.
    pub fn write_chapters(chapters: &[Chapter]) -> (listing: String)
        ensures
            listing@ == listing_text(chapters@),
    {
        let mut listing = String::new();
        let mut i: usize = 0;
        assert(chapters@.take(0) =~= Seq::<Chapter>::empty());
        while i < chapters.len()
            invariant
                i <= chapters.len(),
                listing@ == listing_text(chapters@.take(i as int)),
            decreases chapters.len() - i,
        {
            let ghost before = listing@;
            push_seconds(&mut listing, chapters[i].start_time);
            listing.append(" - ");
            listing.append(chapters[i].title.as_str());
            listing.append("\n");
            i = i + 1;
            proof {
                let taken = chapters@.take(i as int);
                assert(taken.drop_last() =~= chapters@.take(i - 1));
                assert(taken.last() == chapters@[i - 1]);
                assert(listing@ =~= before + listing_line(chapters@[i - 1]));
            }
        }
        assert(chapters@.take(i as int) =~= chapters@);
        listing
    }
}

} // verus!
