//! The chapter metadata document: one chapter per audio file, each starting
//! where the one before it ends. Times are kept in whole microseconds and
//! written in whole milliseconds, the timebase of the document.

use vstd::prelude::*;
use vstd::string::*;
use crate::chapters::Chapter;
use crate::text::{decimal, optional_texts, push_decimal, texts};

verus! {

/// An ordered list of chapters together with the time at which the stream
/// ends, in microseconds.
#[derive(Clone, Debug, PartialEq, Eq)]
pub struct ChapterMetadataDocument {
    pub chapters: Vec<Chapter>,
    pub end_time: u128,
}

/// The sum of `durations`.
pub open spec fn total(durations: Seq<u64>) -> nat
    decreases durations.len(),
{
    if durations.len() == 0 {
        0
    } else {
        total(durations.drop_last()) + durations.last() as nat
    }
}

/// Where chapter `i` starts: the sum of the durations before it.
pub open spec fn start_offset(durations: Seq<u64>, i: int) -> nat {
    total(durations.take(i))
}

/// The title given to a chapter that has neither an override nor a fallback
/// name: "Chapter " and its number, counted from 1.
pub open spec fn numbered_title(i: int) -> Seq<char> {
    "Chapter "@ + decimal((i + 1) as nat)
}

/// The title of chapter `i`: the override for `i` where there is one, else the
/// fallback name for `i` where there is one, else the numbered title.
pub open spec fn chapter_title(
    overrides: Option<Seq<Seq<char>>>,
    fallbacks: Seq<Seq<char>>,
    i: int,
) -> Seq<char> {
    if overrides is Some && 0 <= i < overrides->0.len() {
        overrides->0[i]
    } else if 0 <= i < fallbacks.len() {
        fallbacks[i]
    } else {
        numbered_title(i)
    }
}

/// `micros` microseconds in milliseconds, rounded to the nearest whole one,
/// halves upwards.
pub open spec fn round_millis(micros: nat) -> nat {
    micros / 1000 + if micros % 1000 >= 500 {
        1nat
    } else {
        0nat
    }
}

/// The first line of every document.
pub open spec fn header_text() -> Seq<char> {
    ";FFMETADATA1\n"@
}

/// The block of lines that records one chapter, which starts `start`
/// microseconds and ends `end` microseconds into the stream: its marker, the
/// timebase, its start and its end in milliseconds, its title.
pub open spec fn block_text(start: nat, end: nat, title: Seq<char>) -> Seq<char> {
    "[CHAPTER]\nTIMEBASE=1/1000\nSTART="@ + decimal(round_millis(start)) + "\nEND="@ + decimal(
        round_millis(end),
    ) + "\ntitle="@ + title + "\n"@
}

/// The blocks of the first `count` chapters of the document that `build`
/// makes of these durations and names.
pub open spec fn built_blocks(
    durations: Seq<u64>,
    overrides: Option<Seq<Seq<char>>>,
    fallbacks: Seq<Seq<char>>,
    count: int,
) -> Seq<char>
    decreases count,
{
    if count <= 0 {
        Seq::empty()
    } else {
        built_blocks(durations, overrides, fallbacks, count - 1) + block_text(
            start_offset(durations, count - 1),
            start_offset(durations, count),
            chapter_title(overrides, fallbacks, count - 1),
        )
    }
}

/// The text of the document that `build` makes of these durations and names:
/// the header, then for each duration a block from the sum of the durations
/// before it to the sum that includes it.
pub open spec fn built_text(
    durations: Seq<u64>,
    overrides: Option<Seq<Seq<char>>>,
    fallbacks: Seq<Seq<char>>,
) -> Seq<char> {
    header_text() + built_blocks(durations, overrides, fallbacks, durations.len() as int)
}

/// Chapter starts never go down: a chapter starts no later than any chapter
/// behind it, and no later than the stream ends.
pub proof fn law_start_offsets_ordered(durations: Seq<u64>, i: int, j: int)
    requires
        0 <= i <= j <= durations.len(),
    ensures
        start_offset(durations, i) <= start_offset(durations, j),
    decreases j - i,
{
    if i < j {
        law_start_offsets_ordered(durations, i, j - 1);
        law_start_offset_step(durations, j - 1);
    }
}

/// The first chapter starts at 0, each later one starts where the one before
/// it ends, which is its start plus its duration, and the last one ends at
/// the sum of all durations.
pub proof fn law_start_offset_step(durations: Seq<u64>, i: int)
    requires
        0 <= i < durations.len(),
    ensures
        start_offset(durations, 0) == 0,
        start_offset(durations, i + 1) == start_offset(durations, i) + durations[i],
        start_offset(durations, durations.len() as int) == total(durations),
{
    assert(durations.take(i + 1).drop_last() =~= durations.take(i));
    assert(durations.take(durations.len() as int) =~= durations);
}

/// Rounding to milliseconds keeps the order of times: chapter starts never go
/// down in the written document either.
pub proof fn law_round_millis_ordered(earlier: nat, later: nat)
    requires
        earlier <= later,
    ensures
        round_millis(earlier) <= round_millis(later),
{
}

/// Without durations the document is its header and nothing else.
pub proof fn law_empty_document(overrides: Option<Seq<Seq<char>>>, fallbacks: Seq<Seq<char>>)
    ensures
        built_text(Seq::empty(), overrides, fallbacks) == header_text(),
{
    assert(built_blocks(Seq::empty(), overrides, fallbacks, 0) =~= Seq::<char>::empty());
}

/// For each chapter by itself, an override goes before a fallback name, and
/// a fallback name before the numbered title; a list that is too short for a
/// chapter has nothing for it.
pub proof fn law_title_precedence(
    overrides: Option<Seq<Seq<char>>>,
    fallbacks: Seq<Seq<char>>,
    i: int,
)
    requires
        0 <= i,
    ensures
        overrides is Some && i < overrides->0.len() ==> chapter_title(overrides, fallbacks, i)
            == overrides->0[i],
        (overrides is None || i >= overrides->0.len()) && i < fallbacks.len() ==> chapter_title(
            overrides,
            fallbacks,
            i,
        ) == fallbacks[i],
        (overrides is None || i >= overrides->0.len()) && i >= fallbacks.len() ==> chapter_title(
            overrides,
            fallbacks,
            i,
        ) == numbered_title(i),
{
}

/// A sum of `n` durations is at most `n` times the largest `u64`.
proof fn lemma_total_bound(durations: Seq<u64>)
    ensures
        total(durations) <= durations.len() * 0xffff_ffff_ffff_ffff,
    decreases durations.len(),
{
    if durations.len() > 0 {
        lemma_total_bound(durations.drop_last());
        assert((durations.len() - 1) * 0xffff_ffff_ffff_ffff + 0xffff_ffff_ffff_ffff
            == durations.len() * 0xffff_ffff_ffff_ffff) by (nonlinear_arith);
    }
}

/// `micros` microseconds in milliseconds.
fn to_millis(micros: u128) -> (millis: u128)
    ensures
        millis == round_millis(micros as nat),
{
    if micros % 1000 >= 500 {
        micros / 1000 + 1
    } else {
        micros / 1000
    }
}

/// The title of chapter `i`.
fn title_for(overrides: Option<&Vec<String>>, fallbacks: &Vec<String>, i: usize) -> (title: String)
    ensures
        title@ == chapter_title(optional_texts(overrides), texts(fallbacks@), i as int),
{
    if let Some(list) = overrides {
        if i < list.len() {
            return list[i].clone();
        }
    }
    if i < fallbacks.len() {
        return fallbacks[i].clone();
    }
    numbered(i)
}

/// The numbered title of chapter `i`.
pub fn numbered(i: usize) -> (title: String)
    ensures
        title@ == numbered_title(i as int),
{
    let mut title = String::new();
    title.append("Chapter ");
    push_decimal(&mut title, i as u128 + 1);
    assert(title@ =~= numbered_title(i as int));
    title
}

impl ChapterMetadataDocument {
    /// Where chapter `i` ends: where the next chapter starts, or where the
    /// stream ends.
    pub open spec fn end_of(&self, i: int) -> u128 {
        if i + 1 < self.chapters.len() {
            self.chapters[i + 1].start_time
        } else {
            self.end_time
        }
    }

    /// The chapters follow one another without gap or overlap: the first
    /// starts at 0 and none ends before it starts.
    pub open spec fn wf(&self) -> bool {
        &&& self.chapters.len() > 0 ==> self.chapters[0].start_time == 0
        &&& forall|i: int|
            0 <= i < self.chapters.len() ==> (#[trigger] self.chapters[i]).start_time
                <= self.end_of(i)
    }

    /// In a well-formed document no chapter starts before a chapter that
    /// stands before it, and none starts after the stream ends.
    pub proof fn law_starts_ordered(&self, i: int, j: int)
        requires
            self.wf(),
            0 <= i <= j < self.chapters.len(),
        ensures
            self.chapters[i].start_time <= self.chapters[j].start_time <= self.end_time,
        decreases self.chapters.len() - i,
    {
        assert(self.chapters[i].start_time <= self.end_of(i));
        if i < j {
            self.law_starts_ordered(i + 1, j);
        } else if j + 1 < self.chapters.len() {
            self.law_starts_ordered(j + 1, j + 1);
        }
    }

    /// The blocks of the first `count` chapters, in order.
    pub open spec fn blocks_text(&self, count: int) -> Seq<char>
        decreases count,
    {
        if count <= 0 {
            Seq::empty()
        } else {
            self.blocks_text(count - 1) + block_text(
                self.chapters[count - 1].start_time as nat,
                self.end_of(count - 1) as nat,
                self.chapters[count - 1].title@,
            )
        }
    }

    /// The document as text: the header, then one block per chapter.
    pub open spec fn text(&self) -> Seq<char> {
        header_text() + self.blocks_text(self.chapters.len() as int)
    }

    /// The document for files that last `durations` microseconds each, in
    /// order. Chapter `i` starts at the sum of the durations before it and is
    /// titled by `chapter_title`; the stream ends at the sum of all of them.
    pub fn build(
        durations: &Vec<u64>,
        title_overrides: Option<&Vec<String>>,
        fallback_names: &Vec<String>,
    ) -> (doc: ChapterMetadataDocument)
        ensures
            doc.wf(),
            doc.chapters.len() == durations.len(),
            doc.end_time == total(durations@),
            forall|i: int|
                0 <= i < durations.len() ==> (#[trigger] doc.chapters[i]).start_time
                    == start_offset(durations@, i) && doc.chapters[i].title@ == chapter_title(
                    optional_texts(title_overrides),
                    texts(fallback_names@),
                    i,
                ),
            doc.text() == built_text(
                durations@,
                optional_texts(title_overrides),
                texts(fallback_names@),
            ),
    {
        let mut chapters: Vec<Chapter> = Vec::new();
        let mut cursor: u128 = 0;
        let mut i: usize = 0;
        assert(durations@.take(0) =~= Seq::<u64>::empty());
        while i < durations.len()
            invariant
                i <= durations.len(),
                chapters.len() == i,
                cursor == start_offset(durations@, i as int),
                forall|k: int|
                    0 <= k < i ==> (#[trigger] chapters[k]).start_time == start_offset(
                        durations@,
                        k,
                    ) && chapters[k].title@ == chapter_title(
                        optional_texts(title_overrides),
                        texts(fallback_names@),
                        k,
                    ),
            decreases durations.len() - i,
        {
            proof {
                law_start_offset_step(durations@, i as int);
                lemma_total_bound(durations@.take(i + 1));
                assert((i + 1) * 0xffff_ffff_ffff_ffff <= 0xffff_ffff_ffff_ffff
                    * 0xffff_ffff_ffff_ffff) by (nonlinear_arith)
                    requires
                        i + 1 <= 0xffff_ffff_ffff_ffff,
                ;
            }
            let title = title_for(title_overrides, fallback_names, i);
            chapters.push(Chapter::new(title, cursor));
            cursor = cursor + durations[i] as u128;
            i = i + 1;
        }
        let doc = ChapterMetadataDocument { chapters, end_time: cursor };
        proof {
            assert(durations@.take(durations.len() as int) =~= durations@);
            assert forall|k: int| 0 <= k < doc.chapters.len() implies (
            #[trigger] doc.chapters[k]).start_time <= doc.end_of(k) by {
                law_start_offsets_ordered(durations@, k, k + 1);
            }
            doc.lemma_built_blocks(
                durations@,
                optional_texts(title_overrides),
                texts(fallback_names@),
                durations.len() as int,
            );
        }
        doc
    }

    /// A document whose chapters start and are titled as `build` says holds
    /// the blocks that `built_blocks` says.
    proof fn lemma_built_blocks(
        &self,
        durations: Seq<u64>,
        overrides: Option<Seq<Seq<char>>>,
        fallbacks: Seq<Seq<char>>,
        count: int,
    )
        requires
            0 <= count <= durations.len(),
            self.chapters.len() == durations.len(),
            self.end_time == total(durations),
            forall|i: int|
                0 <= i < durations.len() ==> (#[trigger] self.chapters[i]).start_time
                    == start_offset(durations, i) && self.chapters[i].title@ == chapter_title(
                    overrides,
                    fallbacks,
                    i,
                ),
        ensures
            self.blocks_text(count) == built_blocks(durations, overrides, fallbacks, count),
        decreases count,
    {
        if count > 0 {
            self.lemma_built_blocks(durations, overrides, fallbacks, count - 1);
            law_start_offset_step(durations, count - 1);
            assert(self.end_of(count - 1) == start_offset(durations, count));
        }
    }

    /// Writes the document out: the header line, then for each chapter its
    /// marker, the timebase, its start and its end in milliseconds, and its
    /// title.
    pub fn render(&self) -> (out: String)
        ensures
            out@ == self.text(),
    {
        let mut out = String::new();
        out.append(";FFMETADATA1\n");
        let n = self.chapters.len();
        let mut i: usize = 0;
        while i < n
            invariant
                n == self.chapters.len(),
                i <= n,
                out@ == header_text() + self.blocks_text(i as int),
            decreases n - i,
        {
            let ghost before = out@;
            let end = if i + 1 < n {
                self.chapters[i + 1].start_time
            } else {
                self.end_time
            };
            out.append("[CHAPTER]\nTIMEBASE=1/1000\nSTART=");
            push_decimal(&mut out, to_millis(self.chapters[i].start_time));
            out.append("\nEND=");
            push_decimal(&mut out, to_millis(end));
            out.append("\ntitle=");
            out.append(self.chapters[i].title.as_str());
            out.append("\n");
            assert(out@ =~= before + block_text(
                self.chapters[i as int].start_time as nat,
                self.end_of(i as int) as nat,
                self.chapters[i as int].title@,
            ));
            i = i + 1;
        }
        out
    }
}

} // verus!
