//! Rendering a transcript as plain text and in the subtitle-exchange format.

use crate::text::{append_chars, chars_of, join, joined, rows, string_of};
use crate::timestamp::{
    bracket_chars, bracket_text, decimal, decimal_digits, is_bracket_stamp, lemma_bracket_shape,
    srt_chars, srt_text,
};
use crate::vtt::{segments_view, SegmentView, TranscriptSegment};
use vstd::prelude::*;

verus! {

/// What is known about a transcript besides its segments.
#[derive(Debug, Clone, PartialEq, Eq)]
pub struct Metadata {
    pub total_segments: usize,
    /// When the transcript was captured, as text.
    pub extracted_at: String,
}

/// A parsed transcript with where it came from.
#[derive(Debug, Clone, PartialEq, Eq)]
pub struct TranscriptResult {
    pub video_id: String,
    pub language: String,
    pub segments: Vec<TranscriptSegment>,
    pub metadata: Metadata,
}

impl TranscriptResult {
    /// The metadata counts exactly the segments that are there.
    pub open spec fn wf(&self) -> bool {
        self.metadata.total_segments == self.segments@.len()
    }

    /// Puts a transcript together; the metadata counts the segments.
    pub fn new(
        video_id: String,
        language: String,
        segments: Vec<TranscriptSegment>,
        extracted_at: String,
    ) -> (result: TranscriptResult)
        ensures
            result.wf(),
            result.video_id == video_id,
            result.language == language,
            result.segments == segments,
            result.metadata.extracted_at == extracted_at,
    {
        let total_segments = segments.len();
        TranscriptResult {
            video_id,
            language,
            segments,
            metadata: Metadata { total_segments, extracted_at },
        }
    }

    /// Puts a transcript together where there is anything to put together:
    /// markup that held no segment gives no transcript.
    pub fn non_empty(
        video_id: String,
        language: String,
        segments: Vec<TranscriptSegment>,
        extracted_at: String,
    ) -> (result: Option<TranscriptResult>)
        ensures
            result is None <==> segments@.len() == 0,
            match result {
                Some(r) => {
                    &&& r.wf()
                    &&& r.video_id == video_id
                    &&& r.language == language
                    &&& r.segments == segments
                    &&& r.metadata.extracted_at == extracted_at
                },
                None => true,
            },
    {
        if segments.len() == 0 {
            None
        } else {
            Some(TranscriptResult::new(video_id, language, segments, extracted_at))
        }
    }
}

/// One line of plain text: the segment's text, after its bracketed start
/// time and a space where timestamps are wanted.
pub open spec fn txt_line(segment: SegmentView, include_timestamps: bool) -> Seq<char> {
    if include_timestamps {
        bracket_text(segment.start_millis) + " "@ + segment.text
    } else {
        segment.text
    }
}

/// The plain-text lines, one per segment, in order.
pub open spec fn txt_lines(segments: Seq<SegmentView>, include_timestamps: bool) -> Seq<Seq<char>> {
    Seq::new(segments.len(), |i: int| txt_line(segments[i], include_timestamps))
}

/// The plain-text rendering: the lines with a line feed between each two.
pub open spec fn txt(segments: Seq<SegmentView>, include_timestamps: bool) -> Seq<char> {
    joined(txt_lines(segments, include_timestamps), "\n"@)
}

/// The subtitle block of the segment at `position`, counted from 0: its
/// number, which is `position + 1`, then the time range, then the text.
pub open spec fn srt_block(position: nat, segment: SegmentView) -> Seq<char> {
    decimal(position + 1) + "\n"@ + srt_text(segment.start_millis) + " --> "@ + srt_text(
        segment.end_millis,
    ) + "\n"@ + segment.text
}

/// The subtitle blocks, one per segment, in order.
pub open spec fn srt_blocks(segments: Seq<SegmentView>) -> Seq<Seq<char>> {
    Seq::new(segments.len(), |i: int| srt_block(i as nat, segments[i]))
}

/// The subtitle-exchange rendering: the blocks with an empty line between
/// each two.
pub open spec fn srt(segments: Seq<SegmentView>) -> Seq<char> {
    joined(srt_blocks(segments), "\n\n"@)
}

/// Without timestamps a line is the segment's text and nothing else; with
/// them it is a well-formed `[MM:SS]` stamp of the segment's start time, a
/// space, and the text.
pub proof fn lemma_txt_line_shape(segments: Seq<SegmentView>, k: int)
    requires
        0 <= k < segments.len(),
    ensures
        txt_lines(segments, false).len() == segments.len(),
        txt_lines(segments, true).len() == segments.len(),
        txt_lines(segments, false)[k] == segments[k].text,
        txt_lines(segments, true)[k] == bracket_text(segments[k].start_millis) + " "@
            + segments[k].text,
        bracket_text(segments[k].start_millis).is_prefix_of(txt_lines(segments, true)[k]),
        is_bracket_stamp(bracket_text(segments[k].start_millis)),
{
    lemma_bracket_shape(segments[k].start_millis);
}

/// Subtitle blocks are numbered 1, 2, 3, ... by position: the block at
/// position `k` begins with the number `k + 1` on a line of its own.
pub proof fn lemma_srt_block_number(segments: Seq<SegmentView>, k: int)
    requires
        0 <= k < segments.len(),
    ensures
        srt_blocks(segments).len() == segments.len(),
        (decimal((k + 1) as nat) + "\n"@).is_prefix_of(srt_blocks(segments)[k]),
{
}

/// The subtitle rendering does not read the segments' own index: two
/// transcripts that agree on texts and times render alike.
pub proof fn lemma_srt_ignores_index(a: Seq<SegmentView>, b: Seq<SegmentView>)
    requires
        a.len() == b.len(),
        forall|k: int|
            0 <= k < a.len() ==> {
                &&& (#[trigger] a[k]).text == b[k].text
                &&& a[k].start_millis == b[k].start_millis
                &&& a[k].end_millis == b[k].end_millis
            },
    ensures
        srt(a) == srt(b),
{
    assert(srt_blocks(a) =~= srt_blocks(b));
}

/// Renders a transcript as plain text, one line per segment.
///
/// With `include_timestamps` each line begins with the segment's start time
/// as `[MM:SS]` and a space; without, a line is the segment's text alone.
/// Lines are separated by a line feed, with none after the last.
pub fn format_txt(result: &TranscriptResult, include_timestamps: bool) -> (out: String)
    ensures
        out@ == txt(segments_view(result.segments@), include_timestamps),
{
    let mut rendered: Vec<Vec<char>> = Vec::new();
    let ghost want = txt_lines(segments_view(result.segments@), include_timestamps);
    let mut i: usize = 0;
    while i < result.segments.len()
        invariant
            i <= result.segments.len(),
            want == txt_lines(segments_view(result.segments@), include_timestamps),
            rows(rendered@) == want.take(i as int),
        decreases result.segments.len() - i,
    {
        let segment = &result.segments[i];
        let mut line: Vec<char> = Vec::new();
        if include_timestamps {
            line = bracket_chars(segment.start_millis);
            append_chars(&mut line, &chars_of(" "));
        }
        append_chars(&mut line, &chars_of(segment.text.as_str()));
        assert(line@ == want[i as int]);
        let ghost before = rows(rendered@);
        rendered.push(line);
        assert(rows(rendered@) == before.push(want[i as int]));
        assert(want.take(i + 1) == want.take(i as int).push(want[i as int]));
        i += 1;
    }
    assert(want.take(result.segments.len() as int) == want);
    string_of(&join(&rendered, "\n"))
}

/// Renders a transcript in the subtitle-exchange format.
///
/// Each segment gives a block of three lines: its number, the time range as
/// `HH:MM:SS,mmm --> HH:MM:SS,mmm`, and its text. Blocks are numbered from 1
/// by position, whatever index the segments carry, and are separated by an
/// empty line, with none after the last.
pub fn format_srt(result: &TranscriptResult) -> (out: String)
    ensures
        out@ == srt(segments_view(result.segments@)),
{
    let mut rendered: Vec<Vec<char>> = Vec::new();
    let ghost want = srt_blocks(segments_view(result.segments@));
    let mut i: usize = 0;
    while i < result.segments.len()
        invariant
            i <= result.segments.len(),
            want == srt_blocks(segments_view(result.segments@)),
            rows(rendered@) == want.take(i as int),
        decreases result.segments.len() - i,
    {
        let segment = &result.segments[i];
        let mut block = decimal_digits(i as u64 + 1);
        append_chars(&mut block, &chars_of("\n"));
        append_chars(&mut block, &srt_chars(segment.start_millis));
        append_chars(&mut block, &chars_of(" --> "));
        append_chars(&mut block, &srt_chars(segment.end_millis));
        append_chars(&mut block, &chars_of("\n"));
        append_chars(&mut block, &chars_of(segment.text.as_str()));
        assert(block@ == want[i as int]);
        let ghost before = rows(rendered@);
        rendered.push(block);
        assert(rows(rendered@) == before.push(want[i as int]));
        assert(want.take(i + 1) == want.take(i as int).push(want[i as int]));
        i += 1;
    }
    assert(want.take(result.segments.len() as int) == want);
    string_of(&join(&rendered, "\n\n"))
}

} // verus!
