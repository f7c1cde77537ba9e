//! Decoding caption markup into timed segments.
//!
//! The markup is read line by line by a machine with two states: searching
//! for a time range, and collecting the text lines of the cue that a time
//! range opened. What a line is (a time range, blank, text, or nothing of
//! interest) is decided first; the machine then only sees that.

use crate::bindings::{
    captures, compile, groups_view, regex_captures, regex_compiles, regex_replace_all,
    replace_all, Pattern,
};
use crate::text::{
    chars_of, join, joined, lines, lines_of, rows, starts_with, string_of, trim, trimmed,
};
use crate::timestamp::{
    lemma_timestamp_bound, max_millis, parse_vtt_timestamp, timestamp_millis,
};
use vstd::prelude::*;

verus! {

/// Two timestamps, each `HH:MM:SS.mmm` or `MM:SS.mmm`, with an arrow between.
pub const TIME_RANGE_PATTERN: &'static str =
    r"(\d{1,2}:\d{2}:\d{2}\.\d{3}|\d{1,2}:\d{2}\.\d{3})\s*-->\s*(\d{1,2}:\d{2}:\d{2}\.\d{3}|\d{1,2}:\d{2}\.\d{3})";

/// An inline tag: an angle bracket pair with something between.
pub const TAG_PATTERN: &'static str = r"<[^>]+>";

/// One timed span of caption text.
#[derive(Debug, Clone, PartialEq, Eq)]
pub struct TranscriptSegment {
    /// Position in the transcript, counted from 0.
    pub index: usize,
    pub text: String,
    pub start_millis: u64,
    pub end_millis: u64,
    /// `end_millis - start_millis`; negative where the markup has them reversed.
    pub duration_millis: i64,
}

/// A [`TranscriptSegment`] as mathematical values.
pub struct SegmentView {
    pub index: nat,
    pub text: Seq<char>,
    pub start_millis: nat,
    pub end_millis: nat,
    pub duration_millis: int,
}

impl View for TranscriptSegment {
    type V = SegmentView;

    open spec fn view(&self) -> SegmentView {
        SegmentView {
            index: self.index as nat,
            text: self.text@,
            start_millis: self.start_millis as nat,
            end_millis: self.end_millis as nat,
            duration_millis: self.duration_millis as int,
        }
    }
}

impl SegmentView {
    /// A segment has some text, and its duration is the distance from start to end.
    pub open spec fn wf(self) -> bool {
        self.text.len() > 0 && self.duration_millis == self.end_millis - self.start_millis
    }
}

/// The views of a list of segments.
pub open spec fn segments_view(segments: Seq<TranscriptSegment>) -> Seq<SegmentView> {
    Seq::new(segments.len(), |i: int| segments[i]@)
}

/// What one line of markup is to the parser.
#[derive(Debug, Clone, PartialEq, Eq)]
pub enum Line {
    /// A time range, with its two timestamps as written.
    TimeRange { start: String, end: String },
    /// Nothing but whitespace.
    Blank,
    /// Caption text, tags removed.
    Text(String),
    /// A header line, or a line that was nothing but tags.
    Skipped,
}

/// A [`Line`] as mathematical values.
pub enum LineView {
    TimeRange { start: Seq<char>, end: Seq<char> },
    Blank,
    Text(Seq<char>),
    Skipped,
}

impl View for Line {
    type V = LineView;

    open spec fn view(&self) -> LineView {
        match self {
            Line::TimeRange { start, end } => LineView::TimeRange { start: start@, end: end@ },
            Line::Blank => LineView::Blank,
            Line::Text(t) => LineView::Text(t@),
            Line::Skipped => LineView::Skipped,
        }
    }
}

/// The two timestamps that a search for the time-range pattern captured:
/// groups 1 and 2 of a match with exactly these two groups.
pub open spec fn captured_range(found: Option<Seq<Option<Seq<char>>>>) -> Option<
    (Seq<char>, Seq<char>),
> {
    match found {
        Some(g) => if g.len() == 3 && g[1] is Some && g[2] is Some {
            Some((g[1]->0, g[2]->0))
        } else {
            None
        },
        None => None,
    }
}

/// The two timestamps of a time-range line, `None` for any other line: what
/// the first match of the time-range pattern in the line captured.
pub open spec fn time_range(line: Seq<char>) -> Option<(Seq<char>, Seq<char>)> {
    if regex_compiles(TIME_RANGE_PATTERN@) {
        captured_range(regex_captures(TIME_RANGE_PATTERN@, line))
    } else {
        None
    }
}

/// The line without its inline tags: every match of the tag pattern replaced
/// by nothing.
pub open spec fn without_tags(line: Seq<char>) -> Seq<char> {
    if regex_compiles(TAG_PATTERN@) {
        regex_replace_all(TAG_PATTERN@, line, ""@)
    } else {
        line
    }
}

/// A line that begins with the file-type, stream-kind or language marker.
pub open spec fn is_header(line: Seq<char>) -> bool {
    "WEBVTT"@.is_prefix_of(line) || "Kind:"@.is_prefix_of(line) || "Language:"@.is_prefix_of(line)
}

/// What a line of markup is, judged on the line without its surrounding
/// whitespace: a time range first of all, then blank, then a header, and
/// text only where something is left once the tags are gone.
pub open spec fn line_kind(line: Seq<char>) -> LineView {
    let t = trimmed(line);
    match time_range(t) {
        Some((start, end)) => LineView::TimeRange { start, end },
        None => if t.len() == 0 {
            LineView::Blank
        } else if is_header(t) {
            LineView::Skipped
        } else if without_tags(t).len() == 0 {
            LineView::Skipped
        } else {
            LineView::Text(without_tags(t))
        },
    }
}

/// The cue that is being collected.
pub struct CueView {
    pub start_millis: nat,
    pub end_millis: nat,
    pub texts: Seq<Seq<char>>,
}

/// The parser's state: the segments emitted so far, and the open cue while
/// collecting.
pub struct ParserView {
    pub done: Seq<SegmentView>,
    pub open: Option<CueView>,
}

/// The state before any line.
pub open spec fn initial() -> ParserView {
    ParserView { done: Seq::empty(), open: None }
}

/// The segments once the open cue, if any, is closed: its texts are joined
/// with single spaces, and where the result is more than whitespace it
/// becomes the next segment, numbered by its position.
pub open spec fn closed(state: ParserView) -> Seq<SegmentView> {
    match state.open {
        None => state.done,
        Some(cue) => {
            let text = joined(cue.texts, " "@);
            if trimmed(text).len() > 0 {
                state.done.push(
                    SegmentView {
                        index: state.done.len(),
                        text,
                        start_millis: cue.start_millis,
                        end_millis: cue.end_millis,
                        duration_millis: cue.end_millis - cue.start_millis,
                    },
                )
            } else {
                state.done
            }
        },
    }
}

/// The state after one more line.
pub open spec fn fed(state: ParserView, line: LineView) -> ParserView {
    match line {
        LineView::TimeRange { start, end } => ParserView {
            done: closed(state),
            open: Some(
                CueView {
                    start_millis: timestamp_millis(start),
                    end_millis: timestamp_millis(end),
                    texts: Seq::empty(),
                },
            ),
        },
        LineView::Blank => ParserView { done: closed(state), open: None },
        LineView::Text(t) => match state.open {
            None => state,
            Some(cue) => ParserView {
                done: state.done,
                open: Some(
                    CueView {
                        start_millis: cue.start_millis,
                        end_millis: cue.end_millis,
                        texts: cue.texts.push(t),
                    },
                ),
            },
        },
        LineView::Skipped => state,
    }
}

/// The state after the given lines, fed in order.
pub open spec fn fed_all(lines: Seq<LineView>) -> ParserView
    decreases lines.len(),
{
    if lines.len() == 0 {
        initial()
    } else {
        fed(fed_all(lines.drop_last()), lines.last())
    }
}

/// What each line of the markup is.
pub open spec fn line_kinds(lines: Seq<Seq<char>>) -> Seq<LineView> {
    Seq::new(lines.len(), |i: int| line_kind(lines[i]))
}

/// The segments that the given lines hold.
pub open spec fn segments_of_lines(lines: Seq<Seq<char>>) -> Seq<SegmentView> {
    closed(fed_all(line_kinds(lines)))
}

/// The segments that the markup holds.
pub open spec fn parsed(content: Seq<char>) -> Seq<SegmentView> {
    segments_of_lines(lines_of(content))
}

/// Every segment is well formed and carries its own position as its index.
pub open spec fn numbered(segments: Seq<SegmentView>) -> bool {
    forall|k: int|
        0 <= k < segments.len() ==> (#[trigger] segments[k]).index == k && segments[k].wf()
}

/// Closing the open cue keeps the segments numbered by position.
pub proof fn lemma_closed_numbered(state: ParserView)
    requires
        numbered(state.done),
    ensures
        numbered(closed(state)),
{
    match state.open {
        Some(cue) => {
            let text = joined(cue.texts, " "@);
            if text.len() == 0 {
                assert(trimmed(text).len() == 0);
            }
        },
        None => {},
    }
}

/// Whatever the lines are, the segments emitted so far are numbered by position.
pub proof fn lemma_fed_all_numbered(lines: Seq<LineView>)
    ensures
        numbered(fed_all(lines).done),
    decreases lines.len(),
{
    if lines.len() > 0 {
        lemma_fed_all_numbered(lines.drop_last());
        lemma_closed_numbered(fed_all(lines.drop_last()));
    }
}

/// The segments of any markup are numbered 0, 1, 2, ... in order, each has
/// text, and each duration is the distance from start to end.
pub proof fn lemma_parsed_numbered(content: Seq<char>)
    ensures
        numbered(parsed(content)),
{
    let kinds = line_kinds(lines_of(content));
    lemma_fed_all_numbered(kinds);
    lemma_closed_numbered(fed_all(kinds));
}

/// Segments are only ever added at the end: what was emitted stays, in
/// the order in which it was found.
pub proof fn lemma_fed_keeps_segments(state: ParserView, line: LineView)
    ensures
        state.done.is_prefix_of(closed(state)),
        state.done.is_prefix_of(fed(state, line).done),
{
}

/// A time-range line followed by one line of text gives exactly one segment:
/// numbered 0, with that text, the decoded times, and their distance.
pub proof fn lemma_single_cue(range_line: Seq<char>, text_line: Seq<char>)
    requires
        time_range(trimmed(range_line)) is Some,
        line_kind(text_line) is Text,
        trimmed(line_kind(text_line)->Text_0).len() > 0,
    ensures
        ({
            let range = time_range(trimmed(range_line)).unwrap();
            let start = timestamp_millis(range.0);
            let end = timestamp_millis(range.1);
            segments_of_lines(seq![range_line, text_line]) == seq![
                SegmentView {
                    index: 0,
                    text: line_kind(text_line)->Text_0,
                    start_millis: start,
                    end_millis: end,
                    duration_millis: end - start,
                },
            ]
        }),
{
    let lines = seq![range_line, text_line];
    let kinds = line_kinds(lines);
    let text = line_kind(text_line)->Text_0;
    assert(kinds.drop_last() == seq![line_kind(range_line)]);
    assert(kinds.drop_last().drop_last() == Seq::<LineView>::empty());
    assert(kinds.last() == line_kind(text_line));
    assert(kinds.drop_last().last() == line_kind(range_line));
    let after_range = fed(initial(), line_kind(range_line));
    assert(fed_all(kinds.drop_last().drop_last()) == initial());
    assert(fed_all(kinds.drop_last()) == after_range);
    let after_text = fed(after_range, line_kind(text_line));
    assert(fed_all(kinds) == after_text);
    assert(after_text.open->0.texts == seq![text]);
    assert(joined(seq![text], " "@) == text);
}

/// A header line that is no time range is skipped, and a skipped line leaves
/// the parser as it was: nothing of it reaches any segment.
pub proof fn lemma_header_line_is_skipped(state: ParserView, line: Seq<char>)
    requires
        is_header(trimmed(line)),
        time_range(trimmed(line)) is None,
    ensures
        line_kind(line) == LineView::Skipped,
        fed(state, line_kind(line)) == state,
{
    reveal_strlit("WEBVTT");
    reveal_strlit("Kind:");
    reveal_strlit("Language:");
}

/// Taking a skipped line out changes no state that follows.
pub proof fn lemma_skipped_line_changes_nothing(kinds: Seq<LineView>, i: int)
    requires
        0 <= i < kinds.len(),
        kinds[i] == LineView::Skipped,
    ensures
        fed_all(kinds.remove(i)) == fed_all(kinds),
    decreases kinds.len(),
{
    if i == kinds.len() - 1 {
        assert(kinds.remove(i) == kinds.drop_last());
    } else {
        lemma_skipped_line_changes_nothing(kinds.drop_last(), i);
        assert(kinds.remove(i).drop_last() == kinds.drop_last().remove(i));
        assert(kinds.remove(i).last() == kinds.last());
    }
}

/// Header lines never reach a segment: markup with a header line that is no
/// time range taken out holds exactly the same segments.
pub proof fn lemma_header_lines_are_ignored(lines: Seq<Seq<char>>, i: int)
    requires
        0 <= i < lines.len(),
        is_header(trimmed(lines[i])),
        time_range(trimmed(lines[i])) is None,
    ensures
        segments_of_lines(lines.remove(i)) == segments_of_lines(lines),
{
    lemma_header_line_is_skipped(initial(), lines[i]);
    assert(line_kinds(lines.remove(i)) == line_kinds(lines).remove(i));
    lemma_skipped_line_changes_nothing(line_kinds(lines), i);
}

/// Without a time-range line the parser never leaves its first state.
pub proof fn lemma_no_time_range_no_progress(kinds: Seq<LineView>)
    requires
        forall|i: int| 0 <= i < kinds.len() ==> !((#[trigger] kinds[i]) is TimeRange),
    ensures
        fed_all(kinds) == initial(),
    decreases kinds.len(),
{
    if kinds.len() > 0 {
        lemma_no_time_range_no_progress(kinds.drop_last());
    }
}

/// Markup without any time-range line holds no segment.
pub proof fn lemma_no_time_range_no_segment(lines: Seq<Seq<char>>)
    requires
        forall|i: int| 0 <= i < lines.len() ==> time_range(trimmed(#[trigger] lines[i])) is None,
    ensures
        segments_of_lines(lines) == Seq::<SegmentView>::empty(),
{
    let kinds = line_kinds(lines);
    assert forall|i: int| 0 <= i < kinds.len() implies !((#[trigger] kinds[i]) is TimeRange) by {
        assert(time_range(trimmed(lines[i])) is None);
    }
    lemma_no_time_range_no_progress(kinds);
}

/// The cue that is being collected.
struct Cue {
    start_millis: u64,
    end_millis: u64,
    texts: Vec<Vec<char>>,
}

/// The line-by-line parser: feed it the lines in order, then finish.
pub struct Parser {
    done: Vec<TranscriptSegment>,
    open: Option<Cue>,
}

impl View for Parser {
    type V = ParserView;

    closed spec fn view(&self) -> ParserView {
        ParserView {
            done: segments_view(self.done@),
            open: match self.open {
                Some(cue) => Some(
                    CueView {
                        start_millis: cue.start_millis as nat,
                        end_millis: cue.end_millis as nat,
                        texts: rows(cue.texts@),
                    },
                ),
                None => None,
            },
        }
    }
}

/// The view of what a search for captures returned.
pub open spec fn found_view(found: Option<Vec<Option<String>>>) -> Option<Seq<Option<Seq<char>>>> {
    match found {
        Some(groups) => Some(groups_view(groups@)),
        None => None,
    }
}

/// The timestamps that a search for the time-range pattern captured, given
/// what the search returned.
pub fn range_from_captures(found: Option<Vec<Option<String>>>) -> (r: Option<(String, String)>)
    ensures
        match r {
            Some((start, end)) => captured_range(found_view(found)) == Some((start@, end@)),
            None => captured_range(found_view(found)) is None,
        },
{
    match found {
        Some(groups) => {
            if groups.len() != 3 {
                return None;
            }
            match (&groups[1], &groups[2]) {
                (Some(start), Some(end)) => Some((start.clone(), end.clone())),
                _ => None,
            }
        },
        None => None,
    }
}

/// Whether a line begins with the file-type, stream-kind or language marker.
pub fn has_header_prefix(line: &Vec<char>) -> (r: bool)
    ensures
        r == is_header(line@),
{
    starts_with(line, "WEBVTT") || starts_with(line, "Kind:") || starts_with(line, "Language:")
}

/// Decides what each line of markup is. It holds the two patterns compiled,
/// so that reading many lines compiles them once.
pub struct LineReader {
    time_range: Option<Pattern>,
    tag: Option<Pattern>,
}

impl LineReader {
    /// The reader holds the time-range pattern and the tag pattern, each
    /// compiled where it compiles.
    pub closed spec fn wf(&self) -> bool {
        &&& (self.time_range is Some) == regex_compiles(TIME_RANGE_PATTERN@)
        &&& (self.time_range is Some) ==> self.time_range->0@ == TIME_RANGE_PATTERN@
        &&& (self.tag is Some) == regex_compiles(TAG_PATTERN@)
        &&& (self.tag is Some) ==> self.tag->0@ == TAG_PATTERN@
    }

    /// A reader with both patterns compiled.
    pub fn new() -> (reader: LineReader)
        ensures
            reader.wf(),
    {
        LineReader { time_range: compile(TIME_RANGE_PATTERN), tag: compile(TAG_PATTERN) }
    }

    /// The two timestamps of a time-range line, as written.
    pub fn find_time_range(&self, line: &str) -> (r: Option<(String, String)>)
        requires
            self.wf(),
        ensures
            match r {
                Some((start, end)) => time_range(line@) == Some((start@, end@)),
                None => time_range(line@) is None,
            },
    {
        match &self.time_range {
            Some(pattern) => range_from_captures(captures(pattern, line)),
            None => None,
        }
    }

    /// Removes the inline tags of a line.
    pub fn strip_tags(&self, line: &str) -> (out: String)
        requires
            self.wf(),
        ensures
            out@ == without_tags(line@),
    {
        match &self.tag {
            Some(pattern) => replace_all(pattern, line, ""),
            None => line.to_owned(),
        }
    }

    /// Decides what a line of markup is.
    pub fn read(&self, line: &str) -> (r: Line)
        requires
            self.wf(),
        ensures
            r@ == line_kind(line@),
    {
        let t = trim(&chars_of(line));
        let text = string_of(&t);
        match self.find_time_range(text.as_str()) {
            Some((start, end)) => Line::TimeRange { start, end },
            None => {
                if t.len() == 0 {
                    Line::Blank
                } else if has_header_prefix(&t) {
                    Line::Skipped
                } else {
                    let clean = self.strip_tags(text.as_str());
                    if clean.as_str().unicode_len() == 0 {
                        Line::Skipped
                    } else {
                        Line::Text(clean)
                    }
                }
            },
        }
    }
}

impl Parser {
    /// What every parser state satisfies: the segments emitted so far are
    /// numbered by position and well formed, and all times are in range.
    pub closed spec fn wf(&self) -> bool {
        &&& forall|k: int|
            0 <= k < self.done@.len() ==> {
                &&& (#[trigger] self.done@[k]).index == k
                &&& self.done@[k]@.wf()
            }
        &&& match self.open {
            Some(cue) => cue.start_millis <= max_millis() && cue.end_millis <= max_millis(),
            None => true,
        }
    }

    /// A parser that has seen no line yet.
    pub fn new() -> (parser: Parser)
        ensures
            parser.wf(),
            parser@ == initial(),
    {
        let parser = Parser { done: Vec::new(), open: None };
        assert(segments_view(parser.done@) == Seq::<SegmentView>::empty());
        parser
    }

    /// Closes the open cue, if there is one.
    fn close(&mut self)
        requires
            old(self).wf(),
        ensures
            final(self).wf(),
            final(self)@.done == closed(old(self)@),
            final(self)@.open is None,
    {
        let open = self.open.take();
        match open {
            Some(cue) => {
                let text = join(&cue.texts, " ");
                if trim(&text).len() > 0 {
                    let ghost before = segments_view(self.done@);
                    let segment = TranscriptSegment {
                        index: self.done.len(),
                        text: string_of(&text),
                        start_millis: cue.start_millis,
                        end_millis: cue.end_millis,
                        duration_millis: cue.end_millis as i64 - cue.start_millis as i64,
                    };
                    proof {
                        if text@.len() == 0 {
                            assert(trimmed(text@).len() == 0);
                        }
                    }
                    self.done.push(segment);
                    assert(segments_view(self.done@) == before.push(segment@));
                }
            },
            None => {},
        }
    }

    /// Takes in the next line.
    ///
    /// A time range closes the open cue and opens a new one with the decoded
    /// times. A blank line closes the open cue. Text is added to the open cue,
    /// and is dropped where no cue is open. A skipped line changes nothing.
    pub fn feed(&mut self, line: Line)
        requires
            old(self).wf(),
        ensures
            final(self).wf(),
            final(self)@ == fed(old(self)@, line@),
    {
        match line {
            Line::TimeRange { start, end } => {
                self.close();
                proof {
                    lemma_timestamp_bound(start@);
                    lemma_timestamp_bound(end@);
                }
                self.open = Some(
                    Cue {
                        start_millis: parse_vtt_timestamp(start.as_str()),
                        end_millis: parse_vtt_timestamp(end.as_str()),
                        texts: Vec::new(),
                    },
                );
                assert(rows(self.open->0.texts@) == Seq::<Seq<char>>::empty());
            },
            Line::Blank => {
                self.close();
            },
            Line::Text(t) => {
                match self.open.take() {
                    Some(cue) => {
                        let mut cue = cue;
                        let ghost before = rows(cue.texts@);
                        cue.texts.push(chars_of(t.as_str()));
                        assert(rows(cue.texts@) == before.push(t@));
                        self.open = Some(cue);
                    },
                    None => {},
                }
            },
            Line::Skipped => {},
        }
    }

    /// Closes the open cue and hands out the segments.
    pub fn finish(self) -> (segments: Vec<TranscriptSegment>)
        requires
            self.wf(),
        ensures
            segments_view(segments@) == closed(self@),
            numbered(segments_view(segments@)),
    {
        let mut parser = self;
        parser.close();
        parser.done
    }
}

/// Decodes caption markup into its timed segments, in the order they appear.
///
/// A time-range line opens a cue. The lines after it, up to a blank line, the
/// next time-range line or the end of the markup, are its text: header lines
/// among them are dropped, inline tags are removed, and what is left is
/// joined with single spaces. A cue whose text is more than whitespace
/// becomes a segment; segments are numbered from 0 without gaps.
pub fn parse_vtt(content: &str) -> (segments: Vec<TranscriptSegment>)
    ensures
        segments_view(segments@) == parsed(content@),
        numbered(segments_view(segments@)),
{
    let all = lines(&chars_of(content));
    let reader = LineReader::new();
    let mut parser = Parser::new();
    let mut i: usize = 0;
    let ghost kinds = line_kinds(lines_of(content@));
    assert(kinds.take(0) == Seq::<LineView>::empty());
    while i < all.len()
        invariant
            i <= all.len(),
            rows(all@) == lines_of(content@),
            kinds == line_kinds(lines_of(content@)),
            reader.wf(),
            parser.wf(),
            parser@ == fed_all(kinds.take(i as int)),
        decreases all.len() - i,
    {
        let text = string_of(&all[i]);
        let line = reader.read(text.as_str());
        assert(kinds.take(i + 1).drop_last() == kinds.take(i as int));
        assert(kinds.take(i + 1).last() == line@);
        parser.feed(line);
        i += 1;
    }
    assert(kinds.take(all.len() as int) == kinds);
    parser.finish()
}

} // verus!
