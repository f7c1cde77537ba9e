use yt_transcriber::render::{format_srt, format_txt, TranscriptResult};
use yt_transcriber::vtt::{parse_vtt, TranscriptSegment};

fn segment(index: usize, text: &str, start: u64, end: u64) -> TranscriptSegment {
    TranscriptSegment {
        index,
        text: text.to_string(),
        start_millis: start,
        end_millis: end,
        duration_millis: end as i64 - start as i64,
    }
}

fn result(segments: Vec<TranscriptSegment>) -> TranscriptResult {
    TranscriptResult::new(
        "dQw4w9WgXcQ".to_string(),
        "en".to_string(),
        segments,
        "2024-01-01T00:00:00+00:00".to_string(),
    )
}

#[test]
fn new_counts_the_segments() {
    let r = result(vec![segment(0, "a", 0, 1), segment(1, "b", 1, 2)]);
    assert_eq!(r.metadata.total_segments, 2);
    assert_eq!(r.metadata.extracted_at, "2024-01-01T00:00:00+00:00");
    assert_eq!(r.video_id, "dQw4w9WgXcQ");
    assert_eq!(r.language, "en");
    assert_eq!(r.segments.len(), 2);
    assert_eq!(result(vec![]).metadata.total_segments, 0);
}

#[test]
fn txt_with_timestamps() {
    let r = result(vec![segment(0, "Hello world", 1_000, 3_000), segment(1, "again", 125_000, 126_000)]);
    assert_eq!(format_txt(&r, true), "[00:01] Hello world\n[02:05] again");
}

#[test]
fn txt_without_timestamps() {
    let r = result(vec![segment(0, "Hello world", 1_000, 3_000), segment(1, "again", 125_000, 126_000)]);
    assert_eq!(format_txt(&r, false), "Hello world\nagain");
}

#[test]
fn txt_of_one_and_of_no_segment() {
    assert_eq!(format_txt(&result(vec![segment(0, "only", 61_500, 62_000)]), true), "[01:01] only");
    assert_eq!(format_txt(&result(vec![segment(0, "only", 61_500, 62_000)]), false), "only");
    assert_eq!(format_txt(&result(vec![]), true), "");
    assert_eq!(format_txt(&result(vec![]), false), "");
}

#[test]
fn srt_blocks() {
    let r = result(vec![
        segment(0, "Hello world", 1_000, 3_000),
        segment(1, "again", 3_723_456, 3_724_000),
    ]);
    assert_eq!(
        format_srt(&r),
        "1\n00:00:01,000 --> 00:00:03,000\nHello world\n\n2\n01:02:03,456 --> 01:02:04,000\nagain"
    );
}

#[test]
fn srt_numbers_by_position_not_by_index() {
    let r = result(vec![segment(7, "a", 0, 1_000), segment(7, "b", 1_000, 2_000), segment(0, "c", 2_000, 3_000)]);
    assert_eq!(
        format_srt(&r),
        "1\n00:00:00,000 --> 00:00:01,000\na\n\n2\n00:00:01,000 --> 00:00:02,000\nb\n\n3\n00:00:02,000 --> 00:00:03,000\nc"
    );
}

#[test]
fn srt_numbers_past_nine() {
    let segments: Vec<TranscriptSegment> =
        (0..12).map(|i| segment(i, "x", i as u64 * 1_000, i as u64 * 1_000 + 500)).collect();
    let out = format_srt(&result(segments));
    let blocks: Vec<&str> = out.split("\n\n").collect();
    assert_eq!(blocks.len(), 12);
    assert_eq!(blocks[9], "10\n00:00:09,000 --> 00:00:09,500\nx");
    assert_eq!(blocks[11], "12\n00:00:11,000 --> 00:00:11,500\nx");
}

#[test]
fn srt_of_no_segment() {
    assert_eq!(format_srt(&result(vec![])), "");
}

#[test]
fn renderers_keep_order_and_text() {
    let r = result(vec![segment(0, "later", 9_000, 10_000), segment(1, "line\nbreak", 1_000, 2_000)]);
    assert_eq!(format_txt(&r, true), "[00:09] later\n[00:01] line\nbreak");
    assert_eq!(
        format_srt(&r),
        "1\n00:00:09,000 --> 00:00:10,000\nlater\n\n2\n00:00:01,000 --> 00:00:02,000\nline\nbreak"
    );
}

#[test]
fn parse_then_render() {
    let segments = parse_vtt("WEBVTT\n\n00:00:01.000 --> 00:00:03.000\nHello <c>world</c>\n\n00:02:05.250 --> 00:02:06.000\nbye\n");
    let r = result(segments);
    assert_eq!(format_txt(&r, true), "[00:01] Hello world\n[02:05] bye");
    assert_eq!(format_txt(&r, false), "Hello world\nbye");
    assert_eq!(
        format_srt(&r),
        "1\n00:00:01,000 --> 00:00:03,000\nHello world\n\n2\n00:02:05,250 --> 00:02:06,000\nbye"
    );
}

#[test]
fn no_segment_gives_no_transcript() {
    let none = TranscriptResult::non_empty("id".to_string(), "en".to_string(), vec![], "now".to_string());
    assert_eq!(none, None);
    let some = TranscriptResult::non_empty(
        "id".to_string(),
        "en".to_string(),
        vec![segment(0, "a", 0, 1)],
        "now".to_string(),
    );
    assert_eq!(some, Some(TranscriptResult::new("id".to_string(), "en".to_string(), vec![segment(0, "a", 0, 1)], "now".to_string())));
}
