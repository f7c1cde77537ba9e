use yt_transcriber::vtt::{
    has_header_prefix, parse_vtt, range_from_captures, Line, LineReader, Parser,
    TranscriptSegment,
};

fn segment(index: usize, text: &str, start: u64, end: u64) -> TranscriptSegment {
    TranscriptSegment {
        index,
        text: text.to_string(),
        start_millis: start,
        end_millis: end,
        duration_millis: end as i64 - start as i64,
    }
}

fn range(start: &str, end: &str) -> Line {
    Line::TimeRange { start: start.to_string(), end: end.to_string() }
}

fn text(t: &str) -> Line {
    Line::Text(t.to_string())
}

fn read_line(line: &str) -> Line {
    LineReader::new().read(line)
}

fn strip_tags(line: &str) -> String {
    LineReader::new().strip_tags(line)
}

fn run(lines: Vec<Line>) -> Vec<TranscriptSegment> {
    let mut parser = Parser::new();
    for line in lines {
        parser.feed(line);
    }
    parser.finish()
}

#[test]
fn one_cue_with_tags() {
    let got = parse_vtt("00:00:01.000 --> 00:00:03.000\nHello <c>world</c>");
    assert_eq!(got, vec![segment(0, "Hello world", 1_000, 3_000)]);
    assert_eq!(got[0].duration_millis, 2_000);
}

#[test]
fn full_file() {
    let markup = "WEBVTT\nKind: captions\nLanguage: en\n\n\
        00:00:01.000 --> 00:00:03.000 align:start position:0%\n\
        Hello <00:00:01.500><c>world</c>\n\n\
        00:00:03.000 --> 00:00:05.500\n\
        second line\nof the cue\n\n\
        01:02:03.456 --> 01:02:04.000\nlast\n";
    assert_eq!(
        parse_vtt(markup),
        vec![
            segment(0, "Hello world", 1_000, 3_000),
            segment(1, "second line of the cue", 3_000, 5_500),
            segment(2, "last", 3_723_456, 3_724_000),
        ]
    );
}

#[test]
fn no_time_range_gives_no_segment() {
    assert_eq!(parse_vtt(""), vec![]);
    assert_eq!(parse_vtt("WEBVTT\nKind: captions\n\njust text\nmore text\n"), vec![]);
    assert_eq!(parse_vtt("00:00:01.000 -> 00:00:03.000\ntext"), vec![]);
    assert_eq!(parse_vtt("00:00:01 --> 00:00:03\ntext"), vec![]);
}

#[test]
fn header_lines_inside_a_block_are_dropped() {
    let markup = "00:01.000 --> 00:02.000\nWEBVTT\nfirst\nKind: captions\nLanguage: en\nsecond\n";
    assert_eq!(parse_vtt(markup), vec![segment(0, "first second", 1_000, 2_000)]);
    let only_headers = "00:01.000 --> 00:02.000\nWEBVTT\nKind: captions\n";
    assert_eq!(parse_vtt(only_headers), vec![]);
}

#[test]
fn a_time_range_ends_the_block_before_it() {
    let markup = "00:01.000 --> 00:02.000\none\n00:02.000 --> 00:03.000\ntwo";
    assert_eq!(
        parse_vtt(markup),
        vec![segment(0, "one", 1_000, 2_000), segment(1, "two", 2_000, 3_000)]
    );
}

#[test]
fn a_blank_line_ends_the_block() {
    let markup = "00:01.000 --> 00:02.000\none\n   \nstray\n\n00:02.000 --> 00:03.000\ntwo";
    assert_eq!(
        parse_vtt(markup),
        vec![segment(0, "one", 1_000, 2_000), segment(1, "two", 2_000, 3_000)]
    );
}

#[test]
fn cues_without_text_leave_no_gap_in_the_numbering() {
    let markup = "00:01.000 --> 00:02.000\n\n00:02.000 --> 00:03.000\n<c></c>\n\
        00:03.000 --> 00:04.000\n<b> </b>\n00:04.000 --> 00:05.000\nkept\n\
        00:05.000 --> 00:06.000\n\n00:06.000 --> 00:07.000\nalso kept";
    assert_eq!(
        parse_vtt(markup),
        vec![segment(0, "kept", 4_000, 5_000), segment(1, "also kept", 6_000, 7_000)]
    );
}

#[test]
fn lines_are_trimmed_and_carriage_returns_go() {
    let markup = "  00:01.000 --> 00:02.000  \r\n   padded text \r\n\r\n00:03.000-->00:04.000\r\nnext\r";
    assert_eq!(
        parse_vtt(markup),
        vec![segment(0, "padded text", 1_000, 2_000), segment(1, "next", 3_000, 4_000)]
    );
}

#[test]
fn reversed_range_gives_negative_duration() {
    let got = parse_vtt("00:05.000 --> 00:02.000\nbackwards");
    assert_eq!(got.len(), 1);
    assert_eq!(got[0].start_millis, 5_000);
    assert_eq!(got[0].end_millis, 2_000);
    assert_eq!(got[0].duration_millis, -3_000);
    let same = parse_vtt("00:05.000 --> 00:05.000\ninstant");
    assert_eq!(same[0].duration_millis, 0);
}

#[test]
fn segments_keep_markup_order() {
    let markup = "00:09.000 --> 00:10.000\nlater\n\n00:01.000 --> 00:02.000\nearlier";
    assert_eq!(
        parse_vtt(markup),
        vec![segment(0, "later", 9_000, 10_000), segment(1, "earlier", 1_000, 2_000)]
    );
}

#[test]
fn digits_that_are_not_ascii_decode_to_zero() {
    let got = parse_vtt("\u{660}\u{660}:\u{660}\u{661}.\u{660}\u{660}\u{660} --> 00:02.000\ntext");
    assert_eq!(got, vec![segment(0, "text", 0, 2_000)]);
}

#[test]
fn read_line_time_range() {
    assert_eq!(read_line("00:00:01.000 --> 00:00:03.000"), range("00:00:01.000", "00:00:03.000"));
    assert_eq!(read_line("  1:02.345-->6:07.890 line:0"), range("1:02.345", "6:07.890"));
    assert_eq!(read_line("x 12:00:01.000 \t -->\t00:02.000"), range("12:00:01.000", "00:02.000"));
    assert_eq!(read_line("Kind: 00:01.000 --> 00:02.000"), range("00:01.000", "00:02.000"));
}

#[test]
fn read_line_blank_header_text() {
    assert_eq!(read_line(""), Line::Blank);
    assert_eq!(read_line(" \t\r"), Line::Blank);
    assert_eq!(read_line("WEBVTT"), Line::Skipped);
    assert_eq!(read_line("  WEBVTT - made by hand"), Line::Skipped);
    assert_eq!(read_line("Kind: captions"), Line::Skipped);
    assert_eq!(read_line("Language: en"), Line::Skipped);
    assert_eq!(read_line("<c></c>"), Line::Skipped);
    assert_eq!(read_line("  Hello <c>world</c> "), text("Hello world"));
    assert_eq!(read_line("kind: lower case is text"), text("kind: lower case is text"));
    assert_eq!(read_line("00:00:01.000 -> 00:00:03.000"), text("00:00:01.000 -> 00:00:03.000"));
}

#[test]
fn strip_tags_removes_every_tag() {
    assert_eq!(strip_tags("Hello <c>world</c>"), "Hello world");
    assert_eq!(strip_tags("<v Speaker>hi<00:00:01.500> there</v>"), "hi there");
    assert_eq!(strip_tags("no tags"), "no tags");
    assert_eq!(strip_tags("a <> b"), "a <> b");
    assert_eq!(strip_tags("a < b"), "a < b");
    assert_eq!(strip_tags("1 <<2> 3"), "1  3");
    assert_eq!(strip_tags(""), "");
}

#[test]
fn header_prefixes() {
    let chars = |s: &str| s.chars().collect::<Vec<char>>();
    assert!(has_header_prefix(&chars("WEBVTT")));
    assert!(has_header_prefix(&chars("Kind:")));
    assert!(has_header_prefix(&chars("Language: de")));
    assert!(!has_header_prefix(&chars("WEBVT")));
    assert!(!has_header_prefix(&chars(" WEBVTT")));
    assert!(!has_header_prefix(&chars("Kind")));
    assert!(!has_header_prefix(&chars("")));
}

#[test]
fn range_from_captures_wants_exactly_two_groups() {
    let s = |t: &str| Some(t.to_string());
    assert_eq!(range_from_captures(None), None);
    assert_eq!(range_from_captures(Some(vec![])), None);
    assert_eq!(
        range_from_captures(Some(vec![s("a --> b"), s("a"), s("b")])),
        Some(("a".to_string(), "b".to_string()))
    );
    assert_eq!(range_from_captures(Some(vec![s("a --> b"), None, s("b")])), None);
    assert_eq!(range_from_captures(Some(vec![s("a --> b"), s("a"), None])), None);
    assert_eq!(range_from_captures(Some(vec![s("a"), s("a")])), None);
    assert_eq!(range_from_captures(Some(vec![s("a"), s("a"), s("b"), s("c")])), None);
}

#[test]
fn parser_text_before_any_range_is_dropped() {
    assert_eq!(run(vec![text("stray"), Line::Blank, text("more")]), vec![]);
    assert_eq!(run(vec![]), vec![]);
}

#[test]
fn parser_joins_texts_with_single_spaces() {
    let got = run(vec![
        range("00:01.000", "00:02.500"),
        text("a"),
        Line::Skipped,
        text("b  "),
        text("c"),
    ]);
    assert_eq!(got, vec![segment(0, "a b   c", 1_000, 2_500)]);
}

#[test]
fn parser_closes_on_blank_and_on_range() {
    let got = run(vec![
        range("00:01.000", "00:02.000"),
        text("one"),
        Line::Blank,
        text("dropped"),
        range("00:03.000", "00:04.000"),
        range("00:05.000", "00:06.000"),
        text("two"),
        range("bad", "00:07.000"),
        text("three"),
    ]);
    assert_eq!(
        got,
        vec![
            segment(0, "one", 1_000, 2_000),
            segment(1, "two", 5_000, 6_000),
            segment(2, "three", 0, 7_000),
        ]
    );
}

#[test]
fn parser_whitespace_only_text_gives_no_segment() {
    let got = run(vec![range("00:01.000", "00:02.000"), text(" "), text("\t")]);
    assert_eq!(got, vec![]);
}

#[test]
fn a_long_file() {
    let mut markup = String::from("WEBVTT\nKind: captions\nLanguage: en\n\n");
    for i in 0..2000u64 {
        let (m, s) = (i / 60, i % 60);
        markup.push_str(&format!(
            "00:{:02}:{:02}.000 --> 00:{:02}:{:02}.500 align:start\nline <c>{}</c>\n\n",
            m, s, m, s, i
        ));
    }
    let got = parse_vtt(&markup);
    assert_eq!(got.len(), 2000);
    assert_eq!(got[1999], segment(1999, "line 1999", 1_999_000, 1_999_500));
}

#[test]
fn find_time_range_takes_the_first_match() {
    let reader = LineReader::new();
    assert_eq!(
        reader.find_time_range("00:01.000 --> 00:02.000 and 00:03.000 --> 00:04.000"),
        Some(("00:01.000".to_string(), "00:02.000".to_string()))
    );
    assert_eq!(
        reader.find_time_range("123:45.678 --> 1:00:00.000"),
        Some(("23:45.678".to_string(), "1:00:00.000".to_string()))
    );
    assert_eq!(reader.find_time_range("00:01.00 --> 00:02.000"), None);
    assert_eq!(reader.find_time_range("00:01,000 --> 00:02,000"), None);
    assert_eq!(reader.find_time_range(""), None);
}
