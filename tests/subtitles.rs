use myy_player::embedded::SubtitleRect;
use myy_player::media::{PlayerError, SubtitleFrame};
use myy_player::subtitle::{ExternalSubtitleParser, SubtitleFormat};

#[test]
fn test_parse_srt_timestamp() {
    assert_eq!(ExternalSubtitleParser::parse_srt_timestamp("00:01:30,500"), Some(90500));
    assert_eq!(ExternalSubtitleParser::parse_srt_timestamp("01:23:45,123"), Some(5025123));
}

#[test]
fn test_parse_ass_timestamp() {
    assert_eq!(ExternalSubtitleParser::parse_ass_timestamp("0:01:30.50"), Some(90500));
    assert_eq!(ExternalSubtitleParser::parse_ass_timestamp("1:23:45.12"), Some(5025120));
}

#[test]
fn test_clean_ass_text() {
    assert_eq!(ExternalSubtitleParser::clean_ass_text("{\\b1}Hello{\\b0} World"), "Hello World");
    assert_eq!(ExternalSubtitleParser::clean_ass_text("Line 1\\NLine 2"), "Line 1\nLine 2");
}

#[test]
fn timestamps_reject_malformed_input() {
    assert_eq!(ExternalSubtitleParser::parse_srt_timestamp("00:01:30.500"), None);
    assert_eq!(ExternalSubtitleParser::parse_srt_timestamp("01:30,500"), None);
    assert_eq!(ExternalSubtitleParser::parse_srt_timestamp("aa:01:30,500"), None);
    assert_eq!(ExternalSubtitleParser::parse_srt_timestamp(""), None);
    assert_eq!(ExternalSubtitleParser::parse_ass_timestamp("0:01:30,50"), None);
}

#[test]
fn vtt_timestamps_take_both_forms() {
    assert_eq!(ExternalSubtitleParser::parse_vtt_timestamp("00:01:30.500"), Some(90500));
    assert_eq!(ExternalSubtitleParser::parse_vtt_timestamp("01:30.500"), Some(90500));
    assert_eq!(ExternalSubtitleParser::parse_vtt_timestamp("1.5.0"), None);
}

#[test]
fn time_lines_need_exactly_one_arrow() {
    assert_eq!(
        ExternalSubtitleParser::parse_srt_time_line("00:00:01,000 --> 00:00:02,500"),
        Some((1000, 2500))
    );
    assert_eq!(ExternalSubtitleParser::parse_srt_time_line("00:00:01,000 00:00:02,500"), None);
    assert_eq!(
        ExternalSubtitleParser::parse_srt_time_line("00:00:01,000 --> 00:00:02,500 --> x"),
        None
    );
    assert_eq!(
        ExternalSubtitleParser::parse_vtt_time_line("01:00.000 --> 01:02.000"),
        Some((60000, 62000))
    );
}

#[test]
fn srt_file_parses_into_cues() {
    let srt = "1\n00:00:10,000 --> 00:00:12,000\nHello\nWorld\n\n2\r\n00:00:13,000 --> 00:00:14,500\r\n  Bye  \r\n";
    let cues = ExternalSubtitleParser::parse_srt(srt).unwrap();
    assert_eq!(cues.len(), 2);
    assert_eq!(cues[0].pts, 10000);
    assert_eq!(cues[0].end_pts, 12000);
    assert_eq!(cues[0].duration, 2000);
    assert_eq!(cues[0].text, "Hello\nWorld");
    assert_eq!(cues[1].text, "Bye");
    assert_eq!(cues[1].duration, 1500);
}

#[test]
fn srt_cue_without_text_is_dropped() {
    let srt = "1\n00:00:01,000 --> 00:00:02,000\n\n2\n00:00:03,000 --> 00:00:04,000\nText\n";
    let cues = ExternalSubtitleParser::parse_srt(srt).unwrap();
    assert_eq!(cues.len(), 1);
    assert_eq!(cues[0].pts, 3000);
}

#[test]
fn ass_file_parses_events_only() {
    let ass = "[Script Info]\nTitle: x\nDialogue: 0,0:00:01.00,0:00:02.00,Default,,0,0,0,,Not an event\n\n[events]\nFormat: Layer, Start, End, Style, Name, MarginL, MarginR, MarginV, Effect, Text\nDialogue: 0,0:00:05.00,0:00:06.50,Default,,0,0,0,,{\\an8\\pos(1,2)}Hi\\NThere\nDialogue: 0,0:00:07.00,0:00:08.00,Default,,0,0,0,,a, b, c\nDialogue: 0,0:00:09.00,0:00:10.00,Default,,0,0,0,,{\\b1}{\\b0}\n";
    let cues = ExternalSubtitleParser::parse_ass(ass).unwrap();
    assert_eq!(cues.len(), 2);
    assert_eq!(cues[0].pts, 5000);
    assert_eq!(cues[0].end_pts, 6500);
    assert_eq!(cues[0].text, "Hi\nThere");
    assert_eq!(cues[1].text, "a, b, c");
}

#[test]
fn vtt_file_skips_header_and_notes() {
    let vtt = "WEBVTT\n\nNOTE a comment\n\n1\n00:00:01.000 --> 00:00:02.000\n<i>Hi</i>\n\n00:01.500 --> 00:03.000\nSecond\n";
    let cues = ExternalSubtitleParser::parse_vtt(vtt).unwrap();
    assert_eq!(cues.len(), 2);
    assert_eq!(cues[0].pts, 1000);
    assert_eq!(cues[0].text, "<i>Hi</i>");
    assert_eq!(cues[1].pts, 1500);
    assert_eq!(cues[1].end_pts, 3000);
}

#[test]
fn content_dispatches_on_lowercased_extension() {
    let srt = "1\n00:00:01,000 --> 00:00:02,000\nA\n";
    let cues = ExternalSubtitleParser::parse_subtitle_content(srt, "SRT").unwrap();
    assert_eq!(cues.len(), 1);
    assert_eq!(cues[0].text, "A");
    match ExternalSubtitleParser::parse_subtitle_content(srt, "txt") {
        Err(PlayerError::UnsupportedFormat(ext)) => assert_eq!(ext, "txt"),
        other => panic!("unexpected {:?}", other),
    }
    assert_eq!(ExternalSubtitleParser::subtitle_format_of("ssa"), Some(SubtitleFormat::Ass));
    assert_eq!(ExternalSubtitleParser::subtitle_format_of("Ssa"), None);
}

#[test]
fn keywords_skip_noise_and_short_words() {
    let k = ExternalSubtitleParser::extract_keywords("The.Movie.2020.1080p.BluRay.x264-GRP");
    assert_eq!(k, vec!["The", "Movie", "2020", "GRP"]);
    let k = ExternalSubtitleParser::extract_keywords("a.b.Interstellar");
    assert_eq!(k, vec!["Interstellar", "a.b.Inters"]);
    let k = ExternalSubtitleParser::extract_keywords("ab");
    assert!(k.is_empty());
}

#[test]
fn fuzzy_match_needs_half_the_keywords() {
    let kw: Vec<String> = vec!["The".to_string(), "Movie".to_string(), "2020".to_string(), "GRP".to_string()];
    assert!(ExternalSubtitleParser::is_fuzzy_match("the.movie.chs.SRT", &kw));
    assert!(!ExternalSubtitleParser::is_fuzzy_match("the.other.srt", &kw));
    assert!(!ExternalSubtitleParser::is_fuzzy_match("the.movie.txt", &kw));
    assert_eq!(ExternalSubtitleParser::keyword_hits("the.movie.srt", &vec!["movie".to_string(), "x".to_string()]), 1);
    assert!(ExternalSubtitleParser::enough_hits(1, 0) == true);
    assert!(!ExternalSubtitleParser::enough_hits(0, 1));
}

#[test]
fn candidate_names_list_exact_then_tagged() {
    let names = ExternalSubtitleParser::candidate_names("video");
    assert_eq!(names.len(), 40);
    assert_eq!(names[0], "video.srt");
    assert_eq!(names[3], "video.vtt");
    assert_eq!(names[4], "video.zh.srt");
    assert_eq!(names[39], "video.chs-eng.vtt");
}

#[test]
fn embedded_cue_is_cleaned() {
    let rects = vec![SubtitleRect::Text("<i>Hello</i>\r\n\n  world ".to_string()), SubtitleRect::Bitmap];
    let cue = SubtitleFrame::from_decoded(1000, 0, &rects).unwrap();
    assert_eq!(cue.pts, 1000);
    assert_eq!(cue.duration, 3000);
    assert_eq!(cue.end_pts, 4000);
    assert_eq!(cue.text, "Hello\nworld");
    let rects = vec![SubtitleRect::Ass("{\\an8\\pos(1,2)}Hi\\NThere".to_string())];
    let cue = SubtitleFrame::from_decoded(5000, 1500, &rects).unwrap();
    assert_eq!(cue.text, "Hi\nThere");
    assert_eq!(cue.end_pts, 6500);
}

#[test]
fn cue_empty_after_tag_stripping_is_dropped() {
    let rects = vec![SubtitleRect::Ass("{\\an8}{\\b1}".to_string())];
    assert!(SubtitleFrame::from_decoded(0, 1000, &rects).is_none());
    let ass = "[Events]\nDialogue: 0,0:00:01.00,0:00:02.00,Default,,0,0,0,,{\\an8}\n";
    assert!(ExternalSubtitleParser::parse_ass(ass).unwrap().is_empty());
}

#[test]
fn clean_subtitle_text_handles_escapes() {
    assert_eq!(myy_player::embedded::clean_subtitle_text("a\\tb\\rc"), "a\tbc");
    assert_eq!(myy_player::embedded::clean_subtitle_text("1 < 2"), "1 < 2");
    assert_eq!(myy_player::embedded::clean_subtitle_text("<font color=\"red\">x</font>"), "x");
}

#[test]
fn srt_written_then_parsed_gives_same_cues() {
    let cues = vec![
        SubtitleFrame { pts: 10000, duration: 2000, text: "Hello\nWorld".to_string(), end_pts: 12000 },
        SubtitleFrame { pts: 3_723_456, duration: 1544, text: "Line, with comma".to_string(), end_pts: 3_725_000 },
    ];
    let text = myy_player::srt_write::to_srt(&cues);
    assert_eq!(
        text,
        "1\n00:00:10,000 --> 00:00:12,000\nHello\nWorld\n\n2\n01:02:03,456 --> 01:02:05,000\nLine, with comma\n\n"
    );
    let back = ExternalSubtitleParser::parse_srt(&text).unwrap();
    assert_eq!(back.len(), cues.len());
    for (a, b) in back.iter().zip(cues.iter()) {
        assert_eq!(a.pts, b.pts);
        assert_eq!(a.end_pts, b.end_pts);
        assert_eq!(a.duration, b.duration);
        assert_eq!(a.text, b.text);
    }
}
