use hls_rs::prompt::{menu, parse_choice, read_answer, Answer};
use hls_rs::streams::StreamResult;

#[test]
fn menu_lists_positions_and_codecs() {
    let streams: Vec<StreamResult> = ["h264", "hevc", "vp9"]
        .iter()
        .enumerate()
        .map(|(i, name)| StreamResult {
            index: 10 + i,
            codec_name: name.to_string(),
            codec_type: "video".to_string(),
        })
        .collect();
    assert_eq!(
        menu("video", &streams),
        vec!["select video track:", "0: h264", "1: hevc", "2: vp9"]
    );
    assert_eq!(menu("subs", &Vec::new()), vec!["select subs track:"]);
}

#[test]
fn menu_counts_past_nine() {
    let streams: Vec<StreamResult> = (0..12)
        .map(|i| StreamResult {
            index: i,
            codec_name: "aac".to_string(),
            codec_type: "audio".to_string(),
        })
        .collect();
    let lines = menu("audio", &streams);
    assert_eq!(lines.len(), 13);
    assert_eq!(lines[10], "9: aac");
    assert_eq!(lines[11], "10: aac");
    assert_eq!(lines[12], "11: aac");
}

#[test]
fn choice_is_a_number_between_white_space() {
    assert_eq!(parse_choice("0"), Some(0));
    assert_eq!(parse_choice("2\n"), Some(2));
    assert_eq!(parse_choice("  17\r\n"), Some(17));
    assert_eq!(parse_choice("\t007 "), Some(7));
    assert_eq!(parse_choice("+5"), Some(5));
    assert_eq!(parse_choice("\u{a0}12\u{3000}"), Some(12));
    assert_eq!(parse_choice(&usize::MAX.to_string()), Some(usize::MAX));
}

#[test]
fn choice_is_none_for_anything_else() {
    for line in [
        "", "\n", "   ", "abc", "1a", "a1", "1 2", "-1", "+", "+-1", "++1", "1+", "1.0", "0x10",
        "٣", "1\u{200b}", "18446744073709551616", "99999999999999999999999999",
        "184467440737095516150",
    ] {
        assert_eq!(parse_choice(line), None, "{:?}", line);
    }
}

#[test]
fn choice_agrees_with_trimmed_parsing() {
    for line in [
        "3", " 3", "3 ", "+3\n", "03", "x", "", " ", "3 3", "-3", "+ 3", "\u{2028}4\u{85}",
        "4\u{feff}", "\u{1680}5", "18446744073709551615", "18446744073709551616",
    ] {
        assert_eq!(parse_choice(line), line.trim().parse::<usize>().ok(), "{:?}", line);
    }
}

#[test]
fn answers_are_held_against_the_bucket() {
    assert_eq!(read_answer("1\n", 2), Answer::Picked(1));
    assert_eq!(read_answer("0", 1), Answer::Picked(0));
    assert_eq!(read_answer("5\n", 2), Answer::OutOfRange(5));
    assert_eq!(read_answer("2", 2), Answer::OutOfRange(2));
    assert_eq!(read_answer("0", 0), Answer::OutOfRange(0));
    assert_eq!(read_answer("one\n", 2), Answer::NotANumber);
    assert_eq!(read_answer("", 2), Answer::NotANumber);
    assert_eq!(read_answer("-1", 2), Answer::NotANumber);
}
