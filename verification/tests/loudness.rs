use kasetophono::loudness::{find_char, loudness_report};
use kasetophono::text::find;

fn chars(s: &str) -> Vec<char> {
    s.chars().collect()
}

#[test]
fn the_report_stands_behind_the_line_of_the_filter() {
    let log = "ffmpeg version 4.1\n  Stream #0:0: Audio: mp3\n\
               [Parsed_loudnorm_0 @ 0x55d0c8c0bd40] \n\
               {\n\t\"input_i\" : \"-14.01\",\r\n\t\"input_tp\" : \"-0.21\"\n}\n";
    assert_eq!(loudness_report(log), "{\t\"input_i\" : \"-14.01\",\t\"input_tp\" : \"-0.21\"}");
}

#[test]
fn only_the_first_line_of_the_filter_counts() {
    let log = "a Parsed_loudnorm b Parsed_loudnorm\nfirst\nParsed_loudnorm again\nlast";
    assert_eq!(loudness_report(log), "firstParsed_loudnorm againlast");
}

#[test]
fn a_log_without_a_report() {
    assert_eq!(loudness_report(""), "");
    assert_eq!(loudness_report("nothing\nof the kind\n"), "");
    assert_eq!(loudness_report("[Parsed_loudnorm_0 @ 0x1]"), "");
    assert_eq!(loudness_report("[Parsed_loudnorm_0 @ 0x1]\n"), "");
    assert_eq!(loudness_report("Parsed_loudnor\nm"), "");
}

#[test]
fn carriage_returns_go_only_with_a_line_feed() {
    assert_eq!(loudness_report("Parsed_loudnorm\r\na\r\r\nb\rc\r"), "a\rb\rc\r");
    assert_eq!(loudness_report("Parsed_loudnorm\n\n\r\n\nx"), "x");
    let rest = "a\r\r\nb\rc\r";
    assert_eq!(loudness_report(&format!("Parsed_loudnorm\n{}", rest)), rest.lines().collect::<String>());
}

#[test]
fn first_places() {
    assert_eq!(find(&chars("abcabc"), &chars("bc")), Some(1));
    assert_eq!(find(&chars("abcabc"), &chars("")), Some(0));
    assert_eq!(find(&chars("abcabc"), &chars("cb")), None);
    assert_eq!(find(&chars(""), &chars("")), Some(0));
    assert_eq!(find(&chars(""), &chars("a")), None);
    assert_eq!(find_char(&chars("a\nb\n"), '\n', 0), 1);
    assert_eq!(find_char(&chars("a\nb\n"), '\n', 1), 1);
    assert_eq!(find_char(&chars("a\nb\n"), '\n', 2), 3);
    assert_eq!(find_char(&chars("a\nb\n"), '\n', 4), 4);
    assert_eq!(find_char(&chars("a\nb\n"), '\n', 9), 4);
    assert_eq!(find_char(&chars("ab"), '\n', 0), 2);
}
