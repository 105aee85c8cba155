use pattern_scan::{scan, scan_pattern, Error, Pattern, PatternByte};

const SAMPLE: [u8; 11] = [0x10, 0x20, 0x30, 0x40, 0x10, 0x20, 0x50, 0x50, 0x90, 0x90, 0x80];

fn compile(text: &str) -> Pattern {
    Pattern::from_str(text).unwrap()
}

fn failure_message(text: &str) -> String {
    Pattern::from_str(text).unwrap_err().message().to_string()
}

#[test]
fn sample_wildcard_in_middle() {
    assert_eq!(scan(&SAMPLE, "90 ? 80").unwrap(), Some(vec![8]));
}

#[test]
fn pattern_longer_than_buffer() {
    assert_eq!(scan(&[0x10, 0x20], "10 20 30").unwrap(), None);
}

#[test]
fn empty_buffer_single_wildcard() {
    assert_eq!(scan(&[], "?").unwrap(), None);
}

#[test]
fn repeated_prefix_matches_twice() {
    assert_eq!(scan(&SAMPLE, "10 20").unwrap(), Some(vec![0, 4]));
}

#[test]
fn overlapping_matches_all_reported() {
    assert_eq!(scan(&[0xaa, 0xaa, 0xaa, 0xaa], "aa aa").unwrap(), Some(vec![0, 1, 2]));
}

#[test]
fn absent_byte_gives_none() {
    assert_eq!(scan(&SAMPLE, "ff").unwrap(), None);
}

#[test]
fn match_at_last_offset() {
    assert_eq!(scan(&SAMPLE, "80").unwrap(), Some(vec![10]));
}

#[test]
fn pattern_equal_to_buffer() {
    assert_eq!(scan(&SAMPLE, "10 20 30 40 10 20 50 50 90 90 80").unwrap(), Some(vec![0]));
}

#[test]
fn offsets_fit_in_buffer_and_ascend() {
    let p = compile("? 20 ?");
    let offsets = scan_pattern(&SAMPLE, &p).unwrap();
    assert_eq!(offsets, vec![0, 4]);
    for w in offsets.windows(2) {
        assert!(w[0] < w[1]);
    }
    for &i in &offsets {
        assert!(i + p.len() <= SAMPLE.len());
    }
}

#[test]
fn compile_twice_gives_equal_patterns() {
    let a = compile("90 ? 80");
    let b = compile("90 ? 80");
    assert_eq!(a, b);
    assert_eq!(a.tokens(), &[PatternByte::Byte(0x90), PatternByte::Any, PatternByte::Byte(0x80)]);
}

#[test]
fn scan_twice_gives_equal_results() {
    let p = compile("50 ?");
    assert_eq!(scan_pattern(&SAMPLE, &p), scan_pattern(&SAMPLE, &p));
    assert_eq!(scan(&SAMPLE, "50 ?").unwrap(), scan(&SAMPLE, "50 ?").unwrap());
}

#[test]
fn wildcards_match_every_fitting_offset() {
    assert_eq!(scan(&SAMPLE, "? ? ?").unwrap(), Some((0..9).collect::<Vec<usize>>()));
    assert_eq!(scan(&SAMPLE, "?").unwrap(), Some((0..11).collect::<Vec<usize>>()));
    assert_eq!(scan(&[7], "?").unwrap(), Some(vec![0]));
}

#[test]
fn empty_buffer_multi_byte_pattern() {
    assert_eq!(scan(&[], "10 20").unwrap(), None);
}

#[test]
fn invalid_hex_rejected() {
    assert_eq!(failure_message("gg"), "invalid token `gg`: invalid hex digit");
    assert!(scan(&SAMPLE, "gg").is_err());
}

#[test]
fn out_of_range_rejected() {
    assert_eq!(failure_message("100"), "invalid token `100`: more than two hex digits");
    assert!(scan(&SAMPLE, "100").is_err());
}

#[test]
fn double_question_mark_rejected() {
    assert_eq!(failure_message("a b ?? c"), "invalid token `??`: invalid hex digit");
}

#[test]
fn first_invalid_segment_reported() {
    assert_eq!(failure_message("10 zz 123"), "invalid token `zz`: invalid hex digit");
    assert_eq!(scan(&SAMPLE, "10 zz 123").unwrap_err().message(), "invalid token `zz`: invalid hex digit");
}

#[test]
fn signs_and_leading_zeros_rejected() {
    assert!(Pattern::from_str("+f").is_err());
    assert!(Pattern::from_str("0ff").is_err());
    assert!(Pattern::from_str("-1").is_err());
}

#[test]
fn whitespace_is_insignificant() {
    let p = compile("  \t90\n?\r\n  80 ");
    assert_eq!(p, compile("90 ? 80"));
    assert_eq!(p.len(), 3);
}

#[test]
fn hex_digits_case_insensitive() {
    assert_eq!(compile("aB Cd f 0").tokens(), &[
        PatternByte::Byte(0xab),
        PatternByte::Byte(0xcd),
        PatternByte::Byte(0x0f),
        PatternByte::Byte(0x00),
    ]);
}

#[test]
fn empty_text_gives_empty_pattern() {
    let p = compile(" \t ");
    assert_eq!(p.len(), 0);
    assert_eq!(scan_pattern(&[1, 2, 3], &p), Some(vec![0, 1, 2]));
    assert_eq!(scan_pattern(&[], &p), None);
}

#[test]
fn segment_tokens() {
    assert_eq!(PatternByte::from_str("?").unwrap(), PatternByte::Any);
    assert_eq!(PatternByte::from_str("7").unwrap(), PatternByte::Byte(7));
    assert_eq!(PatternByte::from_str("FF").unwrap(), PatternByte::Byte(255));
    assert_eq!(PatternByte::from_str("").unwrap_err().message(), "invalid token ``: empty segment");
    assert_eq!(PatternByte::from_str("é").unwrap_err().message(), "invalid token `é`: invalid hex digit");
}

#[test]
fn token_matching() {
    assert!(PatternByte::Any.matches(0x42));
    assert!(PatternByte::Byte(0x42).matches(0x42));
    assert!(!PatternByte::Byte(0x42).matches(0x43));
}

#[test]
fn built_pattern_scans() {
    let p = Pattern::new(vec![PatternByte::Byte(0x50), PatternByte::Byte(0x90)]);
    assert_eq!(p.len(), 2);
    assert_eq!(scan_pattern(&SAMPLE, &p), Some(vec![7]));
}

#[test]
fn error_keeps_message() {
    let e = Error::new(String::from("bad"));
    assert_eq!(e.message(), "bad");
}
