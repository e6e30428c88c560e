use amd::checkpoint::{parse_checkpoints, parse_u64_bytes, render_checkpoints};

#[test]
fn parses_one_id_per_line() {
    let data = b"123\n456\n";
    assert_eq!(parse_checkpoints(data), vec![Some(123), Some(456)]);
}

#[test]
fn final_line_without_newline_counts() {
    let data = b"123\n45";
    assert_eq!(parse_checkpoints(data), vec![Some(123), Some(45)]);
}

#[test]
fn unparsable_lines_degrade_to_no_watermark() {
    let data = b"123\nnot-a-number\n77\n";
    assert_eq!(parse_checkpoints(data), vec![Some(123), None, Some(77)]);
}

#[test]
fn empty_file_holds_no_watermarks() {
    assert_eq!(parse_checkpoints(b""), vec![]);
}

#[test]
fn empty_line_is_no_watermark() {
    assert_eq!(parse_checkpoints(b"\n9\n"), vec![None, Some(9)]);
}

#[test]
fn carriage_returns_are_tolerated() {
    assert_eq!(parse_checkpoints(b"123\r\n456\r\n"), vec![Some(123), Some(456)]);
}

#[test]
fn largest_id_parses_and_overflow_does_not() {
    assert_eq!(parse_u64_bytes(b"18446744073709551615"), Some(u64::MAX));
    assert_eq!(parse_u64_bytes(b"18446744073709551616"), None);
    assert_eq!(parse_u64_bytes(b"99999999999999999999999"), None);
}

#[test]
fn signs_and_blanks_do_not_parse() {
    assert_eq!(parse_u64_bytes(b""), None);
    assert_eq!(parse_u64_bytes(b"+1"), None);
    assert_eq!(parse_u64_bytes(b"-1"), None);
    assert_eq!(parse_u64_bytes(b" 1"), None);
    assert_eq!(parse_u64_bytes(b"1 "), None);
    assert_eq!(parse_u64_bytes(b"0"), Some(0));
    assert_eq!(parse_u64_bytes(b"007"), Some(7));
}

#[test]
fn renders_one_line_per_id() {
    let ids = vec![7u64, 1225098248293716008];
    let bytes = render_checkpoints(&ids);
    assert_eq!(bytes, b"7\n1225098248293716008\n".to_vec());
}

#[test]
fn render_of_nothing_is_empty() {
    assert_eq!(render_checkpoints(&vec![]), Vec::<u8>::new());
}

#[test]
fn codec_round_trips() {
    let ids = vec![0u64, 1, 10, 999, u64::MAX];
    let bytes = render_checkpoints(&ids);
    let back = parse_checkpoints(bytes.as_slice());
    let expected: Vec<Option<u64>> = ids.iter().map(|&id| Some(id)).collect();
    assert_eq!(back, expected);
}
