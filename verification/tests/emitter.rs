use hashindex_rs::emitter::format_record;
use hashindex_rs::text::dec_string;
use hashindex_rs::text::hex_string;

#[test]
fn record_line_layout() {
    let digests = vec!["D1".to_string(), "D2".to_string()];
    let line = format_record(
        &"label".to_string(),
        &",".to_string(),
        &digests,
        5,
        &"a/b".to_string(),
    );
    assert_eq!(line, "label,D1,D2,5,\"a/b\"".to_string());
}

#[test]
fn record_line_with_no_digests() {
    let digests: Vec<String> = Vec::new();
    let line = format_record(
        &"L".to_string(),
        &",".to_string(),
        &digests,
        0,
        &"p".to_string(),
    );
    assert_eq!(line, "L,,0,\"p\"".to_string());
}

#[test]
fn record_line_with_wide_delimiter() {
    let digests = vec!["X".to_string()];
    let line = format_record(
        &"L".to_string(),
        &" | ".to_string(),
        &digests,
        7,
        &"p".to_string(),
    );
    assert_eq!(line, "L | X | 7 | \"p\"".to_string());
}

#[test]
fn path_quoting_escapes_quotes_and_backslashes() {
    let digests = vec!["D".to_string()];
    let line = format_record(
        &"L".to_string(),
        &",".to_string(),
        &digests,
        1,
        &"a\"b\\c".to_string(),
    );
    assert_eq!(line, "L,D,1,\"a\\\"b\\\\c\"".to_string());
}

#[test]
fn path_containing_delimiter_stays_parseable() {
    let digests = vec!["D".to_string()];
    let line = format_record(
        &"L".to_string(),
        &",".to_string(),
        &digests,
        1,
        &"a,b".to_string(),
    );
    assert_eq!(line, "L,D,1,\"a,b\"".to_string());
}

#[test]
fn decimal_rendering() {
    assert_eq!(dec_string(0), "0".to_string());
    assert_eq!(dec_string(10), "10".to_string());
    assert_eq!(dec_string(1234567890), "1234567890".to_string());
    assert_eq!(dec_string(u64::MAX), "18446744073709551615".to_string());
}

#[test]
fn hex_rendering_is_fixed_width_uppercase() {
    assert_eq!(hex_string(255, 16), "00000000000000FF".to_string());
    assert_eq!(hex_string(0, 32), "00000000000000000000000000000000".to_string());
    assert_eq!(hex_string(0xDEADBEEF, 16), "00000000DEADBEEF".to_string());
}
