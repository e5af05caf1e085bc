//! End-to-end behaviour of the log-line parser.

use loglines::{parse, StructuredRecord};

fn s(t: &str) -> Option<String> {
    Some(t.to_string())
}

#[test]
fn primary_line_with_field() {
    let line = "[2021-01-01T00:00:00Z] I [file.c:10] core: started\tpid=123";
    let r = parse(line);
    assert!(r.known_format);
    assert_eq!(r.ts, s("2021-01-01T00:00:00Z"));
    assert_eq!(r.log_level, s("I"));
    assert_eq!(r.msg_id, None);
    assert_eq!(r.file_info, s("file.c:10"));
    assert_eq!(r.domain, s("core"));
    assert_eq!(r.message, s("started"));
    assert_eq!(r.fields, Some(vec![("pid".to_string(), "123".to_string())]));
    assert_eq!(r.repetitions, None);
    assert_eq!(r.ts_beg, None);
    assert_eq!(r.ts_end, None);
    assert_eq!(r.parse_error, None);
}

#[test]
fn repeat_line_with_quoted_timestamp() {
    let line = "The message \"[2021-01-01T00:00:00Z] E [a.c:1] x: boom\" repeated 5 times between [2021-01-01T00:00:00Z] and [2021-01-01T00:05:00Z]";
    let r = parse(line);
    assert!(r.known_format);
    assert_eq!(r.ts, s("2021-01-01T00:00:00Z"));
    assert_eq!(r.log_level, s("E"));
    assert_eq!(r.file_info, s("a.c:1"));
    assert_eq!(r.domain, s("x"));
    assert_eq!(r.message, s("boom"));
    assert_eq!(r.fields, None);
    assert_eq!(r.repetitions, Some(5));
    assert_eq!(r.ts_beg, s("2021-01-01T00:00:00Z"));
    assert_eq!(r.ts_end, s("2021-01-01T00:05:00Z"));
    assert_eq!(r.parse_error, None);
}

#[test]
fn repeat_line_without_quoted_timestamp() {
    let line = "The message \"E [a.c:1] x: boom\" repeated 2 times between [t1] and [t2]";
    let r = parse(line);
    assert!(r.known_format);
    assert_eq!(r.ts, None);
    assert_eq!(r.log_level, s("E"));
    assert_eq!(r.message, s("boom"));
    assert_eq!(r.repetitions, Some(2));
    assert_eq!(r.ts_beg, s("t1"));
    assert_eq!(r.ts_end, s("t2"));
}

#[test]
fn no_leading_timestamp_is_fallback() {
    let line = "plain text with no bracketed timestamp";
    let r = parse(line);
    assert!(!r.known_format);
    assert_eq!(r.message, s(line));
    assert_eq!(r.ts, None);
    assert_eq!(r.log_level, None);
    assert_eq!(r.fields, None);
    assert_eq!(r.parse_error, s("format mismatch"));
}

#[test]
fn non_numeric_repetitions_is_strict_error() {
    let line = "The message \"[t0] E [a.c:1] x: boom\" repeated abc times between [t1] and [t2]";
    let r = parse(line);
    assert!(!r.known_format);
    assert_eq!(r.repetitions, None);
    assert_eq!(
        r.parse_error,
        s("repetitions value: invalid digit found in string")
    );
    // the whole original line replaces the parsed message
    assert_eq!(r.message, s(line));
    // captures materialized before the count are kept as partial output
    assert_eq!(r.ts, s("t0"));
    assert_eq!(r.log_level, s("E"));
    assert_eq!(r.domain, s("x"));
    // captures that come after the count are not
    assert_eq!(r.ts_beg, None);
    assert_eq!(r.ts_end, None);
}

#[test]
fn overflowing_repetitions_is_strict_error() {
    let line = "The message \"E [a.c:1] x: boom\" repeated 99999999999 times between [t1] and [t2]";
    let r = parse(line);
    assert!(!r.known_format);
    assert_eq!(r.repetitions, None);
    assert_eq!(
        r.parse_error,
        s("repetitions value: number too large to fit in target type")
    );
}

#[test]
fn repetition_error_keeps_fields() {
    let line =
        "The message \"E [a.c:1] x: boom\tk=v\" repeated abc times between [t1] and [t2]";
    let r = parse(line);
    assert!(!r.known_format);
    assert_eq!(r.fields, Some(vec![("k".to_string(), "v".to_string())]));
    assert_eq!(r.repetitions, None);
    assert_eq!(r.message, s(line));
}

#[test]
fn missing_field_value_is_strict_error() {
    let line = "[t0] I [f.c:1] d: msg\tkey";
    let r = parse(line);
    assert!(!r.known_format);
    assert_eq!(r.parse_error, s("fields::key: missing value"));
    assert_eq!(r.message, s(line));
    assert_eq!(r.fields, None);
    // captures materialized before the body are kept
    assert_eq!(r.ts, s("t0"));
    assert_eq!(r.log_level, s("I"));
    assert_eq!(r.file_info, s("f.c:1"));
    assert_eq!(r.domain, s("d"));
}

#[test]
fn trailing_tab_reports_empty_key() {
    let line = "[t0] I [f.c:1] d: msg\t";
    let r = parse(line);
    assert!(!r.known_format);
    assert_eq!(r.parse_error, s("fields::: missing value"));
}

#[test]
fn message_id_group_is_captured() {
    let line = "[t0] I [MSGID: 101] [f.c:1] d: hello";
    let r = parse(line);
    assert!(r.known_format);
    assert_eq!(r.msg_id, s("101"));
    assert_eq!(r.file_info, s("f.c:1"));
    assert_eq!(r.domain, s("d"));
    assert_eq!(r.message, s("hello"));
}

#[test]
fn message_id_in_repeat_quotes_is_captured() {
    let line =
        "The message \"[t0] W [MSGID: 9] [f.c:2] net: down\" repeated 12 times between [a] and [b]";
    let r = parse(line);
    assert!(r.known_format);
    assert_eq!(r.ts, s("t0"));
    assert_eq!(r.msg_id, s("9"));
    assert_eq!(r.file_info, s("f.c:2"));
    assert_eq!(r.domain, s("net"));
    assert_eq!(r.message, s("down"));
    assert_eq!(r.repetitions, Some(12));
}

#[test]
fn message_id_group_falls_back_when_rest_mismatches() {
    // the id group itself matches, but no bracketed file info follows it,
    // so the line is re-read without the optional group
    let r = parse("[t0] I [MSGID: 7] oops: m");
    assert!(r.known_format);
    assert_eq!(r.msg_id, None);
    assert_eq!(r.file_info, s("MSGID: 7"));
    assert_eq!(r.domain, s("oops"));
    assert_eq!(r.message, s("m"));
}

#[test]
fn message_id_without_space_is_no_match() {
    // without its inner space the group is read as file info, and the
    // colon inside the next bracket breaks the domain capture
    let r = parse("[t0] I [MSGID:7] [f.c:1] d: m");
    assert!(!r.known_format);
    assert_eq!(r.parse_error, s("format mismatch"));
}

#[test]
fn absent_message_id_is_omitted() {
    let r = parse("[t0] W [f.c:2] net: link down");
    assert!(r.known_format);
    assert_eq!(r.msg_id, None);
    assert_eq!(r.log_level, s("W"));
    assert_eq!(r.message, s("link down"));
}

#[test]
fn equals_in_value_splits_once() {
    let r = parse("[t0] I [f.c:1] d: m\ta=b=c");
    assert!(r.known_format);
    assert_eq!(r.fields, Some(vec![("a".to_string(), "b=c".to_string())]));
}

#[test]
fn duplicate_key_keeps_position_and_last_value() {
    let r = parse("[t0] I [f.c:1] d: m\ta=1\tb=2\ta=3");
    assert!(r.known_format);
    assert_eq!(
        r.fields,
        Some(vec![
            ("a".to_string(), "3".to_string()),
            ("b".to_string(), "2".to_string())
        ])
    );
}

#[test]
fn empty_line_is_fallback() {
    let r = parse("");
    assert!(!r.known_format);
    assert_eq!(r.message, s(""));
    assert_eq!(r.parse_error, s("format mismatch"));
}

#[test]
fn whitespace_line_is_fallback() {
    let r = parse("   ");
    assert!(!r.known_format);
    assert_eq!(r.message, s("   "));
}

#[test]
fn unknown_level_letter_is_fallback() {
    let r = parse("[t0] X [f.c:1] d: m");
    assert!(!r.known_format);
    assert_eq!(r.message, s("[t0] X [f.c:1] d: m"));
}

#[test]
fn parse_is_idempotent() {
    let line = "[2021-01-01T00:00:00Z] I [file.c:10] core: started\tpid=123";
    let first: StructuredRecord = parse(line);
    let second: StructuredRecord = parse(line);
    assert_eq!(first, second);
    let odd = "The message \"E [a.c:1] x: boom\" repeated abc times between [t1] and [t2]";
    assert_eq!(parse(odd), parse(odd));
}
